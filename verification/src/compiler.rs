//! The schema compiler front end: a single-pass-per-construct text
//! transform that extracts `enum`, `flags` and `struct` declarations from
//! schema text and renders one compilation unit per declaration.

use vstd::prelude::*;
use vstd::string::StringSliceAdditionalSpecFns;

verus! {

/// A word character of the schema grammar: letters, digits, underscore.
pub open spec fn is_word_char(c: char) -> bool {
    ('a' <= c && c <= 'z') || ('A' <= c && c <= 'Z') || ('0' <= c && c <= '9') || c == '_'
}

/// A whitespace character of the schema grammar.
pub open spec fn is_space_char(c: char) -> bool {
    c == ' ' || c == '\t' || c == '\n' || c == '\r' || c == '\u{b}' || c == '\u{c}'
}

fn word_char(c: char) -> (r: bool)
    ensures
        r == is_word_char(c),
{
    ('a' <= c && c <= 'z') || ('A' <= c && c <= 'Z') || ('0' <= c && c <= '9') || c == '_'
}

fn space_char(c: char) -> (r: bool)
    ensures
        r == is_space_char(c),
{
    c == ' ' || c == '\t' || c == '\n' || c == '\r' || c == '\u{b}' || c == '\u{c}'
}

/// A sequence with its leading whitespace dropped.
pub open spec fn drop_leading(s: Seq<char>) -> Seq<char>
    decreases s.len(),
{
    if s.len() > 0 && is_space_char(s[0]) {
        drop_leading(s.drop_first())
    } else {
        s
    }
}

/// A sequence with its trailing whitespace dropped.
pub open spec fn drop_trailing(s: Seq<char>) -> Seq<char>
    decreases s.len(),
{
    if s.len() > 0 && is_space_char(s.last()) {
        drop_trailing(s.drop_last())
    } else {
        s
    }
}

/// A line with whitespace trimmed from both ends.
pub open spec fn spec_trim(s: Seq<char>) -> Seq<char> {
    drop_trailing(drop_leading(s))
}

/// A sequence with its trailing semicolons dropped.
pub open spec fn drop_semis(s: Seq<char>) -> Seq<char>
    decreases s.len(),
{
    if s.len() > 0 && s.last() == ';' {
        drop_semis(s.drop_last())
    } else {
        s
    }
}

proof fn lemma_drop_leading_at(s: Seq<char>, a: int)
    requires
        0 <= a <= s.len(),
        forall|k: int| 0 <= k < a ==> is_space_char(#[trigger] s[k]),
        a < s.len() ==> !is_space_char(s[a]),
    ensures
        drop_leading(s) == s.subrange(a, s.len() as int),
    decreases a,
{
    if a == 0 {
        if s.len() > 0 && is_space_char(s[0]) {
            assert(false);
        }
        assert(drop_leading(s) =~~= s.subrange(0, s.len() as int));
    } else {
        let t = s.drop_first();
        assert(forall|k: int| 0 <= k < a - 1 ==> is_space_char(#[trigger] t[k]));
        lemma_drop_leading_at(t, a - 1);
        assert(t.subrange(a - 1, t.len() as int) =~~= s.subrange(a, s.len() as int));
    }
}

proof fn lemma_drop_trailing_at(s: Seq<char>, b: int)
    requires
        0 <= b <= s.len(),
        forall|k: int| b <= k < s.len() ==> is_space_char(#[trigger] s[k]),
        b > 0 ==> !is_space_char(s[b - 1]),
    ensures
        drop_trailing(s) == s.subrange(0, b),
    decreases s.len() - b,
{
    if b == s.len() {
        if s.len() > 0 && is_space_char(s.last()) {
            assert(false);
        }
        assert(drop_trailing(s) =~~= s.subrange(0, b));
    } else {
        let t = s.drop_last();
        assert(forall|k: int| b <= k < t.len() ==> is_space_char(#[trigger] t[k]));
        lemma_drop_trailing_at(t, b);
        assert(t.subrange(0, b) =~~= s.subrange(0, b));
    }
}

proof fn lemma_drop_semis_at(s: Seq<char>, b: int)
    requires
        0 <= b <= s.len(),
        forall|k: int| b <= k < s.len() ==> #[trigger] s[k] == ';',
        b > 0 ==> s[b - 1] != ';',
    ensures
        drop_semis(s) == s.subrange(0, b),
    decreases s.len() - b,
{
    if b == s.len() {
        if s.len() > 0 && s.last() == ';' {
            assert(false);
        }
        assert(drop_semis(s) =~~= s.subrange(0, b));
    } else {
        let t = s.drop_last();
        assert(forall|k: int| b <= k < t.len() ==> #[trigger] t[k] == ';');
        lemma_drop_semis_at(t, b);
        assert(t.subrange(0, b) =~~= s.subrange(0, b));
    }
}

/// Copy a slice of characters.
fn chars_of(s: &[char], a: usize, b: usize) -> (r: Vec<char>)
    requires
        a <= b <= s@.len(),
    ensures
        r@ == s@.subrange(a as int, b as int),
{
    let mut out: Vec<char> = Vec::new();
    let mut i = a;
    while i < b
        invariant
            a <= i <= b <= s@.len(),
            out@ =~~= s@.subrange(a as int, i as int),
        decreases b - i,
    {
        let c = s[i];
        out.push(c);
        proof {
            assert(out@ =~~= s@.subrange(a as int, i + 1));
        }
        i = i + 1;
    }
    out
}

/// Trim whitespace from both ends of a character slice.
fn trim_chars(s: &[char]) -> (r: Vec<char>)
    ensures
        r@ == spec_trim(s@),
{
    let n = s.len();
    let mut a: usize = 0;
    while a < n && space_char(s[a])
        invariant
            0 <= a <= n,
            n == s@.len(),
            forall|k: int| 0 <= k < a ==> is_space_char(#[trigger] s@[k]),
        decreases n - a,
    {
        a = a + 1;
    }
    proof {
        lemma_drop_leading_at(s@, a as int);
    }
    let mut b: usize = n;
    while b > a && space_char(s[b - 1])
        invariant
            a <= b <= n,
            n == s@.len(),
            forall|k: int| b <= k < n ==> is_space_char(#[trigger] s@[k]),
        decreases b,
    {
        b = b - 1;
    }
    proof {
        let mid = s@.subrange(a as int, n as int);
        assert(forall|k: int| b - a <= k < mid.len() ==> is_space_char(#[trigger] mid[k]));
        lemma_drop_trailing_at(mid, b - a);
        assert(mid.subrange(0, b - a) =~~= s@.subrange(a as int, b as int));
    }
    chars_of(s, a, b)
}

/// Drop trailing semicolons from a character slice.
fn drop_semi_chars(s: &[char]) -> (r: Vec<char>)
    ensures
        r@ == drop_semis(s@),
{
    let n = s.len();
    let mut b: usize = n;
    while b > 0 && s[b - 1] == ';'
        invariant
            0 <= b <= n,
            n == s@.len(),
            forall|k: int| b <= k < n ==> #[trigger] s@[k] == ';',
        decreases b,
    {
        b = b - 1;
    }
    proof {
        lemma_drop_semis_at(s@, b as int);
    }
    chars_of(s, 0, b)
}

/// The input split at newlines, each line stripped of one trailing carriage
/// return; empty input has no lines.
pub open spec fn spec_lines(s: Seq<char>) -> Seq<Seq<char>>
    decreases s.len(),
{
    if s.len() == 0 {
        Seq::empty()
    } else {
        let e0 = first_newline(s);
        let e = if 0 <= e0 < s.len() {
            e0
        } else {
            s.len() as int
        };
        if e == s.len() {
            seq![strip_cr(s)]
        } else {
            seq![strip_cr(s.subrange(0, e))] + spec_lines(
                s.subrange(e + 1, s.len() as int),
            )
        }
    }
}

/// The index of the first newline, or the length when there is none.
pub open spec fn first_newline(s: Seq<char>) -> int
    decreases s.len(),
{
    if s.len() == 0 {
        0
    } else if s[0] == '\n' {
        0
    } else {
        1 + first_newline(s.drop_first())
    }
}

/// A line with one trailing carriage return stripped.
pub open spec fn strip_cr(s: Seq<char>) -> Seq<char> {
    if s.len() > 0 && s.last() == '\r' {
        s.drop_last()
    } else {
        s
    }
}

proof fn lemma_first_newline_at(s: Seq<char>, e: int)
    requires
        0 <= e <= s.len(),
        forall|k: int| 0 <= k < e ==> #[trigger] s[k] != '\n',
        e < s.len() ==> s[e] == '\n',
    ensures
        first_newline(s) == e,
    decreases e,
{
    if e == 0 {
    } else {
        let t = s.drop_first();
        assert(forall|k: int| 0 <= k < e - 1 ==> #[trigger] t[k] != '\n');
        lemma_first_newline_at(t, e - 1);
    }
}

/// Split a character slice into its lines.
fn split_line_chars(s: &[char]) -> (r: Vec<Vec<char>>)
    ensures
        r.deep_view() == spec_lines(s@),
{
    let n = s.len();
    let mut out: Vec<Vec<char>> = Vec::new();
    proof {
        assert(s@.subrange(0, n as int) =~~= s@);
        assert(out.deep_view() =~~= Seq::<Seq<char>>::empty());
        assert(out.deep_view() + spec_lines(s@) =~~= spec_lines(s@));
    }
    let mut start: usize = 0;
    let mut i: usize = 0;
    while i < n
        invariant
            0 <= start <= i <= n,
            n == s@.len(),
            forall|k: int| start <= k < i ==> #[trigger] s@[k] != '\n',
            spec_lines(s@) =~~= out.deep_view() + spec_lines(s@.subrange(start as int, n as int)),
        decreases n - i,
    {
        if s[i] == '\n' {
            let ghost rest = s@.subrange(start as int, n as int);
            proof {
                assert(rest.len() == n - start && rest.len() > 0);
                assert(forall|k: int|
                    0 <= k < i - start ==> #[trigger] rest[k] == s@[start + k] && rest[k] != '\n');
                assert(rest[i - start] == '\n');
                lemma_first_newline_at(rest, i - start);
                assert(first_newline(rest) == i - start);
                assert(rest.subrange(0, i - start) =~~= s@.subrange(start as int, i as int));
                assert(rest.subrange(i - start + 1, rest.len() as int) =~~= s@.subrange(
                    i + 1,
                    n as int,
                ));
            }
            let raw_end = if i > start && s[i - 1] == '\r' {
                i - 1
            } else {
                i
            };
            let line = chars_of(s, start, raw_end);
            let ghost out0 = out.deep_view();
            proof {
                assert(line@ =~~= strip_cr(s@.subrange(start as int, i as int)));
                assert(spec_lines(rest) =~~= seq![strip_cr(rest.subrange(0, i - start))]
                    + spec_lines(rest.subrange(i - start + 1, rest.len() as int)));
                assert(strip_cr(rest.subrange(0, i - start)) == line@);
            }
            out.push(line);
            proof {
                assert(out.deep_view() =~~= out0.push(line@));
                assert(out0 + (seq![line@] + spec_lines(s@.subrange(i + 1, n as int))) =~~=
                    out.deep_view() + spec_lines(s@.subrange(i + 1, n as int)));
                assert(spec_lines(s@) =~~= out.deep_view() + spec_lines(
                    s@.subrange(i + 1, n as int),
                ));
            }
            start = i + 1;
        }
        i = i + 1;
    }
    let ghost rest = s@.subrange(start as int, n as int);
    proof {
        assert(forall|k: int|
            0 <= k < rest.len() ==> #[trigger] rest[k] == s@[start + k] && rest[k] != '\n');
        lemma_first_newline_at(rest, rest.len() as int);
    }
    if start < n {
        let raw_end = if s[n - 1] == '\r' {
            n - 1
        } else {
            n
        };
        let line = chars_of(s, start, raw_end);
        let ghost out0 = out.deep_view();
        proof {
            assert(line@ =~~= strip_cr(rest));
            assert(spec_lines(rest) =~~= seq![strip_cr(rest)]);
        }
        out.push(line);
        proof {
            assert(out.deep_view() =~~= out0.push(line@));
            assert(out0 + seq![line@] =~~= out.deep_view());
        }
    } else {
        proof {
            assert(rest.len() == 0);
            assert(spec_lines(rest) =~~= Seq::<Seq<char>>::empty());
        }
    }
    proof {
        assert(spec_lines(s@) =~~= out.deep_view());
    }
    out
}

/// The index of the first equals sign, or the length when there is none.
pub open spec fn first_eq(s: Seq<char>) -> int
    decreases s.len(),
{
    if s.len() == 0 {
        0
    } else if s[0] == '=' {
        0
    } else {
        1 + first_eq(s.drop_first())
    }
}

proof fn lemma_first_eq_at(s: Seq<char>, e: int)
    requires
        0 <= e <= s.len(),
        forall|k: int| 0 <= k < e ==> #[trigger] s[k] != '=',
        e < s.len() ==> s[e] == '=',
    ensures
        first_eq(s) == e,
    decreases e,
{
    if e == 0 {
    } else {
        let t = s.drop_first();
        assert(forall|k: int| 0 <= k < e - 1 ==> #[trigger] t[k] != '=');
        lemma_first_eq_at(t, e - 1);
    }
}

/// Find the first equals sign in a character slice.
fn find_eq(s: &[char]) -> (r: usize)
    ensures
        r == first_eq(s@),
        r <= s@.len(),
{
    let n = s.len();
    let mut e: usize = 0;
    while e < n && s[e] != '='
        invariant
            0 <= e <= n,
            n == s@.len(),
            forall|k: int| 0 <= k < e ==> #[trigger] s@[k] != '=',
        decreases n - e,
    {
        e = e + 1;
    }
    proof {
        lemma_first_eq_at(s@, e as int);
    }
    e
}

/// The decimal digits of a number, most significant first.
pub open spec fn dec_digits(n: nat) -> Seq<char>
    decreases n,
{
    if n < 10 {
        seq![((48 + n) as u8) as char]
    } else {
        dec_digits(n / 10).push(((48 + n % 10) as u8) as char)
    }
}

/// Render a number as decimal text.
pub fn usize_to_decimal(n: usize) -> (r: Vec<char>)
    ensures
        r@ == dec_digits(n as nat),
    decreases n,
{
    if n < 10 {
        let c = ((48 + n) as u8) as char;
        let mut out: Vec<char> = Vec::new();
        out.push(c);
        proof {
            assert(out@ =~~= dec_digits(n as nat));
        }
        out
    } else {
        let mut out = usize_to_decimal(n / 10);
        let c = ((48 + (n % 10)) as u8) as char;
        out.push(c);
        out
    }
}

/// A trimmed line is skipped when it is blank or a comment.
pub open spec fn line_skipped(t: Seq<char>) -> bool {
    t.len() == 0 || (t.len() >= 2 && t[0] == '/' && t[1] == '/')
}

/// The index of the first semicolon, or the length when there is none.
pub open spec fn first_semi(s: Seq<char>) -> int
    decreases s.len(),
{
    if s.len() == 0 {
        0
    } else if s[0] == ';' {
        0
    } else {
        1 + first_semi(s.drop_first())
    }
}

proof fn lemma_first_semi_at(s: Seq<char>, e: int)
    requires
        0 <= e <= s.len(),
        forall|k: int| 0 <= k < e ==> #[trigger] s[k] != ';',
        e < s.len() ==> s[e] == ';',
    ensures
        first_semi(s) == e,
    decreases e,
{
    if e == 0 {
    } else {
        let t = s.drop_first();
        assert(forall|k: int| 0 <= k < e - 1 ==> #[trigger] t[k] != ';');
        lemma_first_semi_at(t, e - 1);
    }
}

/// A line split at semicolons, the entry terminators of the schema grammar.
pub open spec fn split_semis(s: Seq<char>) -> Seq<Seq<char>>
    decreases s.len(),
{
    if s.len() == 0 {
        Seq::empty()
    } else {
        let e0 = first_semi(s);
        let e = if 0 <= e0 < s.len() {
            e0
        } else {
            s.len() as int
        };
        if e == s.len() {
            seq![s]
        } else {
            seq![s.subrange(0, e)] + split_semis(s.subrange(e + 1, s.len() as int))
        }
    }
}

/// Split a character slice at semicolons.
fn split_semi_chars(s: &[char]) -> (r: Vec<Vec<char>>)
    ensures
        r.deep_view() == split_semis(s@),
{
    let n = s.len();
    let mut out: Vec<Vec<char>> = Vec::new();
    proof {
        assert(s@.subrange(0, n as int) =~~= s@);
        assert(out.deep_view() =~~= Seq::<Seq<char>>::empty());
        assert(out.deep_view() + split_semis(s@) =~~= split_semis(s@));
    }
    let mut start: usize = 0;
    let mut i: usize = 0;
    while i < n
        invariant
            0 <= start <= i <= n,
            n == s@.len(),
            forall|k: int| start <= k < i ==> #[trigger] s@[k] != ';',
            split_semis(s@) =~~= out.deep_view() + split_semis(s@.subrange(start as int, n as int)),
        decreases n - i,
    {
        if s[i] == ';' {
            let ghost rest = s@.subrange(start as int, n as int);
            proof {
                assert(rest.len() == n - start && rest.len() > 0);
                assert(forall|k: int|
                    0 <= k < i - start ==> #[trigger] rest[k] == s@[start + k] && rest[k] != ';');
                assert(rest[i - start] == ';');
                lemma_first_semi_at(rest, i - start);
                assert(first_semi(rest) == i - start);
                assert(rest.subrange(0, i - start) =~~= s@.subrange(start as int, i as int));
                assert(rest.subrange(i - start + 1, rest.len() as int) =~~= s@.subrange(
                    i + 1,
                    n as int,
                ));
            }
            let piece = chars_of(s, start, i);
            let ghost out0 = out.deep_view();
            proof {
                assert(split_semis(rest) =~~= seq![rest.subrange(0, i - start)] + split_semis(
                    rest.subrange(i - start + 1, rest.len() as int),
                ));
            }
            out.push(piece);
            proof {
                assert(out.deep_view() =~~= out0.push(piece@));
                assert(out0 + (seq![piece@] + split_semis(s@.subrange(i + 1, n as int))) =~~=
                    out.deep_view() + split_semis(s@.subrange(i + 1, n as int)));
                assert(split_semis(s@) =~~= out.deep_view() + split_semis(
                    s@.subrange(i + 1, n as int),
                ));
            }
            start = i + 1;
        }
        i = i + 1;
    }
    let ghost rest = s@.subrange(start as int, n as int);
    proof {
        assert(forall|k: int|
            0 <= k < rest.len() ==> #[trigger] rest[k] == s@[start + k] && rest[k] != ';');
        lemma_first_semi_at(rest, rest.len() as int);
    }
    if start < n {
        let piece = chars_of(s, start, n);
        let ghost out0 = out.deep_view();
        proof {
            assert(piece@ =~~= rest);
            assert(split_semis(rest) =~~= seq![rest]);
        }
        out.push(piece);
        proof {
            assert(out.deep_view() =~~= out0.push(piece@));
            assert(out0 + seq![rest] =~~= out.deep_view());
        }
    } else {
        proof {
            assert(rest.len() == 0);
            assert(split_semis(rest) =~~= Seq::<Seq<char>>::empty());
        }
    }
    proof {
        assert(split_semis(s@) =~~= out.deep_view());
    }
    out
}

/// What one semicolon-terminated enum segment contributes: `key = value`
/// keeps the written value, a bare key takes the running counter, a blank
/// segment contributes nothing. The counter advances on every entry.
pub open spec fn enum_seg_entry(seg: Seq<char>, counter: nat) -> (Option<(Seq<char>, Seq<char>)>, nat) {
    let u = spec_trim(seg);
    if u.len() == 0 {
        (None::<(Seq<char>, Seq<char>)>, counter)
    } else {
        let e = first_eq(u);
        if e < u.len() {
            (
                Some((spec_trim(u.subrange(0, e)), spec_trim(u.subrange(e + 1, u.len() as int)))),
                (counter + 1) as nat,
            )
        } else {
            (Some((u, dec_digits(counter))), (counter + 1) as nat)
        }
    }
}

/// The entries a run of enum segments produces, in order.
pub open spec fn enum_seg_run(segs: Seq<Seq<char>>, counter: nat) -> Seq<(Seq<char>, Seq<char>)>
    decreases segs.len(),
{
    if segs.len() == 0 {
        Seq::empty()
    } else {
        let (entry, c2) = enum_seg_entry(segs[0], counter);
        match entry {
            Some(kv) => seq![kv] + enum_seg_run(segs.drop_first(), c2),
            None => enum_seg_run(segs.drop_first(), c2),
        }
    }
}

/// The counter after a run of enum segments.
pub open spec fn enum_seg_counter(segs: Seq<Seq<char>>, counter: nat) -> nat
    decreases segs.len(),
{
    if segs.len() == 0 {
        counter
    } else {
        let (entry, c2) = enum_seg_entry(segs[0], counter);
        enum_seg_counter(segs.drop_first(), c2)
    }
}

/// What one enum body line contributes: comments and blank lines nothing,
/// other lines their semicolon-separated entries.
pub open spec fn enum_line_entries(line: Seq<char>, counter: nat) -> Seq<(Seq<char>, Seq<char>)> {
    let t = spec_trim(line);
    if line_skipped(t) {
        Seq::empty()
    } else {
        enum_seg_run(split_semis(t), counter)
    }
}

/// The counter after one enum body line.
pub open spec fn enum_line_counter(line: Seq<char>, counter: nat) -> nat {
    let t = spec_trim(line);
    if line_skipped(t) {
        counter
    } else {
        enum_seg_counter(split_semis(t), counter)
    }
}

/// The entries an enum body's lines produce, in order, with the running
/// counter threaded across mixed explicit and implicit entries.
pub open spec fn enum_entries(lines: Seq<Seq<char>>, counter: nat) -> Seq<(Seq<char>, Seq<char>)>
    decreases lines.len(),
{
    if lines.len() == 0 {
        Seq::empty()
    } else {
        enum_line_entries(lines[0], counter) + enum_entries(
            lines.drop_first(),
            enum_line_counter(lines[0], counter),
        )
    }
}

/// What one flags segment contributes: only `key = value` entries count — a
/// flag never takes an assigned value.
pub open spec fn flags_seg_entry(seg: Seq<char>) -> Option<(Seq<char>, Seq<char>)> {
    let u = spec_trim(seg);
    if u.len() == 0 {
        None
    } else {
        let e = first_eq(u);
        if e < u.len() {
            Some((spec_trim(u.subrange(0, e)), spec_trim(u.subrange(e + 1, u.len() as int))))
        } else {
            None
        }
    }
}

/// The entries a run of flags segments produces, in order.
pub open spec fn flags_seg_run(segs: Seq<Seq<char>>) -> Seq<(Seq<char>, Seq<char>)>
    decreases segs.len(),
{
    if segs.len() == 0 {
        Seq::empty()
    } else {
        match flags_seg_entry(segs[0]) {
            Some(kv) => seq![kv] + flags_seg_run(segs.drop_first()),
            None => flags_seg_run(segs.drop_first()),
        }
    }
}

/// What one flags body line contributes.
pub open spec fn flags_line_entries(line: Seq<char>) -> Seq<(Seq<char>, Seq<char>)> {
    let t = spec_trim(line);
    if line_skipped(t) {
        Seq::empty()
    } else {
        flags_seg_run(split_semis(t))
    }
}

/// The entries a flags body's lines produce, in order.
pub open spec fn flags_entries(lines: Seq<Seq<char>>) -> Seq<(Seq<char>, Seq<char>)>
    decreases lines.len(),
{
    if lines.len() == 0 {
        Seq::empty()
    } else {
        flags_line_entries(lines[0]) + flags_entries(lines.drop_first())
    }
}

/// Collect the characters of a slice into a string.
pub(crate) fn chars_string(s: &[char]) -> (r: String)
    ensures
        r@ == s@,
{
    let v = chars_of(s, 0, s.len());
    proof {
        assert(v@ =~~= s@);
    }
    crate::field_model::chars_to_text(&v)
}

/// Parse the semicolon-separated entries of one enum body line.
fn parse_enum_segments(
    t: &[char],
    values: &mut Vec<(String, String)>,
    counter: usize,
) -> (r: usize)
    requires
        counter == old(values)@.len(),
    ensures
        final(values).deep_view() == old(values).deep_view() + enum_seg_run(
            split_semis(t@),
            counter as nat,
        ),
        r == enum_seg_counter(split_semis(t@), counter as nat),
        r == final(values)@.len(),
{
    let segs = split_semi_chars(t);
    let ghost ss = split_semis(t@);
    proof {
        assert(ss.subrange(0, ss.len() as int) =~~= ss);
        assert(old(values).deep_view() + enum_seg_run(ss, counter as nat) =~~= old(
            values,
        ).deep_view() + enum_seg_run(ss, counter as nat));
    }
    let m = segs.len();
    let mut index = counter;
    let mut k: usize = 0;
    while k < m
        invariant
            0 <= k <= m,
            m == ss.len(),
            segs.deep_view() == ss,
            index == values@.len(),
            old(values).deep_view() + enum_seg_run(ss, counter as nat) =~~= values.deep_view()
                + enum_seg_run(ss.subrange(k as int, m as int), index as nat),
            enum_seg_counter(ss, counter as nat) == enum_seg_counter(
                ss.subrange(k as int, m as int),
                index as nat,
            ),
        decreases m - k,
    {
        let ghost tail = ss.subrange(k as int, m as int);
        let ghost vals0 = values.deep_view();
        let ghost index0 = index as nat;
        let seg = segs[k].as_slice();
        proof {
            assert(segs.deep_view()[k as int] == ss[k as int]);
            assert(seg@ == ss[k as int]);
            assert(tail[0] == ss[k as int]);
            assert(tail.drop_first() =~~= ss.subrange(k + 1, m as int));
        }
        let u = trim_chars(seg);
        if u.len() > 0 {
            let e = find_eq(u.as_slice());
            if e < u.len() {
                let key = trim_chars(&u.as_slice()[0..e]);
                let val = trim_chars(&u.as_slice()[e + 1..u.len()]);
                proof {
                    assert(enum_seg_entry(ss[k as int], index0) == (
                        Some((key@, val@)),
                        (index0 + 1) as nat,
                    ));
                }
                values.push((chars_string(key.as_slice()), chars_string(val.as_slice())));
                index = values.len();
                proof {
                    assert(values.deep_view() =~~= vals0.push((key@, val@)));
                    assert(enum_seg_run(tail, index0) =~~= seq![(key@, val@)] + enum_seg_run(
                        tail.drop_first(),
                        index as nat,
                    ));
                    assert(values.deep_view() + enum_seg_run(
                        ss.subrange(k + 1, m as int),
                        index as nat,
                    ) =~~= vals0 + enum_seg_run(tail, index0));
                }
            } else {
                proof {
                    assert(enum_seg_entry(ss[k as int], index0) == (
                        Some((u@, dec_digits(index0))),
                        (index0 + 1) as nat,
                    ));
                }
                let val = usize_to_decimal(index);
                values.push((chars_string(u.as_slice()), chars_string(val.as_slice())));
                index = values.len();
                proof {
                    assert(values.deep_view() =~~= vals0.push((u@, dec_digits(index0))));
                    assert(enum_seg_run(tail, index0) =~~= seq![(u@, dec_digits(index0))]
                        + enum_seg_run(tail.drop_first(), index as nat));
                    assert(values.deep_view() + enum_seg_run(
                        ss.subrange(k + 1, m as int),
                        index as nat,
                    ) =~~= vals0 + enum_seg_run(tail, index0));
                }
            }
        } else {
            proof {
                assert(enum_seg_entry(ss[k as int], index0) == (
                    None::<(Seq<char>, Seq<char>)>,
                    index0,
                ));
            }
        }
        k = k + 1;
    }
    proof {
        assert(ss.subrange(m as int, m as int) =~~= Seq::<Seq<char>>::empty());
        assert(values.deep_view() + Seq::<(Seq<char>, Seq<char>)>::empty() =~~=
            values.deep_view());
    }
    index
}

/// Parse one enum body: blank and comment lines are skipped, `key = value`
/// entries keep the written value, bare keys take the next counter value,
/// and the counter runs across mixed explicit and implicit entries.
pub fn parse_enum_body(body: &[char]) -> (r: Vec<(String, String)>)
    ensures
        r.deep_view() == enum_entries(spec_lines(body@), 0),
{
    let lines = split_line_chars(body);
    let ghost ls = spec_lines(body@);
    let mut values: Vec<(String, String)> = Vec::new();
    proof {
        assert(ls.subrange(0, ls.len() as int) =~~= ls);
        assert(values.deep_view() + enum_entries(ls, 0) =~~= enum_entries(ls, 0));
    }
    let mut index: usize = 0;
    let n = lines.len();
    let mut i: usize = 0;
    while i < n
        invariant
            0 <= i <= n,
            n == ls.len(),
            lines.deep_view() == ls,
            index == values@.len(),
            enum_entries(ls, 0) =~~= values.deep_view() + enum_entries(
                ls.subrange(i as int, n as int),
                index as nat,
            ),
        decreases n - i,
    {
        let ghost tail = ls.subrange(i as int, n as int);
        let ghost vals0 = values.deep_view();
        let ghost index0 = index as nat;
        let line = lines[i].as_slice();
        proof {
            assert(lines.deep_view()[i as int] == ls[i as int]);
            assert(line@ == ls[i as int]);
            assert(tail[0] == ls[i as int]);
            assert(tail.drop_first() =~~= ls.subrange(i + 1, n as int));
        }
        let t = trim_chars(line);
        let skipped = t.len() == 0 || (t.len() >= 2 && t[0] == '/' && t[1] == '/');
        if !skipped {
            let next = parse_enum_segments(t.as_slice(), &mut values, index);
            proof {
                assert(enum_line_entries(ls[i as int], index0) == enum_seg_run(
                    split_semis(t@),
                    index0,
                ));
                assert(enum_line_counter(ls[i as int], index0) == enum_seg_counter(
                    split_semis(t@),
                    index0,
                ));
                assert(enum_entries(tail, index0) =~~= enum_line_entries(ls[i as int], index0)
                    + enum_entries(tail.drop_first(), enum_line_counter(ls[i as int], index0)));
            }
            index = next;
            proof {
                assert(values.deep_view() + enum_entries(
                    ls.subrange(i + 1, n as int),
                    index as nat,
                ) =~~= vals0 + enum_entries(tail, index0));
            }
        } else {
            proof {
                assert(enum_line_entries(ls[i as int], index0) =~~= Seq::<(
                    Seq<char>,
                    Seq<char>,
                )>::empty());
                assert(enum_line_counter(ls[i as int], index0) == index0);
                assert(enum_entries(tail, index0) =~~= enum_entries(
                    tail.drop_first(),
                    index0,
                ));
            }
        }
        i = i + 1;
    }
    proof {
        assert(ls.subrange(n as int, n as int) =~~= Seq::<Seq<char>>::empty());
        assert(values.deep_view() + Seq::<(Seq<char>, Seq<char>)>::empty() =~~=
            values.deep_view());
    }
    values
}

/// Parse the semicolon-separated entries of one flags body line.
fn parse_flags_segments(t: &[char], values: &mut Vec<(String, String)>)
    ensures
        final(values).deep_view() == old(values).deep_view() + flags_seg_run(split_semis(t@)),
{
    let segs = split_semi_chars(t);
    let ghost ss = split_semis(t@);
    proof {
        assert(ss.subrange(0, ss.len() as int) =~~= ss);
        assert(old(values).deep_view() + flags_seg_run(ss) =~~= old(values).deep_view()
            + flags_seg_run(ss));
    }
    let m = segs.len();
    let mut k: usize = 0;
    while k < m
        invariant
            0 <= k <= m,
            m == ss.len(),
            segs.deep_view() == ss,
            old(values).deep_view() + flags_seg_run(ss) =~~= values.deep_view() + flags_seg_run(
                ss.subrange(k as int, m as int),
            ),
        decreases m - k,
    {
        let ghost tail = ss.subrange(k as int, m as int);
        let ghost vals0 = values.deep_view();
        let seg = segs[k].as_slice();
        proof {
            assert(segs.deep_view()[k as int] == ss[k as int]);
            assert(seg@ == ss[k as int]);
            assert(tail[0] == ss[k as int]);
            assert(tail.drop_first() =~~= ss.subrange(k + 1, m as int));
        }
        let u = trim_chars(seg);
        if u.len() > 0 {
            let e = find_eq(u.as_slice());
            if e < u.len() {
                let key = trim_chars(&u.as_slice()[0..e]);
                let val = trim_chars(&u.as_slice()[e + 1..u.len()]);
                proof {
                    assert(flags_seg_entry(ss[k as int]) == Some((key@, val@)));
                }
                values.push((chars_string(key.as_slice()), chars_string(val.as_slice())));
                proof {
                    assert(values.deep_view() =~~= vals0.push((key@, val@)));
                    assert(flags_seg_run(tail) =~~= seq![(key@, val@)] + flags_seg_run(
                        tail.drop_first(),
                    ));
                    assert(values.deep_view() + flags_seg_run(ss.subrange(k + 1, m as int)) =~~=
                        vals0 + flags_seg_run(tail));
                }
            } else {
                proof {
                    assert(flags_seg_entry(ss[k as int]) == None::<(Seq<char>, Seq<char>)>);
                }
            }
        } else {
            proof {
                assert(flags_seg_entry(ss[k as int]) == None::<(Seq<char>, Seq<char>)>);
            }
        }
        k = k + 1;
    }
    proof {
        assert(ss.subrange(m as int, m as int) =~~= Seq::<Seq<char>>::empty());
        assert(values.deep_view() + Seq::<(Seq<char>, Seq<char>)>::empty() =~~=
            values.deep_view());
    }
}

/// Parse one flags body: only explicit `key = value` entries are taken — a
/// flag carries bitmask semantics and never an assigned value.
pub fn parse_flags_body(body: &[char]) -> (r: Vec<(String, String)>)
    ensures
        r.deep_view() == flags_entries(spec_lines(body@)),
{
    let lines = split_line_chars(body);
    let ghost ls = spec_lines(body@);
    let mut values: Vec<(String, String)> = Vec::new();
    proof {
        assert(ls.subrange(0, ls.len() as int) =~~= ls);
        assert(values.deep_view() + flags_entries(ls) =~~= flags_entries(ls));
    }
    let n = lines.len();
    let mut i: usize = 0;
    while i < n
        invariant
            0 <= i <= n,
            n == ls.len(),
            lines.deep_view() == ls,
            flags_entries(ls) =~~= values.deep_view() + flags_entries(
                ls.subrange(i as int, n as int),
            ),
        decreases n - i,
    {
        let ghost tail = ls.subrange(i as int, n as int);
        let ghost vals0 = values.deep_view();
        let line = lines[i].as_slice();
        proof {
            assert(lines.deep_view()[i as int] == ls[i as int]);
            assert(line@ == ls[i as int]);
            assert(tail[0] == ls[i as int]);
            assert(tail.drop_first() =~~= ls.subrange(i + 1, n as int));
        }
        let t = trim_chars(line);
        let skipped = t.len() == 0 || (t.len() >= 2 && t[0] == '/' && t[1] == '/');
        if !skipped {
            parse_flags_segments(t.as_slice(), &mut values);
            proof {
                assert(flags_line_entries(ls[i as int]) == flags_seg_run(split_semis(t@)));
                assert(flags_entries(tail) =~~= flags_line_entries(ls[i as int]) + flags_entries(
                    tail.drop_first(),
                ));
                assert(values.deep_view() + flags_entries(ls.subrange(i + 1, n as int)) =~~=
                    vals0 + flags_entries(tail));
            }
        } else {
            proof {
                assert(flags_line_entries(ls[i as int]) =~~= Seq::<(Seq<char>, Seq<char>)>::empty());
                assert(flags_entries(tail) =~~= flags_entries(tail.drop_first()));
            }
        }
        i = i + 1;
    }
    proof {
        assert(ls.subrange(n as int, n as int) =~~= Seq::<Seq<char>>::empty());
        assert(values.deep_view() + Seq::<(Seq<char>, Seq<char>)>::empty() =~~=
            values.deep_view());
    }
    values
}

/// The first position at or after `i` holding a non-space character, or the
/// length.
pub open spec fn spec_skip_spaces(s: Seq<char>, i: int) -> int
    decreases s.len() - i,
    when 0 <= i <= s.len()
{
    if i >= s.len() || !is_space_char(s[i]) {
        i
    } else {
        spec_skip_spaces(s, i + 1)
    }
}

proof fn lemma_skip_spaces_at(s: Seq<char>, i: int, j: int)
    requires
        0 <= i <= j <= s.len(),
        forall|k: int| i <= k < j ==> is_space_char(#[trigger] s[k]),
        j < s.len() ==> !is_space_char(s[j]),
    ensures
        spec_skip_spaces(s, i) == j,
    decreases j - i,
{
    if i < j {
        lemma_skip_spaces_at(s, i + 1, j);
    }
}

/// The end of the word-character run starting at `i`.
pub open spec fn spec_word_end(s: Seq<char>, i: int) -> int
    decreases s.len() - i,
    when 0 <= i <= s.len()
{
    if i >= s.len() || !is_word_char(s[i]) {
        i
    } else {
        spec_word_end(s, i + 1)
    }
}

proof fn lemma_word_end_at(s: Seq<char>, i: int, j: int)
    requires
        0 <= i <= j <= s.len(),
        forall|k: int| i <= k < j ==> is_word_char(#[trigger] s[k]),
        j < s.len() ==> !is_word_char(s[j]),
    ensures
        spec_word_end(s, i) == j,
    decreases j - i,
{
    if i < j {
        lemma_word_end_at(s, i + 1, j);
    }
}

/// A decimal digit.
pub open spec fn is_digit_char(c: char) -> bool {
    '0' <= c && c <= '9'
}

/// The end of the digit run starting at `i`.
pub open spec fn spec_digit_end(s: Seq<char>, i: int) -> int
    decreases s.len() - i,
    when 0 <= i <= s.len()
{
    if i >= s.len() || !is_digit_char(s[i]) {
        i
    } else {
        spec_digit_end(s, i + 1)
    }
}

proof fn lemma_digit_end_at(s: Seq<char>, i: int, j: int)
    requires
        0 <= i <= j <= s.len(),
        forall|k: int| i <= k < j ==> is_digit_char(#[trigger] s[k]),
        j < s.len() ==> !is_digit_char(s[j]),
    ensures
        spec_digit_end(s, i) == j,
    decreases j - i,
{
    if i < j {
        lemma_digit_end_at(s, i + 1, j);
    }
}

/// The first `}` at or after `i`, or the length when there is none.
pub open spec fn spec_find_close(s: Seq<char>, i: int) -> int
    decreases s.len() - i,
    when 0 <= i <= s.len()
{
    if i >= s.len() || s[i] == '}' {
        i
    } else {
        spec_find_close(s, i + 1)
    }
}

proof fn lemma_find_close_at(s: Seq<char>, i: int, j: int)
    requires
        0 <= i <= j <= s.len(),
        forall|k: int| i <= k < j ==> #[trigger] s[k] != '}',
        j < s.len() ==> s[j] == '}',
    ensures
        spec_find_close(s, i) == j,
    decreases j - i,
{
    if i < j {
        lemma_find_close_at(s, i + 1, j);
    }
}

/// Whether the keyword's characters sit at position `i`.
pub open spec fn kw_at(s: Seq<char>, i: int, kw: Seq<char>) -> bool {
    i + kw.len() <= s.len() && s.subrange(i, i + kw.len()) == kw
}

/// The first position at or after `i` holding a non-space character.
fn skip_spaces(s: &[char], i: usize) -> (j: usize)
    requires
        i <= s@.len(),
    ensures
        i <= j <= s@.len(),
        j == spec_skip_spaces(s@, i as int),
        forall|k: int| i <= k < j ==> is_space_char(#[trigger] s@[k]),
        j < s@.len() ==> !is_space_char(s@[j as int]),
{
    let n = s.len();
    let mut j = i;
    while j < n && space_char(s[j])
        invariant
            i <= j <= n,
            n == s@.len(),
            forall|k: int| i <= k < j ==> is_space_char(#[trigger] s@[k]),
        decreases n - j,
    {
        j = j + 1;
    }
    proof {
        lemma_skip_spaces_at(s@, i as int, j as int);
    }
    j
}

/// The end of the word-character run starting at `i`.
fn word_run_end(s: &[char], i: usize) -> (j: usize)
    requires
        i <= s@.len(),
    ensures
        i <= j <= s@.len(),
        j == spec_word_end(s@, i as int),
        forall|k: int| i <= k < j ==> is_word_char(#[trigger] s@[k]),
        j < s@.len() ==> !is_word_char(s@[j as int]),
{
    let n = s.len();
    let mut j = i;
    while j < n && word_char(s[j])
        invariant
            i <= j <= n,
            n == s@.len(),
            forall|k: int| i <= k < j ==> is_word_char(#[trigger] s@[k]),
        decreases n - j,
    {
        j = j + 1;
    }
    proof {
        lemma_word_end_at(s@, i as int, j as int);
    }
    j
}

/// The end of the digit run starting at `i`.
fn digit_run_end(s: &[char], i: usize) -> (j: usize)
    requires
        i <= s@.len(),
    ensures
        i <= j <= s@.len(),
        j == spec_digit_end(s@, i as int),
{
    let n = s.len();
    let mut j = i;
    while j < n && '0' <= s[j] && s[j] <= '9'
        invariant
            i <= j <= n,
            n == s@.len(),
            forall|k: int| i <= k < j ==> is_digit_char(#[trigger] s@[k]),
        decreases n - j,
    {
        j = j + 1;
    }
    proof {
        lemma_digit_end_at(s@, i as int, j as int);
    }
    j
}

/// The first `}` at or after `i`, or the length when there is none.
fn find_close(s: &[char], i: usize) -> (j: usize)
    requires
        i <= s@.len(),
    ensures
        i <= j <= s@.len(),
        j == spec_find_close(s@, i as int),
        forall|k: int| i <= k < j ==> #[trigger] s@[k] != '}',
        j < s@.len() ==> s@[j as int] == '}',
{
    let n = s.len();
    let mut j = i;
    while j < n && s[j] != '}'
        invariant
            i <= j <= n,
            n == s@.len(),
            forall|k: int| i <= k < j ==> #[trigger] s@[k] != '}',
        decreases n - j,
    {
        j = j + 1;
    }
    proof {
        lemma_find_close_at(s@, i as int, j as int);
    }
    j
}

/// Whether the keyword sits at position `i`.
fn keyword_at(s: &[char], i: usize, kw: &[char]) -> (r: bool)
    requires
        i <= s@.len(),
    ensures
        r == kw_at(s@, i as int, kw@),
{
    let m = kw.len();
    let n = s.len();
    if n - i < m {
        return false;
    }
    let mut k: usize = 0;
    while k < m
        invariant
            0 <= k <= m,
            m == kw@.len(),
            n == s@.len(),
            i + m <= n,
            forall|t: int| 0 <= t < k ==> #[trigger] s@[i + t] == kw@[t],
        decreases m - k,
    {
        if s[i + k] != kw[k] {
            proof {
                assert(s@.subrange(i as int, i + m as int)[k as int] == s@[i + k]);
                assert(s@.subrange(i as int, i + kw@.len()) != kw@);
            }
            return false;
        }
        k = k + 1;
    }
    proof {
        assert(forall|t: int|
            0 <= t < m ==> #[trigger] s@.subrange(i as int, i + m as int)[t] == s@[i + t]);
        assert(s@.subrange(i as int, i + kw@.len()) =~= kw@);
    }
    true
}

/// A matched declaration header: the name, the base type where the grammar
/// has one, the brace-delimited body, and the position to scan on from.
pub struct BlockMatch {
    pub name: Vec<char>,
    pub base: Vec<char>,
    pub body: Vec<char>,
    pub next: usize,
}

/// The header a typed block match yields: the name's span, the base type's
/// span, the body's span, and the position to scan on from.
pub open spec fn spec_match_typed(s: Seq<char>, i: int, kw: Seq<char>) -> Option<
    (Seq<char>, Seq<char>, Seq<char>, int),
> {
    if !kw_at(s, i, kw) {
        None
    } else {
        let after = i + kw.len();
        if !(after < s.len() && is_space_char(s[after])) {
            None
        } else {
            let ns = spec_skip_spaces(s, after);
            let ne = spec_word_end(s, ns);
            if ne == ns {
                None
            } else {
                let colon = spec_skip_spaces(s, ne);
                if !(colon < s.len() && s[colon] == ':') {
                    None
                } else {
                    let bs = spec_skip_spaces(s, colon + 1);
                    let be = spec_word_end(s, bs);
                    if be == bs {
                        None
                    } else {
                        let brace = spec_skip_spaces(s, be);
                        if !(brace < s.len() && s[brace] == '{') {
                            None
                        } else {
                            let body_start = brace + 1;
                            let body_end = spec_find_close(s, body_start);
                            if !(body_end < s.len() && body_end > body_start) {
                                None
                            } else {
                                Some(
                                    (
                                        s.subrange(ns, ne),
                                        s.subrange(bs, be),
                                        s.subrange(body_start, body_end),
                                        body_end + 1,
                                    ),
                                )
                            }
                        }
                    }
                }
            }
        }
    }
}

/// The header a struct block match yields: the name's span, the body's span,
/// and the position to scan on from; an optional parenthesized numeric
/// identifier after the name is carried as metadata and skipped.
pub open spec fn spec_match_struct(s: Seq<char>, i: int) -> Option<(Seq<char>, Seq<char>, int)> {
    let kw = seq!['s', 't', 'r', 'u', 'c', 't'];
    if !kw_at(s, i, kw) {
        None
    } else {
        let after = i + 6;
        if !(after < s.len() && is_space_char(s[after])) {
            None
        } else {
            let ns = spec_skip_spaces(s, after);
            let ne = spec_word_end(s, ns);
            if ne == ns {
                None
            } else {
                let after_id = if ne < s.len() && s[ne] == '(' && spec_digit_end(s, ne + 1) > ne
                    + 1 && spec_digit_end(s, ne + 1) < s.len() && s[spec_digit_end(s, ne + 1)]
                    == ')' {
                    spec_digit_end(s, ne + 1) + 1
                } else {
                    ne
                };
                let brace = spec_skip_spaces(s, after_id);
                if !(brace < s.len() && s[brace] == '{') {
                    None
                } else {
                    let body_start = brace + 1;
                    let body_end = spec_find_close(s, body_start);
                    if !(body_end < s.len() && body_end > body_start) {
                        None
                    } else {
                        Some((s.subrange(ns, ne), s.subrange(body_start, body_end), body_end + 1))
                    }
                }
            }
        }
    }
}

/// Try to match `<keyword> Name : base { body }` at position `i`.
fn match_typed_block(s: &[char], i: usize, kw: &[char]) -> (r: Option<BlockMatch>)
    requires
        i < s@.len(),
    ensures
        r.is_some() == spec_match_typed(s@, i as int, kw@).is_some(),
        r.is_some() ==> ({
            let m = spec_match_typed(s@, i as int, kw@).unwrap();
            &&& r.unwrap().name@ == m.0
            &&& r.unwrap().base@ == m.1
            &&& r.unwrap().body@ == m.2
            &&& r.unwrap().next == m.3
            &&& i < r.unwrap().next <= s@.len()
        }),
{
    let n = s.len();
    if !keyword_at(s, i, kw) {
        return None;
    }
    let after_kw = i + kw.len();
    if after_kw >= n || !space_char(s[after_kw]) {
        return None;
    }
    let name_start = skip_spaces(s, after_kw);
    let name_end = word_run_end(s, name_start);
    if name_end == name_start {
        return None;
    }
    let colon = skip_spaces(s, name_end);
    if colon >= n || s[colon] != ':' {
        return None;
    }
    let base_start = skip_spaces(s, colon + 1);
    let base_end = word_run_end(s, base_start);
    if base_end == base_start {
        return None;
    }
    let brace = skip_spaces(s, base_end);
    if brace >= n || s[brace] != '{' {
        return None;
    }
    let body_start = brace + 1;
    let body_end = find_close(s, body_start);
    if body_end >= n || body_end == body_start {
        return None;
    }
    let name = chars_of(s, name_start, name_end);
    let base = chars_of(s, base_start, base_end);
    let body = chars_of(s, body_start, body_end);
    let m = BlockMatch { name, base, body, next: body_end + 1 };
    Some(m)
}

/// Try to match `struct Name(id)? { body }` at position `i`.
fn match_struct_block(s: &[char], i: usize) -> (r: Option<BlockMatch>)
    requires
        i < s@.len(),
    ensures
        r.is_some() == spec_match_struct(s@, i as int).is_some(),
        r.is_some() ==> ({
            let m = spec_match_struct(s@, i as int).unwrap();
            &&& r.unwrap().name@ == m.0
            &&& r.unwrap().body@ == m.1
            &&& r.unwrap().next == m.2
            &&& i < r.unwrap().next <= s@.len()
        }),
{
    let n = s.len();
    let kw: [char; 6] = ['s', 't', 'r', 'u', 'c', 't'];
    proof {
        assert(kw@ =~= seq!['s', 't', 'r', 'u', 'c', 't']);
    }
    if !keyword_at(s, i, kw.as_slice()) {
        return None;
    }
    let after_kw = i + 6;
    if after_kw >= n || !space_char(s[after_kw]) {
        return None;
    }
    let name_start = skip_spaces(s, after_kw);
    let name_end = word_run_end(s, name_start);
    if name_end == name_start {
        return None;
    }
    // an optional parenthesized numeric identifier after the name
    let mut after_id = name_end;
    if name_end < n && s[name_end] == '(' {
        let digits_end = digit_run_end(s, name_end + 1);
        if digits_end > name_end + 1 && digits_end < n && s[digits_end] == ')' {
            after_id = digits_end + 1;
        }
    }
    let brace = skip_spaces(s, after_id);
    if brace >= n || s[brace] != '{' {
        return None;
    }
    let body_start = brace + 1;
    let body_end = find_close(s, body_start);
    if body_end >= n || body_end == body_start {
        return None;
    }
    let name = chars_of(s, name_start, name_end);
    let base: Vec<char> = Vec::new();
    let body = chars_of(s, body_start, body_end);
    let m = BlockMatch { name, base, body, next: body_end + 1 };
    Some(m)
}

/// One field of a struct body: `type['?']['[]'] name`.
pub struct FieldDef {
    pub name: String,
    pub fbe_type: String,
    pub is_optional: bool,
    pub is_array: bool,
}

/// The logical content of a field definition.
pub open spec fn field_view(f: FieldDef) -> (Seq<char>, bool, bool, Seq<char>) {
    (f.fbe_type@, f.is_optional, f.is_array, f.name@)
}

pub open spec fn field_views(fs: Seq<FieldDef>) -> Seq<(Seq<char>, bool, bool, Seq<char>)> {
    Seq::new(fs.len(), |j: int| field_view(fs[j]))
}

/// The first field declaration found scanning a segment from position `p`:
/// a word at a word boundary, an optional `?`, an optional `[]`, whitespace,
/// and a name word.
pub open spec fn spec_match_field(t: Seq<char>, p: int) -> Option<(Seq<char>, bool, bool, Seq<char>)>
    decreases t.len() - p,
    when 0 <= p
{
    if p >= t.len() {
        None
    } else if is_word_char(t[p]) && (p == 0 || !is_word_char(t[p - 1])) {
        let q = spec_word_end(t, p);
        let has_opt = q < t.len() && t[q] == '?';
        let r1 = if has_opt {
            q + 1
        } else {
            q
        };
        let has_arr = r1 + 1 < t.len() && t[r1] == '[' && t[r1 + 1] == ']';
        let r2 = if has_arr {
            r1 + 2
        } else {
            r1
        };
        let gap = spec_skip_spaces(t, r2);
        let ne = spec_word_end(t, gap);
        if gap > r2 && ne > gap {
            Some((t.subrange(p, q), has_opt, has_arr, t.subrange(gap, ne)))
        } else {
            spec_match_field(t, p + 1)
        }
    } else {
        spec_match_field(t, p + 1)
    }
}

/// Try to match a field declaration anywhere in a segment.
fn match_field(t: &[char]) -> (r: Option<FieldDef>)
    ensures
        r.is_some() == spec_match_field(t@, 0).is_some(),
        r.is_some() ==> field_view(r.unwrap()) == spec_match_field(t@, 0).unwrap(),
{
    let n = t.len();
    let mut p: usize = 0;
    while p < n
        invariant
            0 <= p <= n,
            n == t@.len(),
            spec_match_field(t@, 0) == spec_match_field(t@, p as int),
        decreases n - p,
    {
        if word_char(t[p]) && (p == 0 || !word_char(t[p - 1])) {
            let q = word_run_end(t, p);
            let mut r = q;
            let mut is_optional = false;
            if r < n && t[r] == '?' {
                is_optional = true;
                r = r + 1;
            }
            let mut is_array = false;
            if n - r > 1 && t[r] == '[' && t[r + 1] == ']' {
                is_array = true;
                r = r + 2;
            }
            let gap = skip_spaces(t, r);
            if gap > r {
                let name_end = word_run_end(t, gap);
                if name_end > gap {
                    let fbe_type = chars_string(&t[p..q]);
                    let name = chars_string(&t[gap..name_end]);
                    return Some(FieldDef { name, fbe_type, is_optional, is_array });
                }
            }
        }
        p = p + 1;
    }
    None
}

/// Whether a trimmed struct body line is taken up for fields: attribute
/// lines (starting with `[`), comments and blanks are passed over.
pub open spec fn struct_line_skipped(t: Seq<char>) -> bool {
    t.len() == 0 || (t.len() >= 2 && t[0] == '/' && t[1] == '/') || (t.len() >= 1 && t[0] == '[')
}

/// The fields a run of segments produces: at most one per segment.
pub open spec fn struct_seg_fields(segs: Seq<Seq<char>>) -> Seq<(Seq<char>, bool, bool, Seq<char>)>
    decreases segs.len(),
{
    if segs.len() == 0 {
        Seq::empty()
    } else {
        match spec_match_field(segs[0], 0) {
            Some(f) => seq![f] + struct_seg_fields(segs.drop_first()),
            None => struct_seg_fields(segs.drop_first()),
        }
    }
}

/// The fields one struct body line contributes.
pub open spec fn struct_line_fields(line: Seq<char>) -> Seq<(Seq<char>, bool, bool, Seq<char>)> {
    let t = spec_trim(line);
    if struct_line_skipped(t) {
        Seq::empty()
    } else {
        struct_seg_fields(split_semis(t))
    }
}

/// The fields a struct body's lines produce, in order.
pub open spec fn struct_body_fields(lines: Seq<Seq<char>>) -> Seq<(Seq<char>, bool, bool, Seq<char>)>
    decreases lines.len(),
{
    if lines.len() == 0 {
        Seq::empty()
    } else {
        struct_line_fields(lines[0]) + struct_body_fields(lines.drop_first())
    }
}

/// Parse one struct body: each semicolon-terminated piece of each surviving
/// line contributes at most one field.
pub fn parse_struct_body(body: &[char]) -> (r: Vec<FieldDef>)
    ensures
        field_views(r@) =~~= struct_body_fields(spec_lines(body@)),
{
    let lines = split_line_chars(body);
    let ghost ls = spec_lines(body@);
    let mut fields: Vec<FieldDef> = Vec::new();
    proof {
        assert(ls.subrange(0, ls.len() as int) =~~= ls);
        assert(field_views(fields@) + struct_body_fields(ls) =~~= struct_body_fields(ls));
    }
    let n = lines.len();
    let mut i: usize = 0;
    while i < n
        invariant
            0 <= i <= n,
            n == ls.len(),
            lines.deep_view() == ls,
            struct_body_fields(ls) =~~= field_views(fields@) + struct_body_fields(
                ls.subrange(i as int, n as int),
            ),
        decreases n - i,
    {
        let ghost tail = ls.subrange(i as int, n as int);
        let line = lines[i].as_slice();
        proof {
            assert(lines.deep_view()[i as int] == ls[i as int]);
            assert(line@ == ls[i as int]);
            assert(tail[0] == ls[i as int]);
            assert(tail.drop_first() =~~= ls.subrange(i + 1, n as int));
        }
        let t = trim_chars(line);
        let skipped = t.len() == 0 || (t.len() >= 2 && t[0] == '/' && t[1] == '/') || (t.len() >= 1
            && t[0] == '[');
        if !skipped {
            let segs = split_semi_chars(t.as_slice());
            let ghost ss = split_semis(t@);
            let ghost fields0 = field_views(fields@);
            proof {
                assert(ss.subrange(0, ss.len() as int) =~~= ss);
                assert(fields0 + struct_seg_fields(ss) =~~= fields0 + struct_seg_fields(ss));
            }
            let m = segs.len();
            let mut k: usize = 0;
            while k < m
                invariant
                    0 <= k <= m,
                    m == ss.len(),
                    segs.deep_view() == ss,
                    fields0 + struct_seg_fields(ss) =~~= field_views(fields@)
                        + struct_seg_fields(ss.subrange(k as int, m as int)),
                decreases m - k,
            {
                let ghost stail = ss.subrange(k as int, m as int);
                let ghost fv0 = field_views(fields@);
                proof {
                    assert(segs.deep_view()[k as int] == ss[k as int]);
                    assert(stail[0] == ss[k as int]);
                    assert(stail.drop_first() =~~= ss.subrange(k + 1, m as int));
                }
                let seg = segs[k].as_slice();
                proof {
                    assert(seg@ == ss[k as int]);
                }
                match match_field(seg) {
                    Some(f) => {
                        let ghost fvw = field_view(f);
                        fields.push(f);
                        proof {
                            assert(field_views(fields@) =~~= fv0.push(fvw));
                            assert(struct_seg_fields(stail) =~~= seq![fvw] + struct_seg_fields(
                                stail.drop_first(),
                            ));
                            assert(field_views(fields@) + struct_seg_fields(
                                ss.subrange(k + 1, m as int),
                            ) =~~= fv0 + struct_seg_fields(stail));
                        }
                    },
                    None => {
                        proof {
                            assert(struct_seg_fields(stail) =~~= struct_seg_fields(
                                stail.drop_first(),
                            ));
                        }
                    },
                }
                k = k + 1;
            }
            proof {
                assert(ss.subrange(m as int, m as int) =~~= Seq::<Seq<char>>::empty());
                assert(struct_seg_fields(ss.subrange(m as int, m as int)) =~~= Seq::<(
                    Seq<char>,
                    bool,
                    bool,
                    Seq<char>,
                )>::empty());
                assert(field_views(fields@) =~~= fields0 + struct_seg_fields(ss));
                assert(struct_line_fields(ls[i as int]) =~~= struct_seg_fields(ss));
                assert(struct_body_fields(tail) =~~= struct_line_fields(ls[i as int])
                    + struct_body_fields(tail.drop_first()));
            }
        } else {
            proof {
                assert(struct_line_fields(ls[i as int]) =~~= Seq::<(
                    Seq<char>,
                    bool,
                    bool,
                    Seq<char>,
                )>::empty());
                assert(struct_body_fields(tail) =~~= struct_body_fields(tail.drop_first()));
            }
        }
        i = i + 1;
    }
    proof {
        assert(ls.subrange(n as int, n as int) =~~= Seq::<Seq<char>>::empty());
        assert(field_views(fields@) + Seq::<(Seq<char>, bool, bool, Seq<char>)>::empty() =~~=
            field_views(fields@));
    }
    fields
}

/// A parsed enum declaration.
pub struct EnumDef {
    pub name: String,
    pub base_type: String,
    pub values: Vec<(String, String)>,
}

/// The logical content of a parsed enum: name, base type, entries.
pub open spec fn enum_def_view(d: EnumDef) -> (Seq<char>, Seq<char>, Seq<(Seq<char>, Seq<char>)>) {
    (d.name@, d.base_type@, d.values.deep_view())
}

pub open spec fn enum_views(ds: Seq<EnumDef>) -> Seq<(Seq<char>, Seq<char>, Seq<(Seq<char>, Seq<char>)>)> {
    Seq::new(ds.len(), |j: int| enum_def_view(ds[j]))
}

/// A parsed flags declaration.
pub struct FlagsDef {
    pub name: String,
    pub base_type: String,
    pub values: Vec<(String, String)>,
}

/// The logical content of a parsed flags declaration.
pub open spec fn flags_def_view(d: FlagsDef) -> (Seq<char>, Seq<char>, Seq<(Seq<char>, Seq<char>)>) {
    (d.name@, d.base_type@, d.values.deep_view())
}

pub open spec fn flags_views(ds: Seq<FlagsDef>) -> Seq<(Seq<char>, Seq<char>, Seq<(Seq<char>, Seq<char>)>)> {
    Seq::new(ds.len(), |j: int| flags_def_view(ds[j]))
}

/// A parsed struct declaration.
pub struct StructDef {
    pub name: String,
    pub fields: Vec<FieldDef>,
}

/// The logical content of a parsed struct: name and field views.
pub open spec fn struct_def_view(d: StructDef) -> (Seq<char>, Seq<(Seq<char>, bool, bool, Seq<char>)>) {
    (d.name@, field_views(d.fields@))
}

pub open spec fn struct_views(ds: Seq<StructDef>) -> Seq<(Seq<char>, Seq<(Seq<char>, bool, bool, Seq<char>)>)> {
    Seq::new(ds.len(), |j: int| struct_def_view(ds[j]))
}

pub open spec fn enum_keyword() -> Seq<char> {
    seq!['e', 'n', 'u', 'm']
}

pub open spec fn flags_keyword() -> Seq<char> {
    seq!['f', 'l', 'a', 'g', 's']
}

/// Every enum declaration of the text, scanning left to right and skipping
/// past each matched block: the matched name and base type, and the entries
/// its body parses to.
pub open spec fn scan_enums(s: Seq<char>, i: int) -> Seq<(Seq<char>, Seq<char>, Seq<(Seq<char>, Seq<char>)>)>
    decreases s.len() - i,
    when 0 <= i
{
    if i >= s.len() {
        Seq::empty()
    } else {
        match spec_match_typed(s, i, enum_keyword()) {
            Some(m) => {
                let next = if m.3 > i {
                    m.3
                } else {
                    i + 1
                };
                seq![(m.0, m.1, enum_entries(spec_lines(m.2), 0))] + scan_enums(s, next)
            },
            None => scan_enums(s, i + 1),
        }
    }
}

/// Every flags declaration of the text.
pub open spec fn scan_flags(s: Seq<char>, i: int) -> Seq<(Seq<char>, Seq<char>, Seq<(Seq<char>, Seq<char>)>)>
    decreases s.len() - i,
    when 0 <= i
{
    if i >= s.len() {
        Seq::empty()
    } else {
        match spec_match_typed(s, i, flags_keyword()) {
            Some(m) => {
                let next = if m.3 > i {
                    m.3
                } else {
                    i + 1
                };
                seq![(m.0, m.1, flags_entries(spec_lines(m.2)))] + scan_flags(s, next)
            },
            None => scan_flags(s, i + 1),
        }
    }
}

/// Every struct declaration of the text.
pub open spec fn scan_structs(s: Seq<char>, i: int) -> Seq<(Seq<char>, Seq<(Seq<char>, bool, bool, Seq<char>)>)>
    decreases s.len() - i,
    when 0 <= i
{
    if i >= s.len() {
        Seq::empty()
    } else {
        match spec_match_struct(s, i) {
            Some(m) => {
                let next = if m.2 > i {
                    m.2
                } else {
                    i + 1
                };
                seq![(m.0, struct_body_fields(spec_lines(m.1)))] + scan_structs(s, next)
            },
            None => scan_structs(s, i + 1),
        }
    }
}

/// The schema compiler's in-memory state: the declarations parsed so far.
pub struct Generator {
    pub enums: Vec<EnumDef>,
    pub flags: Vec<FlagsDef>,
    pub structs: Vec<StructDef>,
}

impl Generator {
    pub fn new() -> (r: Self)
        ensures
            r.enums@.len() == 0,
            r.flags@.len() == 0,
            r.structs@.len() == 0,
    {
        Self { enums: Vec::new(), flags: Vec::new(), structs: Vec::new() }
    }

    /// Extract every `enum Name : base { body }` block: exactly the blocks
    /// `scan_enums` finds in the content are appended, in order, each with
    /// the matched name and base type and the entries its body parses to.
    pub fn parse_enums(&mut self, content: &str) -> (r: Result<(), String>)
        ensures
            r.is_ok(),
            final(self).flags == old(self).flags,
            final(self).structs == old(self).structs,
            final(self).enums@.subrange(0, old(self).enums@.len() as int) == old(self).enums@,
            enum_views(final(self).enums@) =~~= enum_views(old(self).enums@) + scan_enums(
                content@,
                0,
            ),
    {
        let cs = str_chars(content);
        let s = cs.as_slice();
        let n = s.len();
        let kw: [char; 4] = ['e', 'n', 'u', 'm'];
        proof {
            assert(kw@ =~= enum_keyword());
        }
        let ghost n0 = self.enums@.len();
        let mut i: usize = 0;
        proof {
            assert(enum_views(old(self).enums@) + scan_enums(content@, 0) =~~= enum_views(
                self.enums@,
            ) + scan_enums(content@, 0));
        }
        while i < n
            invariant
                0 <= i <= n,
                s@ == content@,
                n == s@.len(),
                kw@ == enum_keyword(),
                self.flags == old(self).flags,
                self.structs == old(self).structs,
                n0 == old(self).enums@.len(),
                self.enums@.len() >= n0,
                self.enums@.subrange(0, n0 as int) == old(self).enums@,
                enum_views(old(self).enums@) + scan_enums(content@, 0) =~~= enum_views(
                    self.enums@,
                ) + scan_enums(content@, i as int),
            decreases n - i,
        {
            match match_typed_block(s, i, kw.as_slice()) {
                Some(m) => {
                    let ghost sm = spec_match_typed(content@, i as int, enum_keyword()).unwrap();
                    let values = parse_enum_body(m.body.as_slice());
                    let next = m.next;
                    proof {
                        assert(next > i);
                    }
                    let def = EnumDef {
                        name: chars_string(m.name.as_slice()),
                        base_type: chars_string(m.base.as_slice()),
                        values,
                    };
                    let ghost before = self.enums@;
                    let ghost dview = enum_def_view(def);
                    proof {
                        assert(dview =~~= (sm.0, sm.1, enum_entries(spec_lines(sm.2), 0)));
                        assert(scan_enums(content@, i as int) =~~= seq![dview] + scan_enums(
                            content@,
                            next as int,
                        ));
                    }
                    self.enums.push(def);
                    proof {
                        assert(self.enums@.subrange(0, n0 as int) =~~= before.subrange(
                            0,
                            n0 as int,
                        ));
                        assert(enum_views(self.enums@) =~~= enum_views(before).push(dview));
                        assert(enum_views(before).push(dview) + scan_enums(content@, next as int)
                            =~~= enum_views(before) + scan_enums(content@, i as int));
                    }
                    i = next;
                },
                None => {
                    proof {
                        assert(scan_enums(content@, i as int) =~~= scan_enums(content@, i + 1));
                    }
                    i = i + 1;
                },
            }
        }
        proof {
            assert(scan_enums(content@, n as int) =~~= Seq::<(
                Seq<char>,
                Seq<char>,
                Seq<(Seq<char>, Seq<char>)>,
            )>::empty());
            assert(enum_views(self.enums@) + Seq::<(
                Seq<char>,
                Seq<char>,
                Seq<(Seq<char>, Seq<char>)>,
            )>::empty() =~~= enum_views(self.enums@));
        }
        Ok(())
    }

    /// Extract every `flags Name : base { body }` block: exactly the blocks
    /// `scan_flags` finds are appended, in order, each with its explicit
    /// entries.
    pub fn parse_flags(&mut self, content: &str) -> (r: Result<(), String>)
        ensures
            r.is_ok(),
            final(self).enums == old(self).enums,
            final(self).structs == old(self).structs,
            final(self).flags@.subrange(0, old(self).flags@.len() as int) == old(self).flags@,
            flags_views(final(self).flags@) =~~= flags_views(old(self).flags@) + scan_flags(
                content@,
                0,
            ),
    {
        let cs = str_chars(content);
        let s = cs.as_slice();
        let n = s.len();
        let kw: [char; 5] = ['f', 'l', 'a', 'g', 's'];
        proof {
            assert(kw@ =~= flags_keyword());
        }
        let ghost n0 = self.flags@.len();
        let mut i: usize = 0;
        proof {
            assert(flags_views(old(self).flags@) + scan_flags(content@, 0) =~~= flags_views(
                self.flags@,
            ) + scan_flags(content@, 0));
        }
        while i < n
            invariant
                0 <= i <= n,
                s@ == content@,
                n == s@.len(),
                kw@ == flags_keyword(),
                self.enums == old(self).enums,
                self.structs == old(self).structs,
                n0 == old(self).flags@.len(),
                self.flags@.len() >= n0,
                self.flags@.subrange(0, n0 as int) == old(self).flags@,
                flags_views(old(self).flags@) + scan_flags(content@, 0) =~~= flags_views(
                    self.flags@,
                ) + scan_flags(content@, i as int),
            decreases n - i,
        {
            match match_typed_block(s, i, kw.as_slice()) {
                Some(m) => {
                    let ghost sm = spec_match_typed(content@, i as int, flags_keyword()).unwrap();
                    let values = parse_flags_body(m.body.as_slice());
                    let next = m.next;
                    proof {
                        assert(next > i);
                    }
                    let def = FlagsDef {
                        name: chars_string(m.name.as_slice()),
                        base_type: chars_string(m.base.as_slice()),
                        values,
                    };
                    let ghost before = self.flags@;
                    let ghost dview = flags_def_view(def);
                    proof {
                        assert(dview =~~= (sm.0, sm.1, flags_entries(spec_lines(sm.2))));
                        assert(scan_flags(content@, i as int) =~~= seq![dview] + scan_flags(
                            content@,
                            next as int,
                        ));
                    }
                    self.flags.push(def);
                    proof {
                        assert(self.flags@.subrange(0, n0 as int) =~~= before.subrange(
                            0,
                            n0 as int,
                        ));
                        assert(flags_views(self.flags@) =~~= flags_views(before).push(dview));
                        assert(flags_views(before).push(dview) + scan_flags(content@, next as int)
                            =~~= flags_views(before) + scan_flags(content@, i as int));
                    }
                    i = next;
                },
                None => {
                    proof {
                        assert(scan_flags(content@, i as int) =~~= scan_flags(content@, i + 1));
                    }
                    i = i + 1;
                },
            }
        }
        proof {
            assert(scan_flags(content@, n as int) =~~= Seq::<(
                Seq<char>,
                Seq<char>,
                Seq<(Seq<char>, Seq<char>)>,
            )>::empty());
            assert(flags_views(self.flags@) + Seq::<(
                Seq<char>,
                Seq<char>,
                Seq<(Seq<char>, Seq<char>)>,
            )>::empty() =~~= flags_views(self.flags@));
        }
        Ok(())
    }

    /// Extract every `struct Name(id)? { body }` block: exactly the blocks
    /// `scan_structs` finds are appended, in order, each with the fields its
    /// body's lines yield.
    pub fn parse_structs(&mut self, content: &str) -> (r: Result<(), String>)
        ensures
            r.is_ok(),
            final(self).enums == old(self).enums,
            final(self).flags == old(self).flags,
            final(self).structs@.subrange(0, old(self).structs@.len() as int) == old(
                self,
            ).structs@,
            struct_views(final(self).structs@) =~~= struct_views(old(self).structs@)
                + scan_structs(content@, 0),
    {
        let cs = str_chars(content);
        let s = cs.as_slice();
        let n = s.len();
        let ghost n0 = self.structs@.len();
        let mut i: usize = 0;
        proof {
            assert(struct_views(old(self).structs@) + scan_structs(content@, 0) =~~=
                struct_views(self.structs@) + scan_structs(content@, 0));
        }
        while i < n
            invariant
                0 <= i <= n,
                s@ == content@,
                n == s@.len(),
                self.enums == old(self).enums,
                self.flags == old(self).flags,
                n0 == old(self).structs@.len(),
                self.structs@.len() >= n0,
                self.structs@.subrange(0, n0 as int) == old(self).structs@,
                struct_views(old(self).structs@) + scan_structs(content@, 0) =~~= struct_views(
                    self.structs@,
                ) + scan_structs(content@, i as int),
            decreases n - i,
        {
            match match_struct_block(s, i) {
                Some(m) => {
                    let ghost sm = spec_match_struct(content@, i as int).unwrap();
                    let fields = parse_struct_body(m.body.as_slice());
                    let next = m.next;
                    proof {
                        assert(next > i);
                    }
                    let def = StructDef { name: chars_string(m.name.as_slice()), fields };
                    let ghost before = self.structs@;
                    let ghost dview = struct_def_view(def);
                    proof {
                        assert(dview =~~= (sm.0, struct_body_fields(spec_lines(sm.1))));
                        assert(scan_structs(content@, i as int) =~~= seq![dview] + scan_structs(
                            content@,
                            next as int,
                        ));
                    }
                    self.structs.push(def);
                    proof {
                        assert(self.structs@.subrange(0, n0 as int) =~~= before.subrange(
                            0,
                            n0 as int,
                        ));
                        assert(struct_views(self.structs@) =~~= struct_views(before).push(dview));
                        assert(struct_views(before).push(dview) + scan_structs(
                            content@,
                            next as int,
                        ) =~~= struct_views(before) + scan_structs(content@, i as int));
                    }
                    i = next;
                },
                None => {
                    proof {
                        assert(scan_structs(content@, i as int) =~~= scan_structs(
                            content@,
                            i + 1,
                        ));
                    }
                    i = i + 1;
                },
            }
        }
        proof {
            assert(scan_structs(content@, n as int) =~~= Seq::<(
                Seq<char>,
                Seq<(Seq<char>, bool, bool, Seq<char>)>,
            )>::empty());
            assert(struct_views(self.structs@) + Seq::<(
                Seq<char>,
                Seq<(Seq<char>, bool, bool, Seq<char>)>,
            )>::empty() =~~= struct_views(self.structs@));
        }
        Ok(())
    }

    /// Parse a whole schema: enums, then flags, then structs, one pass each;
    /// each pass appends exactly what its scan finds.
    pub fn parse(&mut self, content: &str) -> (r: Result<(), String>)
        ensures
            r.is_ok(),
            final(self).enums@.subrange(0, old(self).enums@.len() as int) == old(self).enums@,
            final(self).flags@.subrange(0, old(self).flags@.len() as int) == old(self).flags@,
            final(self).structs@.subrange(0, old(self).structs@.len() as int) == old(
                self,
            ).structs@,
            enum_views(final(self).enums@) =~~= enum_views(old(self).enums@) + scan_enums(
                content@,
                0,
            ),
            flags_views(final(self).flags@) =~~= flags_views(old(self).flags@) + scan_flags(
                content@,
                0,
            ),
            struct_views(final(self).structs@) =~~= struct_views(old(self).structs@)
                + scan_structs(content@, 0),
    {
        let r1 = self.parse_enums(content);
        let r2 = self.parse_flags(content);
        let r3 = self.parse_structs(content);
        Ok(())
    }
}

/// Relies on `str::chars`: yields the string's characters in order.
#[verifier::external_body]
fn str_chars(s: &str) -> (r: Vec<char>)
    ensures
        r@ == s@,
{
    s.chars().collect()
}

/// Whether two strings hold the same characters.
fn text_is(a: &str, b: &str) -> (r: bool)
    ensures
        r == (a@ == b@),
{
    let ab = a.as_bytes();
    let bb = b.as_bytes();
    let n = ab.len();
    proof {
        vstd::utf8::encode_utf8_decode_utf8(a@);
        vstd::utf8::encode_utf8_decode_utf8(b@);
    }
    if n != bb.len() {
        return false;
    }
    let mut i: usize = 0;
    while i < n
        invariant
            0 <= i <= n,
            n == ab@.len(),
            n == bb@.len(),
            ab@ == a.spec_bytes(),
            bb@ == b.spec_bytes(),
            vstd::utf8::decode_utf8(a.spec_bytes()) == a@,
            vstd::utf8::decode_utf8(b.spec_bytes()) == b@,
            forall|k: int| 0 <= k < i ==> #[trigger] ab@[k] == bb@[k],
        decreases n - i,
    {
        if ab[i] != bb[i] {
            return false;
        }
        i = i + 1;
    }
    proof {
        assert(a.spec_bytes() =~= b.spec_bytes());
    }
    true
}

/// Map a schema primitive type name to the target language's type; unknown
/// names pass through as previously declared entities.
pub open spec fn spec_map_fbe_type(t: Seq<char>) -> Seq<char> {
    if t == "bool"@ {
        "bool"@
    } else if t == "byte"@ || t == "int8"@ {
        "i8"@
    } else if t == "uint8"@ {
        "u8"@
    } else if t == "int16"@ {
        "i16"@
    } else if t == "uint16"@ {
        "u16"@
    } else if t == "int32"@ {
        "i32"@
    } else if t == "uint32"@ {
        "u32"@
    } else if t == "int64"@ {
        "i64"@
    } else if t == "uint64"@ {
        "u64"@
    } else if t == "float"@ {
        "f32"@
    } else if t == "double"@ {
        "f64"@
    } else if t == "string"@ {
        "String"@
    } else {
        t
    }
}

pub fn map_fbe_type(fbe_type: &str) -> (r: String)
    ensures
        r@ == spec_map_fbe_type(fbe_type@),
{
    if text_is(fbe_type, "bool") {
        String::from_str("bool")
    } else if text_is(fbe_type, "byte") || text_is(fbe_type, "int8") {
        String::from_str("i8")
    } else if text_is(fbe_type, "uint8") {
        String::from_str("u8")
    } else if text_is(fbe_type, "int16") {
        String::from_str("i16")
    } else if text_is(fbe_type, "uint16") {
        String::from_str("u16")
    } else if text_is(fbe_type, "int32") {
        String::from_str("i32")
    } else if text_is(fbe_type, "uint32") {
        String::from_str("u32")
    } else if text_is(fbe_type, "int64") {
        String::from_str("i64")
    } else if text_is(fbe_type, "uint64") {
        String::from_str("u64")
    } else if text_is(fbe_type, "float") {
        String::from_str("f32")
    } else if text_is(fbe_type, "double") {
        String::from_str("f64")
    } else if text_is(fbe_type, "string") {
        String::from_str("String")
    } else {
        fbe_type.to_owned()
    }
}

/// The buffer method a field type is written with.
pub open spec fn spec_write_method(t: Seq<char>) -> Seq<char> {
    if t == "bool"@ {
        "write_bool"@
    } else if t == "byte"@ || t == "int8"@ {
        "write_i8"@
    } else if t == "uint8"@ {
        "write_u8"@
    } else if t == "int16"@ {
        "write_i16"@
    } else if t == "uint16"@ {
        "write_u16"@
    } else if t == "int32"@ {
        "write_i32"@
    } else if t == "uint32"@ {
        "write_u32"@
    } else if t == "int64"@ {
        "write_i64"@
    } else if t == "uint64"@ {
        "write_u64"@
    } else if t == "float"@ {
        "write_f32"@
    } else if t == "double"@ {
        "write_f64"@
    } else if t == "string"@ {
        "write_string"@
    } else {
        "write_i32"@
    }
}

pub fn get_write_method(fbe_type: &str) -> (r: String)
    ensures
        r@ == spec_write_method(fbe_type@),
{
    if text_is(fbe_type, "bool") {
        String::from_str("write_bool")
    } else if text_is(fbe_type, "byte") || text_is(fbe_type, "int8") {
        String::from_str("write_i8")
    } else if text_is(fbe_type, "uint8") {
        String::from_str("write_u8")
    } else if text_is(fbe_type, "int16") {
        String::from_str("write_i16")
    } else if text_is(fbe_type, "uint16") {
        String::from_str("write_u16")
    } else if text_is(fbe_type, "int32") {
        String::from_str("write_i32")
    } else if text_is(fbe_type, "uint32") {
        String::from_str("write_u32")
    } else if text_is(fbe_type, "int64") {
        String::from_str("write_i64")
    } else if text_is(fbe_type, "uint64") {
        String::from_str("write_u64")
    } else if text_is(fbe_type, "float") {
        String::from_str("write_f32")
    } else if text_is(fbe_type, "double") {
        String::from_str("write_f64")
    } else if text_is(fbe_type, "string") {
        String::from_str("write_string")
    } else {
        String::from_str("write_i32")
    }
}

/// The buffer method a field type is read with.
pub open spec fn spec_read_method(t: Seq<char>) -> Seq<char> {
    if t == "bool"@ {
        "read_bool"@
    } else if t == "byte"@ || t == "int8"@ {
        "read_i8"@
    } else if t == "uint8"@ {
        "read_u8"@
    } else if t == "int16"@ {
        "read_i16"@
    } else if t == "uint16"@ {
        "read_u16"@
    } else if t == "int32"@ {
        "read_i32"@
    } else if t == "uint32"@ {
        "read_u32"@
    } else if t == "int64"@ {
        "read_i64"@
    } else if t == "uint64"@ {
        "read_u64"@
    } else if t == "float"@ {
        "read_f32"@
    } else if t == "double"@ {
        "read_f64"@
    } else if t == "string"@ {
        "read_string"@
    } else {
        "read_i32"@
    }
}

pub fn get_read_method(fbe_type: &str) -> (r: String)
    ensures
        r@ == spec_read_method(fbe_type@),
{
    if text_is(fbe_type, "bool") {
        String::from_str("read_bool")
    } else if text_is(fbe_type, "byte") || text_is(fbe_type, "int8") {
        String::from_str("read_i8")
    } else if text_is(fbe_type, "uint8") {
        String::from_str("read_u8")
    } else if text_is(fbe_type, "int16") {
        String::from_str("read_i16")
    } else if text_is(fbe_type, "uint16") {
        String::from_str("read_u16")
    } else if text_is(fbe_type, "int32") {
        String::from_str("read_i32")
    } else if text_is(fbe_type, "uint32") {
        String::from_str("read_u32")
    } else if text_is(fbe_type, "int64") {
        String::from_str("read_i64")
    } else if text_is(fbe_type, "uint64") {
        String::from_str("read_u64")
    } else if text_is(fbe_type, "float") {
        String::from_str("read_f32")
    } else if text_is(fbe_type, "double") {
        String::from_str("read_f64")
    } else if text_is(fbe_type, "string") {
        String::from_str("read_string")
    } else {
        String::from_str("read_i32")
    }
}

/// The fixed wire width of a primitive field type, four for the rest.
pub open spec fn spec_type_size(t: Seq<char>) -> int {
    if t == "bool"@ || t == "byte"@ || t == "int8"@ || t == "uint8"@ {
        1
    } else if t == "int16"@ || t == "uint16"@ {
        2
    } else if t == "int64"@ || t == "uint64"@ || t == "double"@ {
        8
    } else {
        4
    }
}

pub fn get_type_size(fbe_type: &str) -> (r: usize)
    ensures
        r == spec_type_size(fbe_type@),
{
    if text_is(fbe_type, "bool") || text_is(fbe_type, "byte") || text_is(fbe_type, "int8")
        || text_is(fbe_type, "uint8") {
        1
    } else if text_is(fbe_type, "int16") || text_is(fbe_type, "uint16") {
        2
    } else if text_is(fbe_type, "int64") || text_is(fbe_type, "uint64") || text_is(
        fbe_type,
        "double",
    ) {
        8
    } else {
        4
    }
}

/// An ASCII uppercase letter.
pub open spec fn is_upper_char(c: char) -> bool {
    'A' <= c && c <= 'Z'
}

/// The ASCII lowercase counterpart of a character.
pub open spec fn spec_lower(c: char) -> char {
    if is_upper_char(c) {
        (((c as int) + 32) as u8) as char
    } else {
        c
    }
}

/// The ASCII uppercase counterpart of a character.
pub open spec fn spec_upper(c: char) -> char {
    if 'a' <= c && c <= 'z' {
        (((c as int) - 32) as u8) as char
    } else {
        c
    }
}

fn lower_char(c: char) -> (r: char)
    ensures
        r == spec_lower(c),
{
    if 'A' <= c && c <= 'Z' {
        (((c as u8) + 32)) as char
    } else {
        c
    }
}

fn upper_char(c: char) -> (r: char)
    ensures
        r == spec_upper(c),
{
    if 'a' <= c && c <= 'z' {
        (((c as u8) - 32)) as char
    } else {
        c
    }
}

/// The snake-case form of a name: an underscore before each interior
/// uppercase letter, everything lowered.
pub open spec fn spec_snake(s: Seq<char>) -> Seq<char>
    decreases s.len(),
{
    if s.len() == 0 {
        Seq::empty()
    } else {
        spec_snake(s.drop_last()) + (if is_upper_char(s.last()) && s.len() > 1 {
            seq!['_', spec_lower(s.last())]
        } else {
            seq![spec_lower(s.last())]
        })
    }
}

pub fn to_snake_case(s: &str) -> (r: String)
    ensures
        r@ == spec_snake(s@),
{
    let cs = str_chars(s);
    let n = cs.len();
    let mut out: Vec<char> = Vec::new();
    proof {
        assert(s@.take(0) =~= Seq::<char>::empty());
        assert(out@ =~= spec_snake(s@.take(0)));
    }
    let mut i: usize = 0;
    while i < n
        invariant
            0 <= i <= n,
            n == cs@.len(),
            cs@ == s@,
            out@ == spec_snake(s@.take(i as int)),
        decreases n - i,
    {
        let c = cs[i];
        proof {
            assert(s@.take(i + 1).drop_last() =~= s@.take(i as int));
            assert(s@.take(i + 1).last() == s@[i as int]);
        }
        if i > 0 && 'A' <= c && c <= 'Z' {
            out.push('_');
        }
        out.push(lower_char(c));
        proof {
            assert(out@ =~= spec_snake(s@.take(i + 1)));
        }
        i = i + 1;
    }
    proof {
        assert(s@.take(n as int) =~= s@);
    }
    crate::field_model::chars_to_text(&out)
}

/// The pascal-case form of a name: the first character uppercased.
pub open spec fn spec_pascal(s: Seq<char>) -> Seq<char> {
    seq![spec_upper(s[0])] + s.drop_first()
}

pub fn to_pascal_case(s: &str) -> (r: String)
    requires
        s@.len() > 0,
    ensures
        r@ == spec_pascal(s@),
{
    let cs = str_chars(s);
    let mut out: Vec<char> = Vec::new();
    out.push(upper_char(cs[0]));
    let n = cs.len();
    let mut i: usize = 1;
    while i < n
        invariant
            1 <= i <= n,
            n == cs@.len(),
            cs@ == s@,
            n > 0,
            out@ =~= seq![spec_upper(s@[0])] + s@.subrange(1, i as int),
        decreases n - i,
    {
        let c = cs[i];
        out.push(c);
        proof {
            assert(out@ =~= seq![spec_upper(s@[0])] + s@.subrange(1, i + 1));
        }
        i = i + 1;
    }
    proof {
        assert(s@.subrange(1, n as int) =~= s@.drop_first());
        assert(out@ =~= spec_pascal(s@));
    }
    crate::field_model::chars_to_text(&out)
}

/// Every character uppercased.
pub open spec fn spec_upper_all(s: Seq<char>) -> Seq<char>
    decreases s.len(),
{
    if s.len() == 0 {
        Seq::empty()
    } else {
        spec_upper_all(s.drop_last()).push(spec_upper(s.last()))
    }
}

/// The screaming-snake-case form of a name: snake case, then uppercased.
pub open spec fn spec_screaming(s: Seq<char>) -> Seq<char> {
    spec_upper_all(spec_snake(s))
}

pub fn to_screaming_snake_case(s: &str) -> (r: String)
    ensures
        r@ == spec_screaming(s@),
{
    let snake = to_snake_case(s);
    let cs = str_chars(snake.as_str());
    let n = cs.len();
    let mut out: Vec<char> = Vec::new();
    proof {
        assert(cs@.take(0) =~= Seq::<char>::empty());
        assert(out@ =~= spec_upper_all(cs@.take(0)));
    }
    let mut i: usize = 0;
    while i < n
        invariant
            0 <= i <= n,
            n == cs@.len(),
            cs@ == spec_snake(s@),
            out@ == spec_upper_all(cs@.take(i as int)),
        decreases n - i,
    {
        let c = cs[i];
        proof {
            assert(cs@.take(i + 1).drop_last() =~= cs@.take(i as int));
            assert(cs@.take(i + 1).last() == cs@[i as int]);
        }
        out.push(upper_char(c));
        i = i + 1;
    }
    proof {
        assert(cs@.take(n as int) =~= cs@);
    }
    crate::field_model::chars_to_text(&out)
}

/// A name that collides with a keyword of the target language gets a raw
/// identifier prefix.
pub open spec fn spec_escape(s: Seq<char>) -> Seq<char> {
    if s == "type"@ || s == "match"@ || s == "loop"@ || s == "move"@ || s == "ref"@ || s
        == "self"@ || s == "Self"@ {
        "r#"@ + s
    } else {
        s
    }
}

pub fn escape_keyword(s: &str) -> (r: String)
    ensures
        r@ == spec_escape(s@),
{
    if text_is(s, "type") || text_is(s, "match") || text_is(s, "loop") || text_is(s, "move")
        || text_is(s, "ref") || text_is(s, "self") || text_is(s, "Self") {
        let mut out = String::from_str("r#");
        out.append(s);
        out
    } else {
        s.to_owned()
    }
}

/// One rendered enum entry line.
pub open spec fn render_enum_entry(key: Seq<char>) -> Seq<char> {
    "    "@ + spec_pascal(spec_escape(key)) + ",\n"@
}

/// The rendered entry lines of an enum, in order.
pub open spec fn render_enum_entries(vs: Seq<(Seq<char>, Seq<char>)>) -> Seq<char>
    decreases vs.len(),
{
    if vs.len() == 0 {
        Seq::empty()
    } else {
        render_enum_entries(vs.drop_last()) + render_enum_entry(vs.last().0)
    }
}

/// The rendered compilation unit of an enum.
pub open spec fn render_enum(name: Seq<char>, base: Seq<char>, vs: Seq<(Seq<char>, Seq<char>)>) -> Seq<char> {
    "//! "@ + name + " enum\n\n#[derive(Debug, Clone, Copy, PartialEq, Eq)]\n#[repr("@
        + spec_map_fbe_type(base) + ")]\npub enum "@ + name + " {\n"@ + render_enum_entries(vs)
        + "}\n"@
}

/// One rendered flag constant line.
pub open spec fn render_flag_entry(key: Seq<char>, val: Seq<char>, base: Seq<char>) -> Seq<char> {
    "pub const "@ + spec_screaming(spec_escape(key)) + ": "@ + spec_map_fbe_type(base) + " = "@
        + val + ";\n"@
}

/// The rendered constant lines of a flags declaration, in order.
pub open spec fn render_flag_entries(vs: Seq<(Seq<char>, Seq<char>)>, base: Seq<char>) -> Seq<char>
    decreases vs.len(),
{
    if vs.len() == 0 {
        Seq::empty()
    } else {
        render_flag_entries(vs.drop_last(), base) + render_flag_entry(
            vs.last().0,
            vs.last().1,
            base,
        )
    }
}

/// The rendered compilation unit of a flags declaration.
pub open spec fn render_flags(name: Seq<char>, base: Seq<char>, vs: Seq<(Seq<char>, Seq<char>)>) -> Seq<char> {
    "//! "@ + name + " flags\n\n"@ + render_flag_entries(vs, base)
}

/// The target-language type of a field, with its optional and array
/// wrappers.
pub open spec fn spec_field_type(f: FieldDef) -> Seq<char> {
    let base = spec_map_fbe_type(f.fbe_type@);
    if f.is_array {
        if f.is_optional {
            "Option<Vec<"@ + base + ">>"@
        } else {
            "Vec<"@ + base + ">"@
        }
    } else if f.is_optional {
        "Option<"@ + base + ">"@
    } else {
        base
    }
}

/// One rendered field declaration line.
pub open spec fn render_field_decl(f: FieldDef) -> Seq<char> {
    "    pub "@ + f.name@ + ": "@ + spec_field_type(f) + ",\n"@
}

pub open spec fn render_field_decls(fs: Seq<FieldDef>) -> Seq<char>
    decreases fs.len(),
{
    if fs.len() == 0 {
        Seq::empty()
    } else {
        render_field_decls(fs.drop_last()) + render_field_decl(fs.last())
    }
}

/// One rendered serialization statement pair.
pub open spec fn render_ser_field(f: FieldDef) -> Seq<char> {
    if f.fbe_type@ == "string"@ {
        "        buffer.write_string(offset, &self."@ + f.name@ + ");\n        offset += 4 + self."@
            + f.name@ + ".len();\n"@
    } else {
        "        buffer."@ + spec_write_method(f.fbe_type@) + "(offset, self."@ + f.name@
            + ");\n        offset += "@ + dec_digits(spec_type_size(f.fbe_type@) as nat) + ";\n"@
    }
}

pub open spec fn render_ser_fields(fs: Seq<FieldDef>) -> Seq<char>
    decreases fs.len(),
{
    if fs.len() == 0 {
        Seq::empty()
    } else {
        render_ser_fields(fs.drop_last()) + render_ser_field(fs.last())
    }
}

/// One rendered deserialization initializer line.
pub open spec fn render_deser_field(f: FieldDef) -> Seq<char> {
    if f.fbe_type@ == "string"@ {
        "            "@ + f.name@
            + ": { let val = buffer.read_string(offset); offset += 4 + val.len(); val },\n"@
    } else {
        "            "@ + f.name@ + ": { let val = buffer."@ + spec_read_method(f.fbe_type@)
            + "(offset); offset += "@ + dec_digits(spec_type_size(f.fbe_type@) as nat)
            + "; val },\n"@
    }
}

pub open spec fn render_deser_fields(fs: Seq<FieldDef>) -> Seq<char>
    decreases fs.len(),
{
    if fs.len() == 0 {
        Seq::empty()
    } else {
        render_deser_fields(fs.drop_last()) + render_deser_field(fs.last())
    }
}

/// The rendered compilation unit of a struct: the type, a serialize method
/// and a deserialize method over the buffer's accessors.
pub open spec fn render_struct(name: Seq<char>, fs: Seq<FieldDef>) -> Seq<char> {
    "//! "@ + name
        + " struct\n\nuse crate::buffer::{{WriteBuffer, ReadBuffer}};\n\n#[derive(Debug, Clone, Default)]\npub struct "@
        + name + " {\n"@ + render_field_decls(fs)
        + "}\n\nimpl "@ + name
        + " {\n    pub fn serialize(&self, buffer: &mut WriteBuffer) -> usize {\n        let mut offset = 0;\n"@
        + render_ser_fields(fs)
        + "        offset\n    }\n\n    pub fn deserialize(buffer: &ReadBuffer) -> Self {\n        let mut offset = 0;\n        Self {\n"@
        + render_deser_fields(fs) + "        }\n    }\n}\n"@
}

/// The rendered module manifest lines for a run of unit names.
pub open spec fn render_mod_lines(names: Seq<Seq<char>>) -> Seq<char>
    decreases names.len(),
{
    if names.len() == 0 {
        Seq::empty()
    } else {
        render_mod_lines(names.drop_last()) + "pub mod "@ + spec_snake(names.last()) + ";\n"@
    }
}

impl Generator {
    /// Render one enum: its unit's file stem and code.
    pub fn generate_enum(&self, def: &EnumDef) -> (r: (String, String))
        requires
            forall|j: int| 0 <= j < def.values@.len() ==> (#[trigger] def.values@[j].0)@.len() > 0,
        ensures
            r.0@ == spec_snake(def.name@),
            r.1@ == render_enum(def.name@, def.base_type@, def.values.deep_view()),
    {
        let stem = to_snake_case(def.name.as_str());
        let rust_type = map_fbe_type(def.base_type.as_str());
        let mut code = String::from_str("//! ");
        code.append(def.name.as_str());
        code.append(" enum\n\n#[derive(Debug, Clone, Copy, PartialEq, Eq)]\n#[repr(");
        code.append(rust_type.as_str());
        code.append(")]\npub enum ");
        code.append(def.name.as_str());
        code.append(" {\n");
        let ghost header = "//! "@ + def.name@
            + " enum\n\n#[derive(Debug, Clone, Copy, PartialEq, Eq)]\n#[repr("@
            + spec_map_fbe_type(def.base_type@) + ")]\npub enum "@ + def.name@ + " {\n"@;
        let ghost vs = def.values.deep_view();
        proof {
            assert(code@ =~~= header + render_enum_entries(vs.take(0)));
        }
        let n = def.values.len();
        let mut i: usize = 0;
        while i < n
            invariant
                0 <= i <= n,
                n == def.values@.len(),
                vs == def.values.deep_view(),
                forall|j: int|
                    0 <= j < def.values@.len() ==> (#[trigger] def.values@[j].0)@.len() > 0,
                code@ == header + render_enum_entries(vs.take(i as int)),
            decreases n - i,
        {
            proof {
                assert(vs[i as int] == (def.values@[i as int].0@, def.values@[i as int].1@));
                assert(vs.take(i + 1).drop_last() =~~= vs.take(i as int));
                assert(vs.take(i + 1).last() == vs[i as int]);
                reveal_strlit("r#");
            }
            let escaped = escape_keyword(def.values[i].0.as_str());
            let cased = to_pascal_case(escaped.as_str());
            code.append("    ");
            code.append(cased.as_str());
            code.append(",\n");
            proof {
                assert(code@ =~~= header + render_enum_entries(vs.take(i + 1)));
            }
            i = i + 1;
        }
        code.append("}\n");
        proof {
            assert(vs.take(n as int) =~~= vs);
            assert(code@ =~~= render_enum(def.name@, def.base_type@, vs));
        }
        (stem, code)
    }

    /// Render one flags declaration: its unit's file stem and code.
    pub fn generate_flags(&self, def: &FlagsDef) -> (r: (String, String))
        ensures
            r.0@ == spec_snake(def.name@),
            r.1@ == render_flags(def.name@, def.base_type@, def.values.deep_view()),
    {
        let stem = to_snake_case(def.name.as_str());
        let mut code = String::from_str("//! ");
        code.append(def.name.as_str());
        code.append(" flags\n\n");
        let ghost header = "//! "@ + def.name@ + " flags\n\n"@;
        let ghost vs = def.values.deep_view();
        proof {
            assert(code@ =~~= header + render_flag_entries(vs.take(0), def.base_type@));
        }
        let n = def.values.len();
        let mut i: usize = 0;
        while i < n
            invariant
                0 <= i <= n,
                n == def.values@.len(),
                vs == def.values.deep_view(),
                code@ == header + render_flag_entries(vs.take(i as int), def.base_type@),
            decreases n - i,
        {
            proof {
                assert(vs[i as int] == (def.values@[i as int].0@, def.values@[i as int].1@));
                assert(vs.take(i + 1).drop_last() =~~= vs.take(i as int));
                assert(vs.take(i + 1).last() == vs[i as int]);
            }
            let escaped = escape_keyword(def.values[i].0.as_str());
            let const_name = to_screaming_snake_case(escaped.as_str());
            let rust_type = map_fbe_type(def.base_type.as_str());
            code.append("pub const ");
            code.append(const_name.as_str());
            code.append(": ");
            code.append(rust_type.as_str());
            code.append(" = ");
            code.append(def.values[i].1.as_str());
            code.append(";\n");
            proof {
                assert(code@ =~~= header + render_flag_entries(vs.take(i + 1), def.base_type@));
            }
            i = i + 1;
        }
        proof {
            assert(vs.take(n as int) =~~= vs);
            assert(code@ =~~= render_flags(def.name@, def.base_type@, vs));
        }
        (stem, code)
    }

    /// Render the field declaration line of one field.
    fn field_type_text(&self, field: &FieldDef) -> (r: String)
        ensures
            r@ == spec_field_type(*field),
    {
        let base = map_fbe_type(field.fbe_type.as_str());
        if field.is_array {
            if field.is_optional {
                let mut t = String::from_str("Option<Vec<");
                t.append(base.as_str());
                t.append(">>");
                t
            } else {
                let mut t = String::from_str("Vec<");
                t.append(base.as_str());
                t.append(">");
                t
            }
        } else if field.is_optional {
            let mut t = String::from_str("Option<");
            t.append(base.as_str());
            t.append(">");
            t
        } else {
            base
        }
    }

    /// Render one struct: its unit's file stem and code, with a serialize
    /// and deserialize method per field in declaration order.
    pub fn generate_struct(&self, def: &StructDef) -> (r: (String, String))
        ensures
            r.0@ == spec_snake(def.name@),
            r.1@ == render_struct(def.name@, def.fields@),
    {
        let stem = to_snake_case(def.name.as_str());
        let ghost fs = def.fields@;
        let n = def.fields.len();
        let mut decls = String::new();
        let mut sers = String::new();
        let mut desers = String::new();
        proof {
            assert(decls@ =~~= render_field_decls(fs.take(0)));
            assert(sers@ =~~= render_ser_fields(fs.take(0)));
            assert(desers@ =~~= render_deser_fields(fs.take(0)));
        }
        let mut i: usize = 0;
        while i < n
            invariant
                0 <= i <= n,
                n == fs.len(),
                fs == def.fields@,
                decls@ == render_field_decls(fs.take(i as int)),
                sers@ == render_ser_fields(fs.take(i as int)),
                desers@ == render_deser_fields(fs.take(i as int)),
            decreases n - i,
        {
            let field = &def.fields[i];
            proof {
                assert(fs.take(i + 1).drop_last() =~~= fs.take(i as int));
                assert(fs.take(i + 1).last() == fs[i as int]);
            }
            let ftype = self.field_type_text(field);
            decls.append("    pub ");
            decls.append(field.name.as_str());
            decls.append(": ");
            decls.append(ftype.as_str());
            decls.append(",\n");
            if text_is(field.fbe_type.as_str(), "string") {
                sers.append("        buffer.write_string(offset, &self.");
                sers.append(field.name.as_str());
                sers.append(");\n        offset += 4 + self.");
                sers.append(field.name.as_str());
                sers.append(".len();\n");
                desers.append("            ");
                desers.append(field.name.as_str());
                desers.append(
                    ": { let val = buffer.read_string(offset); offset += 4 + val.len(); val },\n",
                );
            } else {
                let wm = get_write_method(field.fbe_type.as_str());
                let rm = get_read_method(field.fbe_type.as_str());
                let size = get_type_size(field.fbe_type.as_str());
                let digits = usize_to_decimal(size);
                let digits_text = crate::field_model::chars_to_text(&digits);
                sers.append("        buffer.");
                sers.append(wm.as_str());
                sers.append("(offset, self.");
                sers.append(field.name.as_str());
                sers.append(");\n        offset += ");
                sers.append(digits_text.as_str());
                sers.append(";\n");
                desers.append("            ");
                desers.append(field.name.as_str());
                desers.append(": { let val = buffer.");
                desers.append(rm.as_str());
                desers.append("(offset); offset += ");
                desers.append(digits_text.as_str());
                desers.append("; val },\n");
            }
            proof {
                assert(decls@ =~~= render_field_decls(fs.take(i + 1)));
                assert(sers@ =~~= render_ser_fields(fs.take(i + 1)));
                assert(desers@ =~~= render_deser_fields(fs.take(i + 1)));
            }
            i = i + 1;
        }
        proof {
            assert(fs.take(n as int) =~~= fs);
        }
        let mut code = String::from_str("//! ");
        code.append(def.name.as_str());
        code.append(
            " struct\n\nuse crate::buffer::{{WriteBuffer, ReadBuffer}};\n\n#[derive(Debug, Clone, Default)]\npub struct ",
        );
        code.append(def.name.as_str());
        code.append(" {\n");
        code.append(decls.as_str());
        code.append("}\n\nimpl ");
        code.append(def.name.as_str());
        code.append(
            " {\n    pub fn serialize(&self, buffer: &mut WriteBuffer) -> usize {\n        let mut offset = 0;\n",
        );
        code.append(sers.as_str());
        code.append(
            "        offset\n    }\n\n    pub fn deserialize(buffer: &ReadBuffer) -> Self {\n        let mut offset = 0;\n        Self {\n",
        );
        code.append(desers.as_str());
        code.append("        }\n    }\n}\n");
        proof {
            assert(code@ =~~= render_struct(def.name@, fs));
        }
        (stem, code)
    }

    /// Render the module manifest that enumerates every generated unit.
    pub fn generate_mod_file(&self) -> (r: String)
        ensures
            r@ == "//! Generated FBE modules\n\n"@ + render_mod_lines(
                Seq::new(self.enums@.len(), |j: int| self.enums@[j].name@),
            ) + render_mod_lines(Seq::new(self.flags@.len(), |j: int| self.flags@[j].name@))
                + render_mod_lines(
                Seq::new(self.structs@.len(), |j: int| self.structs@[j].name@),
            ),
    {
        let ghost enames = Seq::new(self.enums@.len(), |j: int| self.enums@[j].name@);
        let ghost fnames = Seq::new(self.flags@.len(), |j: int| self.flags@[j].name@);
        let ghost snames = Seq::new(self.structs@.len(), |j: int| self.structs@[j].name@);
        let mut code = String::from_str("//! Generated FBE modules\n\n");
        let ghost header = "//! Generated FBE modules\n\n"@;
        proof {
            assert(code@ =~~= header + render_mod_lines(enames.take(0)));
        }
        let n1 = self.enums.len();
        let mut i: usize = 0;
        while i < n1
            invariant
                0 <= i <= n1,
                n1 == self.enums@.len(),
                enames == Seq::new(self.enums@.len(), |j: int| self.enums@[j].name@),
                code@ == header + render_mod_lines(enames.take(i as int)),
            decreases n1 - i,
        {
            proof {
                assert(enames.take(i + 1).drop_last() =~~= enames.take(i as int));
            }
            let stem = to_snake_case(self.enums[i].name.as_str());
            code.append("pub mod ");
            code.append(stem.as_str());
            code.append(";\n");
            proof {
                assert(code@ =~~= header + render_mod_lines(enames.take(i + 1)));
            }
            i = i + 1;
        }
        proof {
            assert(enames.take(n1 as int) =~~= enames);
            assert(code@ =~~= header + render_mod_lines(enames) + render_mod_lines(
                fnames.take(0),
            ));
        }
        let n2 = self.flags.len();
        let mut i2: usize = 0;
        while i2 < n2
            invariant
                0 <= i2 <= n2,
                n2 == self.flags@.len(),
                enames == Seq::new(self.enums@.len(), |j: int| self.enums@[j].name@),
                fnames == Seq::new(self.flags@.len(), |j: int| self.flags@[j].name@),
                code@ == header + render_mod_lines(enames) + render_mod_lines(
                    fnames.take(i2 as int),
                ),
            decreases n2 - i2,
        {
            proof {
                assert(fnames.take(i2 + 1).drop_last() =~~= fnames.take(i2 as int));
            }
            let stem = to_snake_case(self.flags[i2].name.as_str());
            code.append("pub mod ");
            code.append(stem.as_str());
            code.append(";\n");
            proof {
                assert(code@ =~~= header + render_mod_lines(enames) + render_mod_lines(
                    fnames.take(i2 + 1),
                ));
            }
            i2 = i2 + 1;
        }
        proof {
            assert(fnames.take(n2 as int) =~~= fnames);
            assert(code@ =~~= header + render_mod_lines(enames) + render_mod_lines(fnames)
                + render_mod_lines(snames.take(0)));
        }
        let n3 = self.structs.len();
        let mut i3: usize = 0;
        while i3 < n3
            invariant
                0 <= i3 <= n3,
                n3 == self.structs@.len(),
                enames == Seq::new(self.enums@.len(), |j: int| self.enums@[j].name@),
                fnames == Seq::new(self.flags@.len(), |j: int| self.flags@[j].name@),
                snames == Seq::new(self.structs@.len(), |j: int| self.structs@[j].name@),
                code@ == header + render_mod_lines(enames) + render_mod_lines(fnames)
                    + render_mod_lines(snames.take(i3 as int)),
            decreases n3 - i3,
        {
            proof {
                assert(snames.take(i3 + 1).drop_last() =~~= snames.take(i3 as int));
            }
            let stem = to_snake_case(self.structs[i3].name.as_str());
            code.append("pub mod ");
            code.append(stem.as_str());
            code.append(";\n");
            proof {
                assert(code@ =~~= header + render_mod_lines(enames) + render_mod_lines(fnames)
                    + render_mod_lines(snames.take(i3 + 1)));
            }
            i3 = i3 + 1;
        }
        proof {
            assert(snames.take(n3 as int) =~~= snames);
        }
        code
    }

    /// Render every compilation unit: one per declaration, then the module
    /// manifest under the stem `mod`.
    pub fn generate_code(&self) -> (r: Vec<(String, String)>)
        requires
            forall|d: int, j: int|
                0 <= d < self.enums@.len() && 0 <= j < self.enums@[d].values@.len() ==> (
                #[trigger] self.enums@[d].values@[j].0)@.len() > 0,
        ensures
            r@.len() == self.enums@.len() + self.flags@.len() + self.structs@.len() + 1,
    {
        let mut out: Vec<(String, String)> = Vec::new();
        let n1 = self.enums.len();
        let mut i: usize = 0;
        while i < n1
            invariant
                0 <= i <= n1,
                n1 == self.enums@.len(),
                out@.len() == i,
                forall|d: int, j: int|
                    0 <= d < self.enums@.len() && 0 <= j < self.enums@[d].values@.len() ==> (
                    #[trigger] self.enums@[d].values@[j].0)@.len() > 0,
            decreases n1 - i,
        {
            let unit = self.generate_enum(&self.enums[i]);
            out.push(unit);
            i = i + 1;
        }
        let n2 = self.flags.len();
        let mut i2: usize = 0;
        while i2 < n2
            invariant
                0 <= i2 <= n2,
                n2 == self.flags@.len(),
                out@.len() == n1 + i2,
            decreases n2 - i2,
        {
            let unit = self.generate_flags(&self.flags[i2]);
            out.push(unit);
            i2 = i2 + 1;
        }
        let n3 = self.structs.len();
        let mut i3: usize = 0;
        while i3 < n3
            invariant
                0 <= i3 <= n3,
                n3 == self.structs@.len(),
                out@.len() == n1 + n2 + i3,
            decreases n3 - i3,
        {
            let unit = self.generate_struct(&self.structs[i3]);
            out.push(unit);
            i3 = i3 + 1;
        }
        let manifest = self.generate_mod_file();
        out.push((String::from_str("mod"), manifest));
        out
    }
}

} // verus!
