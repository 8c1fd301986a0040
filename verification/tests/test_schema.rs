//! The schema compiler: declaration extraction, entry parsing, name
//! transforms and unit rendering.

use fbe::compiler::{
    escape_keyword, get_read_method, get_type_size, get_write_method, map_fbe_type, to_pascal_case,
    to_screaming_snake_case, to_snake_case, Generator,
};

#[test]
fn test_schema_parse_enum() {
    let mut g = Generator::new();
    let r = g.parse_enums("enum Color : byte { red; green; blue; }");
    assert!(r.is_ok());
    assert_eq!(g.enums.len(), 1);
    assert_eq!(g.enums[0].name, "Color");
    assert_eq!(g.enums[0].base_type, "byte");
    assert_eq!(
        g.enums[0].values,
        vec![
            ("red".to_string(), "0".to_string()),
            ("green".to_string(), "1".to_string()),
            ("blue".to_string(), "2".to_string()),
        ]
    );
}

#[test]
fn test_schema_parse_flags() {
    let mut g = Generator::new();
    let r = g.parse_flags("flags Perm : int32 { read=1; write=2; }");
    assert!(r.is_ok());
    assert_eq!(g.flags.len(), 1);
    assert_eq!(g.flags[0].name, "Perm");
    assert_eq!(g.flags[0].base_type, "int32");
    assert_eq!(
        g.flags[0].values,
        vec![
            ("read".to_string(), "1".to_string()),
            ("write".to_string(), "2".to_string()),
        ]
    );
}

#[test]
fn test_schema_parse_enum_mixed_values() {
    let mut g = Generator::new();
    let schema = "enum Side : byte {\n  buy;\n  sell = 5;\n  hold;\n}";
    g.parse_enums(schema).unwrap();
    assert_eq!(g.enums.len(), 1);
    assert_eq!(
        g.enums[0].values,
        vec![
            ("buy".to_string(), "0".to_string()),
            ("sell".to_string(), "5".to_string()),
            ("hold".to_string(), "2".to_string()),
        ]
    );
}

#[test]
fn test_schema_parse_enum_skips_comments() {
    let mut g = Generator::new();
    let schema = "enum State : byte {\n  // a comment\n  on;\n\n  off;\n}";
    g.parse_enums(schema).unwrap();
    assert_eq!(
        g.enums[0].values,
        vec![
            ("on".to_string(), "0".to_string()),
            ("off".to_string(), "1".to_string()),
        ]
    );
}

#[test]
fn test_schema_parse_struct() {
    let mut g = Generator::new();
    let schema = "struct Order(1) {\n  [key] int32 id;\n  string symbol;\n  double? price;\n  int32[] sizes;\n}";
    g.parse_structs(schema).unwrap();
    assert_eq!(g.structs.len(), 1);
    assert_eq!(g.structs[0].name, "Order");
    let fields = &g.structs[0].fields;
    assert_eq!(fields.len(), 3);
    assert_eq!(fields[0].fbe_type, "string");
    assert_eq!(fields[0].name, "symbol");
    assert_eq!(fields[1].fbe_type, "double");
    assert_eq!(fields[1].name, "price");
    assert!(fields[1].is_optional);
    assert!(!fields[1].is_array);
    assert_eq!(fields[2].fbe_type, "int32");
    assert_eq!(fields[2].name, "sizes");
    assert!(fields[2].is_array);
}

#[test]
fn test_schema_parse_whole() {
    let mut g = Generator::new();
    let schema =
        "enum Color : byte { red; green; blue; }\nflags Perm : int32 { read=1; write=2; }\nstruct Point { int32 x; int32 y; }";
    g.parse(schema).unwrap();
    assert_eq!(g.enums.len(), 1);
    assert_eq!(g.flags.len(), 1);
    assert_eq!(g.structs.len(), 1);
    assert_eq!(g.structs[0].fields.len(), 2);
}

#[test]
fn test_map_fbe_type_table() {
    assert_eq!(map_fbe_type("bool"), "bool");
    assert_eq!(map_fbe_type("byte"), "i8");
    assert_eq!(map_fbe_type("int8"), "i8");
    assert_eq!(map_fbe_type("uint8"), "u8");
    assert_eq!(map_fbe_type("int16"), "i16");
    assert_eq!(map_fbe_type("uint16"), "u16");
    assert_eq!(map_fbe_type("int32"), "i32");
    assert_eq!(map_fbe_type("uint32"), "u32");
    assert_eq!(map_fbe_type("int64"), "i64");
    assert_eq!(map_fbe_type("uint64"), "u64");
    assert_eq!(map_fbe_type("float"), "f32");
    assert_eq!(map_fbe_type("double"), "f64");
    assert_eq!(map_fbe_type("string"), "String");
    assert_eq!(map_fbe_type("Color"), "Color");
}

#[test]
fn test_method_tables() {
    assert_eq!(get_write_method("int32"), "write_i32");
    assert_eq!(get_write_method("string"), "write_string");
    assert_eq!(get_write_method("Color"), "write_i32");
    assert_eq!(get_read_method("uint64"), "read_u64");
    assert_eq!(get_read_method("bool"), "read_bool");
    assert_eq!(get_type_size("bool"), 1);
    assert_eq!(get_type_size("int16"), 2);
    assert_eq!(get_type_size("double"), 8);
    assert_eq!(get_type_size("Color"), 4);
}

#[test]
fn test_name_transforms() {
    assert_eq!(to_snake_case("OrderSide"), "order_side");
    assert_eq!(to_snake_case("simple"), "simple");
    assert_eq!(to_pascal_case("red"), "Red");
    assert_eq!(to_screaming_snake_case("OrderSide"), "ORDER_SIDE");
    assert_eq!(escape_keyword("type"), "r#type");
    assert_eq!(escape_keyword("color"), "color");
}

#[test]
fn test_generate_enum_unit() {
    let mut g = Generator::new();
    g.parse_enums("enum Color : byte { red; green; blue; }").unwrap();
    let (stem, code) = {
        let d = &g.enums[0];
        g.generate_enum(d)
    };
    assert_eq!(stem, "color");
    assert!(code.contains("pub enum Color {"));
    assert!(code.contains("    Red,\n"));
    assert!(code.contains("    Green,\n"));
    assert!(code.contains("    Blue,\n"));
    assert!(code.contains("#[repr(i8)]"));
}

#[test]
fn test_generate_flags_unit() {
    let mut g = Generator::new();
    g.parse_flags("flags Perm : int32 { read=1; write=2; }").unwrap();
    let (stem, code) = {
        let d = &g.flags[0];
        g.generate_flags(d)
    };
    assert_eq!(stem, "perm");
    assert!(code.contains("pub const READ: i32 = 1;\n"));
    assert!(code.contains("pub const WRITE: i32 = 2;\n"));
}

#[test]
fn test_generate_struct_unit() {
    let mut g = Generator::new();
    g.parse_structs("struct Point { int32 x; int32 y; string label; }").unwrap();
    let (stem, code) = {
        let d = &g.structs[0];
        g.generate_struct(d)
    };
    assert_eq!(stem, "point");
    assert!(code.contains("pub struct Point {"));
    assert!(code.contains("    pub x: i32,\n"));
    assert!(code.contains("    pub label: String,\n"));
    assert!(code.contains("buffer.write_i32(offset, self.x);"));
    assert!(code.contains("offset += 4;"));
    assert!(code.contains("buffer.write_string(offset, &self.label);"));
    assert!(code.contains("pub fn deserialize(buffer: &ReadBuffer) -> Self {"));
}

#[test]
fn test_generate_code_units() {
    let mut g = Generator::new();
    let schema =
        "enum Color : byte { red; green; blue; }\nflags Perm : int32 { read=1; write=2; }\nstruct Point { int32 x; int32 y; }";
    g.parse(schema).unwrap();
    let units = g.generate_code();
    assert_eq!(units.len(), 4);
    assert_eq!(units[0].0, "color");
    assert_eq!(units[1].0, "perm");
    assert_eq!(units[2].0, "point");
    assert_eq!(units[3].0, "mod");
    assert!(units[3].1.contains("pub mod color;\n"));
    assert!(units[3].1.contains("pub mod perm;\n"));
    assert!(units[3].1.contains("pub mod point;\n"));
}
