use wit_bindgen_zig::buffer::EmissionBuffer;
use wit_bindgen_zig::schema::Type;
use wit_bindgen_zig::types::{get_zig_binding_ty, get_zig_ty, UnsupportedType};

#[test]
fn storage_type_of_string_is_a_byte_slice() {
    assert_eq!(get_zig_ty(&Type::String), Ok("[]u8".to_string()));
}

#[test]
fn wire_type_of_string_is_a_pointer() {
    assert_eq!(get_zig_binding_ty(&Type::String), Ok("[*]u8".to_string()));
}

#[test]
fn primitive_types_have_one_name_on_both_sides() {
    let cases = [
        (Type::Bool, "bool"),
        (Type::U8, "u8"),
        (Type::U16, "u16"),
        (Type::U32, "u32"),
        (Type::U64, "u64"),
        (Type::S8, "s8"),
        (Type::S16, "s16"),
        (Type::S32, "s32"),
        (Type::S64, "s64"),
    ];
    for (ty, name) in cases {
        assert_eq!(get_zig_ty(&ty), Ok(name.to_string()));
        assert_eq!(get_zig_binding_ty(&ty), Ok(name.to_string()));
    }
}

#[test]
fn types_without_a_mapping_are_reported() {
    for ty in [Type::Float32, Type::Float64, Type::Char, Type::Id(0)] {
        assert_eq!(get_zig_ty(&ty), Err(UnsupportedType { ty }));
        assert_eq!(get_zig_binding_ty(&ty), Err(UnsupportedType { ty }));
    }
}

#[test]
fn buffer_indents_after_an_opening_brace() {
    let mut b = EmissionBuffer::new();
    b.push_str("fn f() {\n");
    b.push_str("x\n");
    b.push_str("}\n");
    assert_eq!(b.to_string(), "fn f() {\n  x\n}\n");
}
