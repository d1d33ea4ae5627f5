use wit_bindgen_zig::bindgen::{FunctionBindgen, LOWER_WORD};
use wit_bindgen_zig::binding::{
    args_text, body_text, decl_text, emit_binding, export_name, join, post_return, symbol,
};
use wit_bindgen_zig::buffer::EmissionBuffer;
use wit_bindgen_zig::schema::{Function, Type};
use wit_bindgen_zig::stub::{emit_stub, emit_stubs, push_stub, push_stub_struct};
use wit_bindgen_zig::types::UnsupportedType;

fn pairs(list: &[(&str, &str)]) -> Vec<(String, String)> {
    list.iter().map(|(a, b)| (a.to_string(), b.to_string())).collect()
}

fn function(name: &str, params: &[(&str, Type)], results: &[Type]) -> Function {
    Function {
        name: name.to_string(),
        params: params.iter().map(|(n, t)| (n.to_string(), *t)).collect(),
        results: results.to_vec(),
        needs_post_return: false,
    }
}

#[test]
fn primitive_parameters_pass_through() {
    let cases = [
        (Type::Bool, "bool"),
        (Type::U8, "u8"),
        (Type::U16, "u16"),
        (Type::U32, "u32"),
        (Type::U64, "u64"),
        (Type::S8, "s8"),
        (Type::S16, "s16"),
        (Type::S32, "s32"),
        (Type::S64, "s64"),
    ];
    let mut b = FunctionBindgen::new();
    let mut expected = vec![];
    for (i, (ty, name)) in cases.iter().enumerate() {
        let param = format!("p{}", i);
        assert_eq!(b.lift_value(&param, ty), Ok(()));
        expected.push((param, name.to_string()));
    }
    assert_eq!(b.args, expected);
    assert_eq!(b.lift_src.to_string(), "");
    assert_eq!(b.lower_src.to_string(), "");
}

#[test]
fn string_parameter_is_rebuilt_from_pointer_and_length() {
    let mut b = FunctionBindgen::new();
    assert_eq!(b.lift("name", &Type::String), Ok(()));
    assert_eq!(b.args, pairs(&[("namePtr", "[*]u8"), ("nameLength", "u32")]));
    assert_eq!(b.lift_src.to_string(), "const name = namePtr[0..nameLength];\n");
    assert_eq!(b.lift("n", &Type::U8), Ok(()));
    assert_eq!(b.lift("other", &Type::String), Ok(()));
    assert_eq!(
        b.args,
        pairs(&[
            ("namePtr", "[*]u8"),
            ("nameLength", "u32"),
            ("n", "u8"),
            ("otherPtr", "[*]u8"),
            ("otherLength", "u32")
        ])
    );
    assert_eq!(
        b.lift_src.to_string(),
        "const name = namePtr[0..nameLength];\nconst other = otherPtr[0..otherLength];\n"
    );
}

#[test]
fn parameters_of_other_types_are_not_lifted() {
    for ty in [Type::Float32, Type::Float64, Type::Char, Type::Id(3)] {
        let mut b = FunctionBindgen::new();
        assert_eq!(b.lift_value("x", &ty), Err(UnsupportedType { ty }));
        assert_eq!(b.lift("x", &ty), Err(UnsupportedType { ty }));
        assert!(b.args.is_empty());
        assert_eq!(b.lift_src.to_string(), "");
    }
}

#[test]
fn results_are_lowered() {
    for ty in [
        Type::Bool,
        Type::U8,
        Type::U16,
        Type::U32,
        Type::U64,
        Type::S8,
        Type::S16,
        Type::S32,
        Type::S64,
        Type::Float32,
        Type::Float64,
        Type::Char,
    ] {
        let mut b = FunctionBindgen::new();
        assert_eq!(b.lower_value("result", &ty, "lower_result"), Ok(()));
        assert_eq!(b.lower_src.to_string(), "return result;\n}\n");
        assert_eq!(b.lower_src.to_string(), LOWER_WORD);
        assert!(b.args.is_empty());
    }
    let mut b = FunctionBindgen::new();
    assert_eq!(b.lower("result", &Type::String, true), Ok(()));
    assert_eq!(
        b.lower_src.to_string(),
        "const payload = alloc(result.len);\n@memcpy(payload[0..result.len], result);\nconst Header = struct {\n  var bytes: [8]u8 = .{0} ** 8;\n};\nstd.mem.writeIntLittle(u32, Header.bytes[0..4], @intCast(@intFromPtr(payload)));\nstd.mem.writeIntLittle(u32, Header.bytes[4..8], @intCast(result.len));\nreturn &Header.bytes;\n}\n"
    );
    assert_eq!(b.lower_src.to_string().matches("alloc(").count(), 1);
    assert!(b.lower_src.to_string().contains("alloc(result.len)"));
    let mut b = FunctionBindgen::new();
    assert_eq!(b.lower("result", &Type::Id(0), true), Err(UnsupportedType { ty: Type::Id(0) }));
    assert_eq!(b.lower_src.to_string(), "");
}

#[test]
fn names_and_symbols_of_exports() {
    assert_eq!(export_name(None, "add"), "add");
    assert_eq!(export_name(Some("a:b/c#"), "add"), "a:b/c#add");
    assert_eq!(symbol(None, "add"), "__export_add");
    assert_eq!(symbol(Some("a:b/c#"), "add"), "@\"a:b/c#add\"");
    let post = post_return(None, "add");
    assert_eq!(post.export_name, "cabi_post_add");
    assert_eq!(post.symbol, "__post_return_add");
    assert_eq!(
        post.text,
        "export fn __post_return_add(arg: u32) void {\nconst header: [*]u8 = @ptrFromInt(arg);\nconst bytesPtr = std.mem.readIntLittle(u32, header[0..4]);\nconst ptr_size = std.mem.readIntLittle(u32, header[4..8]);\nconst casted: [*]u8 = @ptrFromInt(bytesPtr);\nallocator.free(casted[0..ptr_size]);\n}\n\n"
    );
    let post = post_return(Some("a:b/c#"), "add");
    assert_eq!(post.export_name, "cabi_post_a:b/c#add");
    assert_eq!(post.symbol, "@\"__post_return_a:b/c#add\"");
    assert!(post.text.starts_with("export fn @\"__post_return_a:b/c#add\"(arg: u32) void {\n"));
}

#[test]
fn pieces_of_text() {
    let names = vec!["a".to_string(), "b".to_string(), "c".to_string()];
    assert_eq!(join(&names, ", "), "a, b, c");
    assert_eq!(join(&names[..1].to_vec(), ", "), "a");
    assert_eq!(join(&vec![], ", "), "");
    assert_eq!(args_text(&pairs(&[("a", "u8"), ("bPtr", "[*]u8")])), "a: u8, bPtr: [*]u8, ");
    assert_eq!(args_text(&vec![]), "");
}

#[test]
fn entry_point_of_a_binding() {
    let f = function("add", &[("a", Type::U32), ("s", Type::String)], &[Type::String]);
    let b = emit_binding(&f, None, "Guest", &vec![]).unwrap();
    assert_eq!(decl_text(&b), "export fn __export_add(a: u32, sPtr: [*]u8, sLength: u32, ) ");
    assert_eq!(
        body_text(&b),
        format!(
            "[*]u8{{\nconst s = sPtr[0..sLength];\nconst result = Guest.add(a, s);\n{}\n",
            b.lower
        )
    );
    let f = function("stop", &[], &[]);
    let b = emit_binding(&f, None, "Guest", &vec![]).unwrap();
    assert_eq!(b.result, None);
    assert_eq!(b.lower, "");
    assert_eq!(decl_text(&b), "export fn __export_stop() ");
    assert_eq!(body_text(&b), "void{\nconst result = Guest.stop();\n}\n\n");
}

#[test]
fn placeholders() {
    let f = function("add", &[("a", Type::U32), ("s", Type::String)], &[Type::String]);
    let stub = emit_stub(&f).unwrap();
    assert_eq!(stub.name, "add");
    assert_eq!(stub.params, pairs(&[("a", "u32"), ("s", "[]u8")]));
    assert_eq!(stub.result, "[]u8");
    let g = function("stop", &[], &[]);
    assert_eq!(emit_stub(&g).unwrap().result, "void");
    let mut buf = EmissionBuffer::new();
    push_stub(&mut buf, &stub);
    assert_eq!(buf.to_string(), "fn add(a: u32, s: []u8, ) []u8 {}\n");
    let stubs = emit_stubs(&vec![&f, &g]).unwrap();
    let mut buf = EmissionBuffer::new();
    push_stub_struct(&mut buf, "Guest", &stubs);
    assert_eq!(
        buf.to_string(),
        "const Guest = struct {\n  fn add(a: u32, s: []u8, ) []u8 {}\n  fn stop() void {}\n};\n\n"
    );
    let bad = function("bad", &[("c", Type::Char)], &[]);
    assert!(emit_stub(&bad).is_err());
    assert!(emit_stubs(&vec![&f, &bad, &g]).is_err());
}

#[test]
fn buffer_re_indents_what_is_pushed() {
    let mut b = EmissionBuffer::new();
    assert_eq!(b.to_string(), "");
    b.push_str("a {\n      b {\nc\n   }\n}\n");
    assert_eq!(b.to_string(), "a {\n  b {\n    c\n  }\n}\n");
    b.push_str("  x");
    assert_eq!(b.to_string(), "a {\n  b {\n    c\n  }\n}\n  x");
}
