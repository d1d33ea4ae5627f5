use wit_bindgen_zig::binding::{emit_binding, Binding, PostReturn};
use wit_bindgen_zig::config::{ExportKey, Opts};
use wit_bindgen_zig::error::SchemaError;
use wit_bindgen_zig::schema::{
    Function, Interface, Package, Schema, Type, World, WorldItem, WorldKey,
};
use wit_bindgen_zig::world::{generate, Artifact, ZigWasm};

const PREAMBLE: &str = "const std = @import(\"std\");\nconst mem = std.mem;\nvar gpa = std.heap.GeneralPurposeAllocator(.{}){};\nconst allocator = gpa.allocator();\n\nfn alloc(len: usize) [*]u8 {\n  const buf = allocator.alloc(u8, len) catch |e| {\n    std.debug.panic(\"FAILED TO ALLOC MEM {}\", .{e});\n  };\n  return buf.ptr;\n}\n\nexport fn cabi_realloc(origPtr: *[]u8, origSize: u8, alignment: u8, newSize: u8) ?[*]u8 {\n  _ = origSize;\n  _ = alignment;\n  const buf = allocator.realloc(origPtr.*, newSize) catch {\n    return null;\n  };\n  return buf.ptr;\n}\n\n";

const SHOUT: &str = "export fn @\"text:ops/format#shout\"(sPtr: [*]u8, sLength: u32, ) [*]u8{\n  const s = sPtr[0..sLength];\n  const result = Format.shout(s);\n  const payload = alloc(result.len);\n  @memcpy(payload[0..result.len], result);\n  const Header = struct {\n    var bytes: [8]u8 = .{0} ** 8;\n  };\n  std.mem.writeIntLittle(u32, Header.bytes[0..4], @intCast(@intFromPtr(payload)));\n  std.mem.writeIntLittle(u32, Header.bytes[4..8], @intCast(result.len));\n  return &Header.bytes;\n}\n\nexport fn @\"__post_return_text:ops/format#shout\"(arg: u32) void {\n  const header: [*]u8 = @ptrFromInt(arg);\n  const bytesPtr = std.mem.readIntLittle(u32, header[0..4]);\n  const ptr_size = std.mem.readIntLittle(u32, header[4..8]);\n  const casted: [*]u8 = @ptrFromInt(bytesPtr);\n  allocator.free(casted[0..ptr_size]);\n}\n\n";

fn function(name: &str, params: &[(&str, Type)], results: &[Type], post: bool) -> Function {
    Function {
        name: name.to_string(),
        params: params.iter().map(|(n, t)| (n.to_string(), *t)).collect(),
        results: results.to_vec(),
        needs_post_return: post,
    }
}

fn world_of(name: &str, functions: Vec<Function>) -> Schema {
    Schema {
        worlds: vec![World {
            name: name.to_string(),
            imports: vec![],
            exports: functions
                .into_iter()
                .map(|f| (WorldKey::Name(f.name.clone()), WorldItem::Function(f)))
                .collect(),
        }],
        interfaces: vec![],
        types: vec![],
        packages: vec![],
    }
}

fn calculator() -> Schema {
    world_of(
        "calculator",
        vec![function("add", &[("a", Type::U32), ("b", Type::U32)], &[Type::U32], false)],
    )
}

fn shout() -> Function {
    function("shout", &[("s", Type::String)], &[Type::String], true)
}

fn text_ops() -> Schema {
    Schema {
        worlds: vec![World {
            name: "text-world".to_string(),
            imports: vec![],
            exports: vec![(WorldKey::Interface(0), WorldItem::Interface(0))],
        }],
        interfaces: vec![Interface {
            name: Some("format".to_string()),
            package: Some(0),
            functions: vec![shout()],
        }],
        types: vec![],
        packages: vec![Package { namespace: "text".to_string(), name: "ops".to_string() }],
    }
}

fn pairs(list: &[(&str, &str)]) -> Vec<(String, String)> {
    list.iter().map(|(a, b)| (a.to_string(), b.to_string())).collect()
}

fn run(schema: &Schema, opts: Opts) -> Result<Artifact, SchemaError> {
    generate(schema, 0, opts)
}

#[test]
fn calculator_world_exports_add() {
    let artifact = run(&calculator(), Opts::default()).unwrap();
    assert_eq!(artifact.name, "calculator.zig");
    let expected = format!(
        "{}{}{}",
        PREAMBLE,
        "export fn __export_add(a: u32, b: u32, ) u32{\n  const result = Guest.add(a, b);\n  return result;\n}\n\n",
        "comptime {\n  @export(__export_add, .{ .name = \"add\" });\n}\n\npub fn main() void {}"
    );
    assert_eq!(artifact.contents, expected);
}

#[test]
fn calculator_binding_has_two_wire_words_and_no_post_return() {
    let add = function("add", &[("a", Type::U32), ("b", Type::U32)], &[Type::U32], false);
    let binding: Binding = emit_binding(&add, None, "Guest", &vec![]).unwrap();
    assert_eq!(binding.export_name, "add");
    assert_eq!(binding.symbol, "__export_add");
    assert_eq!(binding.params, pairs(&[("a", "u32"), ("b", "u32")]));
    assert_eq!(binding.result, Some("u32".to_string()));
    assert_eq!(binding.lift, "");
    assert_eq!(binding.invoke, "const result = Guest.add(a, b)");
    assert_eq!(binding.lower, "return result;\n}\n");
    assert!(binding.post_return.is_none());
}

#[test]
fn interface_exports_shout() {
    let artifact = run(&text_ops(), Opts::default()).unwrap();
    assert_eq!(artifact.name, "text-world.zig");
    let expected = format!(
        "{}{}{}",
        PREAMBLE,
        SHOUT,
        "comptime {\n  @export(@\"text:ops/format#shout\", .{ .name = \"text:ops/format#shout\" });\n  @export(@\"__post_return_text:ops/format#shout\", . { .name = \"cabi_post_text:ops/format#shout\" });\n}\n\npub fn main() void {}"
    );
    assert_eq!(artifact.contents, expected);
}

#[test]
fn string_flattens_into_pointer_and_length() {
    let binding = emit_binding(&shout(), Some("text:ops/format#"), "Format", &vec![]).unwrap();
    assert_eq!(binding.params, pairs(&[("sPtr", "[*]u8"), ("sLength", "u32")]));
    assert_eq!(binding.lift, "const s = sPtr[0..sLength];\n");
    assert_eq!(binding.lift.matches("alloc(").count(), 0);
    assert_eq!(binding.lower.matches("alloc(").count(), 1);
    assert!(binding.lower.starts_with("const payload = alloc(result.len);\n"));
    assert!(binding.lower.contains(
        "std.mem.writeIntLittle(u32, Header.bytes[0..4], @intCast(@intFromPtr(payload)));\n"
    ));
    assert!(binding.lower.contains(
        "std.mem.writeIntLittle(u32, Header.bytes[4..8], @intCast(result.len));\n"
    ));
    assert!(binding.lower.ends_with("return &Header.bytes;\n}\n"));
    let post = binding.post_return.as_ref().unwrap();
    assert_eq!(post.text.matches("allocator.free(").count(), 1);
    assert!(post.text.contains("const header: [*]u8 = @ptrFromInt(arg);\n"));
    assert!(post.text.contains("std.mem.readIntLittle(u32, header[0..4]);\n"));
    assert!(post.text.contains("std.mem.readIntLittle(u32, header[4..8]);\n"));
    assert!(post.text.contains("allocator.free(casted[0..ptr_size]);\n"));
    assert_eq!(binding.result, Some("[*]u8".to_string()));
    assert_eq!(binding.export_name, "text:ops/format#shout");
    assert_eq!(binding.symbol, "@\"text:ops/format#shout\"");
}

#[test]
fn string_parameter_expands_in_place() {
    let f = function(
        "mix",
        &[("a", Type::U8), ("s", Type::String), ("b", Type::S64)],
        &[Type::Bool],
        false,
    );
    let binding = emit_binding(&f, None, "Guest", &vec![]).unwrap();
    assert_eq!(
        binding.params,
        pairs(&[("a", "u8"), ("sPtr", "[*]u8"), ("sLength", "u32"), ("b", "s64")])
    );
    assert_eq!(binding.invoke, "const result = Guest.mix(a, s, b)");
}

#[test]
fn post_return_follows_the_classification() {
    for needs in [false, true] {
        let f = function("shout", &[("s", Type::String)], &[Type::String], needs);
        let binding = emit_binding(&f, None, "Guest", &vec![]).unwrap();
        assert_eq!(binding.post_return.is_some(), needs);
    }
    let f = function("count", &[], &[Type::U32], true);
    let binding = emit_binding(&f, None, "Guest", &vec![]).unwrap();
    let post: PostReturn = binding.post_return.unwrap();
    assert_eq!(post.export_name, "cabi_post_count");
    assert_eq!(post.symbol, "__post_return_count");
    assert!(post.text.starts_with("export fn __post_return_count(arg: u32) void {\n"));
}

#[test]
fn post_return_of_an_interface_function_is_named_after_its_export() {
    let binding = emit_binding(&shout(), Some("text:ops/format#"), "Format", &vec![]).unwrap();
    let post = binding.post_return.unwrap();
    assert_eq!(post.export_name, "cabi_post_text:ops/format#shout");
    assert_eq!(post.export_name, format!("cabi_post_{}", binding.export_name));
    assert_eq!(post.symbol, "@\"__post_return_text:ops/format#shout\"");
}

#[test]
fn function_without_result_returns_void() {
    let f = function("log", &[("level", Type::U8)], &[], false);
    let artifact = run(&world_of("logger", vec![f]), Opts::default()).unwrap();
    let expected = format!(
        "{}{}{}",
        PREAMBLE,
        "export fn __export_log(level: u8, ) void{\n  const result = Guest.log(level);\n}\n\n",
        "comptime {\n  @export(__export_log, .{ .name = \"log\" });\n}\n\npub fn main() void {}"
    );
    assert_eq!(artifact.contents, expected);
}

#[test]
fn two_results_are_refused() {
    let f = function("divmod", &[("a", Type::U32)], &[Type::U32, Type::U32], false);
    let err = run(&world_of("calculator", vec![f]), Opts::default()).unwrap_err();
    match err {
        SchemaError::UnsupportedArity { function, results } => {
            assert_eq!(function, "divmod");
            assert_eq!(results, 2);
        }
        other => panic!("unexpected error {:?}", other),
    }
}

#[test]
fn types_without_a_binding_are_refused() {
    for ty in [Type::Float32, Type::Float64, Type::Char, Type::Id(0)] {
        let f = function("f", &[("a", Type::U32), ("x", ty)], &[Type::U32], false);
        match run(&world_of("w", vec![f]), Opts::default()).unwrap_err() {
            SchemaError::UnsupportedType { function, ty: found } => {
                assert_eq!(function, "f");
                assert_eq!(found, ty);
            }
            other => panic!("unexpected error {:?}", other),
        }
        let f = function("g", &[("a", Type::U32)], &[ty], false);
        match run(&world_of("w", vec![f]), Opts::default()).unwrap_err() {
            SchemaError::UnsupportedType { function, ty: found } => {
                assert_eq!(function, "g");
                assert_eq!(found, ty);
            }
            other => panic!("unexpected error {:?}", other),
        }
    }
}

#[test]
fn first_failure_is_reported() {
    let ok = function("ok", &[], &[Type::U8], false);
    let bad_type = function("bad-type", &[("c", Type::Char)], &[], false);
    let bad_arity = function("bad-arity", &[], &[Type::U8, Type::U8], false);
    let err = run(&world_of("w", vec![ok, bad_type, bad_arity]), Opts::default()).unwrap_err();
    assert!(matches!(err, SchemaError::UnsupportedType { ty: Type::Char, .. }));
}

#[test]
fn failure_in_stub_mode() {
    let mut opts = Opts::default();
    opts.stubs = true;
    let f = function("divmod", &[], &[Type::U32, Type::U32], false);
    assert!(matches!(
        run(&world_of("w", vec![f]), opts),
        Err(SchemaError::UnsupportedArity { results: 2, .. })
    ));
}

#[test]
fn dangling_references_are_refused() {
    assert!(matches!(generate(&calculator(), 1, Opts::default()), Err(SchemaError::UnresolvedReference)));
    let mut schema = text_ops();
    schema.interfaces[0].package = Some(3);
    assert!(matches!(run(&schema, Opts::default()), Err(SchemaError::UnresolvedReference)));
    let mut schema = text_ops();
    schema.worlds[0].exports = vec![(WorldKey::Name("format".to_string()), WorldItem::Interface(9))];
    assert!(matches!(run(&schema, Opts::default()), Err(SchemaError::UnresolvedReference)));
}

#[test]
fn two_runs_give_the_same_bytes() {
    let first = run(&text_ops(), Opts::default()).unwrap();
    let second = run(&text_ops(), Opts::default()).unwrap();
    assert_eq!(first.name, second.name);
    assert_eq!(first.contents, second.contents);
}

#[test]
fn stubs_replace_bindings() {
    let mut opts = Opts::default();
    opts.stubs = true;
    let artifact = run(&calculator(), opts).unwrap();
    let expected = format!(
        "{}{}{}",
        PREAMBLE,
        "const Guest = struct {\n  fn add(a: u32, b: u32, ) u32 {}\n};\n\n",
        "comptime {\n}\n\npub fn main() void {}"
    );
    assert_eq!(artifact.contents, expected);

    let mut opts = Opts::default();
    opts.stubs = true;
    let artifact = run(&text_ops(), opts).unwrap();
    let expected = format!(
        "{}{}{}",
        PREAMBLE,
        "const Format = struct {\n  fn shout(s: []u8, ) []u8 {}\n};\n\n",
        "comptime {\n}\n\npub fn main() void {}"
    );
    assert_eq!(artifact.contents, expected);
}

#[test]
fn interfaces_come_before_the_functions_of_the_world() {
    let mut schema = text_ops();
    let add = function("add", &[("a", Type::U32), ("b", Type::U32)], &[Type::U32], false);
    schema.worlds[0]
        .exports
        .insert(0, (WorldKey::Name("add".to_string()), WorldItem::Function(add)));
    let artifact = run(&schema, Opts::default()).unwrap();
    let expected = format!(
        "{}{}{}{}",
        PREAMBLE,
        SHOUT,
        "export fn __export_add(a: u32, b: u32, ) u32{\n  const result = Guest.add(a, b);\n  return result;\n}\n\n",
        "comptime {\n  @export(@\"text:ops/format#shout\", .{ .name = \"text:ops/format#shout\" });\n  @export(__export_add, .{ .name = \"add\" });\n  @export(@\"__post_return_text:ops/format#shout\", . { .name = \"cabi_post_text:ops/format#shout\" });\n}\n\npub fn main() void {}"
    );
    assert_eq!(artifact.contents, expected);
}

#[test]
fn exported_symbols_are_pairwise_distinct() {
    let mut schema = text_ops();
    schema.packages.push(Package { namespace: "text".to_string(), name: "more".to_string() });
    schema.interfaces.push(Interface {
        name: Some("format".to_string()),
        package: Some(1),
        functions: vec![shout(), function("whisper", &[("s", Type::String)], &[Type::U32], false)],
    });
    schema.worlds[0].exports.push((WorldKey::Interface(1), WorldItem::Interface(1)));
    schema.worlds[0].exports.push((
        WorldKey::Name("shout".to_string()),
        WorldItem::Function(function("shout", &[], &[Type::U8], false)),
    ));
    let mut run = Opts::default().build();
    run.preprocess(&schema, 0).unwrap();
    run.export_interface(&schema, &WorldKey::Interface(0), 0).unwrap();
    run.export_interface(&schema, &WorldKey::Interface(1), 1).unwrap();
    run.export_funcs(&schema, 0).unwrap();
    let names: Vec<&str> = run.exported.iter().map(|b| b.export_name.as_str()).collect();
    assert_eq!(
        names,
        vec!["text:ops/format#shout", "text:more/format#shout", "text:more/format#whisper", "shout"]
    );
    let symbols: Vec<&str> = run.exported.iter().map(|b| b.symbol.as_str()).collect();
    for i in 0..symbols.len() {
        for j in 0..i {
            assert_ne!(symbols[i], symbols[j]);
            assert_ne!(names[i], names[j]);
        }
    }
}

#[test]
fn interfaces_with_one_name_get_different_variables() {
    let mut schema = text_ops();
    schema.packages.push(Package { namespace: "text".to_string(), name: "more".to_string() });
    schema.interfaces.push(Interface {
        name: Some("format".to_string()),
        package: Some(1),
        functions: vec![function("whisper", &[], &[Type::U32], false)],
    });
    schema.worlds[0].exports.push((WorldKey::Interface(1), WorldItem::Interface(1)));
    let mut run: ZigWasm = Opts::default().build();
    run.preprocess(&schema, 0).unwrap();
    assert_eq!(run.world, "text-world");
    assert_eq!(run.interface_names.resolve(None), Some("Guest".to_string()));
    assert_eq!(run.interface_names.resolve(Some(0)), Some("Format".to_string()));
    assert_eq!(run.interface_names.resolve(Some(1)), Some("Format1".to_string()));
    assert_eq!(run.interface_names.resolve(Some(0)), Some("Format".to_string()));
    assert_eq!(run.interface_names.resolve(Some(2)), None);
    let artifact = run.generate(&schema, 0).unwrap();
    assert!(artifact.contents.contains("const result = Format.shout(s);"));
    assert!(artifact.contents.contains("const result = Format1.whisper();"));
}

#[test]
fn reserved_words_get_an_underscore() {
    let mut opts = Opts::default();
    opts.keywords = vec!["error".to_string(), "type".to_string()];
    let f = function("report", &[("error", Type::U32), ("kind", Type::String)], &[Type::U32], false);
    let artifact = run(&world_of("w", vec![f]), opts).unwrap();
    assert!(artifact.contents.contains(
        "export fn __export_report(error_: u32, kindPtr: [*]u8, kindLength: u32, ) u32{\n  const kind = kindPtr[0..kindLength];\n  const result = Guest.report(error_, kind);\n"
    ));
}

#[test]
fn parameter_names_are_put_in_snake_case() {
    let f = function("f", &[("max-len", Type::U32)], &[Type::U32], false);
    let binding = emit_binding(&f, None, "Guest", &vec![]).unwrap();
    assert_eq!(binding.params, pairs(&[("max_len", "u32")]));
    assert_eq!(binding.invoke, "const result = Guest.f(max_len)");
}

#[test]
fn options_rename_the_implementation() {
    let mut opts = Opts::default();
    opts.exports = vec![
        (ExportKey::World, "First".to_string()),
        (ExportKey::World, "Calc".to_string()),
    ];
    let artifact = run(&calculator(), opts).unwrap();
    assert!(artifact.contents.contains("const result = Calc.add(a, b);"));

    let mut opts = Opts::default();
    opts.with = vec![("text:ops/format".to_string(), "Formatter".to_string())];
    let artifact = run(&text_ops(), opts).unwrap();
    assert!(artifact.contents.contains("const result = Formatter.shout(s);"));

    let mut opts = Opts::default();
    opts.with = vec![("text:ops/format".to_string(), "Formatter".to_string())];
    opts.exports = vec![(ExportKey::Name("text:ops/format".to_string()), "Impl".to_string())];
    let artifact = run(&text_ops(), opts).unwrap();
    assert!(artifact.contents.contains("const result = Impl.shout(s);"));
    assert!(artifact.contents.contains("export fn @\"text:ops/format#shout\"("));
}

#[test]
fn artifact_is_named_after_the_world_in_kebab_case() {
    let artifact = run(&world_of("MyWorld", vec![]), Opts::default()).unwrap();
    assert_eq!(artifact.name, "my-world.zig");
    assert_eq!(
        artifact.contents,
        format!("{}{}", PREAMBLE, "comptime {\n}\n\npub fn main() void {}")
    );
}

#[test]
fn build_keeps_each_skipped_name_once() {
    let mut opts = Opts::default();
    opts.skip = vec!["a".to_string(), "b".to_string(), "a".to_string()];
    let run = opts.build();
    assert_eq!(run.skip, vec!["a".to_string(), "b".to_string()]);
    assert_eq!(run.opts.skip.len(), 3);
    assert!(run.exported.is_empty());
    assert_eq!(run.src.to_string(), "");
}

#[test]
fn failures_name_the_function_and_the_type() {
    let f = function("divmod", &[], &[Type::U32, Type::U32, Type::U8], false);
    let err = run(&world_of("w", vec![f]), Opts::default()).unwrap_err();
    assert_eq!(err.message(), "function `divmod` has 3 results; at most one is supported");
    let f = function("area", &[("r", Type::Float64)], &[], false);
    let err = run(&world_of("w", vec![f]), Opts::default()).unwrap_err();
    assert_eq!(err.message(), "function `area` uses the type `float64`, which is not supported");
    let f = function("get", &[], &[Type::Id(12)], false);
    let err = run(&world_of("w", vec![f]), Opts::default()).unwrap_err();
    assert_eq!(err.message(), "function `get` uses the type `type 12`, which is not supported");
    let err = generate(&calculator(), 5, Opts::default()).unwrap_err();
    assert_eq!(err.message(), "the schema refers to an item that it does not hold");
}

#[test]
fn export_of_a_list_appends_to_what_the_scope_holds() {
    let schema = calculator();
    let mut run = Opts::default().build();
    run.preprocess(&schema, 0).unwrap();
    let mut gen = run.interface(&schema, None, None, false);
    let add = function("add", &[("a", Type::U32)], &[Type::U32], false);
    let sub = function("sub", &[("a", Type::U32)], &[Type::U32], false);
    gen.export(&schema, &add, None).unwrap();
    gen.export_each(&schema, &vec![&sub, &add], Some(&"x#".to_string())).unwrap();
    let names: Vec<&str> = gen.export_funcs.iter().map(|b| b.export_name.as_str()).collect();
    assert_eq!(names, vec!["add", "x#sub", "x#add"]);
    let text = gen.src.to_string();
    assert!(text.starts_with("export fn __export_add(a: u32, ) u32{\n  const result = Guest.add(a);\n"));
    assert!(text.contains("export fn @\"x#sub\"(a: u32, ) u32{\n  const result = Guest.sub(a);\n"));
    let bad = function("bad", &[], &[Type::Char], false);
    let before = gen.src.to_string();
    assert!(gen.export(&schema, &bad, None).is_err());
    assert_eq!(gen.src.to_string(), before);
    assert_eq!(gen.export_funcs.len(), 3);
}

#[test]
fn exported_types_are_refused() {
    let mut schema = calculator();
    schema.worlds[0].exports.push((WorldKey::Name("point".to_string()), WorldItem::Type(4)));
    let err = run(&schema, Opts::default()).unwrap_err();
    assert!(matches!(err, SchemaError::UnsupportedExport { ty: Type::Id(4) }));
    assert_eq!(err.message(), "the world exports the type `type 4`, which is not supported");

    let only_a_type = Schema {
        worlds: vec![World {
            name: "w".to_string(),
            imports: vec![],
            exports: vec![(WorldKey::Name("point".to_string()), WorldItem::Type(0))],
        }],
        interfaces: vec![],
        types: vec![],
        packages: vec![],
    };
    assert!(matches!(
        run(&only_a_type, Opts::default()),
        Err(SchemaError::UnsupportedExport { ty: Type::Id(0) })
    ));
    let mut opts = Opts::default();
    opts.stubs = true;
    assert!(matches!(run(&only_a_type, opts), Err(SchemaError::UnsupportedExport { .. })));

    let mut z = Opts::default().build();
    z.preprocess(&schema, 0).unwrap();
    let before = z.src.to_string();
    assert!(matches!(z.export_funcs(&schema, 0), Err(SchemaError::UnsupportedExport { .. })));
    assert!(matches!(
        z.finish(&schema, 0),
        Err(SchemaError::UnsupportedExport { ty: Type::Id(4) })
    ));
    assert_eq!(z.src.to_string(), before);
    assert!(z.exported.is_empty());
}

#[test]
fn build_keeps_the_options_as_they_are() {
    let mut opts = Opts::default();
    opts.rustfmt = true;
    opts.raw_strings = true;
    opts.export_prefix = Some("x".to_string());
    opts.additional_derive_attributes = vec!["Debug".to_string()];
    let run = opts.clone().build();
    assert!(run.opts.rustfmt && run.opts.raw_strings && !run.opts.std_feature);
    assert_eq!(run.opts.export_prefix, opts.export_prefix);
    assert_eq!(run.opts.additional_derive_attributes, opts.additional_derive_attributes);
}

#[test]
fn plain_names_and_underscores_do_not_collide_by_themselves() {
    let mut schema = text_ops();
    schema.interfaces.push(Interface {
        name: None,
        package: None,
        functions: vec![shout(), function("to_upper", &[("s", Type::String)], &[Type::String], true)],
    });
    schema.worlds[0].exports.push((WorldKey::Name("in-line".to_string()), WorldItem::Interface(1)));
    schema.worlds[0].exports.push((
        WorldKey::Name("trim_end".to_string()),
        WorldItem::Function(function("trim_end", &[("s", Type::String)], &[Type::String], true)),
    ));
    let mut run = Opts::default().build();
    run.preprocess(&schema, 0).unwrap();
    run.export_interface(&schema, &WorldKey::Interface(0), 0).unwrap();
    run.export_interface(&schema, &WorldKey::Name("in-line".to_string()), 1).unwrap();
    run.export_funcs(&schema, 0).unwrap();
    let mut names: Vec<String> = vec![];
    let mut symbols: Vec<String> = vec![];
    for b in run.exported.iter() {
        names.push(b.export_name.clone());
        symbols.push(b.symbol.clone());
        let post = b.post_return.as_ref().unwrap();
        names.push(post.export_name.clone());
        symbols.push(post.symbol.clone());
    }
    assert_eq!(
        names,
        vec![
            "text:ops/format#shout",
            "cabi_post_text:ops/format#shout",
            "InLineshout",
            "cabi_post_InLineshout",
            "InLineto_upper",
            "cabi_post_InLineto_upper",
            "trim_end",
            "cabi_post_trim_end",
        ]
    );
    for i in 0..names.len() {
        for j in 0..i {
            assert_ne!(names[i], names[j]);
            assert_ne!(symbols[i], symbols[j]);
        }
    }
    let artifact = run.finish(&schema, 0).unwrap();
    assert_eq!(artifact.contents.matches("@export(").count(), 8);
}
