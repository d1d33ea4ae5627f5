use wit_bindgen_zig::config::Opts;
use wit_bindgen_zig::error::SchemaError;
use wit_bindgen_zig::names::{
    avoid_keyword, canonical_name, interface_var_name, package_name_with, qualified_parts,
    ty_name_with,
};
use wit_bindgen_zig::schema::{
    Function, Handle, Interface, Package, Schema, Type, TypeDef, TypeDefKind, TypeOwner, World,
    WorldItem, WorldKey,
};
use wit_bindgen_zig::scopes::NameTable;
use wit_bindgen_zig::text::{contains, decimal, dedup};
use wit_bindgen_zig::types::{ty_name_below, UnsupportedType};
use wit_bindgen_zig::world::{scope_base, ZigWasm};

fn anonymous(kind: TypeDefKind) -> TypeDef {
    TypeDef { name: None, owner: TypeOwner::Unowned, kind }
}

fn named(name: &str, owner: TypeOwner, kind: TypeDefKind) -> TypeDef {
    TypeDef { name: Some(name.to_string()), owner, kind }
}

fn schema() -> Schema {
    let f = Function {
        name: "add-all".to_string(),
        params: vec![("first-one".to_string(), Type::U32), ("s".to_string(), Type::String)],
        results: vec![Type::U32],
        needs_post_return: false,
    };
    Schema {
        worlds: vec![World {
            name: "text-world".to_string(),
            imports: vec![(WorldKey::Interface(1), WorldItem::Interface(1))],
            exports: vec![
                (WorldKey::Interface(0), WorldItem::Interface(0)),
                (WorldKey::Name("in-line".to_string()), WorldItem::Interface(2)),
                (WorldKey::Name("add-all".to_string()), WorldItem::Function(f)),
            ],
        }],
        interfaces: vec![
            Interface { name: Some("format".to_string()), package: Some(0), functions: vec![] },
            Interface { name: Some("types".to_string()), package: Some(0), functions: vec![] },
            Interface { name: None, package: None, functions: vec![] },
        ],
        types: vec![
            anonymous(TypeDefKind::Tuple(vec![Type::U8, Type::String])),
            anonymous(TypeDefKind::Option(Type::Id(0))),
            anonymous(TypeDefKind::Result { ok: Some(Type::U32), err: None }),
            anonymous(TypeDefKind::List(Type::Char)),
            named("my-record", TypeOwner::World(0), TypeDefKind::Record),
            named("my-type", TypeOwner::Interface(1), TypeDefKind::Enum),
            anonymous(TypeDefKind::Type(Type::Id(0))),
            anonymous(TypeDefKind::Record),
            anonymous(TypeDefKind::Future(None)),
            anonymous(TypeDefKind::Stream { element: Some(Type::U8), end: None }),
            anonymous(TypeDefKind::Handle(Handle::Own(4))),
            anonymous(TypeDefKind::Handle(Handle::Borrow(4))),
            anonymous(TypeDefKind::Result { ok: Some(Type::U32), err: Some(Type::String) }),
            anonymous(TypeDefKind::Option(Type::Id(14))),
            anonymous(TypeDefKind::Tuple(vec![])),
            named("free", TypeOwner::Unowned, TypeDefKind::Flags),
            named("lost", TypeOwner::Interface(2), TypeDefKind::Variant),
            named("far", TypeOwner::World(7), TypeDefKind::Variant),
            named("text", TypeOwner::World(0), TypeDefKind::List(Type::U8)),
            anonymous(TypeDefKind::Tuple(vec![Type::U8, Type::Id(7)])),
            named("gone", TypeOwner::Interface(9), TypeDefKind::Variant),
        ],
        packages: vec![Package { namespace: "text".to_string(), name: "ops".to_string() }],
    }
}

fn prepared(schema: &Schema) -> ZigWasm {
    let mut run = Opts::default().build();
    run.preprocess(schema, 0).unwrap();
    run
}

#[test]
fn scopes_have_three_names() {
    let s = schema();
    let key = WorldKey::Interface(0);
    assert_eq!(ty_name_with(&s, &key), Some("TextOpsFormat".to_string()));
    assert_eq!(package_name_with(&s, &key), Some("text:ops/format#".to_string()));
    assert_eq!(canonical_name(&s, &key), Some("text:ops/format".to_string()));
    assert_eq!(interface_var_name(&s, Some(&key)), Some("Format".to_string()));
    let key = WorldKey::Name("in-line".to_string());
    assert_eq!(ty_name_with(&s, &key), Some("InLine".to_string()));
    assert_eq!(package_name_with(&s, &key), Some("InLine".to_string()));
    assert_eq!(canonical_name(&s, &key), Some("in-line".to_string()));
    assert_eq!(interface_var_name(&s, Some(&key)), Some("in_line".to_string()));
    assert_eq!(interface_var_name(&s, None), Some("Guest".to_string()));
}

#[test]
fn interfaces_without_a_package_have_no_qualified_name() {
    let s = schema();
    for id in [2, 3, 100] {
        let key = WorldKey::Interface(id);
        assert!(qualified_parts(&s, id).is_none());
        assert_eq!(ty_name_with(&s, &key), None);
        assert_eq!(package_name_with(&s, &key), None);
        assert_eq!(canonical_name(&s, &key), None);
        assert_eq!(interface_var_name(&s, Some(&key)), None);
    }
    let parts = qualified_parts(&s, 1).unwrap();
    assert_eq!((parts.0.as_str(), parts.1.as_str(), parts.2.as_str()), ("text", "ops", "types"));
}

#[test]
fn keywords_are_avoided() {
    let reserved = vec!["fn".to_string(), "const".to_string()];
    assert_eq!(avoid_keyword(&reserved, "fn"), "fn_");
    assert_eq!(avoid_keyword(&reserved, "const"), "const_");
    assert_eq!(avoid_keyword(&reserved, "func"), "func");
    assert_eq!(avoid_keyword(&vec![], "fn"), "fn");
}

#[test]
fn options_choose_the_wanted_name_of_a_scope() {
    let s = schema();
    let key = WorldKey::Interface(0);
    let mut opts = Opts::default();
    assert_eq!(scope_base(&s, &opts, Some(&key)), Some("Format".to_string()));
    assert_eq!(scope_base(&s, &opts, None), Some("Guest".to_string()));
    opts.with = vec![
        ("text:ops/format".to_string(), "Old".to_string()),
        ("text:ops/types".to_string(), "Types".to_string()),
        ("text:ops/format".to_string(), "New".to_string()),
    ];
    assert_eq!(opts.lookup_with(&"text:ops/format".to_string()), Some("New".to_string()));
    assert_eq!(opts.lookup_with(&"text:ops/none".to_string()), None);
    assert_eq!(scope_base(&s, &opts, Some(&key)), Some("New".to_string()));
    assert_eq!(scope_base(&s, &opts, None), Some("Guest".to_string()));
    assert_eq!(scope_base(&s, &opts, Some(&WorldKey::Interface(2))), None);
}

#[test]
fn table_gives_no_name_twice() {
    let mut t = NameTable::new();
    assert_eq!(t.intern(None, None, "Guest"), "Guest");
    assert_eq!(t.intern(Some(0), Some(WorldKey::Interface(0)), "Format"), "Format");
    assert_eq!(t.intern(Some(1), Some(WorldKey::Interface(1)), "Format"), "Format1");
    assert_eq!(t.intern(Some(2), None, "Format"), "Format2");
    assert_eq!(t.intern(Some(3), None, "Guest"), "Guest3");
    assert_eq!(t.intern(Some(4), None, "Format1"), "Format14");
    assert_eq!(t.intern(Some(5), None, "Other"), "Other");
    assert_eq!(t.len(), 7);
    assert_eq!(t.intern(Some(1), None, "Something"), "Format1");
    assert_eq!(t.intern(None, None, "Host"), "Guest");
    assert_eq!(t.len(), 7);
    assert_eq!(t.resolve(Some(3)), Some("Guest3".to_string()));
    assert_eq!(t.resolve(Some(9)), None);
    assert_eq!(t.position(Some(2)), Some(3));
    assert!(matches!(t.key_of(Some(1)), Some(Some(WorldKey::Interface(1)))));
    assert!(matches!(t.key_of(Some(2)), Some(None)));
    assert!(t.key_of(Some(9)).is_none());
}

#[test]
fn table_steps_over_numbers_that_are_taken() {
    let mut t = NameTable::new();
    assert_eq!(t.intern(Some(0), None, "A"), "A");
    assert_eq!(t.intern(Some(1), None, "A1"), "A1");
    assert_eq!(t.intern(Some(2), None, "A"), "A2");
    assert_eq!(t.intern(Some(3), None, "A"), "A3");
    assert_eq!(t.intern(Some(4), None, "A1"), "A14");
}

#[test]
fn preprocess_names_imports_and_exports() {
    let s = schema();
    let run = prepared(&s);
    assert_eq!(run.interface_names.len(), 4);
    assert_eq!(run.interface_names.resolve(None), Some("Guest".to_string()));
    assert_eq!(run.interface_names.resolve(Some(1)), Some("Types".to_string()));
    assert_eq!(run.interface_names.resolve(Some(0)), Some("Format".to_string()));
    assert_eq!(run.interface_names.resolve(Some(2)), Some("in_line".to_string()));
}

#[test]
fn preprocess_changes_nothing_where_it_fails() {
    let mut s = schema();
    s.worlds[0].exports.push((WorldKey::Interface(2), WorldItem::Interface(2)));
    let mut run = Opts::default().build();
    assert!(matches!(run.preprocess(&s, 0), Err(SchemaError::UnresolvedReference)));
    assert_eq!(run.world, "");
    assert_eq!(run.interface_names.len(), 0);
    assert!(matches!(run.preprocess(&s, 4), Err(SchemaError::UnresolvedReference)));
}

#[test]
fn synthesized_names_follow_the_shape() {
    let s = schema();
    let run = prepared(&s);
    let gen = run.interface(&s, None, None, false);
    let name = |id: usize| gen.get_ty_name(&Type::Id(id));
    assert_eq!(name(0), Ok("Tuple2U8StringT".to_string()));
    assert_eq!(name(1), Ok("OptionTuple2U8StringTT".to_string()));
    assert_eq!(name(2), Ok("ResultU32EmptyT".to_string()));
    assert_eq!(name(3), Ok("ListByteT".to_string()));
    assert_eq!(name(4), Ok("TextWorldMyRecord".to_string()));
    assert_eq!(name(5), Ok("TextOpsTypesMyType".to_string()));
    assert_eq!(name(6), Ok("Tuple2U8StringT".to_string()));
    assert_eq!(name(8), Ok("FutureEmptyT".to_string()));
    assert_eq!(name(9), Ok("StreamU8EmptyT".to_string()));
    assert_eq!(name(10), Ok("OwnTextWorldMyRecordT".to_string()));
    assert_eq!(name(11), Ok("BorrowTextWorldMyRecordT".to_string()));
    assert_eq!(name(12), Ok("ResultU32StringT".to_string()));
    assert_eq!(name(14), Ok("Tuple0T".to_string()));
    assert_eq!(name(15), Ok("Free".to_string()));
    assert_eq!(name(16), Ok("InLineLost".to_string()));
    assert_eq!(name(18), Ok("TextWorldText".to_string()));
    assert_eq!(gen.get_ty_name(&Type::Float32), Ok("F32".to_string()));
    assert_eq!(gen.get_ty_name(&Type::Float64), Ok("F64".to_string()));
    assert_eq!(gen.get_ty_name(&Type::Char), Ok("Byte".to_string()));
    assert_eq!(gen.get_ty_name(&Type::String), Ok("String".to_string()));
    assert_eq!(gen.get_ty_name(&Type::Bool), Ok("Bool".to_string()));
    assert_eq!(gen.get_ty_name(&Type::S16), Ok("S16".to_string()));
    assert_eq!(gen.get_optional_ty_name(None), Some("Empty".to_string()));
    assert_eq!(gen.get_optional_ty_name(Some(&Type::U64)), Some("U64".to_string()));
}

#[test]
fn shapes_without_a_name_are_reported() {
    let s = schema();
    let run = prepared(&s);
    let gen = run.interface(&s, None, None, false);
    for id in [7, 13, 17, 19, 20, 1000] {
        assert_eq!(gen.get_ty_name(&Type::Id(id)), Err(UnsupportedType { ty: Type::Id(id) }));
    }
    assert_eq!(gen.get_optional_ty_name(Some(&Type::Id(7))), None);
}

#[test]
fn a_definition_is_named_from_definitions_before_it() {
    let s = schema();
    let run = prepared(&s);
    assert_eq!(
        ty_name_below(&s, &run.interface_names, &Type::Id(1), 2),
        Some("OptionTuple2U8StringTT".to_string())
    );
    assert_eq!(ty_name_below(&s, &run.interface_names, &Type::Id(1), 1), None);
    assert_eq!(ty_name_below(&s, &run.interface_names, &Type::U8, 0), Some("U8".to_string()));
}

#[test]
fn names_of_twelve_parts() {
    let mut s = schema();
    s.types = vec![anonymous(TypeDefKind::Tuple(vec![Type::Bool; 12]))];
    let run = prepared(&s);
    let gen = run.interface(&s, None, None, false);
    assert_eq!(
        gen.get_ty_name(&Type::Id(0)),
        Ok(format!("Tuple12{}T", "Bool".repeat(12)))
    );
}

#[test]
fn signature_types_of_a_scope() {
    let s = schema();
    let run = prepared(&s);
    let mut gen = run.interface(&s, None, None, false);
    assert_eq!(gen.get_ty(&Type::Bool), Ok("bool".to_string()));
    assert_eq!(gen.get_ty(&Type::U8), Ok("uint8".to_string()));
    assert_eq!(gen.get_ty(&Type::U16), Ok("uint16".to_string()));
    assert_eq!(gen.get_ty(&Type::U32), Ok("uint32".to_string()));
    assert_eq!(gen.get_ty(&Type::U64), Ok("uint64".to_string()));
    assert_eq!(gen.get_ty(&Type::S8), Ok("int8".to_string()));
    assert_eq!(gen.get_ty(&Type::S16), Ok("int16".to_string()));
    assert_eq!(gen.get_ty(&Type::S32), Ok("int32".to_string()));
    assert_eq!(gen.get_ty(&Type::S64), Ok("int64".to_string()));
    assert_eq!(gen.get_ty(&Type::Float32), Ok("float32".to_string()));
    assert_eq!(gen.get_ty(&Type::Float64), Ok("float64".to_string()));
    assert_eq!(gen.get_ty(&Type::Char), Ok("rune".to_string()));
    assert_eq!(gen.get_ty(&Type::String), Ok("string".to_string()));
    assert!(gen.public_anonymous_types.is_empty());
    assert_eq!(gen.get_ty(&Type::Id(4)), Ok("TextWorldMyRecord".to_string()));
    assert_eq!(gen.get_ty(&Type::Id(5)), Ok("TextOpsTypesMyType".to_string()));
    assert_eq!(gen.get_ty(&Type::Id(16)), Ok("InLineLost".to_string()));
    assert_eq!(gen.get_ty(&Type::Id(17)), Ok("TextWorldFar".to_string()));
    assert!(gen.public_anonymous_types.is_empty());
    assert_eq!(gen.get_ty(&Type::Id(0)), Ok("TextWorldTuple2U8StringT".to_string()));
    assert_eq!(gen.get_ty(&Type::Id(10)), Ok("TextWorldOwnTextWorldMyRecordT".to_string()));
    let noted: Vec<usize> = gen.public_anonymous_types.iter().copied().collect();
    assert_eq!(noted, vec![0, 10]);
    for id in [1, 2, 3, 6, 7, 12, 18, 19, 20, 500] {
        assert_eq!(gen.get_ty(&Type::Id(id)), Err(UnsupportedType { ty: Type::Id(id) }));
    }
    assert_eq!(gen.public_anonymous_types.len(), 2);
    assert_eq!(gen.get_optional_ty(None), Ok("struct{}".to_string()));
    assert_eq!(gen.get_optional_ty(Some(&Type::S8)), Ok("int8".to_string()));
    assert_eq!(gen.get_type_name("my-name", true), Some("TextWorldMyName".to_string()));
    assert_eq!(gen.get_type_name("my-name", false), Some("TextWorldmy-name".to_string()));
}

#[test]
fn signature_types_in_an_interface() {
    let s = schema();
    let run = prepared(&s);
    let key = WorldKey::Interface(0);
    let mut gen = run.interface(&s, Some(0), Some(&key), false);
    assert_eq!(gen.get_ty(&Type::Id(4)), Ok("TextOpsFormatMyRecord".to_string()));
    assert_eq!(gen.get_ty(&Type::Id(14)), Ok("TextOpsFormatTuple0T".to_string()));
    assert_eq!(gen.get_type_name("x", true), Some("TextOpsFormatX".to_string()));
    assert_eq!(gen.get_package_name(), Some("text:ops/format#".to_string()));
    assert_eq!(gen.get_interface_var_name(), Some("Format".to_string()));
    assert_eq!(gen.get_ty_name_with(&key), Some("TextOpsFormat".to_string()));
    assert_eq!(gen.get_package_name_with(&key), Some("text:ops/format#".to_string()));
    assert_eq!(gen.get_zig_binding_ty(&Type::String), Ok("[*]u8".to_string()));
    assert_eq!(gen.resolve().packages.len(), 1);
    assert_eq!(run.get_zig_ty(&Type::String), Ok("[]u8".to_string()));
}

#[test]
fn signatures_of_functions() {
    let s = schema();
    let mut run = prepared(&s);
    run.opts.keywords = vec!["s".to_string()];
    let mut gen = run.interface(&s, None, None, false);
    let f = match &s.worlds[0].exports[2].1 {
        WorldItem::Function(f) => f.clone(),
        _ => unreachable!(),
    };
    assert_eq!(gen.get_func_params(&s, &f), Ok("first_one uint32, s_ string".to_string()));
    assert_eq!(gen.get_func_results(&s, &f), Ok(" uint32 ".to_string()));
    assert_eq!(
        gen.get_func_signature_no_interface(&s, &f),
        Ok("AddAll(first_one uint32, s_ string) uint32 ".to_string())
    );
    assert_eq!(gen.get_package_name(), Some("TextWorld".to_string()));
    gen.print_func_signature(&s, &f).unwrap();
    assert_eq!(
        gen.src.to_string(),
        "export fn TextWorldadd-all(first_one uint32, s_ string) uint32 {\n  "
    );

    let mut g = f.clone();
    g.params = vec![];
    g.results = vec![];
    assert_eq!(gen.get_func_params(&s, &g), Ok("".to_string()));
    assert_eq!(gen.get_func_results(&s, &g), Ok(" ".to_string()));
    g.results = vec![Type::U8, Type::Id(0), Type::String];
    assert_eq!(
        gen.get_func_results(&s, &g),
        Ok(" (uint8, TextWorldTuple2U8StringT, string) ".to_string())
    );
    assert!(gen.public_anonymous_types.contains(&0));
    g.params = vec![("p".to_string(), Type::Id(14)), ("q".to_string(), Type::Id(1))];
    assert_eq!(gen.get_func_params(&s, &g), Err(UnsupportedType { ty: Type::Id(1) }));
    assert!(!gen.public_anonymous_types.contains(&14));
    g.results = vec![Type::Id(3)];
    assert_eq!(gen.get_func_results(&s, &g), Err(UnsupportedType { ty: Type::Id(3) }));
    assert_eq!(
        gen.get_func_signature_no_interface(&s, &g),
        Err(UnsupportedType { ty: Type::Id(1) })
    );
    let before = gen.src.to_string();
    assert!(matches!(
        gen.print_func_signature(&s, &g),
        Err(SchemaError::UnsupportedType { ty: Type::Id(1), .. })
    ));
    assert_eq!(gen.src.to_string(), before);
}

#[test]
fn numerals() {
    assert_eq!(decimal(0), "0");
    assert_eq!(decimal(7), "7");
    assert_eq!(decimal(10), "10");
    assert_eq!(decimal(1234567890), "1234567890");
    assert_eq!(decimal(u128::MAX), "340282366920938463463374607431768211455");
}

#[test]
fn lists_of_strings() {
    let list = vec!["a".to_string(), "b".to_string(), "a".to_string(), "".to_string()];
    assert!(contains(&list, "b"));
    assert!(contains(&list, ""));
    assert!(!contains(&list, "c"));
    assert_eq!(dedup(&list), vec!["a".to_string(), "b".to_string(), "".to_string()]);
    assert_eq!(dedup(&vec![]), Vec::<String>::new());
}
