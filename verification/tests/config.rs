use std::str::FromStr;
use wit_bindgen_zig::config::{
    iterate_hashmap_string, parse_exports, parse_with, same_text, split, split_once, ConfigError,
    ExportKey, Opts, Ownership,
};

fn pairs(list: &[(&str, &str)]) -> Vec<(String, String)> {
    list.iter().map(|(a, b)| (a.to_string(), b.to_string())).collect()
}

#[test]
fn ownership_is_read_and_written() {
    let cases = [
        ("owning", Ownership::Owning),
        ("borrowing", Ownership::Borrowing { duplicate_if_necessary: false }),
        (
            "borrowing-duplicate-if-necessary",
            Ownership::Borrowing { duplicate_if_necessary: true },
        ),
    ];
    for (text, value) in cases {
        assert_eq!(Ownership::parse(text).unwrap(), value);
        assert_eq!(Ownership::from_str(text), Ok(value));
        assert_eq!(value.to_string(), text);
    }
    assert_eq!(Ownership::default(), Ownership::Owning);
}

#[test]
fn unknown_ownership_is_refused() {
    match Ownership::parse("Owning") {
        Err(ConfigError::UnrecognizedOwnership { given }) => assert_eq!(given, "Owning"),
        other => panic!("unexpected {:?}", other),
    }
    assert_eq!(
        Ownership::from_str("lending"),
        Err("unrecognized ownership: `lending`; expected `owning`, `borrowing`, or `borrowing-duplicate-if-necessary`".to_string())
    );
    assert!(Ownership::from_str("").is_err());
}

#[test]
fn texts_are_split() {
    assert_eq!(split("a,b", ','), vec!["a", "b"]);
    assert_eq!(split("", ','), vec![""]);
    assert_eq!(split("a,,b,", ','), vec!["a", "", "b", ""]);
    assert_eq!(split(",", ','), vec!["", ""]);
    assert_eq!(split("héllo,wörld", ','), vec!["héllo", "wörld"]);
    assert_eq!(split_once("a=b", '='), Some(("a".to_string(), "b".to_string())));
    assert_eq!(split_once("a=b=c", '='), Some(("a".to_string(), "b=c".to_string())));
    assert_eq!(split_once("=", '='), Some(("".to_string(), "".to_string())));
    assert_eq!(split_once("ключ=значение", '='), Some(("ключ".to_string(), "значение".to_string())));
    assert_eq!(split_once("ab", '='), None);
    assert_eq!(split_once("", '='), None);
    assert!(same_text("world", "world"));
    assert!(!same_text("world", "World"));
}

#[test]
fn remapping_is_read() {
    assert_eq!(parse_with("").unwrap(), pairs(&[]));
    assert_eq!(parse_with("a=b").unwrap(), pairs(&[("a", "b")]));
    assert_eq!(
        parse_with("ns:pkg/iface=my::module,k=v=w,a=b,a=c").unwrap(),
        pairs(&[("ns:pkg/iface", "my::module"), ("k", "v=w"), ("a", "b"), ("a", "c")])
    );
    assert_eq!(iterate_hashmap_string("x=,=y").unwrap(), pairs(&[("x", ""), ("", "y")]));
}

#[test]
fn entries_without_a_value_are_refused() {
    for text in ["a", "a=b,c", "a=b,", ",a=b", "a=b,,c=d"] {
        match parse_with(text) {
            Err(ConfigError::MalformedEntry { given }) => assert_eq!(given, text),
            other => panic!("unexpected {:?}", other),
        }
        assert!(matches!(parse_exports(text), Err(ConfigError::MalformedEntry { .. })));
    }
    match iterate_hashmap_string("") {
        Err(e) => assert_eq!(
            e.message(),
            "expected string of form `<key>=<value>[,<key>=<value>...]`; got ``"
        ),
        other => panic!("unexpected {:?}", other),
    }
    let e = parse_with("k=v,oops").unwrap_err();
    assert_eq!(
        e.message(),
        "expected string of form `<key>=<value>[,<key>=<value>...]`; got `k=v,oops`"
    );
}

#[test]
fn exports_are_read() {
    assert_eq!(parse_exports("").unwrap(), vec![]);
    assert_eq!(
        parse_exports("world=MyWorld,ns:pkg/iface1=MyIface1,World=w").unwrap(),
        vec![
            (ExportKey::World, "MyWorld".to_string()),
            (ExportKey::Name("ns:pkg/iface1".to_string()), "MyIface1".to_string()),
            (ExportKey::Name("World".to_string()), "w".to_string()),
        ]
    );
}

#[test]
fn later_entries_count() {
    let mut opts = Opts::default();
    opts.exports = parse_exports("world=A,x=B,world=C").unwrap();
    assert_eq!(opts.lookup_export(&ExportKey::World), Some("C".to_string()));
    assert_eq!(opts.lookup_export(&ExportKey::Name("x".to_string())), Some("B".to_string()));
    assert_eq!(opts.lookup_export(&ExportKey::Name("world".to_string())), None);
    opts.with = parse_with("a=1,b=2,a=3").unwrap();
    assert_eq!(opts.lookup_with(&"a".to_string()), Some("3".to_string()));
    assert_eq!(opts.lookup_with(&"b".to_string()), Some("2".to_string()));
    assert_eq!(opts.lookup_with(&"c".to_string()), None);
}

#[test]
fn default_options_change_nothing() {
    let opts = Opts::default();
    assert!(!opts.stubs && !opts.rustfmt && !opts.std_feature && !opts.raw_strings);
    assert!(opts.skip.is_empty() && opts.exports.is_empty() && opts.with.is_empty());
    assert!(opts.keywords.is_empty() && opts.additional_derive_attributes.is_empty());
    assert!(opts.export_prefix.is_none() && opts.runtime_path.is_none());
    assert!(opts.bitflags_path.is_none());
    assert_eq!(opts.ownership, Ownership::Owning);
}
