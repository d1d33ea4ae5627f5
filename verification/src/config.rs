//! The configuration of a generation run.

use vstd::prelude::*;

verus! {

/// Whether generated types own their fields.
#[derive(Clone, Copy, Debug, PartialEq, Eq, Structural)]
pub enum Ownership {
    /// Generated types are composed entirely of owning fields, whether or not
    /// they are used as parameters to imports.
    Owning,
    /// Generated types used as parameters to imports borrow where they can.
    Borrowing {
        /// Whether to generate a second definition for a type that is used
        /// both ways.
        duplicate_if_necessary: bool,
    },
}

impl Default for Ownership {
    fn default() -> (r: Self)
        ensures
            r == Ownership::Owning,
    {
        Ownership::Owning
    }
}

/// The scope that an entry of [`Opts::exports`] speaks of.
#[derive(Clone, Debug, Hash, PartialEq, Eq, PartialOrd, Ord)]
pub enum ExportKey {
    /// The world itself.
    World,
    /// The interface with this canonical name.
    Name(String),
}

/// The model of an [`ExportKey`].
pub enum ExportKeyModel {
    World,
    Name(Seq<char>),
}

impl View for ExportKey {
    type V = ExportKeyModel;

    open spec fn view(&self) -> ExportKeyModel {
        match *self {
            ExportKey::World => ExportKeyModel::World,
            ExportKey::Name(name) => ExportKeyModel::Name(name@),
        }
    }
}

impl DeepView for ExportKey {
    type V = ExportKeyModel;

    open spec fn deep_view(&self) -> ExportKeyModel {
        self@
    }
}

/// The options of a generation run.
#[derive(Clone, Debug)]
pub struct Opts {
    /// Whether a formatter is run on the generated code.
    pub rustfmt: bool,
    /// Whether generated code guards what needs `std` by a feature.
    pub std_feature: bool,
    /// Whether borrowed strings are passed as bytes.
    pub raw_strings: bool,
    /// Names of functions to skip generating bindings for.
    pub skip: Vec<String>,
    /// For a scope, the name of the implementation that its exported
    /// functions call, in place of the resolved one. Of two entries for one
    /// scope the later counts.
    pub exports: Vec<(ExportKey, String)>,
    /// Whether to generate empty placeholder bodies in place of bindings.
    pub stubs: bool,
    /// A prefix for export names.
    pub export_prefix: Option<String>,
    /// Whether to generate owning or borrowing type definitions.
    pub ownership: Ownership,
    /// The path to the runtime module.
    pub runtime_path: Option<String>,
    /// The path to the bitflags crate.
    pub bitflags_path: Option<String>,
    /// Additional derive attributes for generated types.
    pub additional_derive_attributes: Vec<String>,
    /// For the canonical name of an interface, the name to use for it in
    /// place of the one derived from the schema. Of two entries for one
    /// interface the later counts.
    pub with: Vec<(String, String)>,
    /// The identifiers that generated code must not use as they are.
    pub keywords: Vec<String>,
}

/// The model of [`Opts`]: the options that generation reads.
pub struct OptsModel {
    pub exports: Seq<(ExportKeyModel, Seq<char>)>,
    pub stubs: bool,
    pub with: Seq<(Seq<char>, Seq<char>)>,
    pub keywords: Seq<Seq<char>>,
}

impl View for Opts {
    type V = OptsModel;

    open spec fn view(&self) -> OptsModel {
        OptsModel {
            exports: self.exports.deep_view(),
            stubs: self.stubs,
            with: self.with.deep_view(),
            keywords: self.keywords.deep_view(),
        }
    }
}

/// The options that change nothing: no renaming, bindings and not
/// placeholders, no reserved words.
pub open spec fn spec_default_opts() -> OptsModel {
    OptsModel { exports: Seq::empty(), stubs: false, with: Seq::empty(), keywords: Seq::empty() }
}

impl Default for Opts {
    fn default() -> (r: Self)
        ensures
            r@ == spec_default_opts(),
            r.skip@.len() == 0,
    {
        let r = Opts {
            rustfmt: false,
            std_feature: false,
            raw_strings: false,
            skip: Vec::new(),
            exports: Vec::new(),
            stubs: false,
            export_prefix: None,
            ownership: Ownership::Owning,
            runtime_path: None,
            bitflags_path: None,
            additional_derive_attributes: Vec::new(),
            with: Vec::new(),
            keywords: Vec::new(),
        };
        assert(r@.exports =~= Seq::empty());
        assert(r@.with =~= Seq::empty());
        assert(r@.keywords =~= Seq::empty());
        r
    }
}

/// The value of the last entry of `with` for `name`.
pub open spec fn spec_lookup_with(with: Seq<(Seq<char>, Seq<char>)>, name: Seq<char>) -> Option<
    Seq<char>,
>
    decreases with.len(),
{
    if with.len() == 0 {
        None
    } else if with.last().0 == name {
        Some(with.last().1)
    } else {
        spec_lookup_with(with.drop_last(), name)
    }
}

/// The value of the last entry of `exports` for `key`.
pub open spec fn spec_lookup_export(exports: Seq<(ExportKeyModel, Seq<char>)>, key: ExportKeyModel) -> Option<
    Seq<char>,
>
    decreases exports.len(),
{
    if exports.len() == 0 {
        None
    } else if exports.last().0 == key {
        Some(exports.last().1)
    } else {
        spec_lookup_export(exports.drop_last(), key)
    }
}

/// Whether `key` is `other`.
fn same_key(key: &ExportKey, other: &ExportKey) -> (r: bool)
    ensures
        r == (key@ == other@),
{
    match (key, other) {
        (ExportKey::World, ExportKey::World) => true,
        (ExportKey::Name(a), ExportKey::Name(b)) => *a == *b,
        _ => false,
    }
}

impl Opts {
    /// The name that [`Opts::with`] gives to the interface with the
    /// canonical name `name`.
    pub fn lookup_with(&self, name: &String) -> (r: Option<String>)
        ensures
            r.deep_view() == spec_lookup_with(self@.with, name@),
    {
        let mut i: usize = self.with.len();
        assert(self@.with.take(i as int) =~= self@.with);
        while i > 0
            invariant
                i <= self.with.len(),
                spec_lookup_with(self@.with, name@) == spec_lookup_with(
                    self@.with.take(i as int),
                    name@,
                ),
            decreases i,
        {
            assert(self@.with.take(i as int).drop_last() =~= self@.with.take(i - 1));
            assert(self@.with.take(i as int).last() == self@.with[i - 1]);
            i -= 1;
            if self.with[i].0 == *name {
                return Some(self.with[i].1.clone());
            }
        }
        None
    }

    /// The name that [`Opts::exports`] gives to the implementation of the
    /// scope `key`.
    pub fn lookup_export(&self, key: &ExportKey) -> (r: Option<String>)
        ensures
            r.deep_view() == spec_lookup_export(self@.exports, key@),
    {
        let mut i: usize = self.exports.len();
        assert(self@.exports.take(i as int) =~= self@.exports);
        while i > 0
            invariant
                i <= self.exports.len(),
                spec_lookup_export(self@.exports, key@) == spec_lookup_export(
                    self@.exports.take(i as int),
                    key@,
                ),
            decreases i,
        {
            assert(self@.exports.take(i as int).drop_last() =~= self@.exports.take(i - 1));
            assert(self@.exports.take(i as int).last() == self@.exports[i - 1]);
            i -= 1;
            if same_key(&self.exports[i].0, key) {
                return Some(self.exports[i].1.clone());
            }
        }
        None
    }
}

/// A configuration text that cannot be read.
#[derive(Clone, Debug)]
pub enum ConfigError {
    /// The text names no way of owning.
    UnrecognizedOwnership { given: String },
    /// An entry of a list of `key=value` entries has no `=`.
    MalformedEntry { given: String },
}

/// The model of a [`ConfigError`].
pub enum ConfigErrorModel {
    UnrecognizedOwnership { given: Seq<char> },
    MalformedEntry { given: Seq<char> },
}

impl View for ConfigError {
    type V = ConfigErrorModel;

    open spec fn view(&self) -> ConfigErrorModel {
        match *self {
            ConfigError::UnrecognizedOwnership { given } => ConfigErrorModel::UnrecognizedOwnership {
                given: given@,
            },
            ConfigError::MalformedEntry { given } => ConfigErrorModel::MalformedEntry { given: given@ },
        }
    }
}

/// What a [`ConfigError`] says.
pub open spec fn spec_message(e: ConfigErrorModel) -> Seq<char> {
    match e {
        ConfigErrorModel::UnrecognizedOwnership { given } => "unrecognized ownership: `"@ + given
            + "`; expected `owning`, `borrowing`, or `borrowing-duplicate-if-necessary`"@,
        ConfigErrorModel::MalformedEntry { given } =>
            "expected string of form `<key>=<value>[,<key>=<value>...]`; got `"@ + given + "`"@,
    }
}

impl ConfigError {
    /// What the error says.
    pub fn message(&self) -> (r: String)
        ensures
            r@ == spec_message(self@),
    {
        match self {
            ConfigError::UnrecognizedOwnership { given } => {
                let mut r = "unrecognized ownership: `".to_string();
                r.append(given.as_str());
                r.append("`; expected `owning`, `borrowing`, or `borrowing-duplicate-if-necessary`");
                r
            },
            ConfigError::MalformedEntry { given } => {
                let mut r = "expected string of form `<key>=<value>[,<key>=<value>...]`; got `".to_string();
                r.append(given.as_str());
                r.append("`");
                r
            },
        }
    }
}

/// The way of owning that a text names.
pub open spec fn spec_parse_ownership(s: Seq<char>) -> Option<Ownership> {
    if s == "owning"@ {
        Some(Ownership::Owning)
    } else if s == "borrowing"@ {
        Some(Ownership::Borrowing { duplicate_if_necessary: false })
    } else if s == "borrowing-duplicate-if-necessary"@ {
        Some(Ownership::Borrowing { duplicate_if_necessary: true })
    } else {
        None
    }
}

/// The text that names a way of owning.
pub open spec fn spec_ownership_text(o: Ownership) -> Seq<char> {
    match o {
        Ownership::Owning => "owning"@,
        Ownership::Borrowing { duplicate_if_necessary: false } => "borrowing"@,
        Ownership::Borrowing { duplicate_if_necessary: true } => "borrowing-duplicate-if-necessary"@,
    }
}

/// Whether two texts hold the same characters.
pub fn same_text(a: &str, b: &str) -> (r: bool)
    ensures
        r == (a@ == b@),
{
    a.to_string() == b.to_string()
}

impl Ownership {
    /// Reads a way of owning.
    pub fn parse(s: &str) -> (r: Result<Ownership, ConfigError>)
        ensures
            match r {
                Ok(o) => spec_parse_ownership(s@) == Some(o),
                Err(e) => spec_parse_ownership(s@) is None && e@ == (
                ConfigErrorModel::UnrecognizedOwnership { given: s@ }),
            },
    {
        if same_text(s, "owning") {
            Ok(Ownership::Owning)
        } else if same_text(s, "borrowing") {
            Ok(Ownership::Borrowing { duplicate_if_necessary: false })
        } else if same_text(s, "borrowing-duplicate-if-necessary") {
            Ok(Ownership::Borrowing { duplicate_if_necessary: true })
        } else {
            Err(ConfigError::UnrecognizedOwnership { given: s.to_string() })
        }
    }

    /// Writes the way of owning as [`Ownership::parse`] reads it.
    pub fn to_string(&self) -> (r: String)
        ensures
            r@ == spec_ownership_text(*self),
    {
        match self {
            Ownership::Owning => "owning".to_string(),
            Ownership::Borrowing { duplicate_if_necessary: false } => "borrowing".to_string(),
            Ownership::Borrowing { duplicate_if_necessary: true } => "borrowing-duplicate-if-necessary".to_string(),
        }
    }
}

impl std::str::FromStr for Ownership {
    type Err = String;

    fn from_str(s: &str) -> (r: Result<Self, String>)
        ensures
            match r {
                Ok(o) => spec_parse_ownership(s@) == Some(o),
                Err(e) => spec_parse_ownership(s@) is None && e@ == spec_message(
                    ConfigErrorModel::UnrecognizedOwnership { given: s@ },
                ),
            },
    {
        match Ownership::parse(s) {
            Ok(o) => Ok(o),
            Err(e) => Err(e.message()),
        }
    }
}

/// The pieces of `s` between the occurrences of `sep`.
pub open spec fn spec_split(s: Seq<char>, sep: char) -> Seq<Seq<char>>
    decreases s.len(),
{
    if s.len() == 0 {
        seq![Seq::empty()]
    } else {
        let front = spec_split(s.drop_last(), sep);
        if s.last() == sep {
            front.push(Seq::empty())
        } else {
            front.drop_last().push(front.last().push(s.last()))
        }
    }
}

/// The position of the first `c` in `s`.
pub open spec fn spec_first(s: Seq<char>, c: char) -> Option<int>
    decreases s.len(),
{
    if s.len() == 0 {
        None
    } else {
        match spec_first(s.drop_last(), c) {
            Some(i) => Some(i),
            None => if s.last() == c {
                Some(s.len() - 1)
            } else {
                None
            },
        }
    }
}

/// What stands before and behind the first `c` in `s`.
pub open spec fn spec_split_once(s: Seq<char>, c: char) -> Option<(Seq<char>, Seq<char>)> {
    match spec_first(s, c) {
        Some(i) => Some((s.subrange(0, i), s.subrange(i + 1, s.len() as int))),
        None => None,
    }
}

/// The pairs that the entries `entries` of a list hold, each split at its
/// first `=`; or the failure of the first entry without one, for the list
/// `given`.
pub open spec fn spec_pairs(entries: Seq<Seq<char>>, given: Seq<char>) -> Result<
    Seq<(Seq<char>, Seq<char>)>,
    ConfigErrorModel,
>
    decreases entries.len(),
{
    if entries.len() == 0 {
        Ok(Seq::empty())
    } else {
        match spec_pairs(entries.drop_last(), given) {
            Ok(front) => match spec_split_once(entries.last(), '=') {
                Some(pair) => Ok(front.push(pair)),
                None => Err(ConfigErrorModel::MalformedEntry { given }),
            },
            Err(e) => Err(e),
        }
    }
}

/// The pairs of a list of `key=value` entries with commas between them.
pub open spec fn spec_iterate_hashmap_string(s: Seq<char>) -> Result<
    Seq<(Seq<char>, Seq<char>)>,
    ConfigErrorModel,
> {
    spec_pairs(spec_split(s, ','), s)
}

/// The remapping that a text holds: none for the empty text, else its
/// `key=value` entries in order.
pub open spec fn spec_parse_with(s: Seq<char>) -> Result<Seq<(Seq<char>, Seq<char>)>, ConfigErrorModel> {
    if s.len() == 0 {
        Ok(Seq::empty())
    } else {
        spec_iterate_hashmap_string(s)
    }
}

/// The scope that the key of an entry speaks of: the world for `world`,
/// else the interface of that name.
pub open spec fn spec_export_key(key: Seq<char>) -> ExportKeyModel {
    if key == "world"@ {
        ExportKeyModel::World
    } else {
        ExportKeyModel::Name(key)
    }
}

/// The entries of [`Opts::exports`] that a text holds: none for the empty
/// text, else its `key=value` entries in order.
pub open spec fn spec_parse_exports(s: Seq<char>) -> Result<
    Seq<(ExportKeyModel, Seq<char>)>,
    ConfigErrorModel,
> {
    match spec_parse_with(s) {
        Ok(pairs) => Ok(Seq::new(pairs.len(), |i: int| (spec_export_key(pairs[i].0), pairs[i].1))),
        Err(e) => Err(e),
    }
}

/// Where a front of `entries` holds an entry without `=`, `entries` does.
pub proof fn lemma_pairs_err(entries: Seq<Seq<char>>, given: Seq<char>, n: int)
    requires
        0 <= n <= entries.len(),
        spec_pairs(entries.take(n), given) is Err,
    ensures
        spec_pairs(entries, given) == spec_pairs(entries.take(n), given),
    decreases entries.len() - n,
{
    if n < entries.len() {
        assert(entries.take(n + 1).drop_last() =~= entries.take(n));
        lemma_pairs_err(entries, given, n + 1);
    } else {
        assert(entries.take(n) =~= entries);
    }
}

/// Splits `s` at every `sep`.
pub fn split(s: &str, sep: char) -> (r: Vec<String>)
    ensures
        r.deep_view() == spec_split(s@, sep),
{
    let n = s.unicode_len();
    let mut done: Vec<String> = Vec::new();
    let mut start: usize = 0;
    let mut i: usize = 0;
    assert(s@.take(0) =~= Seq::<char>::empty());
    assert(done.deep_view().push(s@.subrange(0, 0)) =~= seq![Seq::<char>::empty()]);
    while i < n
        invariant
            n == s@.len(),
            start <= i <= n,
            spec_split(s@.take(i as int), sep) == done.deep_view().push(s@.subrange(start as int, i as int)),
        decreases n - i,
    {
        assert(s@.take(i + 1).drop_last() =~= s@.take(i as int));
        assert(s@.take(i + 1).last() == s@[i as int]);
        let ghost before = done.deep_view();
        let ghost current = s@.subrange(start as int, i as int);
        if s.get_char(i) == sep {
            done.push(s.substring_char(start, i).to_string());
            start = i + 1;
            assert(done.deep_view() =~= before.push(current));
            assert(s@.subrange(start as int, i + 1) =~= Seq::<char>::empty());
        } else {
            assert(before.push(current).drop_last() =~= before);
            assert(s@.subrange(start as int, i + 1) =~= current.push(s@[i as int]));
        }
        i += 1;
    }
    assert(s@.take(i as int) =~= s@);
    let ghost before = done.deep_view();
    done.push(s.substring_char(start, n).to_string());
    assert(done.deep_view() =~= before.push(s@.subrange(start as int, n as int)));
    done
}

/// Splits `s` at its first `c`.
pub fn split_once(s: &str, c: char) -> (r: Option<(String, String)>)
    ensures
        r.deep_view() == spec_split_once(s@, c),
{
    let n = s.unicode_len();
    let mut i: usize = 0;
    assert(s@.take(0) =~= Seq::<char>::empty());
    while i < n
        invariant
            n == s@.len(),
            i <= n,
            spec_first(s@.take(i as int), c) is None,
        decreases n - i,
    {
        assert(s@.take(i + 1).drop_last() =~= s@.take(i as int));
        assert(s@.take(i + 1).last() == s@[i as int]);
        if s.get_char(i) == c {
            proof {
                lemma_first_found(s@, c, i + 1);
            }
            return Some((s.substring_char(0, i).to_string(), s.substring_char(i + 1, n).to_string()));
        }
        i += 1;
    }
    assert(s@.take(i as int) =~= s@);
    None
}

/// What is found first in a front of `s` is found first in `s`.
pub proof fn lemma_first_found(s: Seq<char>, c: char, n: int)
    requires
        0 <= n <= s.len(),
        spec_first(s.take(n), c) is Some,
    ensures
        spec_first(s, c) == spec_first(s.take(n), c),
    decreases s.len() - n,
{
    if n < s.len() {
        assert(s.take(n + 1).drop_last() =~= s.take(n));
        lemma_first_found(s, c, n + 1);
    } else {
        assert(s.take(n) =~= s);
    }
}

/// Reads a list of `key=value` entries with commas between them.
pub fn iterate_hashmap_string(s: &str) -> (r: Result<Vec<(String, String)>, ConfigError>)
    ensures
        match r {
            Ok(pairs) => spec_iterate_hashmap_string(s@) == Ok::<
                Seq<(Seq<char>, Seq<char>)>,
                ConfigErrorModel,
            >(pairs.deep_view()),
            Err(e) => spec_iterate_hashmap_string(s@) == Err::<
                Seq<(Seq<char>, Seq<char>)>,
                ConfigErrorModel,
            >(e@),
        },
{
    let entries = split(s, ',');
    let ghost all = entries.deep_view();
    let mut pairs: Vec<(String, String)> = Vec::new();
    let mut i: usize = 0;
    assert(all.take(0) =~= Seq::<Seq<char>>::empty());
    assert(pairs.deep_view() =~= Seq::<(Seq<char>, Seq<char>)>::empty());
    while i < entries.len()
        invariant
            i <= entries.len(),
            all == entries.deep_view(),
            all == spec_split(s@, ','),
            spec_pairs(all.take(i as int), s@) == Ok::<Seq<(Seq<char>, Seq<char>)>, ConfigErrorModel>(
                pairs.deep_view(),
            ),
        decreases entries.len() - i,
    {
        assert(all.take(i + 1).drop_last() =~= all.take(i as int));
        assert(all.take(i + 1).last() == entries[i as int]@);
        match split_once(entries[i].as_str(), '=') {
            Some(pair) => {
                let ghost before = pairs.deep_view();
                let ghost p = (pair.0@, pair.1@);
                pairs.push(pair);
                assert(pairs.deep_view() =~= before.push(p));
            },
            None => {
                proof {
                    assert(spec_pairs(all.take(i + 1), s@) is Err);
                    lemma_pairs_err(all, s@, i + 1);
                }
                return Err(ConfigError::MalformedEntry { given: s.to_string() });
            },
        }
        i += 1;
    }
    assert(all.take(i as int) =~= all);
    Ok(pairs)
}

/// Reads the remapping of interface names.
pub fn parse_with(s: &str) -> (r: Result<Vec<(String, String)>, ConfigError>)
    ensures
        match r {
            Ok(pairs) => spec_parse_with(s@) == Ok::<Seq<(Seq<char>, Seq<char>)>, ConfigErrorModel>(
                pairs.deep_view(),
            ),
            Err(e) => spec_parse_with(s@) == Err::<Seq<(Seq<char>, Seq<char>)>, ConfigErrorModel>(e@),
        },
{
    if s.unicode_len() == 0 {
        let pairs: Vec<(String, String)> = Vec::new();
        assert(pairs.deep_view() =~= Seq::<(Seq<char>, Seq<char>)>::empty());
        Ok(pairs)
    } else {
        iterate_hashmap_string(s)
    }
}

/// Reads the names of the implementations of exported scopes.
pub fn parse_exports(s: &str) -> (r: Result<Vec<(ExportKey, String)>, ConfigError>)
    ensures
        match r {
            Ok(entries) => spec_parse_exports(s@) == Ok::<
                Seq<(ExportKeyModel, Seq<char>)>,
                ConfigErrorModel,
            >(entries.deep_view()),
            Err(e) => spec_parse_exports(s@) == Err::<Seq<(ExportKeyModel, Seq<char>)>, ConfigErrorModel>(
                e@,
            ),
        },
{
    let pairs = match parse_with(s) {
        Ok(pairs) => pairs,
        Err(e) => {
            return Err(e);
        },
    };
    let mut entries: Vec<(ExportKey, String)> = Vec::new();
    let mut i: usize = 0;
    while i < pairs.len()
        invariant
            i <= pairs.len(),
            entries.len() == i,
            forall|j: int|
                0 <= j < i ==> entries[j].0@ == spec_export_key(pairs[j].0@) && entries[j].1@
                    == pairs[j].1@,
        decreases pairs.len() - i,
    {
        let key = if same_text(pairs[i].0.as_str(), "world") {
            ExportKey::World
        } else {
            ExportKey::Name(pairs[i].0.clone())
        };
        entries.push((key, pairs[i].1.clone()));
        i += 1;
    }
    assert(entries.deep_view() =~= Seq::new(
        pairs.deep_view().len(),
        |i: int| (spec_export_key(pairs.deep_view()[i].0), pairs.deep_view()[i].1),
    ));
    Ok(entries)
}

} // verus!
