//! The exports of a world do not collide: where the export keys and the
//! names of the functions that a world exports are apart, no two entry
//! points of a run share an export name or a symbol.

use vstd::prelude::*;
use crate::binding::{
    spec_export_name, spec_post_return, spec_post_return_export_name, spec_post_return_symbol,
    spec_symbol, BindingModel,
};
use crate::config::OptsModel;
use crate::interface::spec_exports;
use crate::names::spec_package_name_with;
use crate::schema::{FunctionModel, SchemaModel, WorldItemModel, WorldKeyModel};
use crate::text::{lemma_concat_contains, lemma_prefix_cancel, lemma_suffix_cancel};
use crate::world::{
    spec_export_funcs, spec_export_interfaces, spec_new, spec_preprocess, spec_run,
    spec_world_funcs, ZigWasmModel,
};

verus! {

/// Whether `b` is the binding of `f` under the export key `prefix`, as far
/// as its names go: its export name, its symbol, and its post-return entry
/// point, which it has if and only if `f` needs one.
pub open spec fn spec_binding_matches(b: BindingModel, prefix: Option<Seq<char>>, f: FunctionModel) -> bool {
    &&& b.export_name == spec_export_name(prefix, f.name)
    &&& b.symbol == spec_symbol(prefix, f.name)
    &&& b.post_return == if f.needs_post_return {
        Some(spec_post_return(prefix, f.name))
    } else {
        None
    }
}

/// The bindings of a list of functions are as many as the functions, and
/// each is the binding of the function at its place.
pub proof fn lemma_exports_shape(
    gen: ZigWasmModel,
    interface: Option<usize>,
    funcs: Seq<FunctionModel>,
    prefix: Option<Seq<char>>,
)
    requires
        spec_exports(gen, interface, funcs, prefix) is Ok,
    ensures
        spec_exports(gen, interface, funcs, prefix)->Ok_0.len() == funcs.len(),
        forall|k: int|
            0 <= k < funcs.len() ==> spec_binding_matches(
                #[trigger] spec_exports(gen, interface, funcs, prefix)->Ok_0[k],
                prefix,
                funcs[k],
            ),
    decreases funcs.len(),
{
    if funcs.len() > 0 {
        lemma_exports_shape(gen, interface, funcs.drop_last(), prefix);
        let front = spec_exports(gen, interface, funcs.drop_last(), prefix)->Ok_0;
        let all = spec_exports(gen, interface, funcs, prefix)->Ok_0;
        assert forall|k: int| 0 <= k < funcs.len() implies spec_binding_matches(
            #[trigger] all[k],
            prefix,
            funcs[k],
        ) by {
            if k < funcs.len() - 1 {
                assert(all[k] == front[k]);
                assert(funcs.drop_last()[k] == funcs[k]);
            }
        }
    }
}

/// The symbols of two bindings under export keys differ where their
/// export names do.
pub proof fn lemma_quoted_symbols_differ(first: Seq<char>, f1: Seq<char>, second: Seq<char>, f2: Seq<char>)
    requires
        first + f1 != second + f2,
    ensures
        spec_symbol(Some(first), f1) != spec_symbol(Some(second), f2),
{
    if spec_symbol(Some(first), f1) == spec_symbol(Some(second), f2) {
        let open = "@\""@;
        let close = "\""@;
        assert(spec_symbol(Some(first), f1) =~= (open + (first + f1)) + close);
        assert(spec_symbol(Some(second), f2) =~= (open + (second + f2)) + close);
        lemma_suffix_cancel(open + (first + f1), open + (second + f2), close);
        lemma_prefix_cancel(open, first + f1, second + f2);
    }
}

/// The symbol of a function of the world is not the symbol of a function
/// under an export key, and the symbols of two functions of the world
/// differ where their names do.
pub proof fn lemma_plain_symbols_differ(p: Seq<char>, f1: Seq<char>, f2: Seq<char>)
    ensures
        spec_symbol(None, f1) != spec_symbol(Some(p), f2),
        f1 != f2 ==> spec_symbol(None, f1) != spec_symbol(None, f2),
{
    reveal_strlit("@\"");
    reveal_strlit("__export_");
    assert(spec_symbol(None, f1)[0] == '_');
    assert(spec_symbol(Some(p), f2)[0] == '@');
    if spec_symbol(None, f1) == spec_symbol(None, f2) {
        lemma_prefix_cancel("__export_"@, f1, f2);
    }
}

/// The export key and the name of the function at `k` of what a world
/// exports at `e`: of the interface at `e`, or, with `e` behind the last
/// entry, of the functions that the world exports itself, which have no
/// export key.
pub open spec fn spec_source(
    s: SchemaModel,
    exports: Seq<(WorldKeyModel, WorldItemModel)>,
    e: int,
    k: int,
) -> Option<(Option<Seq<char>>, Seq<char>)> {
    if 0 <= e < exports.len() {
        match exports[e].1 {
            WorldItemModel::Interface(id) => if id < s.interfaces.len() && 0 <= k
                < s.interfaces[id as int].functions.len() {
                match spec_package_name_with(s, exports[e].0) {
                    Some(key) => Some((Some(key), s.interfaces[id as int].functions[k].name)),
                    None => None,
                }
            } else {
                None
            },
            _ => None,
        }
    } else if e == exports.len() && 0 <= k < spec_world_funcs(exports).len() {
        Some((None, spec_world_funcs(exports)[k].name))
    } else {
        None
    }
}

/// Whether the world lists what it exports at `e` under the key of an
/// interface, which is named by its package.
pub open spec fn spec_keyed(exports: Seq<(WorldKeyModel, WorldItemModel)>, e: int) -> bool {
    0 <= e < exports.len() && exports[e].0 is Interface
}

/// The export name of a function with the export key and the name `source`.
pub open spec fn spec_name_of(source: (Option<Seq<char>>, Seq<char>)) -> Seq<char> {
    spec_export_name(source.0, source.1)
}

/// Whether the functions that a world exports in `exports` are named
/// apart:
/// - no name of a function holds a hash, and no export key of an interface
///   that is listed under a plain name does;
/// - of two functions of interfaces named by their packages, the export
///   keys or the names differ;
/// - of two functions of the world or of interfaces listed under plain
///   names, the export names differ;
/// - no export name is an export name behind `cabi_post_`, and none that
///   has an export key is one that has an export key behind
///   `__post_return_`.
pub open spec fn spec_named_apart(s: SchemaModel, exports: Seq<(WorldKeyModel, WorldItemModel)>) -> bool {
    &&& forall|e: int, k: int| #[trigger]
        spec_source(s, exports, e, k) is Some ==> spec_source_plain(
            exports,
            e,
            spec_source(s, exports, e, k)->0,
        )
    &&& forall|e1: int, k1: int, e2: int, k2: int|
        #![trigger spec_source(s, exports, e1, k1), spec_source(s, exports, e2, k2)]
        (e1 != e2 || k1 != k2) && spec_source(s, exports, e1, k1) is Some && spec_source(
            s,
            exports,
            e2,
            k2,
        ) is Some ==> spec_pair_apart(
            spec_keyed(exports, e1),
            spec_source(s, exports, e1, k1)->0,
            spec_keyed(exports, e2),
            spec_source(s, exports, e2, k2)->0,
        )
    &&& forall|e1: int, k1: int, e2: int, k2: int|
        #![trigger spec_source(s, exports, e1, k1), spec_source(s, exports, e2, k2)]
        spec_source(s, exports, e1, k1) is Some && spec_source(s, exports, e2, k2) is Some
            ==> spec_not_behind(spec_source(s, exports, e1, k1)->0, spec_source(s, exports, e2, k2)->0)
}

/// Whether the name of the function of `source` holds no hash, and its
/// export key holds none where the interface is listed under a plain name.
pub open spec fn spec_source_plain(
    exports: Seq<(WorldKeyModel, WorldItemModel)>,
    e: int,
    source: (Option<Seq<char>>, Seq<char>),
) -> bool {
    &&& !source.1.contains('#')
    &&& source.0 is Some && !spec_keyed(exports, e) ==> !source.0->0.contains('#')
}

/// Whether two functions are apart as [`spec_named_apart`] asks of two
/// functions: by their export keys or names where both interfaces are
/// named by their packages, by their export names where neither is.
pub open spec fn spec_pair_apart(
    first_keyed: bool,
    first: (Option<Seq<char>>, Seq<char>),
    second_keyed: bool,
    second: (Option<Seq<char>>, Seq<char>),
) -> bool {
    &&& first_keyed && second_keyed ==> first != second
    &&& !first_keyed && !second_keyed ==> spec_name_of(first) != spec_name_of(second)
}

/// Whether the export name of `first` is not the export name of `second`
/// behind `cabi_post_`, nor, where both have an export key, behind
/// `__post_return_`.
pub open spec fn spec_not_behind(
    first: (Option<Seq<char>>, Seq<char>),
    second: (Option<Seq<char>>, Seq<char>),
) -> bool {
    &&& spec_name_of(first) != "cabi_post_"@ + spec_name_of(second)
    &&& first.0 is Some && second.0 is Some ==> spec_name_of(first) != "__post_return_"@ + spec_name_of(
        second,
    )
}

/// Whether what the world at `world` exports is named apart.
pub open spec fn spec_well_named(s: SchemaModel, world: usize) -> bool {
    world < s.worlds.len() && spec_named_apart(s, s.worlds[world as int].exports)
}

/// Whether `b` has the names of the binding of the function `source`.
pub open spec fn spec_described(b: BindingModel, source: (Option<Seq<char>>, Seq<char>)) -> bool {
    &&& b.export_name == spec_export_name(source.0, source.1)
    &&& b.symbol == spec_symbol(source.0, source.1)
    &&& b.post_return is Some ==> b.post_return->0 == spec_post_return(source.0, source.1)
}

/// Whether the entry points of `a` and of `b` share no export name and no
/// symbol, their post-return entry points included.
pub open spec fn spec_apart(a: BindingModel, b: BindingModel) -> bool {
    &&& a.export_name != b.export_name
    &&& a.symbol != b.symbol
    &&& a.post_return is Some ==> a.post_return->0.export_name != b.export_name
        && a.post_return->0.symbol != b.symbol
    &&& b.post_return is Some ==> b.post_return->0.export_name != a.export_name
        && b.post_return->0.symbol != a.symbol
    &&& a.post_return is Some && b.post_return is Some ==> a.post_return->0.export_name
        != b.post_return->0.export_name && a.post_return->0.symbol != b.post_return->0.symbol
}

/// Whether the entry point of `b` and its post-return entry point differ
/// in export name and in symbol.
pub open spec fn spec_self_apart(b: BindingModel) -> bool {
    b.post_return is Some ==> b.post_return->0.export_name != b.export_name && b.post_return->0.symbol
        != b.symbol
}

/// Whether no two entry points of `bindings` share an export name or a
/// symbol, post-return entry points included.
pub open spec fn spec_collision_free(bindings: Seq<BindingModel>) -> bool {
    &&& forall|i: int, j: int|
        0 <= i < j < bindings.len() ==> spec_apart(#[trigger] bindings[i], #[trigger] bindings[j])
    &&& forall|i: int| 0 <= i < bindings.len() ==> spec_self_apart(#[trigger] bindings[i])
}

/// The export key of an interface named by its package ends in a hash.
pub proof fn lemma_key_ends_in_hash(s: SchemaModel, key: WorldKeyModel)
    requires
        key is Interface,
        spec_package_name_with(s, key) is Some,
    ensures
        spec_package_name_with(s, key)->0.len() > 0,
        spec_package_name_with(s, key)->0.last() == '#',
{
    reveal_strlit("#");
}

/// An export name is split at its last hash in one way only: two export
/// keys that end in a hash, before names without one, make the same text
/// only where they are the same keys before the same names.
pub proof fn lemma_split_at_last_hash(q1: Seq<char>, f1: Seq<char>, q2: Seq<char>, f2: Seq<char>)
    requires
        q1.len() > 0,
        q2.len() > 0,
        q1.last() == '#',
        q2.last() == '#',
        !f1.contains('#'),
        !f2.contains('#'),
        q1 + f1 == q2 + f2,
    ensures
        q1 == q2,
        f1 == f2,
{
    let left = q1 + f1;
    let right = q2 + f2;
    assert(left.len() == q1.len() + f1.len());
    assert(right.len() == q2.len() + f2.len());
    if q1.len() < q2.len() {
        let at = q2.len() - 1;
        assert(right[at] == q2[at]);
        assert(left[at] == f1[at - q1.len()]);
        assert(f1[at - q1.len()] == '#');
    } else if q2.len() < q1.len() {
        let at = q1.len() - 1;
        assert(left[at] == q1[at]);
        assert(right[at] == f2[at - q2.len()]);
        assert(f2[at - q2.len()] == '#');
    }
    assert(q1 =~= left.subrange(0, q1.len() as int));
    assert(q2 =~= right.subrange(0, q2.len() as int));
    lemma_prefix_cancel(q1, f1, f2);
}

/// The functions of two different places among what a world exports, which
/// are named apart, have different export names.
pub proof fn lemma_names_differ(
    s: SchemaModel,
    exports: Seq<(WorldKeyModel, WorldItemModel)>,
    e1: int,
    k1: int,
    e2: int,
    k2: int,
)
    requires
        spec_named_apart(s, exports),
        e1 != e2 || k1 != k2,
        spec_source(s, exports, e1, k1) is Some,
        spec_source(s, exports, e2, k2) is Some,
    ensures
        spec_name_of(spec_source(s, exports, e1, k1)->0) != spec_name_of(spec_source(s, exports, e2, k2)->0),
{
    let a = spec_source(s, exports, e1, k1)->0;
    let b = spec_source(s, exports, e2, k2)->0;
    assert(spec_source_plain(exports, e1, a));
    assert(spec_source_plain(exports, e2, b));
    assert(spec_pair_apart(spec_keyed(exports, e1), a, spec_keyed(exports, e2), b));
    if spec_name_of(a) == spec_name_of(b) {
        if spec_keyed(exports, e1) && spec_keyed(exports, e2) {
            lemma_key_ends_in_hash(s, exports[e1].0);
            lemma_key_ends_in_hash(s, exports[e2].0);
            lemma_split_at_last_hash(a.0->0, a.1, b.0->0, b.1);
        } else if spec_keyed(exports, e1) {
            lemma_key_ends_in_hash(s, exports[e1].0);
            lemma_keyed_name_has_hash(a.0->0, a.1);
            lemma_unkeyed_name_has_no_hash(b);
        } else if spec_keyed(exports, e2) {
            lemma_key_ends_in_hash(s, exports[e2].0);
            lemma_keyed_name_has_hash(b.0->0, b.1);
            lemma_unkeyed_name_has_no_hash(a);
        }
    }
}

/// An export name behind a key that ends in a hash holds a hash.
pub proof fn lemma_keyed_name_has_hash(q: Seq<char>, f: Seq<char>)
    requires
        q.len() > 0,
        q.last() == '#',
    ensures
        (q + f).contains('#'),
{
    assert((q + f)[q.len() - 1] == '#');
}

/// An export name of which neither the key nor the name holds a hash holds
/// none.
pub proof fn lemma_unkeyed_name_has_no_hash(source: (Option<Seq<char>>, Seq<char>))
    requires
        !source.1.contains('#'),
        source.0 is Some ==> !source.0->0.contains('#'),
    ensures
        !spec_name_of(source).contains('#'),
{
    if source.0 is Some {
        lemma_concat_contains(source.0->0, source.1, '#');
    }
}

/// The post-return entry point of one function differs from the entry
/// point of another in export name and in symbol, where the export name of
/// the other is not that of the one behind `cabi_post_` or
/// `__post_return_`.
pub proof fn lemma_post_return_apart(
    first: (Option<Seq<char>>, Seq<char>),
    second: (Option<Seq<char>>, Seq<char>),
)
    requires
        spec_not_behind(second, first),
    ensures
        spec_post_return_export_name(spec_name_of(first)) != spec_name_of(second),
        spec_post_return_symbol(first.0, first.1) != spec_symbol(second.0, second.1),
{
    reveal_strlit("__post_return_");
    reveal_strlit("@\"__post_return_");
    reveal_strlit("@\"");
    reveal_strlit("\"");
    reveal_strlit("__export_");
    let word = "__post_return_"@;
    match (first.0, second.0) {
        (None, None) => {
            assert(spec_post_return_symbol(None, first.1)[2] == 'p');
            assert(spec_symbol(None, second.1)[2] == 'e');
        },
        (None, Some(q2)) => {
            assert(spec_post_return_symbol(None, first.1)[0] == '_');
            assert(spec_symbol(Some(q2), second.1)[0] == '@');
        },
        (Some(q1), None) => {
            assert(spec_post_return_symbol(Some(q1), first.1)[0] == '@');
            assert(spec_symbol(None, second.1)[0] == '_');
        },
        (Some(q1), Some(q2)) => {
            let e1 = q1 + first.1;
            let e2 = q2 + second.1;
            let open = "@\""@;
            let close = "\""@;
            if spec_post_return_symbol(Some(q1), first.1) == spec_symbol(Some(q2), second.1) {
                assert("@\"__post_return_"@ =~= open + word);
                assert(spec_post_return_symbol(Some(q1), first.1) =~= (open + (word + e1)) + close);
                assert(spec_symbol(Some(q2), second.1) =~= (open + e2) + close);
                lemma_suffix_cancel(open + (word + e1), open + e2, close);
                lemma_prefix_cancel(open, word + e1, e2);
            }
        },
    }
}

/// The post-return entry points of two functions with different export
/// names differ in export name and in symbol.
pub proof fn lemma_post_returns_apart(
    first: (Option<Seq<char>>, Seq<char>),
    second: (Option<Seq<char>>, Seq<char>),
)
    requires
        spec_name_of(first) != spec_name_of(second),
    ensures
        spec_post_return_export_name(spec_name_of(first)) != spec_post_return_export_name(
            spec_name_of(second),
        ),
        spec_post_return_symbol(first.0, first.1) != spec_post_return_symbol(second.0, second.1),
{
    reveal_strlit("__post_return_");
    reveal_strlit("@\"__post_return_");
    reveal_strlit("\"");
    let e1 = spec_name_of(first);
    let e2 = spec_name_of(second);
    if "cabi_post_"@ + e1 == "cabi_post_"@ + e2 {
        lemma_prefix_cancel("cabi_post_"@, e1, e2);
    }
    match (first.0, second.0) {
        (None, None) => {
            if spec_post_return_symbol(None, first.1) == spec_post_return_symbol(None, second.1) {
                lemma_prefix_cancel("__post_return_"@, first.1, second.1);
            }
        },
        (None, Some(q2)) => {
            assert(spec_post_return_symbol(None, first.1)[0] == '_');
            assert(spec_post_return_symbol(Some(q2), second.1)[0] == '@');
        },
        (Some(q1), None) => {
            assert(spec_post_return_symbol(Some(q1), first.1)[0] == '@');
            assert(spec_post_return_symbol(None, second.1)[0] == '_');
        },
        (Some(q1), Some(q2)) => {
            let open = "@\"__post_return_"@;
            let close = "\""@;
            if spec_post_return_symbol(Some(q1), first.1) == spec_post_return_symbol(Some(q2), second.1) {
                assert(spec_post_return_symbol(Some(q1), first.1) =~= (open + e1) + close);
                assert(spec_post_return_symbol(Some(q2), second.1) =~= (open + e2) + close);
                lemma_suffix_cancel(open + e1, open + e2, close);
                lemma_prefix_cancel(open, e1, e2);
            }
        },
    }
}

/// The entry points of two functions with different export names differ
/// in symbol.
pub proof fn lemma_symbols_differ(first: (Option<Seq<char>>, Seq<char>), second: (Option<Seq<char>>, Seq<char>))
    requires
        spec_name_of(first) != spec_name_of(second),
    ensures
        spec_symbol(first.0, first.1) != spec_symbol(second.0, second.1),
{
    match (first.0, second.0) {
        (None, None) => {
            lemma_plain_symbols_differ(Seq::empty(), first.1, second.1);
        },
        (None, Some(q2)) => {
            lemma_plain_symbols_differ(q2, first.1, second.1);
        },
        (Some(q1), None) => {
            lemma_plain_symbols_differ(q1, second.1, first.1);
        },
        (Some(q1), Some(q2)) => {
            lemma_quoted_symbols_differ(q1, first.1, q2, second.1);
        },
    }
}

/// The bindings of the functions of two different places among what a
/// world exports, which are named apart, share no export name and no
/// symbol.
pub proof fn lemma_sources_apart(
    s: SchemaModel,
    exports: Seq<(WorldKeyModel, WorldItemModel)>,
    e1: int,
    k1: int,
    a: BindingModel,
    e2: int,
    k2: int,
    b: BindingModel,
)
    requires
        spec_named_apart(s, exports),
        e1 != e2 || k1 != k2,
        spec_source(s, exports, e1, k1) is Some,
        spec_source(s, exports, e2, k2) is Some,
        spec_described(a, spec_source(s, exports, e1, k1)->0),
        spec_described(b, spec_source(s, exports, e2, k2)->0),
    ensures
        spec_apart(a, b),
{
    let first = spec_source(s, exports, e1, k1)->0;
    let second = spec_source(s, exports, e2, k2)->0;
    lemma_names_differ(s, exports, e1, k1, e2, k2);
    lemma_symbols_differ(first, second);
    assert(spec_not_behind(first, second));
    assert(spec_not_behind(second, first));
    lemma_post_return_apart(first, second);
    lemma_post_return_apart(second, first);
    lemma_post_returns_apart(first, second);
}

/// The entry point and the post-return entry point of the binding of a
/// function among what a world exports, which is named apart, differ in
/// export name and in symbol.
pub proof fn lemma_source_self_apart(
    s: SchemaModel,
    exports: Seq<(WorldKeyModel, WorldItemModel)>,
    e: int,
    k: int,
    b: BindingModel,
)
    requires
        spec_named_apart(s, exports),
        spec_source(s, exports, e, k) is Some,
        spec_described(b, spec_source(s, exports, e, k)->0),
    ensures
        spec_self_apart(b),
{
    let source = spec_source(s, exports, e, k)->0;
    assert(spec_not_behind(source, source));
    lemma_post_return_apart(source, source);
}

/// Whether `b` is the binding of a function of what a world exports at a
/// place before `n`.
pub open spec fn spec_sourced_before(
    s: SchemaModel,
    exports: Seq<(WorldKeyModel, WorldItemModel)>,
    n: int,
    b: BindingModel,
) -> bool {
    exists|e: int, k: int|
        e < n && #[trigger] spec_source(s, exports, e, k) is Some && spec_described(
            b,
            spec_source(s, exports, e, k)->0,
        )
}

/// The bindings of the interfaces among the first `n` entries of
/// `exports` share no export name and no symbol, and each is the binding
/// of a function of one of these interfaces.
pub proof fn lemma_interfaces_collision_free(
    s: SchemaModel,
    z: ZigWasmModel,
    exports: Seq<(WorldKeyModel, WorldItemModel)>,
    n: int,
)
    requires
        0 <= n <= exports.len(),
        spec_named_apart(s, exports),
        z.exported.len() == 0,
        spec_export_interfaces(s, z, exports.take(n)) is Ok,
    ensures
        ({
            let after = spec_export_interfaces(s, z, exports.take(n))->Ok_0;
            &&& after.interface_names == z.interface_names
            &&& after.opts == z.opts
            &&& spec_collision_free(after.exported)
            &&& forall|i: int|
                0 <= i < after.exported.len() ==> spec_sourced_before(
                    s,
                    exports,
                    n,
                    #[trigger] after.exported[i],
                )
        }),
    decreases n,
{
    if n > 0 {
        assert(exports.take(n).drop_last() =~= exports.take(n - 1));
        assert(exports.take(n).last() == exports[n - 1]);
        lemma_interfaces_collision_free(s, z, exports, n - 1);
        let before = spec_export_interfaces(s, z, exports.take(n - 1))->Ok_0;
        let after = spec_export_interfaces(s, z, exports.take(n))->Ok_0;
        let entry = exports[n - 1];
        assert forall|i: int| 0 <= i < before.exported.len() implies spec_sourced_before(
            s,
            exports,
            n,
            #[trigger] before.exported[i],
        ) by {
            let b = before.exported[i];
            assert(spec_sourced_before(s, exports, n - 1, b));
            let (e, k) = choose|e: int, k: int|
                e < n - 1 && #[trigger] spec_source(s, exports, e, k) is Some && spec_described(
                    b,
                    spec_source(s, exports, e, k)->0,
                );
            assert(e < n && spec_source(s, exports, e, k) is Some);
        }
        match entry.1 {
            WorldItemModel::Interface(id) => {
                if !before.opts.stubs {
                    let prefix = spec_package_name_with(s, entry.0);
                    let funcs = s.interfaces[id as int].functions;
                    let added = spec_exports(before, Some(id), funcs, prefix)->Ok_0;
                    lemma_exports_shape(before, Some(id), funcs, prefix);
                    assert(after.exported == before.exported + added);
                    let m = before.exported.len();
                    assert forall|i: int| m <= i < after.exported.len() implies spec_source(
                        s,
                        exports,
                        n - 1,
                        i - m,
                    ) is Some && spec_described(
                        #[trigger] after.exported[i],
                        spec_source(s, exports, n - 1, i - m)->0,
                    ) by {
                        assert(after.exported[i] == added[i - m]);
                        assert(spec_binding_matches(added[i - m], prefix, funcs[i - m]));
                    }
                    assert forall|i: int| 0 <= i < after.exported.len() implies spec_sourced_before(
                        s,
                        exports,
                        n,
                        #[trigger] after.exported[i],
                    ) by {
                        if i < m {
                            assert(after.exported[i] == before.exported[i]);
                        } else {
                            assert(spec_source(s, exports, n - 1, i - m) is Some);
                        }
                    }
                    assert forall|i: int| 0 <= i < after.exported.len() implies spec_self_apart(
                        #[trigger] after.exported[i],
                    ) by {
                        if i < m {
                            assert(after.exported[i] == before.exported[i]);
                        } else {
                            lemma_source_self_apart(s, exports, n - 1, i - m, after.exported[i]);
                        }
                    }
                    assert forall|i: int, j: int| 0 <= i < j < after.exported.len() implies spec_apart(
                        #[trigger] after.exported[i],
                        #[trigger] after.exported[j],
                    ) by {
                        let bi = after.exported[i];
                        let bj = after.exported[j];
                        if j < m {
                            assert(bi == before.exported[i]);
                            assert(bj == before.exported[j]);
                        } else if i >= m {
                            lemma_sources_apart(s, exports, n - 1, i - m, bi, n - 1, j - m, bj);
                        } else {
                            assert(bi == before.exported[i]);
                            assert(spec_sourced_before(s, exports, n - 1, bi));
                            let (e, k) = choose|e: int, k: int|
                                e < n - 1 && #[trigger] spec_source(s, exports, e, k) is Some
                                    && spec_described(bi, spec_source(s, exports, e, k)->0);
                            lemma_sources_apart(s, exports, e, k, bi, n - 1, j - m, bj);
                        }
                    }
                }
            },
            _ => {},
        }
    } else {
        assert(exports.take(0) =~= Seq::<(WorldKeyModel, WorldItemModel)>::empty());
    }
}

/// No two exports of a world collide: where the functions that the world
/// at `world` exports are named apart, no two entry points of the bindings
/// of a run, post-return entry points included, share an export name or a
/// symbol.
pub proof fn lemma_collision_freedom(s: SchemaModel, opts: OptsModel, skip: Seq<Seq<char>>, world: usize)
    requires
        spec_well_named(s, world),
        spec_run(s, spec_new(opts, skip), world) is Ok,
    ensures
        spec_collision_free(spec_run(s, spec_new(opts, skip), world)->Ok_0.exported),
{
    let z0 = spec_new(opts, skip);
    let z1 = spec_preprocess(s, z0, world)->0;
    let exports = s.worlds[world as int].exports;
    let n = exports.len() as int;
    assert(exports.take(n) =~= exports);
    lemma_interfaces_collision_free(s, z1, exports, n);
    let z2 = spec_export_interfaces(s, z1, exports)->Ok_0;
    let funcs = spec_world_funcs(exports);
    if funcs.len() > 0 && !z2.opts.stubs {
        let z3 = spec_export_funcs(s, z2, world)->Ok_0;
        let added = spec_exports(z2, None, funcs, None)->Ok_0;
        lemma_exports_shape(z2, None, funcs, None);
        assert(z3.exported == z2.exported + added);
        let m = z2.exported.len();
        assert forall|i: int| m <= i < z3.exported.len() implies spec_source(s, exports, n, i - m) is Some
            && spec_described(#[trigger] z3.exported[i], spec_source(s, exports, n, i - m)->0) by {
            assert(z3.exported[i] == added[i - m]);
            assert(spec_binding_matches(added[i - m], None, funcs[i - m]));
        }
        assert forall|i: int| 0 <= i < z3.exported.len() implies spec_self_apart(
            #[trigger] z3.exported[i],
        ) by {
            if i < m {
                assert(z3.exported[i] == z2.exported[i]);
            } else {
                lemma_source_self_apart(s, exports, n, i - m, z3.exported[i]);
            }
        }
        assert forall|i: int, j: int| 0 <= i < j < z3.exported.len() implies spec_apart(
            #[trigger] z3.exported[i],
            #[trigger] z3.exported[j],
        ) by {
            let bi = z3.exported[i];
            let bj = z3.exported[j];
            if j < m {
                assert(bi == z2.exported[i]);
                assert(bj == z2.exported[j]);
            } else if i >= m {
                lemma_sources_apart(s, exports, n, i - m, bi, n, j - m, bj);
            } else {
                assert(bi == z2.exported[i]);
                assert(spec_sourced_before(s, exports, n, bi));
                let (e, k) = choose|e: int, k: int|
                    e < n && #[trigger] spec_source(s, exports, e, k) is Some && spec_described(
                        bi,
                        spec_source(s, exports, e, k)->0,
                    );
                lemma_sources_apart(s, exports, e, k, bi, n, j - m, bj);
            }
        }
    }
}

} // verus!
