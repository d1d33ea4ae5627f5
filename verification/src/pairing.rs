//! The bindings of a run are the bindings of the functions that the world
//! exports, one each, and a run with a function that has no binding gives
//! no artifact.

use vstd::prelude::*;
use crate::binding::{spec_binding, BindingModel};
use crate::collision::{lemma_exports_shape, spec_binding_matches};
use crate::config::OptsModel;
use crate::interface::{spec_export, spec_exports};
use crate::laws::{lemma_fail_fast_arity, lemma_fail_fast_type};
use crate::names::spec_package_name_with;
use crate::schema::{FunctionModel, SchemaModel, WorldItemModel, WorldKeyModel};
use crate::stub::{spec_stub, spec_stub_params, spec_stubs};
use crate::types::{spec_is_word, spec_zig_binding_ty};
use crate::world::{
    spec_export_interfaces, spec_generate, spec_new, spec_preprocess, spec_run, spec_world_funcs,
    ZigWasmModel,
};

verus! {

/// Whether `f` is a function of an interface among the first `n` entries
/// of `exports`, whose export key is `prefix`.
pub open spec fn spec_interface_function(
    s: SchemaModel,
    exports: Seq<(WorldKeyModel, WorldItemModel)>,
    n: int,
    prefix: Option<Seq<char>>,
    f: FunctionModel,
) -> bool {
    exists|e: int, k: int|
        0 <= e < n && e < exports.len() && #[trigger] spec_function_at(s, exports[e], k, prefix, f)
}

/// Whether `f` is the function at `k` of the interface that a world lists
/// in `entry`, whose export key is `prefix`.
pub open spec fn spec_function_at(
    s: SchemaModel,
    entry: (WorldKeyModel, WorldItemModel),
    k: int,
    prefix: Option<Seq<char>>,
    f: FunctionModel,
) -> bool {
    match entry.1 {
        WorldItemModel::Interface(id) => id < s.interfaces.len() && 0 <= k
            < s.interfaces[id as int].functions.len() && s.interfaces[id as int].functions[k] == f
            && prefix is Some && prefix == spec_package_name_with(s, entry.0),
        _ => false,
    }
}

/// Whether `f` is a function that the world exports in `exports`, in an
/// interface with the export key `prefix`, or itself, without one.
pub open spec fn spec_exported_function(
    s: SchemaModel,
    exports: Seq<(WorldKeyModel, WorldItemModel)>,
    prefix: Option<Seq<char>>,
    f: FunctionModel,
) -> bool {
    ||| spec_interface_function(s, exports, exports.len() as int, prefix, f)
    ||| prefix is None && spec_world_funcs(exports).contains(f)
}

/// Whether one of `bindings` is the binding of `f` under the export key
/// `prefix`.
pub open spec fn spec_bound(bindings: Seq<BindingModel>, prefix: Option<Seq<char>>, f: FunctionModel) -> bool {
    exists|i: int| 0 <= i < bindings.len() && spec_binding_matches(#[trigger] bindings[i], prefix, f)
}

/// Whether `b` is the binding of a function of an interface among the
/// first `n` entries of `exports`.
pub open spec fn spec_interface_binding(
    s: SchemaModel,
    exports: Seq<(WorldKeyModel, WorldItemModel)>,
    n: int,
    b: BindingModel,
) -> bool {
    exists|prefix: Option<Seq<char>>, f: FunctionModel|
        spec_interface_function(s, exports, n, prefix, f) && #[trigger] spec_binding_matches(b, prefix, f)
}

/// Whether `b` is the binding of a function that the world exports in
/// `exports`.
pub open spec fn spec_exported_binding(
    s: SchemaModel,
    exports: Seq<(WorldKeyModel, WorldItemModel)>,
    b: BindingModel,
) -> bool {
    exists|prefix: Option<Seq<char>>, f: FunctionModel|
        spec_exported_function(s, exports, prefix, f) && #[trigger] spec_binding_matches(b, prefix, f)
}

/// Whether each of `bindings` is the binding of a function of an
/// interface among the first `n` entries of `exports`.
pub open spec fn spec_all_interface_sourced(
    s: SchemaModel,
    exports: Seq<(WorldKeyModel, WorldItemModel)>,
    n: int,
    bindings: Seq<BindingModel>,
) -> bool {
    forall|i: int| 0 <= i < bindings.len() ==> spec_interface_binding(s, exports, n, #[trigger] bindings[i])
}

/// After the interfaces among the first `n` entries of `exports` have
/// been generated with bindings, the bindings of the run are those of the
/// functions of these interfaces: each binding is that of such a function,
/// and each such function has its binding.
pub proof fn lemma_interfaces_paired(
    s: SchemaModel,
    z: ZigWasmModel,
    exports: Seq<(WorldKeyModel, WorldItemModel)>,
    n: int,
)
    requires
        0 <= n <= exports.len(),
        !z.opts.stubs,
        z.exported.len() == 0,
        spec_export_interfaces(s, z, exports.take(n)) is Ok,
    ensures
        ({
            let after = spec_export_interfaces(s, z, exports.take(n))->Ok_0;
            &&& after.opts == z.opts
            &&& after.interface_names == z.interface_names
            &&& spec_all_interface_sourced(s, exports, n, after.exported)
            &&& forall|prefix: Option<Seq<char>>, f: FunctionModel| #[trigger]
                spec_interface_function(s, exports, n, prefix, f) ==> spec_bound(after.exported, prefix, f)
        }),
    decreases n,
{
    if n > 0 {
        assert(exports.take(n).drop_last() =~= exports.take(n - 1));
        assert(exports.take(n).last() == exports[n - 1]);
        lemma_interfaces_paired(s, z, exports, n - 1);
        let before = spec_export_interfaces(s, z, exports.take(n - 1))->Ok_0;
        let after = spec_export_interfaces(s, z, exports.take(n))->Ok_0;
        let entry = exports[n - 1];
        let m = before.exported.len();
        match entry.1 {
            WorldItemModel::Interface(id) => {
                let prefix0 = spec_package_name_with(s, entry.0);
                let funcs = s.interfaces[id as int].functions;
                let added = spec_exports(before, Some(id), funcs, prefix0)->Ok_0;
                lemma_exports_shape(before, Some(id), funcs, prefix0);
                assert(after.exported == before.exported + added);
                assert forall|i: int| 0 <= i < after.exported.len() implies spec_interface_binding(
                    s,
                    exports,
                    n,
                    #[trigger] after.exported[i],
                ) by {
                    if i < m {
                        assert(after.exported[i] == before.exported[i]);
                        let (prefix, f) = choose|prefix: Option<Seq<char>>, f: FunctionModel|
                            spec_interface_function(s, exports, n - 1, prefix, f)
                                && #[trigger] spec_binding_matches(before.exported[i], prefix, f);
                        let (e, k) = choose|e: int, k: int|
                            0 <= e < n - 1 && e < exports.len() && #[trigger] spec_function_at(
                                s,
                                exports[e],
                                k,
                                prefix,
                                f,
                            );
                        assert(0 <= e < n && spec_function_at(s, exports[e], k, prefix, f));
                        assert(spec_interface_function(s, exports, n, prefix, f));
                        assert(spec_binding_matches(after.exported[i], prefix, f));
                    } else {
                        assert(after.exported[i] == added[i - m]);
                        assert(spec_function_at(s, exports[n - 1], i - m, prefix0, funcs[i - m]));
                        assert(spec_interface_function(s, exports, n, prefix0, funcs[i - m]));
                        assert(spec_binding_matches(after.exported[i], prefix0, funcs[i - m]));
                    }
                }
                assert forall|prefix: Option<Seq<char>>, f: FunctionModel| #[trigger]
                    spec_interface_function(s, exports, n, prefix, f) implies spec_bound(
                    after.exported,
                    prefix,
                    f,
                ) by {
                    let (e, k) = choose|e: int, k: int|
                        0 <= e < n && e < exports.len() && #[trigger] spec_function_at(
                            s,
                            exports[e],
                            k,
                            prefix,
                            f,
                        );
                    if e < n - 1 {
                        assert(spec_interface_function(s, exports, n - 1, prefix, f));
                        let i = choose|i: int|
                            0 <= i < before.exported.len() && spec_binding_matches(
                                #[trigger] before.exported[i],
                                prefix,
                                f,
                            );
                        assert(after.exported[i] == before.exported[i]);
                    } else {
                        assert(after.exported[m + k] == added[k]);
                        assert(spec_binding_matches(after.exported[m + k], prefix, f));
                    }
                }
            },
            _ => {
                assert forall|i: int| 0 <= i < after.exported.len() implies spec_interface_binding(
                    s,
                    exports,
                    n,
                    #[trigger] after.exported[i],
                ) by {
                    let (prefix, f) = choose|prefix: Option<Seq<char>>, f: FunctionModel|
                        spec_interface_function(s, exports, n - 1, prefix, f)
                            && #[trigger] spec_binding_matches(before.exported[i], prefix, f);
                    let (e, k) = choose|e: int, k: int|
                        0 <= e < n - 1 && e < exports.len() && #[trigger] spec_function_at(
                            s,
                            exports[e],
                            k,
                            prefix,
                            f,
                        );
                    assert(0 <= e < n && spec_function_at(s, exports[e], k, prefix, f));
                    assert(spec_interface_function(s, exports, n, prefix, f));
                }
                assert forall|prefix: Option<Seq<char>>, f: FunctionModel| #[trigger]
                    spec_interface_function(s, exports, n, prefix, f) implies spec_bound(
                    after.exported,
                    prefix,
                    f,
                ) by {
                    let (e, k) = choose|e: int, k: int|
                        0 <= e < n && e < exports.len() && #[trigger] spec_function_at(
                            s,
                            exports[e],
                            k,
                            prefix,
                            f,
                        );
                    assert(e < n - 1);
                    assert(spec_interface_function(s, exports, n - 1, prefix, f));
                }
            },
        }
    } else {
        assert(exports.take(0) =~= Seq::<(WorldKeyModel, WorldItemModel)>::empty());
    }
}

/// The post-return entry points of a run pair with the functions that
/// need one. Of a run that generates bindings, each binding is the binding
/// of a function that the world exports, and each function that the world
/// exports has its binding; a binding has a post-return entry point if and
/// only if its function is classified as needing one.
pub proof fn lemma_post_return_pairing_of_run(
    s: SchemaModel,
    opts: OptsModel,
    skip: Seq<Seq<char>>,
    world: usize,
)
    requires
        !opts.stubs,
        spec_run(s, spec_new(opts, skip), world) is Ok,
    ensures
        ({
            let bindings = spec_run(s, spec_new(opts, skip), world)->Ok_0.exported;
            let exports = s.worlds[world as int].exports;
            &&& forall|i: int|
                0 <= i < bindings.len() ==> spec_exported_binding(s, exports, #[trigger] bindings[i])
            &&& forall|prefix: Option<Seq<char>>, f: FunctionModel| #[trigger]
                spec_exported_function(s, exports, prefix, f) ==> spec_bound(bindings, prefix, f)
            &&& forall|i: int, prefix: Option<Seq<char>>, f: FunctionModel|
                0 <= i < bindings.len() && #[trigger] spec_binding_matches(bindings[i], prefix, f) ==> (
                bindings[i].post_return is Some <==> f.needs_post_return)
        }),
{
    let z0 = spec_new(opts, skip);
    let z1 = spec_preprocess(s, z0, world)->0;
    let exports = s.worlds[world as int].exports;
    let n = exports.len() as int;
    assert(exports.take(n) =~= exports);
    lemma_interfaces_paired(s, z1, exports, n);
    let z2 = spec_export_interfaces(s, z1, exports)->Ok_0;
    let funcs = spec_world_funcs(exports);
    let z3 = spec_run(s, z0, world)->Ok_0;
    let bindings = z3.exported;
    let m = z2.exported.len();
    if funcs.len() > 0 {
        let added = spec_exports(z2, None, funcs, None)->Ok_0;
        lemma_exports_shape(z2, None, funcs, None);
        assert(bindings == z2.exported + added);
        assert forall|i: int| 0 <= i < bindings.len() implies spec_exported_binding(
            s,
            exports,
            #[trigger] bindings[i],
        ) by {
            if i < m {
                assert(bindings[i] == z2.exported[i]);
                let (prefix, f) = choose|prefix: Option<Seq<char>>, f: FunctionModel|
                    spec_interface_function(s, exports, n, prefix, f) && #[trigger] spec_binding_matches(
                        z2.exported[i],
                        prefix,
                        f,
                    );
                assert(spec_exported_function(s, exports, prefix, f));
                assert(spec_binding_matches(bindings[i], prefix, f));
            } else {
                assert(bindings[i] == added[i - m]);
                assert(funcs[i - m] == funcs[i - m]);
                assert(funcs.contains(funcs[i - m]));
                assert(spec_exported_function(s, exports, None, funcs[i - m]));
                assert(spec_binding_matches(bindings[i], None, funcs[i - m]));
            }
        }
        assert forall|prefix: Option<Seq<char>>, f: FunctionModel| #[trigger]
            spec_exported_function(s, exports, prefix, f) implies spec_bound(bindings, prefix, f) by {
            if spec_interface_function(s, exports, n, prefix, f) {
                assert(spec_bound(z2.exported, prefix, f));
                let i = choose|i: int|
                    0 <= i < z2.exported.len() && spec_binding_matches(#[trigger] z2.exported[i], prefix, f);
                assert(bindings[i] == z2.exported[i]);
            } else {
                let k = choose|k: int| 0 <= k < funcs.len() && funcs[k] == f;
                assert(bindings[m + k] == added[k]);
                assert(spec_binding_matches(bindings[m + k], prefix, f));
            }
        }
    } else {
        assert(bindings == z2.exported);
        assert forall|i: int| 0 <= i < bindings.len() implies spec_exported_binding(
            s,
            exports,
            #[trigger] bindings[i],
        ) by {
            let (prefix, f) = choose|prefix: Option<Seq<char>>, f: FunctionModel|
                spec_interface_function(s, exports, n, prefix, f) && #[trigger] spec_binding_matches(
                    z2.exported[i],
                    prefix,
                    f,
                );
            assert(spec_exported_function(s, exports, prefix, f));
        }
        assert forall|prefix: Option<Seq<char>>, f: FunctionModel| #[trigger]
            spec_exported_function(s, exports, prefix, f) implies spec_bound(bindings, prefix, f) by {
            if !spec_interface_function(s, exports, n, prefix, f) {
                let k = choose|k: int| 0 <= k < funcs.len() && funcs[k] == f;
            }
        }
    }
}

/// Whether the backend refuses `f`: it has more than one result, or a
/// parameter that is neither a primitive type that the backend implements
/// nor a string, or a result without a wire type.
pub open spec fn spec_refused(f: FunctionModel) -> bool {
    ||| f.results.len() >= 2
    ||| exists|i: int|
        0 <= i < f.params.len() && !spec_is_word(#[trigger] f.params[i].1) && !(f.params[i].1 is String)
    ||| f.results.len() == 1 && spec_zig_binding_ty(f.results[0]) is None
}

/// Parameters of which one has no storage type have no placeholder.
pub proof fn lemma_stub_params_fail(params: Seq<(Seq<char>, crate::schema::Type)>, i: int)
    requires
        0 <= i < params.len(),
        !spec_is_word(params[i].1),
        !(params[i].1 is String),
    ensures
        spec_stub_params(params) is Err,
    decreases params.len(),
{
    if i < params.len() - 1 {
        assert(params.drop_last()[i] == params[i]);
        lemma_stub_params_fail(params.drop_last(), i);
    }
}

/// A function that the backend refuses has neither a binding nor a
/// placeholder.
pub proof fn lemma_refused(f: FunctionModel, prefix: Option<Seq<char>>, var: Seq<char>, keywords: Seq<Seq<char>>)
    requires
        spec_refused(f),
    ensures
        spec_binding(f, prefix, var, keywords) is Err,
        spec_stub(f) is Err,
{
    if f.results.len() >= 2 {
        lemma_fail_fast_arity(f, prefix, var, keywords);
    } else {
        lemma_fail_fast_type(f, prefix, var, keywords);
        if exists|i: int|
            0 <= i < f.params.len() && !spec_is_word(#[trigger] f.params[i].1) && !(f.params[i].1 is String) {
            let i = choose|i: int|
                0 <= i < f.params.len() && !spec_is_word(#[trigger] f.params[i].1)
                    && !(f.params[i].1 is String);
            lemma_stub_params_fail(f.params, i);
        }
    }
}

/// Functions of which the backend refuses one have neither bindings nor
/// placeholders.
pub proof fn lemma_refused_among(
    gen: ZigWasmModel,
    interface: Option<usize>,
    funcs: Seq<FunctionModel>,
    prefix: Option<Seq<char>>,
    k: int,
)
    requires
        0 <= k < funcs.len(),
        spec_refused(funcs[k]),
    ensures
        spec_exports(gen, interface, funcs, prefix) is Err,
        spec_stubs(funcs) is Err,
    decreases funcs.len(),
{
    if k < funcs.len() - 1 {
        assert(funcs.drop_last()[k] == funcs[k]);
        lemma_refused_among(gen, interface, funcs.drop_last(), prefix, k);
    } else {
        lemma_refused(funcs[k], prefix, Seq::empty(), gen.opts.keywords);
        if spec_export(gen, interface, funcs[k], prefix) is Ok {
            let var = crate::scopes::spec_resolved(gen.interface_names, interface)->0;
            lemma_refused(funcs[k], prefix, var, gen.opts.keywords);
        }
    }
}

/// Interfaces of which one has a function that the backend refuses are
/// not generated.
pub proof fn lemma_refused_interface(
    s: SchemaModel,
    z: ZigWasmModel,
    exports: Seq<(WorldKeyModel, WorldItemModel)>,
    e: int,
    k: int,
)
    requires
        0 <= e < exports.len(),
        exports[e].1 is Interface,
        exports[e].1->Interface_0 < s.interfaces.len(),
        0 <= k < s.interfaces[exports[e].1->Interface_0 as int].functions.len(),
        spec_refused(s.interfaces[exports[e].1->Interface_0 as int].functions[k]),
    ensures
        spec_export_interfaces(s, z, exports) is Err,
    decreases exports.len(),
{
    if e < exports.len() - 1 {
        assert(exports.drop_last()[e] == exports[e]);
        lemma_refused_interface(s, z, exports.drop_last(), e, k);
    } else {
        let id = exports[e].1->Interface_0;
        if spec_export_interfaces(s, z, exports.drop_last()) is Ok {
            let before = spec_export_interfaces(s, z, exports.drop_last())->Ok_0;
            lemma_refused_among(
                before,
                Some(id),
                s.interfaces[id as int].functions,
                spec_package_name_with(s, exports[e].0),
                k,
            );
        }
    }
}

/// Whether the world exports in `exports` a function that the backend
/// refuses, in an interface or itself.
pub open spec fn spec_exports_refused(s: SchemaModel, exports: Seq<(WorldKeyModel, WorldItemModel)>) -> bool {
    ||| exists|e: int, k: int|
        0 <= e < exports.len() && #[trigger] spec_refused_at(s, exports[e], k)
    ||| exists|k: int|
        0 <= k < spec_world_funcs(exports).len() && spec_refused(#[trigger] spec_world_funcs(exports)[k])
}

/// Whether the function at `k` of the interface that a world lists in
/// `entry` is one that the backend refuses.
pub open spec fn spec_refused_at(s: SchemaModel, entry: (WorldKeyModel, WorldItemModel), k: int) -> bool {
    match entry.1 {
        WorldItemModel::Interface(id) => id < s.interfaces.len() && 0 <= k
            < s.interfaces[id as int].functions.len() && spec_refused(
            s.interfaces[id as int].functions[k],
        ),
        _ => false,
    }
}

/// Generation fails fast: a run for a world that exports a function with
/// more than one result, or with a parameter or a result of a type that
/// the backend does not implement, fails and gives no artifact, with
/// bindings and with placeholders alike.
pub proof fn lemma_fail_fast(s: SchemaModel, opts: OptsModel, skip: Seq<Seq<char>>, world: usize)
    requires
        world < s.worlds.len(),
        spec_exports_refused(s, s.worlds[world as int].exports),
    ensures
        spec_generate(s, spec_new(opts, skip), world) is Err,
{
    let z0 = spec_new(opts, skip);
    let exports = s.worlds[world as int].exports;
    if spec_preprocess(s, z0, world) is Some {
        let z1 = spec_preprocess(s, z0, world)->0;
        if exists|e: int, k: int| 0 <= e < exports.len() && #[trigger] spec_refused_at(s, exports[e], k) {
            let (e, k) = choose|e: int, k: int|
                0 <= e < exports.len() && #[trigger] spec_refused_at(s, exports[e], k);
            lemma_refused_interface(s, z1, exports, e, k);
        } else {
            let funcs = spec_world_funcs(exports);
            let k = choose|k: int| 0 <= k < funcs.len() && spec_refused(#[trigger] funcs[k]);
            if spec_export_interfaces(s, z1, exports) is Ok {
                let z2 = spec_export_interfaces(s, z1, exports)->Ok_0;
                lemma_refused_among(z2, None, funcs, None, k);
            }
        }
    }
}

/// Items of which one is a type are not generated.
pub proof fn lemma_exported_type_refused(
    s: SchemaModel,
    z: ZigWasmModel,
    items: Seq<(WorldKeyModel, WorldItemModel)>,
    e: int,
)
    requires
        0 <= e < items.len(),
        items[e].1 is Type,
    ensures
        spec_export_interfaces(s, z, items) is Err,
    decreases items.len(),
{
    if e < items.len() - 1 {
        assert(items.drop_last()[e] == items[e]);
        lemma_exported_type_refused(s, z, items.drop_last(), e);
    }
}

/// Nothing is skipped without a word: a run for a world that exports a
/// type, which the backend does not implement, fails and gives no
/// artifact.
pub proof fn lemma_exported_type_fails(
    s: SchemaModel,
    opts: OptsModel,
    skip: Seq<Seq<char>>,
    world: usize,
    e: int,
)
    requires
        world < s.worlds.len(),
        0 <= e < s.worlds[world as int].exports.len(),
        s.worlds[world as int].exports[e].1 is Type,
    ensures
        spec_generate(s, spec_new(opts, skip), world) is Err,
{
    let z0 = spec_new(opts, skip);
    if spec_preprocess(s, z0, world) is Some {
        lemma_exported_type_refused(s, spec_preprocess(s, z0, world)->0, s.worlds[world as int].exports, e);
    }
}

/// The number of the functions of the interfaces among `items`.
pub open spec fn spec_interface_function_count(s: SchemaModel, items: Seq<(WorldKeyModel, WorldItemModel)>) -> nat
    decreases items.len(),
{
    if items.len() == 0 {
        0
    } else {
        spec_interface_function_count(s, items.drop_last()) + match items.last().1 {
            WorldItemModel::Interface(id) => if id < s.interfaces.len() {
                s.interfaces[id as int].functions.len()
            } else {
                0
            },
            _ => 0,
        }
    }
}

/// Generating the interfaces among `items` with bindings adds one binding
/// for each of their functions.
pub proof fn lemma_interfaces_counted(s: SchemaModel, z: ZigWasmModel, items: Seq<(WorldKeyModel, WorldItemModel)>)
    requires
        !z.opts.stubs,
        spec_export_interfaces(s, z, items) is Ok,
    ensures
        spec_export_interfaces(s, z, items)->Ok_0.opts == z.opts,
        spec_export_interfaces(s, z, items)->Ok_0.exported.len() == z.exported.len()
            + spec_interface_function_count(s, items),
    decreases items.len(),
{
    if items.len() > 0 {
        lemma_interfaces_counted(s, z, items.drop_last());
        let before = spec_export_interfaces(s, z, items.drop_last())->Ok_0;
        match items.last().1 {
            WorldItemModel::Interface(id) => {
                lemma_exports_shape(
                    before,
                    Some(id),
                    s.interfaces[id as int].functions,
                    spec_package_name_with(s, items.last().0),
                );
            },
            _ => {},
        }
    }
}

/// A run that generates bindings makes one binding, and so registers one
/// entry point, for each function that the world exports, in an interface
/// or itself.
pub proof fn lemma_one_binding_per_function(s: SchemaModel, opts: OptsModel, skip: Seq<Seq<char>>, world: usize)
    requires
        !opts.stubs,
        spec_run(s, spec_new(opts, skip), world) is Ok,
    ensures
        spec_run(s, spec_new(opts, skip), world)->Ok_0.exported.len() == spec_interface_function_count(
            s,
            s.worlds[world as int].exports,
        ) + spec_world_funcs(s.worlds[world as int].exports).len(),
{
    let z0 = spec_new(opts, skip);
    let z1 = spec_preprocess(s, z0, world)->0;
    let exports = s.worlds[world as int].exports;
    lemma_interfaces_counted(s, z1, exports);
    let z2 = spec_export_interfaces(s, z1, exports)->Ok_0;
    let funcs = spec_world_funcs(exports);
    if funcs.len() > 0 {
        lemma_exports_shape(z2, None, funcs, None);
    }
}

} // verus!
