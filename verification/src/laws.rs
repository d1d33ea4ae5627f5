//! What holds of the generator, whatever the schema.

use vstd::prelude::*;
use crate::bindgen::spec_lifted_args;
use crate::binding::{
    spec_binding, spec_export_name, spec_lift_params, spec_post_return, BindingModel,
};
use crate::config::Opts;
use crate::error::SchemaErrorModel;
use crate::schema::{FunctionModel, Schema, Type, WorldKeyModel};
use crate::scopes::{
    lemma_position, lemma_position_push, spec_fresh_name, spec_intern, spec_names, spec_position,
    spec_resolved, NameTableModel, ScopeEntryModel,
};
use crate::text::spec_dedup;
use crate::types::{spec_is_word, spec_zig_binding_ty, spec_zig_ty};
use crate::world::{spec_generate, spec_new};

verus! {

/// Two runs on the same schema, world and options give the same artifact,
/// or fail in the same way: what is generated depends on the contents of
/// the schema and of the options alone.
pub proof fn lemma_generation_is_idempotent(
    first: Schema,
    second: Schema,
    world: usize,
    first_opts: Opts,
    second_opts: Opts,
)
    requires
        first@ == second@,
        first_opts@ == second_opts@,
        first_opts.skip.deep_view() == second_opts.skip.deep_view(),
    ensures
        spec_generate(
            first@,
            spec_new(first_opts@, spec_dedup(first_opts.skip.deep_view())),
            world,
        ) == spec_generate(
            second@,
            spec_new(second_opts@, spec_dedup(second_opts.skip.deep_view())),
            world,
        ),
{
}

/// A scope keeps the name that it was given: entering a scope gives it a
/// name, entering it again changes nothing, and entering any scope leaves
/// the names of the scopes that the table holds as they are.
pub proof fn lemma_name_stability(
    t: NameTableModel,
    id: Option<usize>,
    key: Option<WorldKeyModel>,
    base: Seq<char>,
    again_key: Option<WorldKeyModel>,
    again_base: Seq<char>,
    other: Option<usize>,
)
    ensures
        spec_resolved(spec_intern(t, id, key, base), id) is Some,
        spec_intern(spec_intern(t, id, key, base), id, again_key, again_base) == spec_intern(
            t,
            id,
            key,
            base,
        ),
        spec_resolved(t, other) is Some ==> spec_resolved(spec_intern(t, id, key, base), other)
            == spec_resolved(t, other),
{
    if spec_position(t.entries, id, 0) is None {
        let (name, counter) = spec_fresh_name(spec_names(t.entries), base, t.counter);
        let entry = ScopeEntryModel { id, key, name };
        lemma_position_push(t.entries, entry, id, 0);
        lemma_position_push(t.entries, entry, other, 0);
        lemma_position(t.entries, other, 0);
    }
}

/// A binding has a post-return entry point if and only if the function is
/// classified as needing one, and the entry point is exported under the
/// export name of the function behind `cabi_post_`.
pub proof fn lemma_post_return_pairing(
    func: FunctionModel,
    prefix: Option<Seq<char>>,
    var: Seq<char>,
    keywords: Seq<Seq<char>>,
)
    requires
        spec_binding(func, prefix, var, keywords) is Ok,
    ensures
        ({
            let b = spec_binding(func, prefix, var, keywords)->Ok_0;
            &&& b.post_return is Some <==> func.needs_post_return
            &&& b.export_name == spec_export_name(prefix, func.name)
            &&& b.post_return is Some ==> b.post_return->0 == spec_post_return(prefix, func.name)
                && b.post_return->0.export_name == "cabi_post_"@ + b.export_name
        }),
{
}

/// A primitive type that the backend implements has one name: its wire
/// type is its storage type, and as a parameter it is one wire parameter
/// of that type.
pub proof fn lemma_primitive_round_trip(ty: Type, param: Seq<char>)
    requires
        spec_is_word(ty),
    ensures
        spec_zig_ty(ty) is Some,
        spec_zig_binding_ty(ty) == spec_zig_ty(ty),
        spec_lifted_args(param, ty) == Some(seq![(param, spec_zig_ty(ty)->0)]),
{
}

/// A function with more than one result has no binding: it is refused for
/// its arity.
pub proof fn lemma_fail_fast_arity(
    func: FunctionModel,
    prefix: Option<Seq<char>>,
    var: Seq<char>,
    keywords: Seq<Seq<char>>,
)
    requires
        func.results.len() >= 2,
    ensures
        spec_binding(func, prefix, var, keywords) == Err::<BindingModel, SchemaErrorModel>(
            SchemaErrorModel::UnsupportedArity {
                function: func.name,
                results: func.results.len() as usize,
            },
        ),
{
}

/// Parameters of which one cannot be lifted cannot be lifted.
pub proof fn lemma_lift_params_fails(params: Seq<(Seq<char>, Type)>, keywords: Seq<Seq<char>>, i: int)
    requires
        0 <= i < params.len(),
        spec_lifted_args(crate::binding::spec_ident(keywords, params[i].0), params[i].1) is None,
    ensures
        spec_lift_params(params, keywords) is Err,
    decreases params.len(),
{
    if i < params.len() - 1 {
        assert(params.drop_last()[i] == params[i]);
        lemma_lift_params_fails(params.drop_last(), keywords, i);
    }
}

/// A function with at most one result, of which a parameter or the result
/// has a type that the backend does not implement, has no binding: it is
/// refused for a type.
pub proof fn lemma_fail_fast_type(
    func: FunctionModel,
    prefix: Option<Seq<char>>,
    var: Seq<char>,
    keywords: Seq<Seq<char>>,
)
    requires
        func.results.len() <= 1,
        (exists|i: int|
            0 <= i < func.params.len() && !spec_is_word(#[trigger] func.params[i].1)
                && !(func.params[i].1 is String)) || (func.results.len() == 1 && spec_zig_binding_ty(
            func.results[0],
        ) is None),
    ensures
        spec_binding(func, prefix, var, keywords) is Err,
        spec_binding(func, prefix, var, keywords)->Err_0 is UnsupportedType,
        spec_binding(func, prefix, var, keywords)->Err_0->UnsupportedType_function == func.name,
{
    if exists|i: int|
        0 <= i < func.params.len() && !spec_is_word(#[trigger] func.params[i].1) && !(func.params[i].1 is String) {
        let i = choose|i: int|
            0 <= i < func.params.len() && !spec_is_word(#[trigger] func.params[i].1)
                && !(func.params[i].1 is String);
        lemma_lift_params_fails(func.params, keywords, i);
    }
}

} // verus!
