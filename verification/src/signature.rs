//! The signature of a function as a line of text: its parameters and its
//! results over the types that stand for them in a signature.

use vstd::prelude::*;
use crate::binding::spec_ident;
use crate::case::{to_snake_case, to_upper_camel_case, upper_camel_case};
use crate::names::avoid_keyword;
use crate::schema::{Function, FunctionModel, Schema, SchemaModel, Type, WorldKey, WorldKeyModel};
use crate::scopes::{NameTable, NameTableModel};
use crate::types::{is_anonymous, spec_is_anonymous, spec_ty, ty_text};
use std::collections::BTreeSet;

verus! {

/// What a signature is written in: the schema, the names of the scopes,
/// the name of the world, and the scope.
pub struct SignatureContext {
    pub schema: SchemaModel,
    pub names: NameTableModel,
    pub world: Seq<char>,
    pub scope: Option<WorldKeyModel>,
}

/// The context of the scope `scope` of the world named `world`.
pub open spec fn spec_context(
    schema: SchemaModel,
    names: NameTableModel,
    world: Seq<char>,
    scope: Option<WorldKeyModel>,
) -> SignatureContext {
    SignatureContext { schema, names, world, scope }
}

/// The type that stands for `ty` in a signature written in `c`.
pub open spec fn spec_ty_in(c: SignatureContext, ty: Type) -> Option<Seq<char>> {
    spec_ty(c.schema, c.names, c.world, c.scope, ty)
}

/// The parameters of a signature, each an identifier, a space and a type,
/// with a comma and a space between each two; or the type of the first
/// parameter that no type stands for.
pub open spec fn spec_func_params(
    c: SignatureContext,
    keywords: Seq<Seq<char>>,
    params: Seq<(Seq<char>, Type)>,
) -> Result<Seq<char>, Type>
    decreases params.len(),
{
    if params.len() == 0 {
        Ok(Seq::empty())
    } else {
        match spec_func_params(c, keywords, params.drop_last()) {
            Ok(front) => match spec_ty_in(c, params.last().1) {
                Some(ty) => if params.len() > 1 {
                    Ok(front + ", "@ + spec_ident(keywords, params.last().0) + " "@ + ty)
                } else {
                    Ok(front + spec_ident(keywords, params.last().0) + " "@ + ty)
                },
                None => Err(params.last().1),
            },
            Err(ty) => Err(ty),
        }
    }
}

/// The types that stand for `types`, with a comma and a space between
/// each two; or the first of `types` that no type stands for.
pub open spec fn spec_ty_list(c: SignatureContext, types: Seq<Type>) -> Result<Seq<char>, Type>
    decreases types.len(),
{
    if types.len() == 0 {
        Ok(Seq::empty())
    } else {
        match spec_ty_list(c, types.drop_last()) {
            Ok(front) => match spec_ty_in(c, types.last()) {
                Some(ty) => if types.len() > 1 {
                    Ok(front + ", "@ + ty)
                } else {
                    Ok(front + ty)
                },
                None => Err(types.last()),
            },
            Err(ty) => Err(ty),
        }
    }
}

/// The results of a signature: a space; then nothing for no result, the
/// type and a space for one, the types in round brackets and a space for
/// more.
pub open spec fn spec_func_results(c: SignatureContext, results: Seq<Type>) -> Result<Seq<char>, Type> {
    if results.len() == 0 {
        Ok(" "@)
    } else if results.len() == 1 {
        match spec_ty_in(c, results[0]) {
            Some(ty) => Ok(" "@ + ty + " "@),
            None => Err(results[0]),
        }
    } else {
        match spec_ty_list(c, results) {
            Ok(list) => Ok(" "@ + "("@ + list + ") "@),
            Err(ty) => Err(ty),
        }
    }
}

/// The signature of `func` without the name of a scope: the name in upper
/// camel case, the parameters in round brackets, and the results.
pub open spec fn spec_func_signature_no_interface(
    c: SignatureContext,
    keywords: Seq<Seq<char>>,
    func: FunctionModel,
) -> Result<Seq<char>, Type> {
    match spec_func_params(c, keywords, func.params) {
        Ok(params) => match spec_func_results(c, func.results) {
            Ok(results) => Ok(upper_camel_case(func.name) + "("@ + params + ")"@ + results),
            Err(ty) => Err(ty),
        },
        Err(ty) => Err(ty),
    }
}

/// The set `noted` and the type definitions among `types` that get a
/// synthesized name.
pub open spec fn spec_note_types(noted: Set<usize>, s: SchemaModel, types: Seq<Type>) -> Set<usize>
    decreases types.len(),
{
    if types.len() == 0 {
        noted
    } else {
        let front = spec_note_types(noted, s, types.drop_last());
        if spec_is_anonymous(s, types.last()) {
            front.insert(types.last()->Id_0)
        } else {
            front
        }
    }
}

/// The types of `params`, in order.
pub open spec fn spec_param_types(params: Seq<(Seq<char>, Type)>) -> Seq<Type> {
    Seq::new(params.len(), |i: int| params[i].1)
}

/// Where a front of `params` cannot be written, `params` cannot, for the
/// same type.
pub proof fn lemma_func_params_err(
    c: SignatureContext,
    keywords: Seq<Seq<char>>,
    params: Seq<(Seq<char>, Type)>,
    n: int,
)
    requires
        0 <= n <= params.len(),
        spec_func_params(c, keywords, params.take(n)) is Err,
    ensures
        spec_func_params(c, keywords, params) == spec_func_params(c, keywords, params.take(n)),
    decreases params.len() - n,
{
    if n < params.len() {
        assert(params.take(n + 1).drop_last() =~= params.take(n));
        lemma_func_params_err(c, keywords, params, n + 1);
    } else {
        assert(params.take(n) =~= params);
    }
}

/// Where a front of `types` cannot be written, `types` cannot, for the
/// same type.
pub proof fn lemma_ty_list_err(c: SignatureContext, types: Seq<Type>, n: int)
    requires
        0 <= n <= types.len(),
        spec_ty_list(c, types.take(n)) is Err,
    ensures
        spec_ty_list(c, types) == spec_ty_list(c, types.take(n)),
    decreases types.len() - n,
{
    if n < types.len() {
        assert(types.take(n + 1).drop_last() =~= types.take(n));
        lemma_ty_list_err(c, types, n + 1);
    } else {
        assert(types.take(n) =~= types);
    }
}

/// Writes the parameters of a signature.
pub fn func_params(
    schema: &Schema,
    names: &NameTable,
    world: &str,
    scope: Option<&WorldKey>,
    keywords: &Vec<String>,
    params: &Vec<(String, Type)>,
) -> (r: Result<String, Type>)
    ensures
        match r {
            Ok(text) => spec_func_params(
                spec_context(schema@, names@, world@, scope.deep_view()),
                keywords.deep_view(),
                params.deep_view(),
            ) == Ok::<Seq<char>, Type>(text@),
            Err(ty) => spec_func_params(
                spec_context(schema@, names@, world@, scope.deep_view()),
                keywords.deep_view(),
                params.deep_view(),
            ) == Err::<Seq<char>, Type>(ty),
        },
{
    let ghost c = spec_context(schema@, names@, world@, scope.deep_view());
    let ghost kw = keywords.deep_view();
    let ghost all = params.deep_view();
    let mut text = String::new();
    let mut i: usize = 0;
    assert(all.take(0) =~= Seq::<(Seq<char>, Type)>::empty());
    while i < params.len()
        invariant
            i <= params.len(),
            all == params.deep_view(),
            kw == keywords.deep_view(),
            c == spec_context(schema@, names@, world@, scope.deep_view()),
            spec_func_params(c, kw, all.take(i as int)) == Ok::<Seq<char>, Type>(text@),
        decreases params.len() - i,
    {
        assert(all.take(i + 1).drop_last() =~= all.take(i as int));
        assert(all.take(i + 1).last() == (params[i as int].0@, params[i as int].1));
        match ty_text(schema, names, world, scope, &params[i].1) {
            Some(ty) => {
                if i > 0 {
                    text.append(", ");
                }
                text.append(avoid_keyword(keywords, to_snake_case(params[i].0.as_str()).as_str()).as_str());
                text.append(" ");
                text.append(ty.as_str());
            },
            None => {
                proof {
                    assert(spec_func_params(c, kw, all.take(i + 1)) == Err::<Seq<char>, Type>(
                        params[i as int].1,
                    ));
                    lemma_func_params_err(c, kw, all, i + 1);
                }
                return Err(params[i].1);
            },
        }
        i += 1;
    }
    assert(all.take(i as int) =~= all);
    Ok(text)
}

/// Writes the types that stand for `types`, with a comma and a space
/// between each two.
pub fn ty_list(schema: &Schema, names: &NameTable, world: &str, scope: Option<&WorldKey>, types: &Vec<Type>) -> (r:
    Result<String, Type>)
    ensures
        match r {
            Ok(text) => spec_ty_list(spec_context(schema@, names@, world@, scope.deep_view()), types@)
                == Ok::<Seq<char>, Type>(text@),
            Err(ty) => spec_ty_list(spec_context(schema@, names@, world@, scope.deep_view()), types@)
                == Err::<Seq<char>, Type>(ty),
        },
{
    let ghost c = spec_context(schema@, names@, world@, scope.deep_view());
    let ghost all = types@;
    let mut text = String::new();
    let mut i: usize = 0;
    assert(all.take(0) =~= Seq::<Type>::empty());
    while i < types.len()
        invariant
            i <= types.len(),
            all == types@,
            c == spec_context(schema@, names@, world@, scope.deep_view()),
            spec_ty_list(c, all.take(i as int)) == Ok::<Seq<char>, Type>(text@),
        decreases types.len() - i,
    {
        assert(all.take(i + 1).drop_last() =~= all.take(i as int));
        assert(all.take(i + 1).last() == types[i as int]);
        match ty_text(schema, names, world, scope, &types[i]) {
            Some(ty) => {
                if i > 0 {
                    text.append(", ");
                }
                text.append(ty.as_str());
            },
            None => {
                proof {
                    assert(spec_ty_list(c, all.take(i + 1)) == Err::<Seq<char>, Type>(types[i as int]));
                    lemma_ty_list_err(c, all, i + 1);
                }
                return Err(types[i]);
            },
        }
        i += 1;
    }
    assert(all.take(i as int) =~= all);
    Ok(text)
}

/// Writes the results of a signature.
pub fn func_results(schema: &Schema, names: &NameTable, world: &str, scope: Option<&WorldKey>, results: &Vec<Type>) -> (r:
    Result<String, Type>)
    ensures
        match r {
            Ok(text) => spec_func_results(
                spec_context(schema@, names@, world@, scope.deep_view()),
                results@,
            ) == Ok::<Seq<char>, Type>(text@),
            Err(ty) => spec_func_results(
                spec_context(schema@, names@, world@, scope.deep_view()),
                results@,
            ) == Err::<Seq<char>, Type>(ty),
        },
{
    let mut text = " ".to_string();
    if results.len() == 0 {
        Ok(text)
    } else if results.len() == 1 {
        match ty_text(schema, names, world, scope, &results[0]) {
            Some(ty) => {
                text.append(ty.as_str());
                text.append(" ");
                Ok(text)
            },
            None => Err(results[0]),
        }
    } else {
        match ty_list(schema, names, world, scope, results) {
            Ok(list) => {
                text.append("(");
                text.append(list.as_str());
                text.append(") ");
                Ok(text)
            },
            Err(ty) => Err(ty),
        }
    }
}

/// Writes the signature of `func` without the name of a scope.
pub fn func_signature_no_interface(
    schema: &Schema,
    names: &NameTable,
    world: &str,
    scope: Option<&WorldKey>,
    keywords: &Vec<String>,
    func: &Function,
) -> (r: Result<String, Type>)
    ensures
        match r {
            Ok(text) => spec_func_signature_no_interface(
                spec_context(schema@, names@, world@, scope.deep_view()),
                keywords.deep_view(),
                func@,
            ) == Ok::<Seq<char>, Type>(text@),
            Err(ty) => spec_func_signature_no_interface(
                spec_context(schema@, names@, world@, scope.deep_view()),
                keywords.deep_view(),
                func@,
            ) == Err::<Seq<char>, Type>(ty),
        },
{
    let params = match func_params(schema, names, world, scope, keywords, &func.params) {
        Ok(params) => params,
        Err(ty) => {
            return Err(ty);
        },
    };
    let results = match func_results(schema, names, world, scope, &func.results) {
        Ok(results) => results,
        Err(ty) => {
            return Err(ty);
        },
    };
    let mut text = to_upper_camel_case(func.name.as_str());
    text.append("(");
    text.append(params.as_str());
    text.append(")");
    text.append(results.as_str());
    Ok(text)
}

/// The types of `params`, in order.
pub fn param_types(params: &Vec<(String, Type)>) -> (r: Vec<Type>)
    ensures
        r@ == spec_param_types(params.deep_view()),
{
    let mut types: Vec<Type> = Vec::new();
    let mut i: usize = 0;
    while i < params.len()
        invariant
            i <= params.len(),
            types.len() == i,
            forall|j: int| 0 <= j < i ==> types[j] == params[j].1,
        decreases params.len() - i,
    {
        types.push(params[i].1);
        i += 1;
    }
    assert(types@ =~= spec_param_types(params.deep_view()));
    types
}

/// Notes in `noted` the type definitions among `types` that get a
/// synthesized name.
pub fn note_types(noted: &mut BTreeSet<usize>, schema: &Schema, types: &Vec<Type>)
    ensures
        final(noted)@ == spec_note_types(old(noted)@, schema@, types@),
{
    let ghost all = types@;
    let mut i: usize = 0;
    assert(all.take(0) =~= Seq::<Type>::empty());
    while i < types.len()
        invariant
            i <= types.len(),
            all == types@,
            noted@ == spec_note_types(old(noted)@, schema@, all.take(i as int)),
        decreases types.len() - i,
    {
        assert(all.take(i + 1).drop_last() =~= all.take(i as int));
        assert(all.take(i + 1).last() == types[i as int]);
        if is_anonymous(schema, &types[i]) {
            match &types[i] {
                Type::Id(id) => {
                    noted.insert(*id);
                },
                _ => {},
            }
        }
        i += 1;
    }
    assert(all.take(i as int) =~= all);
}

} // verus!
