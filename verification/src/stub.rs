//! Placeholders for the implementation of a scope: a struct of functions
//! with empty bodies, over storage types.

use vstd::prelude::*;
use crate::buffer::{pushed, EmissionBuffer};
use crate::error::{SchemaError, SchemaErrorModel};
use crate::schema::{Function, FunctionModel, Type};
use crate::types::{get_zig_ty, spec_zig_ty};

verus! {

/// The placeholder of one function.
#[derive(Clone, Debug)]
pub struct Stub {
    pub name: String,
    /// The parameters, each a name and a storage type, in order.
    pub params: Vec<(String, String)>,
    /// The storage type of the result, `void` where there is none.
    pub result: String,
}

/// The model of a [`Stub`].
pub struct StubModel {
    pub name: Seq<char>,
    pub params: Seq<(Seq<char>, Seq<char>)>,
    pub result: Seq<char>,
}

impl View for Stub {
    type V = StubModel;

    open spec fn view(&self) -> StubModel {
        StubModel { name: self.name@, params: self.params.deep_view(), result: self.result@ }
    }
}

impl DeepView for Stub {
    type V = StubModel;

    open spec fn deep_view(&self) -> StubModel {
        self@
    }
}

/// The parameters of a placeholder, or the type of the first parameter
/// that has no storage type.
pub open spec fn spec_stub_params(params: Seq<(Seq<char>, Type)>) -> Result<
    Seq<(Seq<char>, Seq<char>)>,
    Type,
>
    decreases params.len(),
{
    if params.len() == 0 {
        Ok(Seq::empty())
    } else {
        match spec_stub_params(params.drop_last()) {
            Ok(front) => match spec_zig_ty(params.last().1) {
                Some(ty) => Ok(front.push((params.last().0, ty))),
                None => Err(params.last().1),
            },
            Err(ty) => Err(ty),
        }
    }
}

/// The placeholder of `func`, or why there is none: more than one result,
/// or else the first parameter type, or else the result type, that has no
/// storage type.
pub open spec fn spec_stub(func: FunctionModel) -> Result<StubModel, SchemaErrorModel> {
    if func.results.len() > 1 {
        Err(
            SchemaErrorModel::UnsupportedArity {
                function: func.name,
                results: func.results.len() as usize,
            },
        )
    } else {
        match spec_stub_params(func.params) {
            Err(ty) => Err(SchemaErrorModel::UnsupportedType { function: func.name, ty }),
            Ok(params) => if func.results.len() == 1 {
                match spec_zig_ty(func.results[0]) {
                    Some(result) => Ok(StubModel { name: func.name, params, result }),
                    None => Err(
                        SchemaErrorModel::UnsupportedType { function: func.name, ty: func.results[0] },
                    ),
                }
            } else {
                Ok(StubModel { name: func.name, params, result: "void"@ })
            },
        }
    }
}

/// The text and depth of a buffer that held `st`, after the parameters
/// `params` of a placeholder have been pushed, one by one.
pub open spec fn spec_push_stub_params(st: (Seq<char>, nat), params: Seq<(Seq<char>, Seq<char>)>) -> (
    Seq<char>,
    nat,
)
    decreases params.len(),
{
    if params.len() == 0 {
        st
    } else {
        let front = spec_push_stub_params(st, params.drop_last());
        pushed(front.0, front.1, params.last().0 + ": "@ + params.last().1 + ", "@)
    }
}

/// The text and depth of a buffer that held `st`, after the placeholder
/// `stub` has been pushed: its head, its parameters, and its result type
/// with the empty body.
pub open spec fn spec_push_stub(st: (Seq<char>, nat), stub: StubModel) -> (Seq<char>, nat) {
    let st1 = pushed(st.0, st.1, "fn "@ + stub.name + "("@);
    let st2 = spec_push_stub_params(st1, stub.params);
    pushed(st2.0, st2.1, ") "@ + stub.result + " {}\n"@)
}

/// The text and depth of a buffer that held `st`, after the placeholders
/// `stubs` have been pushed in order.
pub open spec fn spec_push_stubs(st: (Seq<char>, nat), stubs: Seq<StubModel>) -> (Seq<char>, nat)
    decreases stubs.len(),
{
    if stubs.len() == 0 {
        st
    } else {
        spec_push_stub(spec_push_stubs(st, stubs.drop_last()), stubs.last())
    }
}

/// The text and depth of a buffer that held `st`, after the struct `var`
/// of the placeholders `stubs` has been pushed.
pub open spec fn spec_push_stub_struct(st: (Seq<char>, nat), var: Seq<char>, stubs: Seq<StubModel>) -> (
    Seq<char>,
    nat,
) {
    let st1 = pushed(st.0, st.1, "const "@ + var + " = struct {\n"@);
    let st2 = spec_push_stubs(st1, stubs);
    pushed(st2.0, st2.1, "};\n\n"@)
}

/// The placeholders of `funcs`, or the first reason why one of them has
/// none.
pub open spec fn spec_stubs(funcs: Seq<FunctionModel>) -> Result<Seq<StubModel>, SchemaErrorModel>
    decreases funcs.len(),
{
    if funcs.len() == 0 {
        Ok(Seq::empty())
    } else {
        match spec_stubs(funcs.drop_last()) {
            Ok(front) => match spec_stub(funcs.last()) {
                Ok(stub) => Ok(front.push(stub)),
                Err(e) => Err(e),
            },
            Err(e) => Err(e),
        }
    }
}

/// Where a front of `params` has no placeholder, `params` has none, for
/// the same type.
pub proof fn lemma_stub_params_err(params: Seq<(Seq<char>, Type)>, n: int)
    requires
        0 <= n <= params.len(),
        spec_stub_params(params.take(n)) is Err,
    ensures
        spec_stub_params(params) == spec_stub_params(params.take(n)),
    decreases params.len() - n,
{
    if n < params.len() {
        assert(params.take(n + 1).drop_last() =~= params.take(n));
        lemma_stub_params_err(params, n + 1);
    } else {
        assert(params.take(n) =~= params);
    }
}

/// Where a front of `funcs` has no placeholders, `funcs` has none, for the
/// same reason.
pub proof fn lemma_stubs_err(funcs: Seq<FunctionModel>, n: int)
    requires
        0 <= n <= funcs.len(),
        spec_stubs(funcs.take(n)) is Err,
    ensures
        spec_stubs(funcs) == spec_stubs(funcs.take(n)),
    decreases funcs.len() - n,
{
    if n < funcs.len() {
        assert(funcs.take(n + 1).drop_last() =~= funcs.take(n));
        lemma_stubs_err(funcs, n + 1);
    } else {
        assert(funcs.take(n) =~= funcs);
    }
}

/// Builds the placeholder of `func`.
pub fn emit_stub(func: &Function) -> (r: Result<Stub, SchemaError>)
    ensures
        match r {
            Ok(stub) => spec_stub(func@) == Ok::<StubModel, SchemaErrorModel>(stub@),
            Err(e) => spec_stub(func@) == Err::<StubModel, SchemaErrorModel>(e@),
        },
{
    let ghost all = func@.params;
    if func.results.len() > 1 {
        return Err(
            SchemaError::UnsupportedArity { function: func.name.clone(), results: func.results.len() },
        );
    }
    let mut params: Vec<(String, String)> = Vec::new();
    let mut i: usize = 0;
    assert(all.take(0) =~= Seq::<(Seq<char>, Type)>::empty());
    assert(params.deep_view() =~= Seq::<(Seq<char>, Seq<char>)>::empty());
    while i < func.params.len()
        invariant
            i <= func.params.len(),
            func.results.len() <= 1,
            all == func@.params,
            spec_stub_params(all.take(i as int)) == Ok::<Seq<(Seq<char>, Seq<char>)>, Type>(
                params.deep_view(),
            ),
        decreases func.params.len() - i,
    {
        assert(all.take(i + 1).drop_last() =~= all.take(i as int));
        assert(all.take(i + 1).last() == (func.params[i as int].0@, func.params[i as int].1));
        match get_zig_ty(&func.params[i].1) {
            Ok(ty) => {
                let ghost before = params.deep_view();
                params.push((func.params[i].0.clone(), ty));
                assert(params.deep_view() =~= before.push((func.params[i as int].0@, ty@)));
            },
            Err(e) => {
                proof {
                    assert(spec_stub_params(all.take(i + 1)) == Err::<Seq<(Seq<char>, Seq<char>)>, Type>(
                        func.params[i as int].1,
                    ));
                    lemma_stub_params_err(all, i + 1);
                }
                return Err(SchemaError::UnsupportedType { function: func.name.clone(), ty: e.ty });
            },
        }
        i += 1;
    }
    assert(all.take(i as int) =~= all);
    let result = if func.results.len() == 1 {
        match get_zig_ty(&func.results[0]) {
            Ok(ty) => ty,
            Err(e) => {
                return Err(SchemaError::UnsupportedType { function: func.name.clone(), ty: e.ty });
            },
        }
    } else {
        "void".to_string()
    };
    Ok(Stub { name: func.name.clone(), params, result })
}

/// Builds the placeholders of `funcs`, in order.
pub fn emit_stubs(funcs: &Vec<&Function>) -> (r: Result<Vec<Stub>, SchemaError>)
    ensures
        match r {
            Ok(stubs) => spec_stubs(funcs.deep_view()) == Ok::<Seq<StubModel>, SchemaErrorModel>(
                stubs.deep_view(),
            ),
            Err(e) => spec_stubs(funcs.deep_view()) == Err::<Seq<StubModel>, SchemaErrorModel>(e@),
        },
{
    let ghost all = funcs.deep_view();
    let mut stubs: Vec<Stub> = Vec::new();
    let mut i: usize = 0;
    assert(all.take(0) =~= Seq::<FunctionModel>::empty());
    assert(stubs.deep_view() =~= Seq::<StubModel>::empty());
    while i < funcs.len()
        invariant
            i <= funcs.len(),
            all == funcs.deep_view(),
            spec_stubs(all.take(i as int)) == Ok::<Seq<StubModel>, SchemaErrorModel>(stubs.deep_view()),
        decreases funcs.len() - i,
    {
        assert(all.take(i + 1).drop_last() =~= all.take(i as int));
        assert(all.take(i + 1).last() == funcs[i as int]@);
        match emit_stub(funcs[i]) {
            Ok(stub) => {
                let ghost before = stubs.deep_view();
                let ghost s = stub@;
                stubs.push(stub);
                assert(stubs.deep_view() =~= before.push(s));
            },
            Err(e) => {
                proof {
                    assert(spec_stubs(all.take(i + 1)) == Err::<Seq<StubModel>, SchemaErrorModel>(e@));
                    lemma_stubs_err(all, i + 1);
                }
                return Err(e);
            },
        }
        i += 1;
    }
    assert(all.take(i as int) =~= all);
    Ok(stubs)
}

/// Appends the placeholder `stub` to `buf`.
pub fn push_stub(buf: &mut EmissionBuffer, stub: &Stub)
    ensures
        final(buf)@ == spec_push_stub(old(buf)@, stub@),
{
    let ghost all = stub@.params;
    let mut head = "fn ".to_string();
    head.append(stub.name.as_str());
    head.append("(");
    buf.push_str(head.as_str());
    let ghost st1 = buf@;
    let mut i: usize = 0;
    assert(all.take(0) =~= Seq::<(Seq<char>, Seq<char>)>::empty());
    while i < stub.params.len()
        invariant
            i <= stub.params.len(),
            all == stub@.params,
            buf@ == spec_push_stub_params(st1, all.take(i as int)),
        decreases stub.params.len() - i,
    {
        assert(all.take(i + 1).drop_last() =~= all.take(i as int));
        assert(all.take(i + 1).last() == (stub.params[i as int].0@, stub.params[i as int].1@));
        let mut param = stub.params[i].0.clone();
        param.append(": ");
        param.append(stub.params[i].1.as_str());
        param.append(", ");
        buf.push_str(param.as_str());
        i += 1;
    }
    assert(all.take(i as int) =~= all);
    let mut tail = ") ".to_string();
    tail.append(stub.result.as_str());
    tail.append(" {}\n");
    buf.push_str(tail.as_str());
}

/// Appends the struct `var` of the placeholders `stubs` to `buf`.
pub fn push_stub_struct(buf: &mut EmissionBuffer, var: &str, stubs: &Vec<Stub>)
    ensures
        final(buf)@ == spec_push_stub_struct(old(buf)@, var@, stubs.deep_view()),
{
    let ghost all = stubs.deep_view();
    let mut head = "const ".to_string();
    head.append(var);
    head.append(" = struct {\n");
    buf.push_str(head.as_str());
    let ghost st1 = buf@;
    let mut i: usize = 0;
    assert(all.take(0) =~= Seq::<StubModel>::empty());
    while i < stubs.len()
        invariant
            i <= stubs.len(),
            all == stubs.deep_view(),
            buf@ == spec_push_stubs(st1, all.take(i as int)),
        decreases stubs.len() - i,
    {
        assert(all.take(i + 1).drop_last() =~= all.take(i as int));
        assert(all.take(i + 1).last() == stubs[i as int]@);
        push_stub(buf, &stubs[i]);
        i += 1;
    }
    assert(all.take(i as int) =~= all);
    buf.push_str("};\n\n");
}

} // verus!
