//! The binding of one exported function: its export name and symbol, its
//! wire signature, and the text of its entry points.

use vstd::prelude::*;
use crate::bindgen::{spec_lift_value, spec_lower_value, FunctionBindgen, FunctionBindgenModel};
use crate::buffer::pushed;
use crate::case::{snake_case, to_snake_case};
use crate::error::{SchemaError, SchemaErrorModel};
use crate::names::{avoid_keyword, spec_avoid_keyword};
use crate::schema::{Function, FunctionModel, Type};
use crate::types::{get_zig_binding_ty, spec_zig_binding_ty};

verus! {

/// What follows the symbol of a post-return entry point: it takes the
/// address of the header that the export returned, reads the pointer and
/// the length, two little-endian 32-bit words, from the eight bytes at that
/// address, and frees, once, the bytes from the pointer on that the length
/// counts.
pub const POST_RETURN_BODY: &'static str =
    "(arg: u32) void {\nconst header: [*]u8 = @ptrFromInt(arg);\nconst bytesPtr = std.mem.readIntLittle(u32, header[0..4]);\nconst ptr_size = std.mem.readIntLittle(u32, header[4..8]);\nconst casted: [*]u8 = @ptrFromInt(bytesPtr);\nallocator.free(casted[0..ptr_size]);\n}\n\n";

/// The post-return entry point of an exported function.
#[derive(Clone, Debug)]
pub struct PostReturn {
    /// The name under which the entry point is exported.
    pub export_name: String,
    /// The symbol of the entry point in the generated code.
    pub symbol: String,
    /// The text of the entry point.
    pub text: String,
}

/// The model of a [`PostReturn`].
pub struct PostReturnModel {
    pub export_name: Seq<char>,
    pub symbol: Seq<char>,
    pub text: Seq<char>,
}

impl View for PostReturn {
    type V = PostReturnModel;

    open spec fn view(&self) -> PostReturnModel {
        PostReturnModel { export_name: self.export_name@, symbol: self.symbol@, text: self.text@ }
    }
}

impl DeepView for PostReturn {
    type V = PostReturnModel;

    open spec fn deep_view(&self) -> PostReturnModel {
        self@
    }
}

/// The binding of one exported function.
#[derive(Clone, Debug)]
pub struct Binding {
    /// The name under which the function is exported.
    pub export_name: String,
    /// The symbol of the entry point in the generated code.
    pub symbol: String,
    /// The wire parameters, each a name and a type, in order.
    pub params: Vec<(String, String)>,
    /// The wire type of the result, if there is a result.
    pub result: Option<String>,
    /// The statements that lift the parameters.
    pub lift: String,
    /// The call of the implementation.
    pub invoke: String,
    /// The statements that lower the result.
    pub lower: String,
    /// The post-return entry point, if the function needs one.
    pub post_return: Option<PostReturn>,
}

/// The model of a [`Binding`].
pub struct BindingModel {
    pub export_name: Seq<char>,
    pub symbol: Seq<char>,
    pub params: Seq<(Seq<char>, Seq<char>)>,
    pub result: Option<Seq<char>>,
    pub lift: Seq<char>,
    pub invoke: Seq<char>,
    pub lower: Seq<char>,
    pub post_return: Option<PostReturnModel>,
}

impl View for Binding {
    type V = BindingModel;

    open spec fn view(&self) -> BindingModel {
        BindingModel {
            export_name: self.export_name@,
            symbol: self.symbol@,
            params: self.params.deep_view(),
            result: self.result.deep_view(),
            lift: self.lift@,
            invoke: self.invoke@,
            lower: self.lower@,
            post_return: self.post_return.deep_view(),
        }
    }
}

impl DeepView for Binding {
    type V = BindingModel;

    open spec fn deep_view(&self) -> BindingModel {
        self@
    }
}

/// The name under which the function `name` of a scope is exported: the
/// export key of the scope, then the name; the name alone for a function
/// of the world.
pub open spec fn spec_export_name(prefix: Option<Seq<char>>, name: Seq<char>) -> Seq<char> {
    match prefix {
        Some(pre) => pre + name,
        None => name,
    }
}

/// The symbol of the entry point of the function `name`: the quoted export
/// name in a scope with an export key, `__export_` and the name for a
/// function of the world.
pub open spec fn spec_symbol(prefix: Option<Seq<char>>, name: Seq<char>) -> Seq<char> {
    match prefix {
        Some(pre) => "@\""@ + pre + name + "\""@,
        None => "__export_"@ + name,
    }
}

/// The symbol of the post-return entry point of the function `name`.
pub open spec fn spec_post_return_symbol(prefix: Option<Seq<char>>, name: Seq<char>) -> Seq<char> {
    match prefix {
        Some(pre) => "@\"__post_return_"@ + pre + name + "\""@,
        None => "__post_return_"@ + name,
    }
}

/// The name under which the post-return entry point of the export
/// `export_name` is exported.
pub open spec fn spec_post_return_export_name(export_name: Seq<char>) -> Seq<char> {
    "cabi_post_"@ + export_name
}

/// The post-return entry point of the function `name`.
pub open spec fn spec_post_return(prefix: Option<Seq<char>>, name: Seq<char>) -> PostReturnModel {
    PostReturnModel {
        export_name: spec_post_return_export_name(spec_export_name(prefix, name)),
        symbol: spec_post_return_symbol(prefix, name),
        text: "export fn "@ + spec_post_return_symbol(prefix, name) + POST_RETURN_BODY@,
    }
}

/// The identifier that stands for the parameter `name` in generated code:
/// its snake case form, kept off the reserved words.
pub open spec fn spec_ident(keywords: Seq<Seq<char>>, name: Seq<char>) -> Seq<char> {
    spec_avoid_keyword(keywords, snake_case(name))
}

/// The identifiers of `params`, in order.
pub open spec fn spec_idents(params: Seq<(Seq<char>, Type)>, keywords: Seq<Seq<char>>) -> Seq<Seq<char>> {
    Seq::new(params.len(), |i: int| spec_ident(keywords, params[i].0))
}

/// `names`, with `sep` between each two.
pub open spec fn spec_join(names: Seq<Seq<char>>, sep: Seq<char>) -> Seq<char>
    decreases names.len(),
{
    if names.len() == 0 {
        Seq::empty()
    } else if names.len() == 1 {
        names[0]
    } else {
        spec_join(names.drop_last(), sep) + sep + names.last()
    }
}

/// The call of the function `name` of the implementation `var` on the
/// arguments `idents`, with the result bound to `result`.
pub open spec fn spec_invoke(var: Seq<char>, name: Seq<char>, idents: Seq<Seq<char>>) -> Seq<char> {
    "const result = "@ + var + "."@ + name + "("@ + spec_join(idents, ", "@) + ")"@
}

/// The state of the collector after `params` have been lifted in order, or
/// the type of the first parameter that cannot be lifted.
pub open spec fn spec_lift_params(params: Seq<(Seq<char>, Type)>, keywords: Seq<Seq<char>>) -> Result<
    FunctionBindgenModel,
    Type,
>
    decreases params.len(),
{
    if params.len() == 0 {
        Ok(
            FunctionBindgenModel {
                args: Seq::empty(),
                lower_src: (Seq::empty(), 0nat),
                lift_src: (Seq::empty(), 0nat),
            },
        )
    } else {
        match spec_lift_params(params.drop_last(), keywords) {
            Ok(b) => match spec_lift_value(b, spec_ident(keywords, params.last().0), params.last().1) {
                Some(after) => Ok(after),
                None => Err(params.last().1),
            },
            Err(ty) => Err(ty),
        }
    }
}

/// The binding of `func` in a scope with the export key `prefix`, whose
/// implementation is the variable `var`; or why there is none: more than
/// one result, or else the first parameter type, or else the result type,
/// that the backend does not implement.
pub open spec fn spec_binding(
    func: FunctionModel,
    prefix: Option<Seq<char>>,
    var: Seq<char>,
    keywords: Seq<Seq<char>>,
) -> Result<BindingModel, SchemaErrorModel> {
    if func.results.len() > 1 {
        Err(
            SchemaErrorModel::UnsupportedArity {
                function: func.name,
                results: func.results.len() as usize,
            },
        )
    } else {
        match spec_lift_params(func.params, keywords) {
            Err(ty) => Err(SchemaErrorModel::UnsupportedType { function: func.name, ty }),
            Ok(lifted) => if func.results.len() == 1 {
                match (spec_lower_value(lifted, func.results[0]), spec_zig_binding_ty(func.results[0])) {
                    (Some(b), Some(wire)) => Ok(spec_binding_of(func, prefix, var, keywords, b, Some(wire))),
                    _ => Err(
                        SchemaErrorModel::UnsupportedType { function: func.name, ty: func.results[0] },
                    ),
                }
            } else {
                Ok(spec_binding_of(func, prefix, var, keywords, lifted, None))
            },
        }
    }
}

/// The binding that is put together from what lifting and lowering
/// collected in `b` and from the wire type `result` of the result.
pub open spec fn spec_binding_of(
    func: FunctionModel,
    prefix: Option<Seq<char>>,
    var: Seq<char>,
    keywords: Seq<Seq<char>>,
    b: FunctionBindgenModel,
    result: Option<Seq<char>>,
) -> BindingModel {
    BindingModel {
        export_name: spec_export_name(prefix, func.name),
        symbol: spec_symbol(prefix, func.name),
        params: b.args,
        result,
        lift: b.lift_src.0,
        invoke: spec_invoke(var, func.name, spec_idents(func.params, keywords)),
        lower: b.lower_src.0,
        post_return: if func.needs_post_return {
            Some(spec_post_return(prefix, func.name))
        } else {
            None
        },
    }
}

/// The wire parameters as they stand in a declaration: each a name, a
/// colon, a type and a comma.
pub open spec fn spec_args_text(args: Seq<(Seq<char>, Seq<char>)>) -> Seq<char>
    decreases args.len(),
{
    if args.len() == 0 {
        Seq::empty()
    } else {
        spec_args_text(args.drop_last()) + args.last().0 + ": "@ + args.last().1 + ", "@
    }
}

/// The head of the entry point of a binding, up to the result type.
pub open spec fn spec_decl_text(b: BindingModel) -> Seq<char> {
    "export fn "@ + b.symbol + "("@ + spec_args_text(b.params) + ") "@
}

/// The rest of the entry point of a binding: the result type and the body,
/// which lifts, invokes and lowers. Without a result the type is `void` and
/// nothing is lowered.
pub open spec fn spec_body_text(b: BindingModel) -> Seq<char> {
    match b.result {
        Some(wire) => wire + "{\n"@ + b.lift + b.invoke + ";\n"@ + b.lower + "\n"@,
        None => "void"@ + "{\n"@ + b.lift + b.invoke + ";\n"@ + "}\n"@ + "\n"@,
    }
}

/// The text and depth of a buffer that held `st`, after the entry points
/// of the binding `b` have been pushed: the head, the rest, and the
/// post-return entry point where there is one.
pub open spec fn spec_push_binding(st: (Seq<char>, nat), b: BindingModel) -> (Seq<char>, nat) {
    let st1 = pushed(st.0, st.1, spec_decl_text(b));
    let st2 = pushed(st1.0, st1.1, spec_body_text(b));
    match b.post_return {
        Some(p) => pushed(st2.0, st2.1, p.text),
        None => st2,
    }
}

/// Where a front of `params` cannot be lifted, `params` cannot, for the same
/// type.
pub proof fn lemma_lift_params_err(params: Seq<(Seq<char>, Type)>, keywords: Seq<Seq<char>>, n: int)
    requires
        0 <= n <= params.len(),
        spec_lift_params(params.take(n), keywords) is Err,
    ensures
        spec_lift_params(params, keywords) == spec_lift_params(params.take(n), keywords),
    decreases params.len() - n,
{
    if n < params.len() {
        assert(params.take(n + 1).drop_last() =~= params.take(n));
        lemma_lift_params_err(params, keywords, n + 1);
    } else {
        assert(params.take(n) =~= params);
    }
}

/// Puts `sep` between each two of `names`.
pub fn join(names: &Vec<String>, sep: &str) -> (r: String)
    ensures
        r@ == spec_join(names.deep_view(), sep@),
{
    let ghost all = names.deep_view();
    let mut r = String::new();
    let mut i: usize = 0;
    assert(all.take(0) =~= Seq::<Seq<char>>::empty());
    while i < names.len()
        invariant
            i <= names.len(),
            all == names.deep_view(),
            r@ == spec_join(all.take(i as int), sep@),
        decreases names.len() - i,
    {
        assert(all.take(i + 1).drop_last() =~= all.take(i as int));
        assert(all.take(i + 1).last() == names[i as int]@);
        if i == 0 {
            assert(all.take(1)[0] == names[0]@);
            r = names[i].clone();
        } else {
            r.append(sep);
            r.append(names[i].as_str());
        }
        i += 1;
    }
    assert(all.take(i as int) =~= all);
    r
}

/// Writes the wire parameters as they stand in a declaration.
pub fn args_text(args: &Vec<(String, String)>) -> (r: String)
    ensures
        r@ == spec_args_text(args.deep_view()),
{
    let ghost all = args.deep_view();
    let mut r = String::new();
    let mut i: usize = 0;
    assert(all.take(0) =~= Seq::<(Seq<char>, Seq<char>)>::empty());
    while i < args.len()
        invariant
            i <= args.len(),
            all == args.deep_view(),
            r@ == spec_args_text(all.take(i as int)),
        decreases args.len() - i,
    {
        assert(all.take(i + 1).drop_last() =~= all.take(i as int));
        assert(all.take(i + 1).last() == (args[i as int].0@, args[i as int].1@));
        r.append(args[i].0.as_str());
        r.append(": ");
        r.append(args[i].1.as_str());
        r.append(", ");
        i += 1;
    }
    assert(all.take(i as int) =~= all);
    r
}

/// The name under which the function `name` of a scope is exported.
pub fn export_name(prefix: Option<&str>, name: &str) -> (r: String)
    ensures
        r@ == spec_export_name(prefix.deep_view(), name@),
{
    match prefix {
        Some(pre) => {
            let mut r = pre.to_string();
            r.append(name);
            r
        },
        None => name.to_string(),
    }
}

/// The symbol of the entry point of the function `name`.
pub fn symbol(prefix: Option<&str>, name: &str) -> (r: String)
    ensures
        r@ == spec_symbol(prefix.deep_view(), name@),
{
    match prefix {
        Some(pre) => {
            let mut r = "@\"".to_string();
            r.append(pre);
            r.append(name);
            r.append("\"");
            r
        },
        None => {
            let mut r = "__export_".to_string();
            r.append(name);
            r
        },
    }
}

/// The post-return entry point of the function `name`.
pub fn post_return(prefix: Option<&str>, name: &str) -> (r: PostReturn)
    ensures
        r@ == spec_post_return(prefix.deep_view(), name@),
{
    let mut exported = "cabi_post_".to_string();
    exported.append(export_name(prefix, name).as_str());
    let symbol = match prefix {
        Some(pre) => {
            let mut r = "@\"__post_return_".to_string();
            r.append(pre);
            r.append(name);
            r.append("\"");
            r
        },
        None => {
            let mut r = "__post_return_".to_string();
            r.append(name);
            r
        },
    };
    let mut text = "export fn ".to_string();
    text.append(symbol.as_str());
    text.append(POST_RETURN_BODY);
    PostReturn { export_name: exported, symbol, text }
}

/// Builds the binding of `func` in a scope with the export key `prefix`,
/// whose implementation is the variable `var`.
pub fn emit_binding(func: &Function, prefix: Option<&str>, var: &str, keywords: &Vec<String>) -> (r:
    Result<Binding, SchemaError>)
    ensures
        match r {
            Ok(b) => spec_binding(func@, prefix.deep_view(), var@, keywords.deep_view()) == Ok::<
                BindingModel,
                SchemaErrorModel,
            >(b@),
            Err(e) => spec_binding(func@, prefix.deep_view(), var@, keywords.deep_view()) == Err::<
                BindingModel,
                SchemaErrorModel,
            >(e@),
        },
{
    let ghost params = func@.params;
    let ghost kw = keywords.deep_view();
    if func.results.len() > 1 {
        return Err(
            SchemaError::UnsupportedArity { function: func.name.clone(), results: func.results.len() },
        );
    }
    let mut bindgen = FunctionBindgen::new();
    let mut idents: Vec<String> = Vec::new();
    let mut i: usize = 0;
    assert(params.take(0) =~= Seq::<(Seq<char>, Type)>::empty());
    while i < func.params.len()
        invariant
            i <= func.params.len(),
            func.results.len() <= 1,
            params == func@.params,
            kw == keywords.deep_view(),
            spec_lift_params(params.take(i as int), kw) == Ok::<FunctionBindgenModel, Type>(bindgen@),
            idents.deep_view() =~= spec_idents(params.take(i as int), kw),
        decreases func.params.len() - i,
    {
        assert(params.take(i + 1).drop_last() =~= params.take(i as int));
        assert(params.take(i + 1).last() == (func.params[i as int].0@, func.params[i as int].1));
        let ident = avoid_keyword(keywords, to_snake_case(func.params[i].0.as_str()).as_str());
        assert(ident@ == spec_ident(kw, params.take(i + 1).last().0));
        let ghost before = bindgen@;
        match bindgen.lift(ident.as_str(), &func.params[i].1) {
            Ok(()) => {},
            Err(e) => {
                proof {
                    assert(spec_lift_value(before, ident@, func.params[i as int].1) is None);
                    assert(spec_lift_params(params.take(i + 1), kw) == Err::<FunctionBindgenModel, Type>(
                        func.params[i as int].1,
                    ));
                    lemma_lift_params_err(params, kw, i + 1);
                }
                return Err(SchemaError::UnsupportedType { function: func.name.clone(), ty: e.ty });
            },
        }
        let ghost old_idents = idents.deep_view();
        idents.push(ident);
        assert(idents.deep_view() =~= old_idents.push(ident@));
        i += 1;
    }
    assert(params.take(i as int) =~= params);
    let result = if func.results.len() == 1 {
        let ty = &func.results[0];
        match bindgen.lower("result", ty, true) {
            Ok(()) => {},
            Err(e) => {
                return Err(SchemaError::UnsupportedType { function: func.name.clone(), ty: e.ty });
            },
        }
        match get_zig_binding_ty(ty) {
            Ok(wire) => Some(wire),
            Err(e) => {
                return Err(SchemaError::UnsupportedType { function: func.name.clone(), ty: e.ty });
            },
        }
    } else {
        None
    };
    let mut invoke = "const result = ".to_string();
    invoke.append(var);
    invoke.append(".");
    invoke.append(func.name.as_str());
    invoke.append("(");
    invoke.append(join(&idents, ", ").as_str());
    invoke.append(")");
    let post = if func.needs_post_return {
        Some(post_return(prefix, func.name.as_str()))
    } else {
        None
    };
    let lift = bindgen.lift_src.to_string();
    let lower = bindgen.lower_src.to_string();
    let binding = Binding {
        export_name: export_name(prefix, func.name.as_str()),
        symbol: symbol(prefix, func.name.as_str()),
        params: bindgen.args,
        result,
        lift,
        invoke,
        lower,
        post_return: post,
    };
    Ok(binding)
}

/// Writes the head of the entry point of a binding.
pub fn decl_text(b: &Binding) -> (r: String)
    ensures
        r@ == spec_decl_text(b@),
{
    let mut r = "export fn ".to_string();
    r.append(b.symbol.as_str());
    r.append("(");
    r.append(args_text(&b.params).as_str());
    r.append(") ");
    r
}

/// Writes the result type and the body of the entry point of a binding.
pub fn body_text(b: &Binding) -> (r: String)
    ensures
        r@ == spec_body_text(b@),
{
    match &b.result {
        Some(wire) => {
            let mut r = wire.clone();
            r.append("{\n");
            r.append(b.lift.as_str());
            r.append(b.invoke.as_str());
            r.append(";\n");
            r.append(b.lower.as_str());
            r.append("\n");
            r
        },
        None => {
            let mut r = "void".to_string();
            r.append("{\n");
            r.append(b.lift.as_str());
            r.append(b.invoke.as_str());
            r.append(";\n");
            r.append("}\n");
            r.append("\n");
            r
        },
    }
}

} // verus!
