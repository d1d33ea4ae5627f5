//! The generator of one scope of a world.

use vstd::prelude::*;
use crate::binding::{
    body_text, decl_text, emit_binding, spec_binding, spec_push_binding, Binding, BindingModel,
};
use crate::buffer::{pushed, EmissionBuffer};
use crate::error::{SchemaError, SchemaErrorModel};
use crate::names::{
    interface_var_name, package_name_with, spec_interface_var_name, spec_package_name_with,
    spec_ty_name_with, ty_name_with,
};
use crate::schema::{Function, FunctionModel, Schema, Type, WorldKey};
use crate::scopes::spec_resolved;
use crate::types::{
    get_zig_binding_ty, is_anonymous, optional_ty_name_below, scoped_type_name, spec_full_ty_name,
    spec_is_anonymous, spec_optional_ty, spec_optional_ty_name, spec_scoped_type_name, spec_ty,
    spec_zig_binding_ty, ty_name_below, ty_text, UnsupportedType,
};
use crate::case::{to_upper_camel_case, upper_camel_case};
use crate::signature::{
    func_params, func_results, func_signature_no_interface, note_types, param_types, spec_context,
    spec_func_params, spec_func_results, spec_func_signature_no_interface, spec_note_types,
    spec_param_types, SignatureContext,
};
use crate::world::{ZigWasm, ZigWasmModel};
use std::collections::BTreeSet;

verus! {

/// The generator of the bindings of one scope: the world itself, or one of
/// its interfaces.
pub struct InterfaceGenerator<'a> {
    /// The text generated for the scope so far.
    pub src: EmissionBuffer,
    /// The generator of the world.
    pub gen: &'a ZigWasm,
    /// The schema.
    pub resolve: &'a Schema,
    /// The index of the interface; `None` for the world itself.
    pub interface: Option<usize>,
    /// The key under which the world lists the scope; `None` for the world
    /// itself.
    pub name: Option<&'a WorldKey>,
    /// The type definitions without a name that generated names stand for.
    pub public_anonymous_types: BTreeSet<usize>,
    /// Whether the scope is imported.
    pub in_import: bool,
    /// The bindings generated for the scope so far, in order.
    pub export_funcs: Vec<Binding>,
}

/// What exporting `func` under the export key `prefix` gives in a scope
/// whose table of names is `gen.interface_names`: the binding, or why there
/// is none.
pub open spec fn spec_export(
    gen: ZigWasmModel,
    interface: Option<usize>,
    func: FunctionModel,
    prefix: Option<Seq<char>>,
) -> Result<BindingModel, SchemaErrorModel> {
    match spec_resolved(gen.interface_names, interface) {
        Some(var) => spec_binding(func, prefix, var, gen.opts.keywords),
        None => Err(SchemaErrorModel::UnresolvedReference),
    }
}

/// The bindings of `funcs`, in order, or the first reason why one of
/// them has none.
pub open spec fn spec_exports(
    gen: ZigWasmModel,
    interface: Option<usize>,
    funcs: Seq<FunctionModel>,
    prefix: Option<Seq<char>>,
) -> Result<Seq<BindingModel>, SchemaErrorModel>
    decreases funcs.len(),
{
    if funcs.len() == 0 {
        Ok(Seq::empty())
    } else {
        match spec_exports(gen, interface, funcs.drop_last(), prefix) {
            Ok(front) => match spec_export(gen, interface, funcs.last(), prefix) {
                Ok(b) => Ok(front.push(b)),
                Err(e) => Err(e),
            },
            Err(e) => Err(e),
        }
    }
}

/// The text and depth of a buffer that held `st`, after the entry points
/// of the bindings `bindings` have been pushed in order.
pub open spec fn spec_push_bindings(st: (Seq<char>, nat), bindings: Seq<BindingModel>) -> (
    Seq<char>,
    nat,
)
    decreases bindings.len(),
{
    if bindings.len() == 0 {
        st
    } else {
        spec_push_binding(spec_push_bindings(st, bindings.drop_last()), bindings.last())
    }
}

/// Where a front of `funcs` cannot be exported, `funcs` cannot, for the
/// same reason.
pub proof fn lemma_exports_err(
    gen: ZigWasmModel,
    interface: Option<usize>,
    funcs: Seq<FunctionModel>,
    prefix: Option<Seq<char>>,
    n: int,
)
    requires
        0 <= n <= funcs.len(),
        spec_exports(gen, interface, funcs.take(n), prefix) is Err,
    ensures
        spec_exports(gen, interface, funcs, prefix) == spec_exports(gen, interface, funcs.take(n), prefix),
    decreases funcs.len() - n,
{
    if n < funcs.len() {
        assert(funcs.take(n + 1).drop_last() =~= funcs.take(n));
        lemma_exports_err(gen, interface, funcs, prefix, n + 1);
    } else {
        assert(funcs.take(n) =~= funcs);
    }
}

impl<'a> InterfaceGenerator<'a> {
    /// Exports `funcs` in order under the export key `func_prefix`, and
    /// stops at the first of them that has no binding.
    pub fn export_each(&mut self, resolve: &Schema, funcs: &Vec<&Function>, func_prefix: Option<&String>) -> (r:
        Result<(), SchemaError>)
        ensures
            final(self).gen == old(self).gen,
            final(self).interface == old(self).interface,
            match spec_exports(old(self).gen@, old(self).interface, funcs.deep_view(), func_prefix.deep_view()) {
                Ok(bindings) => r is Ok && final(self).src@ == spec_push_bindings(old(self).src@, bindings)
                    && final(self).export_funcs.deep_view() == old(self).export_funcs.deep_view() + bindings,
                Err(e) => r is Err && r->Err_0@ == e,
            },
    {
        let ghost all = funcs.deep_view();
        let ghost gen = self.gen@;
        let ghost interface = self.interface;
        let ghost prefix = func_prefix.deep_view();
        let ghost start = self.src@;
        let ghost held = self.export_funcs.deep_view();
        let ghost mut done: Seq<BindingModel> = Seq::empty();
        let mut i: usize = 0;
        assert(all.take(0) =~= Seq::<FunctionModel>::empty());
        assert(held + done =~= held);
        while i < funcs.len()
            invariant
                i <= funcs.len(),
                all == funcs.deep_view(),
                prefix == func_prefix.deep_view(),
                start == old(self).src@,
                held == old(self).export_funcs.deep_view(),
                self.gen == old(self).gen,
                self.interface == old(self).interface,
                gen == self.gen@,
                interface == self.interface,
                spec_exports(gen, interface, all.take(i as int), prefix) == Ok::<
                    Seq<BindingModel>,
                    SchemaErrorModel,
                >(done),
                self.export_funcs.deep_view() == held + done,
                self.src@ == spec_push_bindings(start, done),
            decreases funcs.len() - i,
        {
            assert(all.take(i + 1).drop_last() =~= all.take(i as int));
            assert(all.take(i + 1).last() == funcs[i as int]@);
            let pre = match func_prefix {
                Some(p) => Some(p.clone()),
                None => None,
            };
            match self.export(resolve, funcs[i], pre) {
                Ok(()) => {
                    proof {
                        let b = spec_export(gen, interface, funcs[i as int]@, prefix)->Ok_0;
                        assert(done.push(b).drop_last() =~= done);
                        assert((held + done).push(b) =~= held + done.push(b));
                        done = done.push(b);
                    }
                },
                Err(e) => {
                    proof {
                        assert(spec_exports(gen, interface, all.take(i + 1), prefix) == Err::<
                            Seq<BindingModel>,
                            SchemaErrorModel,
                        >(e@));
                        lemma_exports_err(gen, interface, all, prefix, i + 1);
                    }
                    return Err(e);
                },
            }
            i += 1;
        }
        assert(all.take(i as int) =~= all);
        Ok(())
    }

    /// Generates the binding of `func` under the export key `func_prefix`
    /// and appends its entry points to the text of the scope. Where there
    /// is no binding, nothing changes.
    pub fn export(&mut self, resolve: &Schema, func: &Function, func_prefix: Option<String>) -> (r:
        Result<(), SchemaError>)
        ensures
            final(self).gen == old(self).gen,
            final(self).resolve == old(self).resolve,
            final(self).interface == old(self).interface,
            final(self).name == old(self).name,
            final(self).public_anonymous_types == old(self).public_anonymous_types,
            final(self).in_import == old(self).in_import,
            match spec_export(old(self).gen@, old(self).interface, func@, func_prefix.deep_view()) {
                Ok(b) => r is Ok && final(self).src@ == spec_push_binding(old(self).src@, b)
                    && final(self).export_funcs.deep_view() == old(self).export_funcs.deep_view().push(
                    b,
                ),
                Err(e) => r is Err && r->Err_0@ == e && final(self).src@ == old(self).src@
                    && final(self).export_funcs.deep_view() == old(self).export_funcs.deep_view(),
            },
    {
        let var = match self.gen.interface_names.resolve(self.interface) {
            Some(var) => var,
            None => {
                return Err(SchemaError::UnresolvedReference);
            },
        };
        let prefix: Option<&str> = match &func_prefix {
            Some(p) => Some(p.as_str()),
            None => None,
        };
        let binding = match emit_binding(func, prefix, var.as_str(), &self.gen.opts.keywords) {
            Ok(b) => b,
            Err(e) => {
                return Err(e);
            },
        };
        self.src.push_str(decl_text(&binding).as_str());
        self.src.push_str(body_text(&binding).as_str());
        match &binding.post_return {
            Some(p) => {
                self.src.push_str(p.text.as_str());
            },
            None => {},
        }
        let ghost before = self.export_funcs.deep_view();
        let ghost b = binding@;
        self.export_funcs.push(binding);
        assert(self.export_funcs.deep_view() =~= before.push(b));
        Ok(())
    }

    /// The schema.
    pub fn resolve(&self) -> (r: &Schema)
        ensures
            r == self.resolve,
    {
        self.resolve
    }

    /// The title case name of the scope under `key`.
    pub fn get_ty_name_with(&self, key: &WorldKey) -> (r: Option<String>)
        ensures
            r.deep_view() == spec_ty_name_with(self.resolve@, key@),
    {
        ty_name_with(self.resolve, key)
    }

    /// The export key of the scope under `key`.
    pub fn get_package_name_with(&self, key: &WorldKey) -> (r: Option<String>)
        ensures
            r.deep_view() == spec_package_name_with(self.resolve@, key@),
    {
        package_name_with(self.resolve, key)
    }

    /// The export key of this scope: that of its key, or for the world the
    /// upper camel case form of its name.
    pub fn get_package_name(&self) -> (r: Option<String>)
        ensures
            r.deep_view() == match self.name.deep_view() {
                Some(key) => spec_package_name_with(self.resolve@, key),
                None => Some(upper_camel_case(self.gen@.world)),
            },
    {
        match self.name {
            Some(key) => self.get_package_name_with(key),
            None => Some(to_upper_camel_case(self.gen.world.as_str())),
        }
    }

    /// The name of the implementation variable of this scope, before
    /// configuration and disambiguation.
    pub fn get_interface_var_name(&self) -> (r: Option<String>)
        ensures
            r.deep_view() == spec_interface_var_name(self.resolve@, self.name.deep_view()),
    {
        interface_var_name(self.resolve, self.name)
    }

    /// The wire type of `ty` in a result position.
    pub fn get_zig_binding_ty(&self, ty: &Type) -> (r: Result<String, UnsupportedType>)
        ensures
            match r {
                Ok(name) => spec_zig_binding_ty(*ty) == Some(name@),
                Err(e) => spec_zig_binding_ty(*ty) is None && e.ty == *ty,
            },
    {
        get_zig_binding_ty(ty)
    }

    /// The name of `ty` as a part of other names.
    pub fn get_ty_name(&self, ty: &Type) -> (r: Result<String, UnsupportedType>)
        ensures
            match r {
                Ok(name) => spec_full_ty_name(self.resolve@, self.gen@.interface_names, *ty) == Some(name@),
                Err(e) => spec_full_ty_name(self.resolve@, self.gen@.interface_names, *ty) is None && e.ty
                    == *ty,
            },
    {
        match ty_name_below(self.resolve, &self.gen.interface_names, ty, self.resolve.types.len()) {
            Some(name) => Ok(name),
            None => Err(UnsupportedType { ty: *ty }),
        }
    }

    /// The name of a part that may be absent: `Empty` where it is.
    pub fn get_optional_ty_name(&self, ty: Option<&Type>) -> (r: Option<String>)
        ensures
            r.deep_view() == spec_optional_ty_name(
                self.resolve@,
                self.gen@.interface_names,
                ty.deep_view(),
                self.resolve@.types.len(),
            ),
    {
        optional_ty_name_below(self.resolve, &self.gen.interface_names, ty, self.resolve.types.len())
    }

    /// The name that a type gets in this scope: the title case name of the
    /// scope, then `ty_name`, in upper camel case where `convert` is set.
    pub fn get_type_name(&self, ty_name: &str, convert: bool) -> (r: Option<String>)
        ensures
            r.deep_view() == spec_scoped_type_name(
                self.resolve@,
                self.gen@.world,
                self.name.deep_view(),
                ty_name@,
                convert,
            ),
    {
        scoped_type_name(self.resolve, self.gen.world.as_str(), self.name, ty_name, convert)
    }

    /// The type that stands for `ty` in a signature. A type definition
    /// without a name that gets a synthesized name is noted among the
    /// anonymous types of the scope.
    pub fn get_ty(&mut self, ty: &Type) -> (r: Result<String, UnsupportedType>)
        ensures
            final(self).src == old(self).src,
            final(self).gen == old(self).gen,
            final(self).resolve == old(self).resolve,
            final(self).interface == old(self).interface,
            final(self).name == old(self).name,
            final(self).in_import == old(self).in_import,
            final(self).export_funcs == old(self).export_funcs,
            match spec_ty(
                old(self).resolve@,
                old(self).gen@.interface_names,
                old(self).gen@.world,
                old(self).name.deep_view(),
                *ty,
            ) {
                Some(name) => r is Ok && r->Ok_0@ == name && final(self).public_anonymous_types@ == if spec_is_anonymous(
                    old(self).resolve@,
                    *ty,
                ) {
                    old(self).public_anonymous_types@.insert(ty->Id_0)
                } else {
                    old(self).public_anonymous_types@
                },
                None => r == Err::<String, UnsupportedType>(UnsupportedType { ty: *ty })
                    && final(self).public_anonymous_types@ == old(self).public_anonymous_types@,
            },
    {
        match ty_text(self.resolve, &self.gen.interface_names, self.gen.world.as_str(), self.name, ty) {
            Some(name) => {
                if is_anonymous(self.resolve, ty) {
                    match ty {
                        Type::Id(id) => {
                            self.public_anonymous_types.insert(*id);
                        },
                        _ => {},
                    }
                }
                Ok(name)
            },
            None => Err(UnsupportedType { ty: *ty }),
        }
    }

    /// The type that stands for a part that may be absent in a signature:
    /// the empty struct where it is.
    pub fn get_optional_ty(&mut self, ty: Option<&Type>) -> (r: Result<String, UnsupportedType>)
        ensures
            final(self).src == old(self).src,
            final(self).gen == old(self).gen,
            final(self).resolve == old(self).resolve,
            final(self).interface == old(self).interface,
            final(self).name == old(self).name,
            final(self).in_import == old(self).in_import,
            final(self).export_funcs == old(self).export_funcs,
            match spec_optional_ty(
                old(self).resolve@,
                old(self).gen@.interface_names,
                old(self).gen@.world,
                old(self).name.deep_view(),
                ty.deep_view(),
            ) {
                Some(name) => r is Ok && r->Ok_0@ == name && final(self).public_anonymous_types@ == if ty is Some
                    && spec_is_anonymous(old(self).resolve@, *ty->0) {
                    old(self).public_anonymous_types@.insert(ty->0->Id_0)
                } else {
                    old(self).public_anonymous_types@
                },
                None => r is Err && r->Err_0.ty == *ty->0 && final(self).public_anonymous_types@ == old(
                    self,
                ).public_anonymous_types@,
            },
    {
        match ty {
            Some(ty) => self.get_ty(ty),
            None => Ok("struct{}".to_string()),
        }
    }

    /// What signatures are written in, in this scope.
    pub open spec fn context(&self) -> SignatureContext {
        spec_context(self.resolve@, self.gen@.interface_names, self.gen@.world, self.name.deep_view())
    }

    /// Whether `other` differs from this generator in nothing but the
    /// anonymous types that it has noted.
    pub open spec fn same_but_noted(&self, other: &Self) -> bool {
        &&& self.src == other.src
        &&& self.gen == other.gen
        &&& self.resolve == other.resolve
        &&& self.interface == other.interface
        &&& self.name == other.name
        &&& self.in_import == other.in_import
        &&& self.export_funcs == other.export_funcs
    }

    /// The parameters of `func` as they stand in a signature. The type
    /// definitions without a name among their types are noted.
    pub fn get_func_params(&mut self, _resolve: &Schema, func: &Function) -> (r: Result<
        String,
        UnsupportedType,
    >)
        ensures
            final(self).same_but_noted(old(self)),
            match spec_func_params(old(self).context(), old(self).gen@.opts.keywords, func@.params) {
                Ok(text) => r is Ok && r->Ok_0@ == text && final(self).public_anonymous_types@
                    == spec_note_types(
                    old(self).public_anonymous_types@,
                    old(self).resolve@,
                    spec_param_types(func@.params),
                ),
                Err(ty) => r == Err::<String, UnsupportedType>(UnsupportedType { ty })
                    && final(self).public_anonymous_types@ == old(self).public_anonymous_types@,
            },
    {
        match func_params(
            self.resolve,
            &self.gen.interface_names,
            self.gen.world.as_str(),
            self.name,
            &self.gen.opts.keywords,
            &func.params,
        ) {
            Ok(text) => {
                note_types(&mut self.public_anonymous_types, self.resolve, &param_types(&func.params));
                Ok(text)
            },
            Err(ty) => Err(UnsupportedType { ty }),
        }
    }

    /// The results of `func` as they stand in a signature. The type
    /// definitions without a name among their types are noted.
    pub fn get_func_results(&mut self, _resolve: &Schema, func: &Function) -> (r: Result<
        String,
        UnsupportedType,
    >)
        ensures
            final(self).same_but_noted(old(self)),
            match spec_func_results(old(self).context(), func@.results) {
                Ok(text) => r is Ok && r->Ok_0@ == text && final(self).public_anonymous_types@
                    == spec_note_types(
                    old(self).public_anonymous_types@,
                    old(self).resolve@,
                    func@.results,
                ),
                Err(ty) => r == Err::<String, UnsupportedType>(UnsupportedType { ty })
                    && final(self).public_anonymous_types@ == old(self).public_anonymous_types@,
            },
    {
        match func_results(
            self.resolve,
            &self.gen.interface_names,
            self.gen.world.as_str(),
            self.name,
            &func.results,
        ) {
            Ok(text) => {
                note_types(&mut self.public_anonymous_types, self.resolve, &func.results);
                Ok(text)
            },
            Err(ty) => Err(UnsupportedType { ty }),
        }
    }

    /// The signature of `func` without the name of a scope. The type
    /// definitions without a name among its types are noted.
    pub fn get_func_signature_no_interface(&mut self, resolve: &Schema, func: &Function) -> (r: Result<
        String,
        UnsupportedType,
    >)
        ensures
            final(self).same_but_noted(old(self)),
            match spec_func_signature_no_interface(
                old(self).context(),
                old(self).gen@.opts.keywords,
                func@,
            ) {
                Ok(text) => r is Ok && r->Ok_0@ == text && final(self).public_anonymous_types@
                    == spec_note_types(
                    spec_note_types(
                        old(self).public_anonymous_types@,
                        old(self).resolve@,
                        spec_param_types(func@.params),
                    ),
                    old(self).resolve@,
                    func@.results,
                ),
                Err(ty) => r == Err::<String, UnsupportedType>(UnsupportedType { ty })
                    && final(self).public_anonymous_types@ == old(self).public_anonymous_types@,
            },
    {
        match func_signature_no_interface(
            self.resolve,
            &self.gen.interface_names,
            self.gen.world.as_str(),
            self.name,
            &self.gen.opts.keywords,
            func,
        ) {
            Ok(text) => {
                note_types(&mut self.public_anonymous_types, self.resolve, &param_types(&func.params));
                note_types(&mut self.public_anonymous_types, self.resolve, &func.results);
                Ok(text)
            },
            Err(ty) => Err(UnsupportedType { ty }),
        }
    }

    /// Appends the head of the declaration of `func` to the text of the
    /// scope: `export fn`, then the export key of the scope, the name, the
    /// parameters in round brackets and the results, then the opening
    /// brace. Where a name or a type cannot be resolved, nothing changes.
    pub fn print_func_signature(&mut self, resolve: &Schema, func: &Function) -> (r: Result<
        (),
        SchemaError,
    >)
        ensures
            final(self).gen == old(self).gen,
            final(self).resolve == old(self).resolve,
            final(self).interface == old(self).interface,
            final(self).name == old(self).name,
            final(self).in_import == old(self).in_import,
            final(self).export_funcs == old(self).export_funcs,
            match spec_func_head(old(self).context(), old(self).gen@.opts.keywords, func@) {
                Ok(head) => r is Ok && final(self).src@ == spec_push_func_head(old(self).src@, head)
                    && final(self).public_anonymous_types@ == spec_note_types(
                    spec_note_types(
                        old(self).public_anonymous_types@,
                        old(self).resolve@,
                        spec_param_types(func@.params),
                    ),
                    old(self).resolve@,
                    func@.results,
                ),
                Err(e) => r is Err && r->Err_0@ == e && final(self).src@ == old(self).src@
                    && final(self).public_anonymous_types@ == old(self).public_anonymous_types@,
            },
    {
        let func_prefix = match self.get_package_name() {
            Some(prefix) => prefix,
            None => {
                return Err(SchemaError::UnresolvedReference);
            },
        };
        let params = match func_params(
            self.resolve,
            &self.gen.interface_names,
            self.gen.world.as_str(),
            self.name,
            &self.gen.opts.keywords,
            &func.params,
        ) {
            Ok(params) => params,
            Err(ty) => {
                return Err(SchemaError::UnsupportedType { function: func.name.clone(), ty });
            },
        };
        let results = match func_results(
            self.resolve,
            &self.gen.interface_names,
            self.gen.world.as_str(),
            self.name,
            &func.results,
        ) {
            Ok(results) => results,
            Err(ty) => {
                return Err(SchemaError::UnsupportedType { function: func.name.clone(), ty });
            },
        };
        note_types(&mut self.public_anonymous_types, self.resolve, &param_types(&func.params));
        note_types(&mut self.public_anonymous_types, self.resolve, &func.results);
        self.src.push_str("export fn ");
        let mut head = func_prefix;
        head.append(func.name.as_str());
        head.append("(");
        head.append(params.as_str());
        head.append(")");
        head.append(results.as_str());
        self.src.push_str(head.as_str());
        self.src.push_str("{\n");
        Ok(())
    }
}

/// The export key of the scope of `c`: that of its key, or for the world
/// the upper camel case form of its name.
pub open spec fn spec_package_name(c: SignatureContext) -> Option<Seq<char>> {
    match c.scope {
        Some(key) => spec_package_name_with(c.schema, key),
        None => Some(upper_camel_case(c.world)),
    }
}

/// The head of the declaration of `func` in the scope of `c`, without the
/// words before it and the brace behind it; or why it cannot be written:
/// the scope that cannot be resolved, or else the first type that no type
/// stands for.
pub open spec fn spec_func_head(c: SignatureContext, keywords: Seq<Seq<char>>, func: FunctionModel) -> Result<
    Seq<char>,
    SchemaErrorModel,
> {
    match spec_package_name(c) {
        Some(prefix) => match spec_func_params(c, keywords, func.params) {
            Ok(params) => match spec_func_results(c, func.results) {
                Ok(results) => Ok(prefix + func.name + "("@ + params + ")"@ + results),
                Err(ty) => Err(SchemaErrorModel::UnsupportedType { function: func.name, ty }),
            },
            Err(ty) => Err(SchemaErrorModel::UnsupportedType { function: func.name, ty }),
        },
        None => Err(SchemaErrorModel::UnresolvedReference),
    }
}

/// The text and depth of a buffer that held `st`, after the head `head`
/// of a declaration has been pushed between `export fn` and the opening
/// brace.
pub open spec fn spec_push_func_head(st: (Seq<char>, nat), head: Seq<char>) -> (Seq<char>, nat) {
    let st1 = pushed(st.0, st.1, "export fn "@);
    let st2 = pushed(st1.0, st1.1, head);
    pushed(st2.0, st2.1, "{\n"@)
}

} // verus!
