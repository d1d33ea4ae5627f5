//! The generator of one world.
//!
//! A run names the scopes of the world, generates the bindings of its
//! exported interfaces and of its own exported functions, and assembles the
//! artifact: the runtime preamble, the bindings, the registration of every
//! export, and the entry stub of the program.

use vstd::prelude::*;
use crate::binding::{Binding, BindingModel};
use crate::buffer::{pushed, EmissionBuffer};
use crate::case::{kebab_case, to_kebab_case};
use crate::config::{
    spec_default_opts, spec_lookup_export, spec_lookup_with, ExportKey, ExportKeyModel, Opts,
    OptsModel,
};
use crate::error::{SchemaError, SchemaErrorModel};
use crate::interface::{spec_exports, spec_push_bindings, InterfaceGenerator};
use crate::names::{
    canonical_name, interface_var_name, package_name_with, spec_canonical_name,
    spec_interface_var_name, spec_package_name_with,
};
use crate::schema::{
    Function, FunctionModel, Schema, SchemaModel, Type, WorldItem, WorldItemModel, WorldKey,
    WorldKeyModel,
};
use crate::scopes::{spec_intern, spec_resolved, NameTable, NameTableModel};
use crate::text::{dedup, spec_dedup};
use crate::types::{get_zig_ty, spec_zig_ty, UnsupportedType};
use crate::stub::{emit_stubs, push_stub_struct, spec_push_stub_struct, spec_stubs};
use std::collections::BTreeSet;

verus! {

/// The runtime that every artifact starts with: the allocator, the
/// allocation that bindings use, which does not return on failure, and the
/// exported reallocation, which returns null on failure.
pub const PREAMBLE: &'static str =
    "const std = @import(\"std\");\nconst mem = std.mem;\nvar gpa = std.heap.GeneralPurposeAllocator(.{}){};\nconst allocator = gpa.allocator();\n\nfn alloc(len: usize) [*]u8 {\nconst buf = allocator.alloc(u8, len) catch |e| {\nstd.debug.panic(\"FAILED TO ALLOC MEM {}\", .{e});\n};\nreturn buf.ptr;\n}\n\nexport fn cabi_realloc(origPtr: *[]u8, origSize: u8, alignment: u8, newSize: u8) ?[*]u8 {\n_ = origSize;\n_ = alignment;\nconst buf = allocator.realloc(origPtr.*, newSize) catch {\nreturn null;\n};\nreturn buf.ptr;\n}\n\n";

/// The line that opens the registration of the exports.
pub const REGISTRATION_HEAD: &'static str = "comptime {\n";

/// The lines that close the registration, and the entry stub of the
/// program.
pub const REGISTRATION_TAIL: &'static str = "}\n\npub fn main() void {}";

/// A generated file.
#[derive(Clone, Debug)]
pub struct Artifact {
    pub name: String,
    pub contents: String,
}

/// The model of an [`Artifact`].
pub struct ArtifactModel {
    pub name: Seq<char>,
    pub contents: Seq<char>,
}

impl View for Artifact {
    type V = ArtifactModel;

    open spec fn view(&self) -> ArtifactModel {
        ArtifactModel { name: self.name@, contents: self.contents@ }
    }
}

/// The state of a generation run.
pub struct ZigWasm {
    /// The text generated so far.
    pub src: EmissionBuffer,
    /// The name of the world.
    pub world: String,
    /// The options of the run.
    pub opts: Opts,
    /// The names of functions to skip, each once.
    pub skip: Vec<String>,
    /// The resolved names of the scopes of the world.
    pub interface_names: NameTable,
    /// The bindings generated so far, in order.
    pub exported: Vec<Binding>,
}

/// The model of a [`ZigWasm`].
pub struct ZigWasmModel {
    pub src: (Seq<char>, nat),
    pub world: Seq<char>,
    pub opts: OptsModel,
    pub skip: Seq<Seq<char>>,
    pub interface_names: NameTableModel,
    pub exported: Seq<BindingModel>,
}

impl View for ZigWasm {
    type V = ZigWasmModel;

    open spec fn view(&self) -> ZigWasmModel {
        ZigWasmModel {
            src: self.src@,
            world: self.world@,
            opts: self.opts@,
            skip: self.skip.deep_view(),
            interface_names: self.interface_names@,
            exported: self.exported.deep_view(),
        }
    }
}

/// A run with the options `opts` that skips the functions `skip` and has
/// generated nothing yet.
pub open spec fn spec_new(opts: OptsModel, skip: Seq<Seq<char>>) -> ZigWasmModel {
    ZigWasmModel {
        src: (Seq::empty(), 0nat),
        world: Seq::empty(),
        opts,
        skip,
        interface_names: NameTableModel { entries: Seq::empty(), counter: 0 },
        exported: Seq::empty(),
    }
}

/// The name that the implementation of a scope has before disambiguation:
/// what the options give for the scope under `exports`, or else, for an
/// interface, under `with`, or else the name derived from the schema. None
/// where the schema does not hold the interface or its package.
pub open spec fn spec_scope_base(s: SchemaModel, opts: OptsModel, scope: Option<WorldKeyModel>) -> Option<
    Seq<char>,
> {
    match scope {
        None => match spec_lookup_export(opts.exports, ExportKeyModel::World) {
            Some(name) => Some(name),
            None => spec_interface_var_name(s, None),
        },
        Some(key) => match spec_canonical_name(s, key) {
            Some(canonical) => match spec_lookup_export(opts.exports, ExportKeyModel::Name(canonical)) {
                Some(name) => Some(name),
                None => match spec_lookup_with(opts.with, canonical) {
                    Some(name) => Some(name),
                    None => spec_interface_var_name(s, Some(key)),
                },
            },
            None => None,
        },
    }
}

/// The table `t` after the interfaces among `items` have been entered in
/// order; none where the schema does not hold one of them.
pub open spec fn spec_register(
    s: SchemaModel,
    opts: OptsModel,
    t: NameTableModel,
    items: Seq<(WorldKeyModel, WorldItemModel)>,
) -> Option<NameTableModel>
    decreases items.len(),
{
    if items.len() == 0 {
        Some(t)
    } else {
        match spec_register(s, opts, t, items.drop_last()) {
            Some(front) => match items.last().1 {
                WorldItemModel::Interface(id) => match spec_scope_base(s, opts, Some(items.last().0)) {
                    Some(base) => Some(spec_intern(front, Some(id), Some(items.last().0), base)),
                    None => None,
                },
                _ => Some(front),
            },
            None => None,
        }
    }
}

/// The table of the names of the scopes of the world at `world`: the world
/// itself first, then its imported and its exported interfaces, in order.
pub open spec fn spec_world_names(s: SchemaModel, opts: OptsModel, world: usize) -> Option<
    NameTableModel,
> {
    if world >= s.worlds.len() {
        None
    } else {
        match spec_scope_base(s, opts, None) {
            Some(base) => {
                let t0 = spec_intern(
                    NameTableModel { entries: Seq::empty(), counter: 0 },
                    None,
                    None,
                    base,
                );
                match spec_register(s, opts, t0, s.worlds[world as int].imports) {
                    Some(t1) => spec_register(s, opts, t1, s.worlds[world as int].exports),
                    None => None,
                }
            },
            None => None,
        }
    }
}

/// The run `z` after it has taken the name of the world at `world` and
/// named the scopes of the world.
pub open spec fn spec_preprocess(s: SchemaModel, z: ZigWasmModel, world: usize) -> Option<ZigWasmModel> {
    match spec_world_names(s, z.opts, world) {
        Some(names) => Some(
            ZigWasmModel { world: s.worlds[world as int].name, interface_names: names, ..z },
        ),
        None => None,
    }
}

/// The run `z` after the interface `id`, which the world exports under
/// `key`, has been generated: with placeholders where the options ask for
/// them, with the bindings of its functions otherwise.
pub open spec fn spec_export_interface(s: SchemaModel, z: ZigWasmModel, key: WorldKeyModel, id: usize) -> Result<
    ZigWasmModel,
    SchemaErrorModel,
> {
    if id >= s.interfaces.len() {
        Err(SchemaErrorModel::UnresolvedReference)
    } else {
        match (spec_package_name_with(s, key), spec_resolved(z.interface_names, Some(id))) {
            (Some(prefix), Some(var)) => if z.opts.stubs {
                match spec_stubs(s.interfaces[id as int].functions) {
                    Ok(stubs) => Ok(ZigWasmModel { src: spec_push_stub_struct(z.src, var, stubs), ..z }),
                    Err(e) => Err(e),
                }
            } else {
                match spec_exports(z, Some(id), s.interfaces[id as int].functions, Some(prefix)) {
                    Ok(bindings) => Ok(
                        ZigWasmModel {
                            src: pushed(
                                z.src.0,
                                z.src.1,
                                spec_push_bindings((Seq::empty(), 0nat), bindings).0,
                            ),
                            exported: z.exported + bindings,
                            ..z
                        },
                    ),
                    Err(e) => Err(e),
                }
            },
            _ => Err(SchemaErrorModel::UnresolvedReference),
        }
    }
}

/// The first type among `items`.
pub open spec fn spec_exported_type(items: Seq<(WorldKeyModel, WorldItemModel)>) -> Option<usize>
    decreases items.len(),
{
    if items.len() == 0 {
        None
    } else {
        match spec_exported_type(items.drop_last()) {
            Some(id) => Some(id),
            None => match items.last().1 {
                WorldItemModel::Type(id) => Some(id),
                _ => None,
            },
        }
    }
}

/// The functions among `items`, in order.
pub open spec fn spec_world_funcs(items: Seq<(WorldKeyModel, WorldItemModel)>) -> Seq<FunctionModel>
    decreases items.len(),
{
    if items.len() == 0 {
        Seq::empty()
    } else {
        match items.last().1 {
            WorldItemModel::Function(f) => spec_world_funcs(items.drop_last()).push(f),
            _ => spec_world_funcs(items.drop_last()),
        }
    }
}

/// The run `z` after the functions that the world at `world` exports
/// itself have been generated; a failure where the world exports a type.
pub open spec fn spec_export_funcs(s: SchemaModel, z: ZigWasmModel, world: usize) -> Result<
    ZigWasmModel,
    SchemaErrorModel,
> {
    if world >= s.worlds.len() {
        Err(SchemaErrorModel::UnresolvedReference)
    } else if spec_exported_type(s.worlds[world as int].exports) is Some {
        Err(
            SchemaErrorModel::UnsupportedExport {
                ty: Type::Id(spec_exported_type(s.worlds[world as int].exports)->0),
            },
        )
    } else {
        let funcs = spec_world_funcs(s.worlds[world as int].exports);
        match spec_resolved(z.interface_names, None) {
            Some(var) => if z.opts.stubs {
                match spec_stubs(funcs) {
                    Ok(stubs) => Ok(ZigWasmModel { src: spec_push_stub_struct(z.src, var, stubs), ..z }),
                    Err(e) => Err(e),
                }
            } else {
                match spec_exports(z, None, funcs, None) {
                    Ok(bindings) => Ok(
                        ZigWasmModel {
                            src: pushed(
                                z.src.0,
                                z.src.1,
                                spec_push_bindings((Seq::empty(), 0nat), bindings).0,
                            ),
                            exported: z.exported + bindings,
                            ..z
                        },
                    ),
                    Err(e) => Err(e),
                }
            },
            None => Err(SchemaErrorModel::UnresolvedReference),
        }
    }
}

/// The line that registers the entry point of the binding `b` under its
/// export name.
pub open spec fn spec_export_line(b: BindingModel) -> Seq<char> {
    "@export("@ + b.symbol + ", .{ .name = \""@ + b.export_name + "\" });\n"@
}

/// The line that registers the post-return entry point of the binding
/// `b`, where it has one.
pub open spec fn spec_post_return_line(b: BindingModel) -> Option<Seq<char>> {
    match b.post_return {
        Some(p) => Some("@export("@ + p.symbol + ", . { .name = \""@ + p.export_name + "\" });\n"@),
        None => None,
    }
}

/// The text and depth of a buffer that held `st`, after the lines that
/// register the entry points of `bindings` have been pushed in order.
pub open spec fn spec_push_export_lines(st: (Seq<char>, nat), bindings: Seq<BindingModel>) -> (
    Seq<char>,
    nat,
)
    decreases bindings.len(),
{
    if bindings.len() == 0 {
        st
    } else {
        let front = spec_push_export_lines(st, bindings.drop_last());
        pushed(front.0, front.1, spec_export_line(bindings.last()))
    }
}

/// The text and depth of a buffer that held `st`, after the lines that
/// register the post-return entry points of `bindings` have been pushed in
/// order.
pub open spec fn spec_push_post_return_lines(st: (Seq<char>, nat), bindings: Seq<BindingModel>) -> (
    Seq<char>,
    nat,
)
    decreases bindings.len(),
{
    if bindings.len() == 0 {
        st
    } else {
        let front = spec_push_post_return_lines(st, bindings.drop_last());
        match spec_post_return_line(bindings.last()) {
            Some(line) => pushed(front.0, front.1, line),
            None => front,
        }
    }
}

/// The text of the artifact of a run that generated `body` and the
/// bindings `bindings`: the preamble, the body, the registration of every
/// entry point and then of every post-return entry point, and the entry
/// stub of the program.
pub open spec fn spec_assemble(body: Seq<char>, bindings: Seq<BindingModel>) -> (Seq<char>, nat) {
    let st0 = pushed(Seq::empty(), 0nat, PREAMBLE@);
    let st1 = pushed(st0.0, st0.1, body);
    let st2 = pushed(st1.0, st1.1, REGISTRATION_HEAD@);
    let st3 = spec_push_export_lines(st2, bindings);
    let st4 = spec_push_post_return_lines(st3, bindings);
    pushed(st4.0, st4.1, REGISTRATION_TAIL@)
}

/// The name of the artifact of the world named `world`.
pub open spec fn spec_artifact_name(world: Seq<char>) -> Seq<char> {
    kebab_case(world) + ".zig"@
}

/// The run `z` after assembly, and the artifact of the world at `world`;
/// a failure, and no artifact, where the world exports a type.
pub open spec fn spec_finish(s: SchemaModel, z: ZigWasmModel, world: usize) -> Result<
    (ZigWasmModel, ArtifactModel),
    SchemaErrorModel,
> {
    if world >= s.worlds.len() {
        Err(SchemaErrorModel::UnresolvedReference)
    } else if spec_exported_type(s.worlds[world as int].exports) is Some {
        Err(
            SchemaErrorModel::UnsupportedExport {
                ty: Type::Id(spec_exported_type(s.worlds[world as int].exports)->0),
            },
        )
    } else {
        let src = spec_assemble(z.src.0, z.exported);
        Ok(
            (
                ZigWasmModel { src, ..z },
                ArtifactModel {
                    name: spec_artifact_name(s.worlds[world as int].name),
                    contents: src.0,
                },
            ),
        )
    }
}

/// The run `z` after the interfaces among `items` have been generated in
/// order, or the first reason why one of them cannot be. A type among
/// `items` is a reason: the backend does not implement exported types.
pub open spec fn spec_export_interfaces(
    s: SchemaModel,
    z: ZigWasmModel,
    items: Seq<(WorldKeyModel, WorldItemModel)>,
) -> Result<ZigWasmModel, SchemaErrorModel>
    decreases items.len(),
{
    if items.len() == 0 {
        Ok(z)
    } else {
        match spec_export_interfaces(s, z, items.drop_last()) {
            Ok(front) => match items.last().1 {
                WorldItemModel::Interface(id) => spec_export_interface(s, front, items.last().0, id),
                WorldItemModel::Type(id) => Err(SchemaErrorModel::UnsupportedExport { ty: Type::Id(id) }),
                WorldItemModel::Function(_) => Ok(front),
            },
            Err(e) => Err(e),
        }
    }
}

/// The run `z` after everything that the world at `world` exports has
/// been generated: the scopes are named, the exported interfaces are
/// generated in order, then the functions that the world exports itself,
/// if there are any. The first failure is the failure of the run.
pub open spec fn spec_run(s: SchemaModel, z: ZigWasmModel, world: usize) -> Result<
    ZigWasmModel,
    SchemaErrorModel,
> {
    match spec_preprocess(s, z, world) {
        Some(z1) => match spec_export_interfaces(s, z1, s.worlds[world as int].exports) {
            Ok(z2) => if spec_world_funcs(s.worlds[world as int].exports).len() == 0 {
                Ok(z2)
            } else {
                spec_export_funcs(s, z2, world)
            },
            Err(e) => Err(e),
        },
        None => Err(SchemaErrorModel::UnresolvedReference),
    }
}

/// The artifact that the run `z` generates for the world at `world`:
/// everything that the world exports is generated, and the artifact is
/// assembled. A run that fails gives no artifact.
pub open spec fn spec_generate(s: SchemaModel, z: ZigWasmModel, world: usize) -> Result<
    ArtifactModel,
    SchemaErrorModel,
> {
    match spec_run(s, z, world) {
        Ok(z3) => match spec_finish(s, z3, world) {
            Ok((z4, artifact)) => Ok(artifact),
            Err(e) => Err(e),
        },
        Err(e) => Err(e),
    }
}

/// Where a front of `items` cannot be entered, `items` cannot.
pub proof fn lemma_register_none(
    s: SchemaModel,
    opts: OptsModel,
    t: NameTableModel,
    items: Seq<(WorldKeyModel, WorldItemModel)>,
    n: int,
)
    requires
        0 <= n <= items.len(),
        spec_register(s, opts, t, items.take(n)) is None,
    ensures
        spec_register(s, opts, t, items) is None,
    decreases items.len() - n,
{
    if n < items.len() {
        assert(items.take(n + 1).drop_last() =~= items.take(n));
        lemma_register_none(s, opts, t, items, n + 1);
    } else {
        assert(items.take(n) =~= items);
    }
}

/// Where the interfaces among a front of `items` cannot be generated,
/// those among `items` cannot, for the same reason.
pub proof fn lemma_export_interfaces_err(
    s: SchemaModel,
    z: ZigWasmModel,
    items: Seq<(WorldKeyModel, WorldItemModel)>,
    n: int,
)
    requires
        0 <= n <= items.len(),
        spec_export_interfaces(s, z, items.take(n)) is Err,
    ensures
        spec_export_interfaces(s, z, items) == spec_export_interfaces(s, z, items.take(n)),
    decreases items.len() - n,
{
    if n < items.len() {
        assert(items.take(n + 1).drop_last() =~= items.take(n));
        lemma_export_interfaces_err(s, z, items, n + 1);
    } else {
        assert(items.take(n) =~= items);
    }
}

/// A copy of `key`.
pub fn clone_key(key: &WorldKey) -> (r: WorldKey)
    ensures
        r@ == key@,
{
    match key {
        WorldKey::Name(name) => WorldKey::Name(name.clone()),
        WorldKey::Interface(id) => WorldKey::Interface(*id),
    }
}

/// The name that the implementation of a scope has before disambiguation.
pub fn scope_base(resolve: &Schema, opts: &Opts, scope: Option<&WorldKey>) -> (r: Option<String>)
    ensures
        r.deep_view() == spec_scope_base(resolve@, opts@, scope.deep_view()),
{
    match scope {
        None => match opts.lookup_export(&ExportKey::World) {
            Some(name) => Some(name),
            None => interface_var_name(resolve, None),
        },
        Some(key) => match canonical_name(resolve, key) {
            Some(canonical) => {
                let by_export = opts.lookup_export(&ExportKey::Name(canonical.clone()));
                match by_export {
                    Some(name) => Some(name),
                    None => match opts.lookup_with(&canonical) {
                        Some(name) => Some(name),
                        None => interface_var_name(resolve, Some(key)),
                    },
                }
            },
            None => None,
        },
    }
}

/// Enters the interfaces among `items` into `names`, in order, and tells
/// whether the schema holds them all.
pub fn register(names: &mut NameTable, resolve: &Schema, opts: &Opts, items: &Vec<(WorldKey, WorldItem)>) -> (r:
    bool)
    requires
        old(names).well_formed(),
    ensures
        final(names).well_formed(),
        match spec_register(resolve@, opts@, old(names)@, items.deep_view()) {
            Some(t) => r && final(names)@ == t,
            None => !r,
        },
{
    let ghost all = items.deep_view();
    let ghost start = names@;
    let mut i: usize = 0;
    assert(all.take(0) =~= Seq::<(WorldKeyModel, WorldItemModel)>::empty());
    while i < items.len()
        invariant
            i <= items.len(),
            all == items.deep_view(),
            start == old(names)@,
            names.well_formed(),
            spec_register(resolve@, opts@, start, all.take(i as int)) == Some(names@),
        decreases items.len() - i,
    {
        assert(all.take(i + 1).drop_last() =~= all.take(i as int));
        assert(all.take(i + 1).last() == (items[i as int].0@, items[i as int].1@));
        match &items[i].1 {
            WorldItem::Interface(id) => {
                match scope_base(resolve, opts, Some(&items[i].0)) {
                    Some(base) => {
                        names.intern(Some(*id), Some(clone_key(&items[i].0)), base.as_str());
                    },
                    None => {
                        proof {
                            assert(spec_register(resolve@, opts@, start, all.take(i + 1)) is None);
                            lemma_register_none(resolve@, opts@, start, all, i + 1);
                        }
                        return false;
                    },
                }
            },
            _ => {},
        }
        i += 1;
    }
    assert(all.take(i as int) =~= all);
    true
}

/// Where a front of `items` holds a type, the first type among `items` is
/// the first among the front.
pub proof fn lemma_exported_type_found(items: Seq<(WorldKeyModel, WorldItemModel)>, n: int)
    requires
        0 <= n <= items.len(),
        spec_exported_type(items.take(n)) is Some,
    ensures
        spec_exported_type(items) == spec_exported_type(items.take(n)),
    decreases items.len() - n,
{
    if n < items.len() {
        assert(items.take(n + 1).drop_last() =~= items.take(n));
        lemma_exported_type_found(items, n + 1);
    } else {
        assert(items.take(n) =~= items);
    }
}

/// The first type among `items`.
pub fn exported_type(items: &Vec<(WorldKey, WorldItem)>) -> (r: Option<usize>)
    ensures
        r == spec_exported_type(items.deep_view()),
{
    let ghost all = items.deep_view();
    let mut i: usize = 0;
    assert(all.take(0) =~= Seq::<(WorldKeyModel, WorldItemModel)>::empty());
    while i < items.len()
        invariant
            i <= items.len(),
            all == items.deep_view(),
            spec_exported_type(all.take(i as int)) is None,
        decreases items.len() - i,
    {
        assert(all.take(i + 1).drop_last() =~= all.take(i as int));
        assert(all.take(i + 1).last() == (items[i as int].0@, items[i as int].1@));
        match &items[i].1 {
            WorldItem::Type(id) => {
                proof {
                    lemma_exported_type_found(all, i + 1);
                }
                return Some(*id);
            },
            _ => {},
        }
        i += 1;
    }
    assert(all.take(i as int) =~= all);
    None
}

/// The functions among `items`, in order.
pub fn world_funcs(items: &Vec<(WorldKey, WorldItem)>) -> (r: Vec<&Function>)
    ensures
        r.deep_view() == spec_world_funcs(items.deep_view()),
{
    let ghost all = items.deep_view();
    let mut funcs: Vec<&Function> = Vec::new();
    let mut i: usize = 0;
    assert(all.take(0) =~= Seq::<(WorldKeyModel, WorldItemModel)>::empty());
    assert(funcs.deep_view() =~= Seq::<FunctionModel>::empty());
    while i < items.len()
        invariant
            i <= items.len(),
            all == items.deep_view(),
            funcs.deep_view() == spec_world_funcs(all.take(i as int)),
        decreases items.len() - i,
    {
        assert(all.take(i + 1).drop_last() =~= all.take(i as int));
        assert(all.take(i + 1).last() == (items[i as int].0@, items[i as int].1@));
        match &items[i].1 {
            WorldItem::Function(f) => {
                let ghost before = funcs.deep_view();
                funcs.push(f);
                assert(funcs.deep_view() =~= before.push(f@));
            },
            _ => {},
        }
        i += 1;
    }
    assert(all.take(i as int) =~= all);
    funcs
}

/// The functions of `funcs`, by reference.
pub fn function_refs(funcs: &Vec<Function>) -> (r: Vec<&Function>)
    ensures
        r.deep_view() == funcs.deep_view(),
{
    let mut refs: Vec<&Function> = Vec::new();
    let mut i: usize = 0;
    while i < funcs.len()
        invariant
            i <= funcs.len(),
            refs.len() == i,
            forall|j: int| 0 <= j < i ==> refs[j]@ == funcs[j]@,
        decreases funcs.len() - i,
    {
        refs.push(&funcs[i]);
        i += 1;
    }
    assert(refs.deep_view() =~= funcs.deep_view());
    refs
}

impl Opts {
    /// A run with these options, which has generated nothing yet.
    pub fn build(self) -> (r: ZigWasm)
        ensures
            r.opts == self,
            r@ == spec_new(self@, spec_dedup(self.skip.deep_view())),
            r.interface_names.well_formed(),
    {
        let mut r = ZigWasm::new();
        r.skip = dedup(&self.skip);
        r.opts = self;
        r
    }
}

/// Generates the artifact of the world at `world` of `resolve` with the
/// options `opts`.
pub fn generate(resolve: &Schema, world: usize, opts: Opts) -> (r: Result<Artifact, SchemaError>)
    ensures
        match spec_generate(resolve@, spec_new(opts@, spec_dedup(opts.skip.deep_view())), world) {
            Ok(artifact) => r is Ok && r->Ok_0@ == artifact,
            Err(e) => r is Err && r->Err_0@ == e,
        },
{
    opts.build().generate(resolve, world)
}

impl ZigWasm {
    /// The storage type of `ty`.
    pub fn get_zig_ty(&self, ty: &Type) -> (r: Result<String, UnsupportedType>)
        ensures
            match r {
                Ok(name) => spec_zig_ty(*ty) == Some(name@),
                Err(e) => spec_zig_ty(*ty) is None && e.ty == *ty,
            },
    {
        get_zig_ty(ty)
    }

    /// A run that has generated nothing yet.
    pub fn new() -> (r: Self)
        ensures
            r@ == spec_new(spec_default_opts(), Seq::empty()),
            r.interface_names.well_formed(),
    {
        let r = ZigWasm {
            src: EmissionBuffer::new(),
            world: String::new(),
            opts: Opts::default(),
            skip: Vec::new(),
            interface_names: NameTable::new(),
            exported: Vec::new(),
        };
        assert(r.skip.deep_view() =~= Seq::empty());
        assert(r.exported.deep_view() =~= Seq::empty());
        r
    }

    /// Takes the name of the world at `world` and names the scopes of the
    /// world: the world itself first, then its imported and its exported
    /// interfaces, in order.
    pub fn preprocess(&mut self, resolve: &Schema, world: usize) -> (r: Result<(), SchemaError>)
        ensures
            match spec_preprocess(resolve@, old(self)@, world) {
                Some(z) => r is Ok && final(self)@ == z && final(self).interface_names.well_formed(),
                None => r is Err && r->Err_0@ == SchemaErrorModel::UnresolvedReference && *final(self)
                    == *old(self),
            },
    {
        if world >= resolve.worlds.len() {
            return Err(SchemaError::UnresolvedReference);
        }
        let w = &resolve.worlds[world];
        assert(resolve@.worlds[world as int] == w@);
        let base = match scope_base(resolve, &self.opts, None) {
            Some(base) => base,
            None => {
                return Err(SchemaError::UnresolvedReference);
            },
        };
        let mut names = NameTable::new();
        names.intern(None, None, base.as_str());
        if !register(&mut names, resolve, &self.opts, &w.imports) {
            return Err(SchemaError::UnresolvedReference);
        }
        if !register(&mut names, resolve, &self.opts, &w.exports) {
            return Err(SchemaError::UnresolvedReference);
        }
        self.world = w.name.clone();
        self.interface_names = names;
        Ok(())
    }

    /// Generates the interface `iface`, which the world exports under
    /// `name`: placeholders where the options ask for them, the bindings of
    /// its functions otherwise. Where it cannot be generated, nothing
    /// changes.
    pub fn export_interface(&mut self, resolve: &Schema, name: &WorldKey, iface: usize) -> (r: Result<
        (),
        SchemaError,
    >)
        ensures
            final(self).interface_names == old(self).interface_names,
            match spec_export_interface(resolve@, old(self)@, name@, iface) {
                Ok(z) => r is Ok && final(self)@ == z,
                Err(e) => r is Err && r->Err_0@ == e && final(self)@ == old(self)@,
            },
    {
        if iface >= resolve.interfaces.len() {
            return Err(SchemaError::UnresolvedReference);
        }
        let prefix = match package_name_with(resolve, name) {
            Some(prefix) => prefix,
            None => {
                return Err(SchemaError::UnresolvedReference);
            },
        };
        let var = match self.interface_names.resolve(Some(iface)) {
            Some(var) => var,
            None => {
                return Err(SchemaError::UnresolvedReference);
            },
        };
        assert(resolve@.interfaces[iface as int] == resolve.interfaces[iface as int]@);
        let funcs = function_refs(&resolve.interfaces[iface].functions);
        self.export_scope(resolve, Some(iface), Some(name), &funcs, Some(&prefix), var.as_str())
    }

    /// Generates the functions that the world at `world` exports itself:
    /// placeholders where the options ask for them, bindings otherwise.
    /// Where they cannot be generated, nothing changes.
    pub fn export_funcs(&mut self, resolve: &Schema, world: usize) -> (r: Result<(), SchemaError>)
        ensures
            final(self).interface_names == old(self).interface_names,
            match spec_export_funcs(resolve@, old(self)@, world) {
                Ok(z) => r is Ok && final(self)@ == z,
                Err(e) => r is Err && r->Err_0@ == e && final(self)@ == old(self)@,
            },
    {
        if world >= resolve.worlds.len() {
            return Err(SchemaError::UnresolvedReference);
        }
        assert(resolve@.worlds[world as int] == resolve.worlds[world as int]@);
        match exported_type(&resolve.worlds[world].exports) {
            Some(id) => {
                return Err(SchemaError::UnsupportedExport { ty: Type::Id(id) });
            },
            None => {},
        }
        let funcs = world_funcs(&resolve.worlds[world].exports);
        let var = match self.interface_names.resolve(None) {
            Some(var) => var,
            None => {
                return Err(SchemaError::UnresolvedReference);
            },
        };
        self.export_scope(resolve, None, None, &funcs, None, var.as_str())
    }

    /// Generates the functions `funcs` of the scope `id`, whose
    /// implementation is the variable `var`, under the export key
    /// `prefix`.
    fn export_scope(
        &mut self,
        resolve: &Schema,
        id: Option<usize>,
        name: Option<&WorldKey>,
        funcs: &Vec<&Function>,
        prefix: Option<&String>,
        var: &str,
    ) -> (r: Result<(), SchemaError>)
        requires
            spec_resolved(old(self)@.interface_names, id) == Some(var@),
        ensures
            final(self).interface_names == old(self).interface_names,
            old(self)@.opts.stubs ==> match spec_stubs(funcs.deep_view()) {
                Ok(stubs) => r is Ok && final(self)@ == (ZigWasmModel {
                    src: spec_push_stub_struct(old(self)@.src, var@, stubs),
                    ..old(self)@
                }),
                Err(e) => r is Err && r->Err_0@ == e && final(self)@ == old(self)@,
            },
            !old(self)@.opts.stubs ==> match spec_exports(
                old(self)@,
                id,
                funcs.deep_view(),
                prefix.deep_view(),
            ) {
                Ok(bindings) => r is Ok && final(self)@ == (ZigWasmModel {
                    src: pushed(
                        old(self)@.src.0,
                        old(self)@.src.1,
                        spec_push_bindings((Seq::empty(), 0nat), bindings).0,
                    ),
                    exported: old(self)@.exported + bindings,
                    ..old(self)@
                }),
                Err(e) => r is Err && r->Err_0@ == e && final(self)@ == old(self)@,
            },
    {
        if self.opts.stubs {
            let stubs = match emit_stubs(funcs) {
                Ok(stubs) => stubs,
                Err(e) => {
                    return Err(e);
                },
            };
            push_stub_struct(&mut self.src, var, &stubs);
            Ok(())
        } else {
            let ghost before = self@;
            let mut gen = self.interface(resolve, id, name, false);
            match gen.export_each(resolve, funcs, prefix) {
                Ok(()) => {},
                Err(e) => {
                    return Err(e);
                },
            }
            let text = gen.src.to_string();
            let mut bindings = gen.export_funcs;
            let ghost added = bindings.deep_view();
            assert(Seq::<BindingModel>::empty() + added =~= added);
            self.src.push_str(text.as_str());
            self.exported.append(&mut bindings);
            assert(self.exported.deep_view() =~= before.exported + added);
            Ok(())
        }
    }

    /// Assembles the artifact of the world at `world` from what the run has
    /// generated.
    pub fn finish(&mut self, resolve: &Schema, world: usize) -> (r: Result<Artifact, SchemaError>)
        ensures
            final(self).interface_names == old(self).interface_names,
            match spec_finish(resolve@, old(self)@, world) {
                Ok((z, artifact)) => r is Ok && final(self)@ == z && r->Ok_0@ == artifact,
                Err(e) => r is Err && r->Err_0@ == e && *final(self) == *old(self),
            },
    {
        if world >= resolve.worlds.len() {
            return Err(SchemaError::UnresolvedReference);
        }
        assert(resolve@.worlds[world as int] == resolve.worlds[world as int]@);
        match exported_type(&resolve.worlds[world].exports) {
            Some(id) => {
                return Err(SchemaError::UnsupportedExport { ty: Type::Id(id) });
            },
            None => {},
        }
        let ghost all = self.exported.deep_view();
        let body = self.src.to_string();
        let mut out = EmissionBuffer::new();
        out.push_str(PREAMBLE);
        out.push_str(body.as_str());
        out.push_str(REGISTRATION_HEAD);
        let ghost st2 = out@;
        let mut i: usize = 0;
        assert(all.take(0) =~= Seq::<BindingModel>::empty());
        while i < self.exported.len()
            invariant
                i <= self.exported.len(),
                all == self.exported.deep_view(),
                out@ == spec_push_export_lines(st2, all.take(i as int)),
            decreases self.exported.len() - i,
        {
            assert(all.take(i + 1).drop_last() =~= all.take(i as int));
            assert(all.take(i + 1).last() == self.exported[i as int]@);
            let b = &self.exported[i];
            let mut line = "@export(".to_string();
            line.append(b.symbol.as_str());
            line.append(", .{ .name = \"");
            line.append(b.export_name.as_str());
            line.append("\" });\n");
            out.push_str(line.as_str());
            i += 1;
        }
        assert(all.take(i as int) =~= all);
        let ghost st3 = out@;
        let mut i: usize = 0;
        while i < self.exported.len()
            invariant
                i <= self.exported.len(),
                all == self.exported.deep_view(),
                all.take(0) =~= Seq::<BindingModel>::empty(),
                out@ == spec_push_post_return_lines(st3, all.take(i as int)),
            decreases self.exported.len() - i,
        {
            assert(all.take(i + 1).drop_last() =~= all.take(i as int));
            assert(all.take(i + 1).last() == self.exported[i as int]@);
            match &self.exported[i].post_return {
                Some(p) => {
                    let mut line = "@export(".to_string();
                    line.append(p.symbol.as_str());
                    line.append(", . { .name = \"");
                    line.append(p.export_name.as_str());
                    line.append("\" });\n");
                    out.push_str(line.as_str());
                },
                None => {},
            }
            i += 1;
        }
        assert(all.take(i as int) =~= all);
        out.push_str(REGISTRATION_TAIL);
        let mut name = to_kebab_case(resolve.worlds[world].name.as_str());
        name.append(".zig");
        let contents = out.to_string();
        self.src = out;
        Ok(Artifact { name, contents })
    }

    /// Generates the artifact of the world at `world`. The run stops at the
    /// first failure and gives no artifact then.
    pub fn generate(self, resolve: &Schema, world: usize) -> (r: Result<Artifact, SchemaError>)
        ensures
            match spec_generate(resolve@, self@, world) {
                Ok(artifact) => r is Ok && r->Ok_0@ == artifact,
                Err(e) => r is Err && r->Err_0@ == e,
            },
    {
        let mut run = self;
        run.generate_in_place(resolve, world)
    }

    /// Generates the artifact of the world at `world` in this run.
    fn generate_in_place(&mut self, resolve: &Schema, world: usize) -> (r: Result<Artifact, SchemaError>)
        ensures
            match spec_generate(resolve@, old(self)@, world) {
                Ok(artifact) => r is Ok && r->Ok_0@ == artifact,
                Err(e) => r is Err && r->Err_0@ == e,
            },
    {
        match self.preprocess(resolve, world) {
            Ok(()) => {},
            Err(e) => {
                return Err(e);
            },
        }
        let ghost z1 = self@;
        let exports = &resolve.worlds[world].exports;
        assert(resolve@.worlds[world as int] == resolve.worlds[world as int]@);
        let ghost all = exports.deep_view();
        let mut i: usize = 0;
        assert(all.take(0) =~= Seq::<(WorldKeyModel, WorldItemModel)>::empty());
        while i < exports.len()
            invariant
                i <= exports.len(),
                all == exports.deep_view(),
                world < resolve.worlds.len(),
                all == resolve@.worlds[world as int].exports,
                spec_preprocess(resolve@, old(self)@, world) == Some(z1),
                spec_export_interfaces(resolve@, z1, all.take(i as int)) == Ok::<
                    ZigWasmModel,
                    SchemaErrorModel,
                >(self@),
            decreases exports.len() - i,
        {
            assert(all.take(i + 1).drop_last() =~= all.take(i as int));
            assert(all.take(i + 1).last() == (exports[i as int].0@, exports[i as int].1@));
            match &exports[i].1 {
                WorldItem::Interface(id) => {
                    match self.export_interface(resolve, &exports[i].0, *id) {
                        Ok(()) => {},
                        Err(e) => {
                            proof {
                                assert(spec_export_interfaces(resolve@, z1, all.take(i + 1)) == Err::<
                                    ZigWasmModel,
                                    SchemaErrorModel,
                                >(e@));
                                lemma_export_interfaces_err(resolve@, z1, all, i + 1);
                            }
                            return Err(e);
                        },
                    }
                },
                WorldItem::Type(id) => {
                    proof {
                        assert(spec_export_interfaces(resolve@, z1, all.take(i + 1)) is Err);
                        lemma_export_interfaces_err(resolve@, z1, all, i + 1);
                    }
                    return Err(SchemaError::UnsupportedExport { ty: Type::Id(*id) });
                },
                WorldItem::Function(_) => {},
            }
            i += 1;
        }
        assert(all.take(i as int) =~= all);
        if world_funcs(exports).len() > 0 {
            match self.export_funcs(resolve, world) {
                Ok(()) => {},
                Err(e) => {
                    return Err(e);
                },
            }
        }
        self.finish(resolve, world)
    }

    /// A generator for the scope `name` of the world, which is the
    /// interface `id`, or the world itself where both are `None`.
    pub fn interface<'a>(
        &'a self,
        resolve: &'a Schema,
        id: Option<usize>,
        name: Option<&'a WorldKey>,
        in_import: bool,
    ) -> (r: InterfaceGenerator<'a>)
        ensures
            r.src@ == (Seq::<char>::empty(), 0nat),
            r.gen == self,
            r.resolve == resolve,
            r.interface == id,
            r.name == name,
            r.public_anonymous_types@ == Set::<usize>::empty(),
            r.in_import == in_import,
            r.export_funcs.deep_view() == Seq::<BindingModel>::empty(),
    {
        let r = InterfaceGenerator {
            src: EmissionBuffer::new(),
            gen: self,
            resolve,
            interface: id,
            name,
            public_anonymous_types: BTreeSet::new(),
            in_import,
            export_funcs: Vec::new(),
        };
        assert(r.export_funcs.deep_view() =~= Seq::<BindingModel>::empty());
        r
    }
}

} // verus!
