//! Mapping of schema types to type names.
//!
//! A type has a storage name for host-side positions and a wire name for the
//! boundary. A type definition without a name of its own gets a synthesized
//! one, built from a tag for its kind, the names of its parts and a closing
//! `T`.

use vstd::prelude::*;
use crate::case::{to_upper_camel_case, upper_camel_case};
use crate::names::{spec_ty_name_with, ty_name_with};
use crate::schema::{
    Handle, Schema, SchemaModel, Type, TypeDefKind, TypeDefKindModel, TypeOwner, WorldKey,
    WorldKeyModel,
};
use crate::scopes::{spec_key_of, NameTable, NameTableModel};
use crate::text::{decimal, spec_decimal};

verus! {

/// A type that the backend has no mapping for.
#[derive(Clone, Copy, Debug, PartialEq, Eq, Structural)]
pub struct UnsupportedType {
    pub ty: Type,
}

/// Whether `ty` is one of the primitive types that cross the boundary as
/// they are.
pub open spec fn spec_is_word(ty: Type) -> bool {
    ty is Bool || ty is U8 || ty is U16 || ty is U32 || ty is U64 || ty is S8 || ty is S16 || ty is S32
        || ty is S64
}

/// The name of a primitive type that crosses the boundary as it is.
pub open spec fn spec_word_name(ty: Type) -> Seq<char>
    recommends
        spec_is_word(ty),
{
    match ty {
        Type::Bool => "bool"@,
        Type::U8 => "u8"@,
        Type::U16 => "u16"@,
        Type::U32 => "u32"@,
        Type::U64 => "u64"@,
        Type::S8 => "s8"@,
        Type::S16 => "s16"@,
        Type::S32 => "s32"@,
        Type::S64 => "s64"@,
        _ => Seq::empty(),
    }
}

/// The storage type of `ty`: its own name for a primitive type, a byte slice
/// for a string; none for the types that the backend does not implement.
pub open spec fn spec_zig_ty(ty: Type) -> Option<Seq<char>> {
    if spec_is_word(ty) {
        Some(spec_word_name(ty))
    } else if ty is String {
        Some("[]u8"@)
    } else {
        None
    }
}

/// The wire type of `ty` in a result position: its own name for a primitive
/// type, a pointer to bytes for a string; none for the types that the backend
/// does not implement.
pub open spec fn spec_zig_binding_ty(ty: Type) -> Option<Seq<char>> {
    if spec_is_word(ty) {
        Some(spec_word_name(ty))
    } else if ty is String {
        Some("[*]u8"@)
    } else {
        None
    }
}

/// Tells whether `ty` is a primitive type that crosses the boundary as it is,
/// and gives its name.
pub fn word_name(ty: &Type) -> (r: Option<&'static str>)
    ensures
        r is Some == spec_is_word(*ty),
        r is Some ==> r->0@ == spec_word_name(*ty),
{
    match ty {
        Type::Bool => Some("bool"),
        Type::U8 => Some("u8"),
        Type::U16 => Some("u16"),
        Type::U32 => Some("u32"),
        Type::U64 => Some("u64"),
        Type::S8 => Some("s8"),
        Type::S16 => Some("s16"),
        Type::S32 => Some("s32"),
        Type::S64 => Some("s64"),
        _ => None,
    }
}

/// The storage type of `ty`.
pub fn get_zig_ty(ty: &Type) -> (r: Result<String, UnsupportedType>)
    ensures
        match r {
            Ok(name) => spec_zig_ty(*ty) == Some(name@),
            Err(e) => spec_zig_ty(*ty) is None && e.ty == *ty,
        },
{
    match word_name(ty) {
        Some(name) => Ok(name.to_string()),
        None => match ty {
            Type::String => Ok("[]u8".to_string()),
            _ => Err(UnsupportedType { ty: *ty }),
        },
    }
}

/// The wire type of `ty` in a result position.
pub fn get_zig_binding_ty(ty: &Type) -> (r: Result<String, UnsupportedType>)
    ensures
        match r {
            Ok(name) => spec_zig_binding_ty(*ty) == Some(name@),
            Err(e) => spec_zig_binding_ty(*ty) is None && e.ty == *ty,
        },
{
    match word_name(ty) {
        Some(name) => Ok(name.to_string()),
        None => match ty {
            Type::String => Ok("[*]u8".to_string()),
            _ => Err(UnsupportedType { ty: *ty }),
        },
    }
}

/// What stands before the name of a named type: the title case name of the
/// scope that owns it.
pub open spec fn spec_owner_prefix(s: SchemaModel, t: NameTableModel, owner: TypeOwner) -> Option<
    Seq<char>,
> {
    match owner {
        TypeOwner::World(w) => if w < s.worlds.len() {
            Some(upper_camel_case(s.worlds[w as int].name))
        } else {
            None
        },
        TypeOwner::Interface(i) => match spec_key_of(t, Some(i)) {
            Some(Some(key)) => spec_ty_name_with(s, key),
            _ => None,
        },
        TypeOwner::Unowned => Some(Seq::empty()),
    }
}

/// The name of `ty` as a part of other names. A type definition is looked at
/// only if its index is below `bound`, so that a definition is named from
/// definitions that stand before it.
pub open spec fn spec_ty_name(s: SchemaModel, t: NameTableModel, ty: Type, bound: nat) -> Option<
    Seq<char>,
>
    decreases bound, 0nat,
{
    match ty {
        Type::Bool => Some("Bool"@),
        Type::U8 => Some("U8"@),
        Type::U16 => Some("U16"@),
        Type::U32 => Some("U32"@),
        Type::U64 => Some("U64"@),
        Type::S8 => Some("S8"@),
        Type::S16 => Some("S16"@),
        Type::S32 => Some("S32"@),
        Type::S64 => Some("S64"@),
        Type::Float32 => Some("F32"@),
        Type::Float64 => Some("F64"@),
        Type::Char => Some("Byte"@),
        Type::String => Some("String"@),
        Type::Id(id) => if id >= bound || id >= s.types.len() {
            None
        } else {
            let def = s.types[id as int];
            match def.name {
                Some(name) => match spec_owner_prefix(s, t, def.owner) {
                    Some(prefix) => Some(prefix + upper_camel_case(name)),
                    None => None,
                },
                None => match def.kind {
                    TypeDefKindModel::Type(inner) => spec_ty_name(s, t, inner, id as nat),
                    TypeDefKindModel::Tuple(types) => match spec_ty_names(s, t, types, id as nat) {
                        Some(parts) => Some(
                            "Tuple"@ + spec_decimal(types.len()) + parts + "T"@,
                        ),
                        None => None,
                    },
                    TypeDefKindModel::Option(inner) => match spec_ty_name(s, t, inner, id as nat) {
                        Some(part) => Some("Option"@ + part + "T"@),
                        None => None,
                    },
                    TypeDefKindModel::Result { ok, err } => match (
                        spec_optional_ty_name(s, t, ok, id as nat),
                        spec_optional_ty_name(s, t, err, id as nat),
                    ) {
                        (Some(a), Some(b)) => Some("Result"@ + a + b + "T"@),
                        _ => None,
                    },
                    TypeDefKindModel::List(inner) => match spec_ty_name(s, t, inner, id as nat) {
                        Some(part) => Some("List"@ + part + "T"@),
                        None => None,
                    },
                    TypeDefKindModel::Future(inner) => match spec_optional_ty_name(
                        s,
                        t,
                        inner,
                        id as nat,
                    ) {
                        Some(part) => Some("Future"@ + part + "T"@),
                        None => None,
                    },
                    TypeDefKindModel::Stream { element, end } => match (
                        spec_optional_ty_name(s, t, element, id as nat),
                        spec_optional_ty_name(s, t, end, id as nat),
                    ) {
                        (Some(a), Some(b)) => Some("Stream"@ + a + b + "T"@),
                        _ => None,
                    },
                    TypeDefKindModel::Handle(Handle::Own(r)) => match spec_ty_name(
                        s,
                        t,
                        Type::Id(r),
                        id as nat,
                    ) {
                        Some(part) => Some("Own"@ + part + "T"@),
                        None => None,
                    },
                    TypeDefKindModel::Handle(Handle::Borrow(r)) => match spec_ty_name(
                        s,
                        t,
                        Type::Id(r),
                        id as nat,
                    ) {
                        Some(part) => Some("Borrow"@ + part + "T"@),
                        None => None,
                    },
                    _ => None,
                },
            }
        },
    }
}

/// The name of a part that may be absent: `Empty` where it is.
pub open spec fn spec_optional_ty_name(
    s: SchemaModel,
    t: NameTableModel,
    ty: Option<Type>,
    bound: nat,
) -> Option<Seq<char>>
    decreases bound, 1nat,
{
    match ty {
        Some(ty) => spec_ty_name(s, t, ty, bound),
        None => Some("Empty"@),
    }
}

/// The names of `types`, one after the other.
pub open spec fn spec_ty_names(s: SchemaModel, t: NameTableModel, types: Seq<Type>, bound: nat) -> Option<
    Seq<char>,
>
    decreases bound, 1nat + types.len(),
{
    if types.len() == 0 {
        Some(Seq::empty())
    } else {
        match (
            spec_ty_names(s, t, types.drop_last(), bound),
            spec_ty_name(s, t, types.last(), bound),
        ) {
            (Some(front), Some(last)) => Some(front + last),
            _ => None,
        }
    }
}

/// The name that a type gets in the scope `scope` of the world named
/// `world`: the title case name of the scope, then `ty_name`, in upper camel
/// case where `convert` is set.
pub open spec fn spec_scoped_type_name(
    s: SchemaModel,
    world: Seq<char>,
    scope: Option<WorldKeyModel>,
    ty_name: Seq<char>,
    convert: bool,
) -> Option<Seq<char>> {
    let package_name = match scope {
        Some(key) => spec_ty_name_with(s, key),
        None => Some(upper_camel_case(world)),
    };
    match package_name {
        Some(p) => Some(
            p + if convert {
                upper_camel_case(ty_name)
            } else {
                ty_name
            },
        ),
        None => None,
    }
}

/// What stands before the name of a named type.
pub fn owner_prefix(schema: &Schema, names: &NameTable, owner: TypeOwner) -> (r: Option<String>)
    ensures
        r.deep_view() == spec_owner_prefix(schema@, names@, owner),
{
    match owner {
        TypeOwner::World(w) => {
            if w < schema.worlds.len() {
                Some(to_upper_camel_case(schema.worlds[w].name.as_str()))
            } else {
                None
            }
        },
        TypeOwner::Interface(i) => match names.key_of(Some(i)) {
            Some(Some(key)) => ty_name_with(schema, key),
            _ => None,
        },
        TypeOwner::Unowned => Some(String::new()),
    }
}

/// A tag, a part and the closing `T`.
fn tagged(tag: &str, part: Option<String>) -> (r: Option<String>)
    ensures
        r.deep_view() == match part.deep_view() {
            Some(p) => Some(tag@ + p + "T"@),
            None => None,
        },
{
    match part {
        Some(p) => {
            let mut src = tag.to_string();
            src.append(p.as_str());
            src.append("T");
            Some(src)
        },
        None => None,
    }
}

/// A tag, two parts and the closing `T`.
fn tagged_pair(tag: &str, first: Option<String>, second: Option<String>) -> (r: Option<String>)
    ensures
        r.deep_view() == match (first.deep_view(), second.deep_view()) {
            (Some(a), Some(b)) => Some(tag@ + a + b + "T"@),
            _ => None,
        },
{
    match (first, second) {
        (Some(a), Some(b)) => {
            let mut src = tag.to_string();
            src.append(a.as_str());
            src.append(b.as_str());
            src.append("T");
            Some(src)
        },
        _ => None,
    }
}

/// The name of `ty` as a part of other names, looking only at type
/// definitions below `bound`.
pub fn ty_name_below(schema: &Schema, names: &NameTable, ty: &Type, bound: usize) -> (r: Option<
    String,
>)
    ensures
        r.deep_view() == spec_ty_name(schema@, names@, *ty, bound as nat),
    decreases bound, 0nat,
{
    match ty {
        Type::Bool => Some("Bool".to_string()),
        Type::U8 => Some("U8".to_string()),
        Type::U16 => Some("U16".to_string()),
        Type::U32 => Some("U32".to_string()),
        Type::U64 => Some("U64".to_string()),
        Type::S8 => Some("S8".to_string()),
        Type::S16 => Some("S16".to_string()),
        Type::S32 => Some("S32".to_string()),
        Type::S64 => Some("S64".to_string()),
        Type::Float32 => Some("F32".to_string()),
        Type::Float64 => Some("F64".to_string()),
        Type::Char => Some("Byte".to_string()),
        Type::String => Some("String".to_string()),
        Type::Id(id) => {
            let id = *id;
            if id >= bound || id >= schema.types.len() {
                return None;
            }
            let def = &schema.types[id];
            assert(schema@.types[id as int] == def@);
            if let Some(name) = &def.name {
                return match owner_prefix(schema, names, def.owner) {
                    Some(mut prefix) => {
                        prefix.append(to_upper_camel_case(name.as_str()).as_str());
                        Some(prefix)
                    },
                    None => None,
                };
            }
            match &def.kind {
                TypeDefKind::Type(inner) => ty_name_below(schema, names, inner, id),
                TypeDefKind::Tuple(types) => {
                    match ty_names_below(schema, names, types, id) {
                        Some(parts) => {
                            let mut src = "Tuple".to_string();
                            src.append(decimal(types.len() as u128).as_str());
                            src.append(parts.as_str());
                            src.append("T");
                            Some(src)
                        },
                        None => None,
                    }
                },
                TypeDefKind::Option(inner) => tagged("Option", ty_name_below(schema, names, inner, id)),
                TypeDefKind::Result { ok, err } => tagged_pair(
                    "Result",
                    optional_ty_name_below(schema, names, ok.as_ref(), id),
                    optional_ty_name_below(schema, names, err.as_ref(), id),
                ),
                TypeDefKind::List(inner) => tagged("List", ty_name_below(schema, names, inner, id)),
                TypeDefKind::Future(inner) => tagged(
                    "Future",
                    optional_ty_name_below(schema, names, inner.as_ref(), id),
                ),
                TypeDefKind::Stream { element, end } => tagged_pair(
                    "Stream",
                    optional_ty_name_below(schema, names, element.as_ref(), id),
                    optional_ty_name_below(schema, names, end.as_ref(), id),
                ),
                TypeDefKind::Handle(Handle::Own(r)) => tagged(
                    "Own",
                    ty_name_below(schema, names, &Type::Id(*r), id),
                ),
                TypeDefKind::Handle(Handle::Borrow(r)) => tagged(
                    "Borrow",
                    ty_name_below(schema, names, &Type::Id(*r), id),
                ),
                _ => None,
            }
        },
    }
}

/// The name of a part that may be absent, looking only at type definitions
/// below `bound`.
pub fn optional_ty_name_below(
    schema: &Schema,
    names: &NameTable,
    ty: Option<&Type>,
    bound: usize,
) -> (r: Option<String>)
    ensures
        r.deep_view() == spec_optional_ty_name(schema@, names@, ty.deep_view(), bound as nat),
    decreases bound, 1nat,
{
    match ty {
        Some(ty) => ty_name_below(schema, names, ty, bound),
        None => Some("Empty".to_string()),
    }
}

/// The names of `types`, one after the other, looking only at type
/// definitions below `bound`.
pub fn ty_names_below(schema: &Schema, names: &NameTable, types: &Vec<Type>, bound: usize) -> (r:
    Option<String>)
    ensures
        r.deep_view() == spec_ty_names(schema@, names@, types@, bound as nat),
    decreases bound, 1nat + types.len(),
{
    let mut parts = String::new();
    let mut i: usize = 0;
    assert(types@.take(0) =~= Seq::<Type>::empty());
    while i < types.len()
        invariant
            i <= types.len(),
            spec_ty_names(schema@, names@, types@.take(i as int), bound as nat) == Some(parts@),
        decreases types.len() - i,
    {
        assert(types@.take(i + 1).drop_last() =~= types@.take(i as int));
        assert(types@.take(i + 1).last() == types@[i as int]);
        match ty_name_below(schema, names, &types[i], bound) {
            Some(name) => {
                parts.append(name.as_str());
            },
            None => {
                proof {
                    lemma_ty_names_none(schema@, names@, types@, i + 1, bound as nat);
                }
                return None;
            },
        }
        i += 1;
    }
    assert(types@.take(i as int) =~= types@);
    Some(parts)
}

/// Where a front of `types` has no name, `types` has none.
pub proof fn lemma_ty_names_none(
    s: SchemaModel,
    t: NameTableModel,
    types: Seq<Type>,
    n: int,
    bound: nat,
)
    requires
        0 <= n <= types.len(),
        spec_ty_names(s, t, types.take(n), bound) is None,
    ensures
        spec_ty_names(s, t, types, bound) is None,
    decreases types.len() - n,
{
    if n < types.len() {
        assert(types.take(n + 1).drop_last() =~= types.take(n));
        lemma_ty_names_none(s, t, types, n + 1, bound);
    } else {
        assert(types.take(n) =~= types);
    }
}

/// The name of `ty` in full: the name of `ty` as a part of other names,
/// with every type definition of the schema in view.
pub open spec fn spec_full_ty_name(s: SchemaModel, t: NameTableModel, ty: Type) -> Option<Seq<char>> {
    spec_ty_name(s, t, ty, s.types.len())
}

/// Whether `ty` refers to a type definition without a name of its own
/// that gets a synthesized name: a definition that is neither an alias, a
/// list, an option nor a result.
pub open spec fn spec_is_anonymous(s: SchemaModel, ty: Type) -> bool {
    match ty {
        Type::Id(id) => id < s.types.len() && s.types[id as int].name is None && !spec_is_unnamed_kind(
            s.types[id as int].kind,
        ),
        _ => false,
    }
}

/// Whether a type definition of this kind has no type of its own in a
/// signature.
pub open spec fn spec_is_unnamed_kind(kind: TypeDefKindModel) -> bool {
    kind is Type || kind is List || kind is Option || kind is Result
}

/// The type that stands for `ty` in a signature, in the scope `scope` of
/// the world named `world`: a fixed name for a primitive type and for a
/// string; for a named type definition the title case name of the
/// interface that owns it, or else of the scope, and the name in upper
/// camel case; for one without a name the title case name of the scope and
/// the synthesized name. None for an alias, a list, an option or a result,
/// and where a name cannot be resolved.
pub open spec fn spec_ty(
    s: SchemaModel,
    t: NameTableModel,
    world: Seq<char>,
    scope: Option<WorldKeyModel>,
    ty: Type,
) -> Option<Seq<char>> {
    match ty {
        Type::Bool => Some("bool"@),
        Type::U8 => Some("uint8"@),
        Type::U16 => Some("uint16"@),
        Type::U32 => Some("uint32"@),
        Type::U64 => Some("uint64"@),
        Type::S8 => Some("int8"@),
        Type::S16 => Some("int16"@),
        Type::S32 => Some("int32"@),
        Type::S64 => Some("int64"@),
        Type::Float32 => Some("float32"@),
        Type::Float64 => Some("float64"@),
        Type::Char => Some("rune"@),
        Type::String => Some("string"@),
        Type::Id(id) => if id >= s.types.len() {
            None
        } else {
            let def = s.types[id as int];
            if spec_is_unnamed_kind(def.kind) {
                None
            } else {
                match def.name {
                    Some(name) => match def.owner {
                        TypeOwner::Interface(owner) => match spec_owner_prefix(s, t, def.owner) {
                            Some(iface) => Some(iface + upper_camel_case(name)),
                            None => None,
                        },
                        _ => spec_scoped_type_name(s, world, scope, name, true),
                    },
                    None => match spec_full_ty_name(s, t, ty) {
                        Some(name) => spec_scoped_type_name(s, world, scope, name, false),
                        None => None,
                    },
                }
            }
        },
    }
}

/// The type that stands for a part that may be absent: the empty struct
/// where it is.
pub open spec fn spec_optional_ty(
    s: SchemaModel,
    t: NameTableModel,
    world: Seq<char>,
    scope: Option<WorldKeyModel>,
    ty: Option<Type>,
) -> Option<Seq<char>> {
    match ty {
        Some(ty) => spec_ty(s, t, world, scope, ty),
        None => Some("struct{}"@),
    }
}

/// The name that a type gets in the scope `scope` of the world named
/// `world`.
pub fn scoped_type_name(schema: &Schema, world: &str, scope: Option<&WorldKey>, ty_name: &str, convert: bool) -> (r:
    Option<String>)
    ensures
        r.deep_view() == spec_scoped_type_name(schema@, world@, scope.deep_view(), ty_name@, convert),
{
    let package_name = match scope {
        Some(key) => ty_name_with(schema, key),
        None => Some(to_upper_camel_case(world)),
    };
    match package_name {
        Some(mut name) => {
            if convert {
                name.append(to_upper_camel_case(ty_name).as_str());
            } else {
                name.append(ty_name);
            }
            Some(name)
        },
        None => None,
    }
}

/// Tells whether a type definition of this kind has no type of its own in
/// a signature.
pub fn is_unnamed_kind(kind: &TypeDefKind) -> (r: bool)
    ensures
        r == spec_is_unnamed_kind(kind@),
{
    match kind {
        TypeDefKind::Type(_) => true,
        TypeDefKind::List(_) => true,
        TypeDefKind::Option(_) => true,
        TypeDefKind::Result { .. } => true,
        _ => false,
    }
}

/// Tells whether `ty` refers to a type definition without a name of its
/// own that gets a synthesized name.
pub fn is_anonymous(schema: &Schema, ty: &Type) -> (r: bool)
    ensures
        r == spec_is_anonymous(schema@, *ty),
{
    match ty {
        Type::Id(id) => {
            if *id < schema.types.len() {
                let def = &schema.types[*id];
                assert(schema@.types[*id as int] == def@);
                def.name.is_none() && !is_unnamed_kind(&def.kind)
            } else {
                false
            }
        },
        _ => false,
    }
}

/// The type that stands for `ty` in a signature.
pub fn ty_text(schema: &Schema, names: &NameTable, world: &str, scope: Option<&WorldKey>, ty: &Type) -> (r:
    Option<String>)
    ensures
        r.deep_view() == spec_ty(schema@, names@, world@, scope.deep_view(), *ty),
{
    match ty {
        Type::Bool => Some("bool".to_string()),
        Type::U8 => Some("uint8".to_string()),
        Type::U16 => Some("uint16".to_string()),
        Type::U32 => Some("uint32".to_string()),
        Type::U64 => Some("uint64".to_string()),
        Type::S8 => Some("int8".to_string()),
        Type::S16 => Some("int16".to_string()),
        Type::S32 => Some("int32".to_string()),
        Type::S64 => Some("int64".to_string()),
        Type::Float32 => Some("float32".to_string()),
        Type::Float64 => Some("float64".to_string()),
        Type::Char => Some("rune".to_string()),
        Type::String => Some("string".to_string()),
        Type::Id(id) => {
            if *id >= schema.types.len() {
                return None;
            }
            let def = &schema.types[*id];
            assert(schema@.types[*id as int] == def@);
            if is_unnamed_kind(&def.kind) {
                return None;
            }
            match &def.name {
                Some(name) => match def.owner {
                    TypeOwner::Interface(_) => match owner_prefix(schema, names, def.owner) {
                        Some(mut iface) => {
                            iface.append(to_upper_camel_case(name.as_str()).as_str());
                            Some(iface)
                        },
                        None => None,
                    },
                    _ => scoped_type_name(schema, world, scope, name.as_str(), true),
                },
                None => match ty_name_below(schema, names, ty, schema.types.len()) {
                    Some(name) => scoped_type_name(schema, world, scope, name.as_str(), false),
                    None => None,
                },
            }
        },
    }
}

} // verus!
