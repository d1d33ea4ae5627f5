//! Resolution of scopes to the names that generated code uses.
//!
//! A scope is the world itself, an interface that the world lists under a
//! plain name, or an interface that is named by its package.

use vstd::prelude::*;
use crate::case::{snake_case, to_snake_case, to_upper_camel_case, upper_camel_case};
use crate::schema::{Schema, SchemaModel, WorldKey, WorldKeyModel};
use crate::text::{contains, spec_contains};

verus! {

/// The namespace, the package name and the name of the interface at `id`,
/// where the schema holds all three.
pub open spec fn spec_qualified_parts(s: SchemaModel, id: usize) -> Option<
    (Seq<char>, Seq<char>, Seq<char>),
> {
    if id < s.interfaces.len() {
        let iface = s.interfaces[id as int];
        match (iface.package, iface.name) {
            (Some(p), Some(name)) => if p < s.packages.len() {
                Some((s.packages[p as int].namespace, s.packages[p as int].name, name))
            } else {
                None
            },
            _ => None,
        }
    } else {
        None
    }
}

/// The title case name of the scope under `key`: the upper camel case forms
/// of the plain name, or of the namespace, the package and the interface,
/// one after the other.
pub open spec fn spec_ty_name_with(s: SchemaModel, key: WorldKeyModel) -> Option<Seq<char>> {
    match key {
        WorldKeyModel::Name(k) => Some(upper_camel_case(k)),
        WorldKeyModel::Interface(id) => match spec_qualified_parts(s, id) {
            Some((ns, pkg, name)) => Some(
                upper_camel_case(ns) + upper_camel_case(pkg) + upper_camel_case(name),
            ),
            None => None,
        },
    }
}

/// The export key of the scope under `key`, which the name of a function is
/// appended to: `namespace:package/interface#` for an interface named by its
/// package, the upper camel case form of a plain name otherwise.
pub open spec fn spec_package_name_with(s: SchemaModel, key: WorldKeyModel) -> Option<Seq<char>> {
    match key {
        WorldKeyModel::Name(k) => Some(upper_camel_case(k)),
        WorldKeyModel::Interface(id) => match spec_qualified_parts(s, id) {
            Some((ns, pkg, name)) => Some(ns + ":"@ + pkg + "/"@ + name + "#"@),
            None => None,
        },
    }
}

/// The canonical name of the scope under `key`, by which configuration
/// refers to it: the plain name, or `namespace:package/interface`.
pub open spec fn spec_canonical_name(s: SchemaModel, key: WorldKeyModel) -> Option<Seq<char>> {
    match key {
        WorldKeyModel::Name(k) => Some(k),
        WorldKeyModel::Interface(id) => match spec_qualified_parts(s, id) {
            Some((ns, pkg, name)) => Some(ns + ":"@ + pkg + "/"@ + name),
            None => None,
        },
    }
}

/// The name of the variable that holds the implementation of a scope, before
/// configuration and disambiguation: `Guest` for the world, the snake case
/// form of a plain name, the upper camel case form of an interface's name.
pub open spec fn spec_interface_var_name(s: SchemaModel, scope: Option<WorldKeyModel>) -> Option<
    Seq<char>,
> {
    match scope {
        None => Some("Guest"@),
        Some(WorldKeyModel::Name(k)) => Some(snake_case(k)),
        Some(WorldKeyModel::Interface(id)) => match spec_qualified_parts(s, id) {
            Some((ns, pkg, name)) => Some(upper_camel_case(name)),
            None => None,
        },
    }
}

/// `s`, followed by an underscore where `s` is one of the reserved words.
pub open spec fn spec_avoid_keyword(reserved: Seq<Seq<char>>, s: Seq<char>) -> Seq<char> {
    if spec_contains(reserved, s) {
        s + "_"@
    } else {
        s
    }
}

/// Appends an underscore to an identifier that is a reserved word.
pub fn avoid_keyword(reserved: &Vec<String>, s: &str) -> (r: String)
    ensures
        r@ == spec_avoid_keyword(reserved.deep_view(), s@),
{
    let mut r = s.to_string();
    if contains(reserved, s) {
        r.append("_");
    }
    r
}

/// The parts of the qualified name of the interface at `id`.
pub fn qualified_parts<'a>(schema: &'a Schema, id: usize) -> (r: Option<
    (&'a String, &'a String, &'a String),
>)
    ensures
        match (r, spec_qualified_parts(schema@, id)) {
            (Some((ns, pkg, name)), Some(parts)) => ns@ == parts.0 && pkg@ == parts.1 && name@
                == parts.2,
            (None, None) => true,
            _ => false,
        },
{
    if id < schema.interfaces.len() {
        let iface = &schema.interfaces[id];
        match (&iface.package, &iface.name) {
            (Some(p), Some(name)) => {
                if *p < schema.packages.len() {
                    let pkg = &schema.packages[*p];
                    Some((&pkg.namespace, &pkg.name, name))
                } else {
                    None
                }
            },
            _ => None,
        }
    } else {
        None
    }
}

/// The title case name of the scope under `key`; `None` where the schema
/// does not hold the interface or its package.
pub fn ty_name_with(schema: &Schema, key: &WorldKey) -> (r: Option<String>)
    ensures
        r.deep_view() == spec_ty_name_with(schema@, key@),
{
    match key {
        WorldKey::Name(k) => Some(to_upper_camel_case(k.as_str())),
        WorldKey::Interface(id) => match qualified_parts(schema, *id) {
            Some((ns, pkg, name)) => {
                let mut r = to_upper_camel_case(ns.as_str());
                r.append(to_upper_camel_case(pkg.as_str()).as_str());
                r.append(to_upper_camel_case(name.as_str()).as_str());
                Some(r)
            },
            None => None,
        },
    }
}

/// The export key of the scope under `key`; `None` where the schema does not
/// hold the interface or its package.
pub fn package_name_with(schema: &Schema, key: &WorldKey) -> (r: Option<String>)
    ensures
        r.deep_view() == spec_package_name_with(schema@, key@),
{
    match key {
        WorldKey::Name(k) => Some(to_upper_camel_case(k.as_str())),
        WorldKey::Interface(id) => match qualified_parts(schema, *id) {
            Some((ns, pkg, name)) => {
                let mut r = ns.clone();
                r.append(":");
                r.append(pkg.as_str());
                r.append("/");
                r.append(name.as_str());
                r.append("#");
                Some(r)
            },
            None => None,
        },
    }
}

/// The canonical name of the scope under `key`; `None` where the schema does
/// not hold the interface or its package.
pub fn canonical_name(schema: &Schema, key: &WorldKey) -> (r: Option<String>)
    ensures
        r.deep_view() == spec_canonical_name(schema@, key@),
{
    match key {
        WorldKey::Name(k) => Some(k.clone()),
        WorldKey::Interface(id) => match qualified_parts(schema, *id) {
            Some((ns, pkg, name)) => {
                let mut r = ns.clone();
                r.append(":");
                r.append(pkg.as_str());
                r.append("/");
                r.append(name.as_str());
                Some(r)
            },
            None => None,
        },
    }
}

/// The name of the implementation variable of a scope, before configuration
/// and disambiguation; `None` where the schema does not hold the interface
/// or its package.
pub fn interface_var_name(schema: &Schema, scope: Option<&WorldKey>) -> (r: Option<String>)
    ensures
        r.deep_view() == spec_interface_var_name(schema@, scope.deep_view()),
{
    match scope {
        None => Some("Guest".to_string()),
        Some(WorldKey::Name(k)) => Some(to_snake_case(k.as_str())),
        Some(WorldKey::Interface(id)) => match qualified_parts(schema, *id) {
            Some((ns, pkg, name)) => Some(to_upper_camel_case(name.as_str())),
            None => None,
        },
    }
}

} // verus!
