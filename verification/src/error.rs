//! The ways in which generation fails.

use vstd::prelude::*;
use crate::schema::Type;
use crate::text::{decimal, spec_decimal};

verus! {

/// Why no artifact can be generated for a schema. Generation stops at the
/// first reason found and emits nothing.
#[derive(Clone, Debug)]
pub enum SchemaError {
    /// A function has more than one result.
    UnsupportedArity { function: String, results: usize },
    /// A parameter or the result of a function has a type that the backend
    /// does not implement.
    UnsupportedType { function: String, ty: Type },
    /// The world exports a type, which the backend does not implement.
    UnsupportedExport { ty: Type },
    /// The schema refers to a world, an interface or a package that it does
    /// not hold.
    UnresolvedReference,
}

/// The model of a [`SchemaError`].
pub enum SchemaErrorModel {
    UnsupportedArity { function: Seq<char>, results: usize },
    UnsupportedType { function: Seq<char>, ty: Type },
    UnsupportedExport { ty: Type },
    UnresolvedReference,
}

impl View for SchemaError {
    type V = SchemaErrorModel;

    open spec fn view(&self) -> SchemaErrorModel {
        match *self {
            SchemaError::UnsupportedArity { function, results } => SchemaErrorModel::UnsupportedArity {
                function: function@,
                results,
            },
            SchemaError::UnsupportedType { function, ty } => SchemaErrorModel::UnsupportedType {
                function: function@,
                ty,
            },
            SchemaError::UnsupportedExport { ty } => SchemaErrorModel::UnsupportedExport { ty },
            SchemaError::UnresolvedReference => SchemaErrorModel::UnresolvedReference,
        }
    }
}

impl DeepView for SchemaError {
    type V = SchemaErrorModel;

    open spec fn deep_view(&self) -> SchemaErrorModel {
        self@
    }
}

/// The name of `ty` in a diagnostic: the name of a primitive type in the
/// interface language, `type` and the index for a type definition.
pub open spec fn spec_type_text(ty: Type) -> Seq<char> {
    match ty {
        Type::Bool => "bool"@,
        Type::U8 => "u8"@,
        Type::U16 => "u16"@,
        Type::U32 => "u32"@,
        Type::U64 => "u64"@,
        Type::S8 => "s8"@,
        Type::S16 => "s16"@,
        Type::S32 => "s32"@,
        Type::S64 => "s64"@,
        Type::Float32 => "float32"@,
        Type::Float64 => "float64"@,
        Type::Char => "char"@,
        Type::String => "string"@,
        Type::Id(id) => "type "@ + spec_decimal(id as nat),
    }
}

/// What a [`SchemaError`] says: the function and what is wrong with it.
pub open spec fn spec_schema_message(e: SchemaErrorModel) -> Seq<char> {
    match e {
        SchemaErrorModel::UnsupportedArity { function, results } => "function `"@ + function + "` has "@
            + spec_decimal(results as nat) + " results; at most one is supported"@,
        SchemaErrorModel::UnsupportedType { function, ty } => "function `"@ + function
            + "` uses the type `"@ + spec_type_text(ty) + "`, which is not supported"@,
        SchemaErrorModel::UnsupportedExport { ty } => "the world exports the type `"@ + spec_type_text(ty)
            + "`, which is not supported"@,
        SchemaErrorModel::UnresolvedReference => "the schema refers to an item that it does not hold"@,
    }
}

/// Writes the name of `ty` for a diagnostic.
pub fn type_text(ty: &Type) -> (r: String)
    ensures
        r@ == spec_type_text(*ty),
{
    match ty {
        Type::Bool => "bool".to_string(),
        Type::U8 => "u8".to_string(),
        Type::U16 => "u16".to_string(),
        Type::U32 => "u32".to_string(),
        Type::U64 => "u64".to_string(),
        Type::S8 => "s8".to_string(),
        Type::S16 => "s16".to_string(),
        Type::S32 => "s32".to_string(),
        Type::S64 => "s64".to_string(),
        Type::Float32 => "float32".to_string(),
        Type::Float64 => "float64".to_string(),
        Type::Char => "char".to_string(),
        Type::String => "string".to_string(),
        Type::Id(id) => {
            let mut r = "type ".to_string();
            r.append(decimal(*id as u128).as_str());
            r
        },
    }
}

impl SchemaError {
    /// What the error says.
    pub fn message(&self) -> (r: String)
        ensures
            r@ == spec_schema_message(self@),
    {
        match self {
            SchemaError::UnsupportedArity { function, results } => {
                let mut r = "function `".to_string();
                r.append(function.as_str());
                r.append("` has ");
                r.append(decimal(*results as u128).as_str());
                r.append(" results; at most one is supported");
                r
            },
            SchemaError::UnsupportedType { function, ty } => {
                let mut r = "function `".to_string();
                r.append(function.as_str());
                r.append("` uses the type `");
                r.append(type_text(ty).as_str());
                r.append("`, which is not supported");
                r
            },
            SchemaError::UnsupportedExport { ty } => {
                let mut r = "the world exports the type `".to_string();
                r.append(type_text(ty).as_str());
                r.append("`, which is not supported");
                r
            },
            SchemaError::UnresolvedReference => "the schema refers to an item that it does not hold".to_string(),
        }
    }
}

} // verus!
