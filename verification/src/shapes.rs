//! The synthesized names of types tell their shapes apart.
//!
//! The shape of a type is what it is built from, with aliases looked
//! through; a type whose name involves a type definition with a name of its
//! own has no shape. The synthesized name of a type with a shape is the
//! rendering of the shape, and a rendering is read back in one way only.

use vstd::prelude::*;
use crate::schema::{Handle, SchemaModel, Type, TypeDefKindModel};
use crate::scopes::NameTableModel;
use crate::text::{
    lemma_decimal_injective, lemma_digit, lemma_prefix_cancel, spec_decimal, spec_digit,
};
use crate::types::{spec_optional_ty_name, spec_ty_name, spec_ty_names};

verus! {

/// The shape of a type.
pub enum Shape {
    /// A primitive type or a string.
    Prim(Type),
    Tuple(Seq<Shape>),
    Option(Box<Shape>),
    Result(Option<Box<Shape>>, Option<Box<Shape>>),
    List(Box<Shape>),
    Future(Option<Box<Shape>>),
    Stream(Option<Box<Shape>>, Option<Box<Shape>>),
    Own(Box<Shape>),
    Borrow(Box<Shape>),
}

/// The name of a primitive type or a string as a part of other names.
pub open spec fn spec_prim_name(ty: Type) -> Seq<char> {
    match ty {
        Type::Bool => "Bool"@,
        Type::U8 => "U8"@,
        Type::U16 => "U16"@,
        Type::U32 => "U32"@,
        Type::U64 => "U64"@,
        Type::S8 => "S8"@,
        Type::S16 => "S16"@,
        Type::S32 => "S32"@,
        Type::S64 => "S64"@,
        Type::Float32 => "F32"@,
        Type::Float64 => "F64"@,
        Type::Char => "Byte"@,
        _ => "String"@,
    }
}

/// The rendering of a shape: a tag for its kind, the renderings of its
/// parts, and a closing `T`.
pub open spec fn spec_render(shape: Shape) -> Seq<char>
    decreases shape,
{
    match shape {
        Shape::Prim(ty) => spec_prim_name(ty),
        Shape::Tuple(parts) => "Tuple"@ + spec_decimal(parts.len()) + spec_render_all(parts) + "T"@,
        Shape::Option(inner) => "Option"@ + spec_render(*inner) + "T"@,
        Shape::Result(ok, err) => "Result"@ + spec_render_optional(ok) + spec_render_optional(err) + "T"@,
        Shape::List(inner) => "List"@ + spec_render(*inner) + "T"@,
        Shape::Future(inner) => "Future"@ + spec_render_optional(inner) + "T"@,
        Shape::Stream(element, end) => "Stream"@ + spec_render_optional(element) + spec_render_optional(end)
            + "T"@,
        Shape::Own(inner) => "Own"@ + spec_render(*inner) + "T"@,
        Shape::Borrow(inner) => "Borrow"@ + spec_render(*inner) + "T"@,
    }
}

/// The rendering of a part that may be absent: `Empty` where it is.
pub open spec fn spec_render_optional(shape: Option<Box<Shape>>) -> Seq<char>
    decreases shape,
{
    match shape {
        Some(inner) => spec_render(*inner),
        None => "Empty"@,
    }
}

/// The renderings of `parts`, one after the other.
pub open spec fn spec_render_all(parts: Seq<Shape>) -> Seq<char>
    decreases parts,
{
    if parts.len() == 0 {
        Seq::empty()
    } else {
        spec_render_all(parts.drop_last()) + spec_render(parts.last())
    }
}

/// Whether the primitive types in a shape are primitive types or strings.
pub open spec fn spec_shape_ok(shape: Shape) -> bool
    decreases shape,
{
    match shape {
        Shape::Prim(ty) => !(ty is Id),
        Shape::Tuple(parts) => forall|i: int| 0 <= i < parts.len() ==> spec_shape_ok(#[trigger] parts[i]),
        Shape::Option(inner) => spec_shape_ok(*inner),
        Shape::Result(ok, err) => spec_optional_ok(ok) && spec_optional_ok(err),
        Shape::List(inner) => spec_shape_ok(*inner),
        Shape::Future(inner) => spec_optional_ok(inner),
        Shape::Stream(element, end) => spec_optional_ok(element) && spec_optional_ok(end),
        Shape::Own(inner) => spec_shape_ok(*inner),
        Shape::Borrow(inner) => spec_shape_ok(*inner),
    }
}

/// Whether the primitive types in a shape that may be absent are
/// primitive types or strings.
pub open spec fn spec_optional_ok(shape: Option<Box<Shape>>) -> bool
    decreases shape,
{
    match shape {
        Some(inner) => spec_shape_ok(*inner),
        None => true,
    }
}

/// The shape of `ty`, looking only at type definitions below `bound`; none
/// where a type definition with a name of its own, or of a kind without a
/// synthesized name, is involved.
pub open spec fn spec_shape_of(s: SchemaModel, ty: Type, bound: nat) -> Option<Shape>
    decreases bound, 0nat,
{
    match ty {
        Type::Id(id) => if id >= bound || id >= s.types.len() || s.types[id as int].name is Some {
            None
        } else {
            match s.types[id as int].kind {
                TypeDefKindModel::Type(inner) => spec_shape_of(s, inner, id as nat),
                TypeDefKindModel::Tuple(types) => match spec_shapes_of(s, types, id as nat) {
                    Some(parts) => Some(Shape::Tuple(parts)),
                    None => None,
                },
                TypeDefKindModel::Option(inner) => match spec_shape_of(s, inner, id as nat) {
                    Some(part) => Some(Shape::Option(Box::new(part))),
                    None => None,
                },
                TypeDefKindModel::Result { ok, err } => match (
                    spec_optional_shape_of(s, ok, id as nat),
                    spec_optional_shape_of(s, err, id as nat),
                ) {
                    (Some(a), Some(b)) => Some(Shape::Result(a, b)),
                    _ => None,
                },
                TypeDefKindModel::List(inner) => match spec_shape_of(s, inner, id as nat) {
                    Some(part) => Some(Shape::List(Box::new(part))),
                    None => None,
                },
                TypeDefKindModel::Future(inner) => match spec_optional_shape_of(s, inner, id as nat) {
                    Some(part) => Some(Shape::Future(part)),
                    None => None,
                },
                TypeDefKindModel::Stream { element, end } => match (
                    spec_optional_shape_of(s, element, id as nat),
                    spec_optional_shape_of(s, end, id as nat),
                ) {
                    (Some(a), Some(b)) => Some(Shape::Stream(a, b)),
                    _ => None,
                },
                TypeDefKindModel::Handle(Handle::Own(r)) => match spec_shape_of(s, Type::Id(r), id as nat) {
                    Some(part) => Some(Shape::Own(Box::new(part))),
                    None => None,
                },
                TypeDefKindModel::Handle(Handle::Borrow(r)) => match spec_shape_of(
                    s,
                    Type::Id(r),
                    id as nat,
                ) {
                    Some(part) => Some(Shape::Borrow(Box::new(part))),
                    None => None,
                },
                _ => None,
            }
        },
        _ => Some(Shape::Prim(ty)),
    }
}

/// The shape of a part that may be absent.
pub open spec fn spec_optional_shape_of(s: SchemaModel, ty: Option<Type>, bound: nat) -> Option<
    Option<Box<Shape>>,
>
    decreases bound, 1nat,
{
    match ty {
        Some(ty) => match spec_shape_of(s, ty, bound) {
            Some(shape) => Some(Some(Box::new(shape))),
            None => None,
        },
        None => Some(None),
    }
}

/// The shapes of `types`, in order.
pub open spec fn spec_shapes_of(s: SchemaModel, types: Seq<Type>, bound: nat) -> Option<Seq<Shape>>
    decreases bound, 1nat + types.len(),
{
    if types.len() == 0 {
        Some(Seq::empty())
    } else {
        match (spec_shapes_of(s, types.drop_last(), bound), spec_shape_of(s, types.last(), bound)) {
            (Some(front), Some(last)) => Some(front.push(last)),
            _ => None,
        }
    }
}

/// The synthesized name of a type with a shape is the rendering of the
/// shape.
pub proof fn lemma_name_is_rendering(s: SchemaModel, t: NameTableModel, ty: Type, bound: nat)
    requires
        spec_shape_of(s, ty, bound) is Some,
    ensures
        spec_ty_name(s, t, ty, bound) == Some(spec_render(spec_shape_of(s, ty, bound)->0)),
        spec_shape_ok(spec_shape_of(s, ty, bound)->0),
    decreases bound, 0nat,
{
    match ty {
        Type::Id(id) => {
            match s.types[id as int].kind {
                TypeDefKindModel::Type(inner) => {
                    lemma_name_is_rendering(s, t, inner, id as nat);
                },
                TypeDefKindModel::Tuple(types) => {
                    lemma_names_are_renderings(s, t, types, id as nat);
                },
                TypeDefKindModel::Option(inner) => {
                    lemma_name_is_rendering(s, t, inner, id as nat);
                },
                TypeDefKindModel::Result { ok, err } => {
                    lemma_optional_name_is_rendering(s, t, ok, id as nat);
                    lemma_optional_name_is_rendering(s, t, err, id as nat);
                },
                TypeDefKindModel::List(inner) => {
                    lemma_name_is_rendering(s, t, inner, id as nat);
                },
                TypeDefKindModel::Future(inner) => {
                    lemma_optional_name_is_rendering(s, t, inner, id as nat);
                },
                TypeDefKindModel::Stream { element, end } => {
                    lemma_optional_name_is_rendering(s, t, element, id as nat);
                    lemma_optional_name_is_rendering(s, t, end, id as nat);
                },
                TypeDefKindModel::Handle(Handle::Own(r)) => {
                    lemma_name_is_rendering(s, t, Type::Id(r), id as nat);
                },
                TypeDefKindModel::Handle(Handle::Borrow(r)) => {
                    lemma_name_is_rendering(s, t, Type::Id(r), id as nat);
                },
                _ => {},
            }
        },
        _ => {},
    }
}

/// The name of a part that may be absent is the rendering of its shape.
pub proof fn lemma_optional_name_is_rendering(s: SchemaModel, t: NameTableModel, ty: Option<Type>, bound: nat)
    requires
        spec_optional_shape_of(s, ty, bound) is Some,
    ensures
        spec_optional_ty_name(s, t, ty, bound) == Some(
            spec_render_optional(spec_optional_shape_of(s, ty, bound)->0),
        ),
        spec_optional_ok(spec_optional_shape_of(s, ty, bound)->0),
    decreases bound, 1nat,
{
    match ty {
        Some(ty) => {
            lemma_name_is_rendering(s, t, ty, bound);
        },
        None => {},
    }
}

/// The names of types with shapes are the renderings of the shapes.
pub proof fn lemma_names_are_renderings(s: SchemaModel, t: NameTableModel, types: Seq<Type>, bound: nat)
    requires
        spec_shapes_of(s, types, bound) is Some,
    ensures
        spec_ty_names(s, t, types, bound) == Some(spec_render_all(spec_shapes_of(s, types, bound)->0)),
        spec_shapes_of(s, types, bound)->0.len() == types.len(),
        forall|i: int|
            0 <= i < types.len() ==> spec_shape_ok(#[trigger] spec_shapes_of(s, types, bound)->0[i]),
    decreases bound, 1nat + types.len(),
{
    if types.len() > 0 {
        lemma_names_are_renderings(s, t, types.drop_last(), bound);
        lemma_name_is_rendering(s, t, types.last(), bound);
        let front = spec_shapes_of(s, types.drop_last(), bound)->0;
        let last = spec_shape_of(s, types.last(), bound)->0;
        assert(front.push(last).drop_last() =~= front);
        assert forall|i: int| 0 <= i < types.len() implies spec_shape_ok(
            #[trigger] spec_shapes_of(s, types, bound)->0[i],
        ) by {
            if i < types.len() - 1 {
                assert(front.push(last)[i] == front[i]);
            }
        }
    }
}

/// Whether `c` is a decimal digit.
pub open spec fn spec_is_digit(c: char) -> bool {
    c == '0' || c == '1' || c == '2' || c == '3' || c == '4' || c == '5' || c == '6' || c == '7' || c == '8'
        || c == '9'
}

/// A numeral holds nothing but digits.
pub proof fn lemma_decimal_digits(n: nat)
    ensures
        forall|i: int| 0 <= i < spec_decimal(n).len() ==> spec_is_digit(#[trigger] spec_decimal(n)[i]),
    decreases n,
{
    if n < 10 {
        lemma_digit(n);
    } else {
        lemma_decimal_digits(n / 10);
        lemma_digit(n % 10);
        let front = spec_decimal(n / 10);
        let last = spec_digit(n % 10);
        assert forall|i: int| 0 <= i < spec_decimal(n).len() implies spec_is_digit(
            #[trigger] spec_decimal(n)[i],
        ) by {
            if i < front.len() {
                assert(spec_decimal(n)[i] == front[i]);
            } else {
                assert(spec_decimal(n)[i] == last[i - front.len()]);
            }
        }
    }
}

/// A numeral before a text that starts with no digit is read back in one
/// way only.
pub proof fn lemma_decimal_split(n: nat, x: Seq<char>, m: nat, y: Seq<char>)
    requires
        x.len() > 0,
        y.len() > 0,
        !spec_is_digit(x[0]),
        !spec_is_digit(y[0]),
        spec_decimal(n) + x == spec_decimal(m) + y,
    ensures
        n == m,
        x == y,
{
    let a = spec_decimal(n);
    let b = spec_decimal(m);
    lemma_decimal_digits(n);
    lemma_decimal_digits(m);
    if a.len() < b.len() {
        assert((a + x)[a.len() as int] == x[0]);
        assert((b + y)[a.len() as int] == b[a.len() as int]);
    } else if b.len() < a.len() {
        assert((b + y)[b.len() as int] == y[0]);
        assert((a + x)[b.len() as int] == a[b.len() as int]);
    }
    assert(a =~= (a + x).subrange(0, a.len() as int));
    assert(b =~= (b + y).subrange(0, b.len() as int));
    lemma_decimal_injective(n, m);
    lemma_prefix_cancel(a, x, y);
}

/// The number that stands for the kind of a shape.
pub open spec fn spec_tag(shape: Shape) -> int {
    match shape {
        Shape::Prim(Type::Bool) => 0,
        Shape::Prim(Type::U8) => 1,
        Shape::Prim(Type::U16) => 2,
        Shape::Prim(Type::U32) => 3,
        Shape::Prim(Type::U64) => 4,
        Shape::Prim(Type::S8) => 5,
        Shape::Prim(Type::S16) => 6,
        Shape::Prim(Type::S32) => 7,
        Shape::Prim(Type::S64) => 8,
        Shape::Prim(Type::Float32) => 9,
        Shape::Prim(Type::Float64) => 10,
        Shape::Prim(Type::Char) => 11,
        Shape::Prim(_) => 12,
        Shape::Tuple(_) => 13,
        Shape::Option(_) => 14,
        Shape::Result(_, _) => 15,
        Shape::List(_) => 16,
        Shape::Future(_) => 17,
        Shape::Stream(_, _) => 18,
        Shape::Own(_) => 19,
        Shape::Borrow(_) => 20,
    }
}

/// The kind that a text starts with, read from its first four characters;
/// 21 stands for an absent part.
pub open spec fn spec_classify(text: Seq<char>) -> int {
    if text.len() < 4 {
        -1
    } else if text[0] == 'B' {
        if text[1] == 'y' {
            11
        } else if text[2] == 'o' {
            0
        } else {
            20
        }
    } else if text[0] == 'U' {
        if text[1] == '8' {
            1
        } else if text[1] == '1' {
            2
        } else if text[1] == '3' {
            3
        } else {
            4
        }
    } else if text[0] == 'S' {
        if text[1] == '8' {
            5
        } else if text[1] == '1' {
            6
        } else if text[1] == '3' {
            7
        } else if text[1] == '6' {
            8
        } else if text[3] == 'i' {
            12
        } else {
            18
        }
    } else if text[0] == 'F' {
        if text[1] == '3' {
            9
        } else if text[1] == '6' {
            10
        } else {
            17
        }
    } else if text[0] == 'T' {
        13
    } else if text[0] == 'O' {
        if text[1] == 'p' {
            14
        } else {
            19
        }
    } else if text[0] == 'R' {
        15
    } else if text[0] == 'L' {
        16
    } else {
        21
    }
}

/// Whether a text is long enough to tell the kind that it starts with,
/// and starts with no digit.
pub open spec fn spec_starts_plainly(text: Seq<char>) -> bool {
    text.len() > 0 && !spec_is_digit(text[0])
}

/// A text starts with the characters of what it starts with.
pub proof fn lemma_text_head(text: Seq<char>, tag: Seq<char>, tail: Seq<char>)
    requires
        text =~= tag + tail,
    ensures
        text.len() == tag.len() + tail.len(),
        forall|i: int| 0 <= i < tag.len() ==> text[i] == tag[i],
{
}

/// The rendering of a shape tells its kind by its first characters, and
/// starts with no digit.
pub proof fn lemma_classify(shape: Shape, rest: Seq<char>)
    requires
        spec_shape_ok(shape),
        rest.len() >= 4,
    ensures
        spec_classify(spec_render(shape) + rest) == spec_tag(shape),
        spec_starts_plainly(spec_render(shape) + rest),
{
    let text = spec_render(shape) + rest;
    match shape {
        Shape::Prim(ty) => match ty {
            Type::Bool => {
                reveal_strlit("Bool");
                lemma_text_head(text, "Bool"@, rest);
            },
            Type::U8 => {
                reveal_strlit("U8");
                lemma_text_head(text, "U8"@, rest);
            },
            Type::U16 => {
                reveal_strlit("U16");
                lemma_text_head(text, "U16"@, rest);
            },
            Type::U32 => {
                reveal_strlit("U32");
                lemma_text_head(text, "U32"@, rest);
            },
            Type::U64 => {
                reveal_strlit("U64");
                lemma_text_head(text, "U64"@, rest);
            },
            Type::S8 => {
                reveal_strlit("S8");
                lemma_text_head(text, "S8"@, rest);
            },
            Type::S16 => {
                reveal_strlit("S16");
                lemma_text_head(text, "S16"@, rest);
            },
            Type::S32 => {
                reveal_strlit("S32");
                lemma_text_head(text, "S32"@, rest);
            },
            Type::S64 => {
                reveal_strlit("S64");
                lemma_text_head(text, "S64"@, rest);
            },
            Type::Float32 => {
                reveal_strlit("F32");
                lemma_text_head(text, "F32"@, rest);
            },
            Type::Float64 => {
                reveal_strlit("F64");
                lemma_text_head(text, "F64"@, rest);
            },
            Type::Char => {
                reveal_strlit("Byte");
                lemma_text_head(text, "Byte"@, rest);
            },
            _ => {
                reveal_strlit("String");
                lemma_text_head(text, "String"@, rest);
            },
        },
        Shape::Tuple(parts) => {
            reveal_strlit("Tuple");
            lemma_text_head(
                text,
                "Tuple"@,
                spec_decimal(parts.len()) + spec_render_all(parts) + "T"@ + rest,
            );
        },
        Shape::Option(inner) => {
            reveal_strlit("Option");
            lemma_text_head(text, "Option"@, spec_render(*inner) + "T"@ + rest);
        },
        Shape::Result(ok, err) => {
            reveal_strlit("Result");
            lemma_text_head(
                text,
                "Result"@,
                spec_render_optional(ok) + spec_render_optional(err) + "T"@ + rest,
            );
        },
        Shape::List(inner) => {
            reveal_strlit("List");
            lemma_text_head(text, "List"@, spec_render(*inner) + "T"@ + rest);
        },
        Shape::Future(inner) => {
            reveal_strlit("Future");
            lemma_text_head(text, "Future"@, spec_render_optional(inner) + "T"@ + rest);
        },
        Shape::Stream(element, end) => {
            reveal_strlit("Stream");
            lemma_text_head(
                text,
                "Stream"@,
                spec_render_optional(element) + spec_render_optional(end) + "T"@ + rest,
            );
        },
        Shape::Own(inner) => {
            reveal_strlit("Own");
            lemma_text_head(text, "Own"@, spec_render(*inner) + "T"@ + rest);
        },
        Shape::Borrow(inner) => {
            reveal_strlit("Borrow");
            lemma_text_head(text, "Borrow"@, spec_render(*inner) + "T"@ + rest);
        },
    }
}

/// The rendering of an absent part tells that the part is absent, and
/// starts with no digit.
pub proof fn lemma_classify_empty(rest: Seq<char>)
    ensures
        spec_classify("Empty"@ + rest) == 21,
        spec_starts_plainly("Empty"@ + rest),
{
    reveal_strlit("Empty");
    lemma_text_head("Empty"@ + rest, "Empty"@, rest);
}

/// The rendering of a shape is not empty and starts with no digit.
pub proof fn lemma_render_starts_plainly(shape: Shape, rest: Seq<char>)
    requires
        spec_shape_ok(shape),
    ensures
        spec_starts_plainly(spec_render(shape) + rest),
{
    let text = spec_render(shape) + rest;
    match shape {
        Shape::Prim(ty) => match ty {
            Type::Bool => {
                reveal_strlit("Bool");
            },
            Type::U8 => {
                reveal_strlit("U8");
            },
            Type::U16 => {
                reveal_strlit("U16");
            },
            Type::U32 => {
                reveal_strlit("U32");
            },
            Type::U64 => {
                reveal_strlit("U64");
            },
            Type::S8 => {
                reveal_strlit("S8");
            },
            Type::S16 => {
                reveal_strlit("S16");
            },
            Type::S32 => {
                reveal_strlit("S32");
            },
            Type::S64 => {
                reveal_strlit("S64");
            },
            Type::Float32 => {
                reveal_strlit("F32");
            },
            Type::Float64 => {
                reveal_strlit("F64");
            },
            Type::Char => {
                reveal_strlit("Byte");
            },
            _ => {
                reveal_strlit("String");
            },
        },
        Shape::Tuple(parts) => {
            reveal_strlit("Tuple");
            lemma_text_head(
                text,
                "Tuple"@,
                spec_decimal(parts.len()) + spec_render_all(parts) + "T"@ + rest,
            );
        },
        Shape::Option(inner) => {
            reveal_strlit("Option");
            lemma_text_head(text, "Option"@, spec_render(*inner) + "T"@ + rest);
        },
        Shape::Result(ok, err) => {
            reveal_strlit("Result");
            lemma_text_head(
                text,
                "Result"@,
                spec_render_optional(ok) + spec_render_optional(err) + "T"@ + rest,
            );
        },
        Shape::List(inner) => {
            reveal_strlit("List");
            lemma_text_head(text, "List"@, spec_render(*inner) + "T"@ + rest);
        },
        Shape::Future(inner) => {
            reveal_strlit("Future");
            lemma_text_head(text, "Future"@, spec_render_optional(inner) + "T"@ + rest);
        },
        Shape::Stream(element, end) => {
            reveal_strlit("Stream");
            lemma_text_head(
                text,
                "Stream"@,
                spec_render_optional(element) + spec_render_optional(end) + "T"@ + rest,
            );
        },
        Shape::Own(inner) => {
            reveal_strlit("Own");
            lemma_text_head(text, "Own"@, spec_render(*inner) + "T"@ + rest);
        },
        Shape::Borrow(inner) => {
            reveal_strlit("Borrow");
            lemma_text_head(text, "Borrow"@, spec_render(*inner) + "T"@ + rest);
        },
    }
}

/// The renderings of shapes before a text that starts with no digit start
/// with no digit.
pub proof fn lemma_render_all_starts_plainly(parts: Seq<Shape>, rest: Seq<char>)
    requires
        forall|i: int| 0 <= i < parts.len() ==> spec_shape_ok(#[trigger] parts[i]),
        spec_starts_plainly(rest),
    ensures
        spec_starts_plainly(spec_render_all(parts) + rest),
    decreases parts.len(),
{
    if parts.len() == 0 {
        assert(spec_render_all(parts) + rest =~= rest);
    } else {
        let front = parts.drop_last();
        let last = parts.last();
        assert(spec_shape_ok(last));
        assert forall|i: int| 0 <= i < front.len() implies spec_shape_ok(#[trigger] front[i]) by {
            assert(front[i] == parts[i]);
        }
        lemma_render_starts_plainly(last, rest);
        lemma_render_all_starts_plainly(front, spec_render(last) + rest);
        assert(spec_render_all(parts) + rest =~= spec_render_all(front) + (spec_render(last) + rest));
    }
}

/// Four characters that stand behind a text so that its kind can be told.
pub open spec fn spec_pad() -> Seq<char> {
    seq!['.', '.', '.', '.']
}

/// Two shapes whose renderings start the same text are of the same kind.
pub proof fn lemma_same_kind(a: Shape, ra: Seq<char>, b: Shape, rb: Seq<char>)
    requires
        spec_shape_ok(a),
        spec_shape_ok(b),
        spec_render(a) + ra == spec_render(b) + rb,
    ensures
        spec_tag(a) == spec_tag(b),
{
    let pad = spec_pad();
    assert((spec_render(a) + ra) + pad =~= spec_render(a) + (ra + pad));
    assert((spec_render(b) + rb) + pad =~= spec_render(b) + (rb + pad));
    lemma_classify(a, ra + pad);
    lemma_classify(b, rb + pad);
}

/// What stands between a tag and the closing `T` of two equal texts, and
/// what follows, is the same text.
pub proof fn lemma_unwrap(tag: Seq<char>, x: Seq<char>, ra: Seq<char>, y: Seq<char>, rb: Seq<char>)
    requires
        (tag + x + "T"@) + ra == (tag + y + "T"@) + rb,
    ensures
        x + ("T"@ + ra) == y + ("T"@ + rb),
{
    assert((tag + x + "T"@) + ra =~= tag + (x + ("T"@ + ra)));
    assert((tag + y + "T"@) + rb =~= tag + (y + ("T"@ + rb)));
    lemma_prefix_cancel(tag, x + ("T"@ + ra), y + ("T"@ + rb));
}

/// What stands between a tag and the closing `T` of two equal texts, in
/// two parts each, and what follows, is the same text.
pub proof fn lemma_unwrap_pair(
    tag: Seq<char>,
    x1: Seq<char>,
    x2: Seq<char>,
    ra: Seq<char>,
    y1: Seq<char>,
    y2: Seq<char>,
    rb: Seq<char>,
)
    requires
        (tag + x1 + x2 + "T"@) + ra == (tag + y1 + y2 + "T"@) + rb,
    ensures
        x1 + (x2 + ("T"@ + ra)) == y1 + (y2 + ("T"@ + rb)),
{
    assert((tag + x1 + x2 + "T"@) + ra =~= tag + (x1 + (x2 + ("T"@ + ra))));
    assert((tag + y1 + y2 + "T"@) + rb =~= tag + (y1 + (y2 + ("T"@ + rb))));
    lemma_prefix_cancel(tag, x1 + (x2 + ("T"@ + ra)), y1 + (y2 + ("T"@ + rb)));
}

/// What follows the closing `T` of two equal texts is the same text.
pub proof fn lemma_close(ra: Seq<char>, rb: Seq<char>)
    requires
        "T"@ + ra == "T"@ + rb,
    ensures
        ra == rb,
{
    lemma_prefix_cancel("T"@, ra, rb);
}

/// The closing `T` starts with no digit.
pub proof fn lemma_close_starts_plainly(rest: Seq<char>)
    ensures
        spec_starts_plainly("T"@ + rest),
{
    reveal_strlit("T");
}

/// Two primitive types of one kind are the same type.
pub proof fn lemma_same_prim(a: Type, b: Type)
    requires
        !(a is Id),
        !(b is Id),
        spec_tag(Shape::Prim(a)) == spec_tag(Shape::Prim(b)),
    ensures
        a == b,
{
}

/// A rendering is read back in one way only: two shapes whose renderings
/// start the same text are the same shape, and what follows them is the
/// same.
pub proof fn lemma_read_back(a: Shape, ra: Seq<char>, b: Shape, rb: Seq<char>)
    requires
        spec_shape_ok(a),
        spec_shape_ok(b),
        spec_render(a) + ra == spec_render(b) + rb,
    ensures
        a == b,
        ra == rb,
    decreases a, 0nat,
{
    lemma_same_kind(a, ra, b, rb);
    let ta = "T"@ + ra;
    let tb = "T"@ + rb;
    match a {
        Shape::Prim(ty) => {
            lemma_same_prim(ty, b->Prim_0);
            lemma_prefix_cancel(spec_render(a), ra, rb);
        },
        Shape::Tuple(ps) => {
            let qs = b->Tuple_0;
            lemma_unwrap_pair(
                "Tuple"@,
                spec_decimal(ps.len()),
                spec_render_all(ps),
                ra,
                spec_decimal(qs.len()),
                spec_render_all(qs),
                rb,
            );
            let xa = spec_render_all(ps) + ta;
            let xb = spec_render_all(qs) + tb;
            lemma_close_starts_plainly(ra);
            lemma_close_starts_plainly(rb);
            lemma_render_all_starts_plainly(ps, ta);
            lemma_render_all_starts_plainly(qs, tb);
            lemma_decimal_split(ps.len(), xa, qs.len(), xb);
            lemma_read_back_all(ps, ta, qs, tb);
            lemma_close(ra, rb);
        },
        Shape::Option(x) => {
            let y = b->Option_0;
            lemma_unwrap("Option"@, spec_render(*x), ra, spec_render(*y), rb);
            lemma_read_back(*x, ta, *y, tb);
            lemma_close(ra, rb);
        },
        Shape::Result(a1, a2) => {
            let b1 = b->Result_0;
            let b2 = b->Result_1;
            lemma_unwrap_pair(
                "Result"@,
                spec_render_optional(a1),
                spec_render_optional(a2),
                ra,
                spec_render_optional(b1),
                spec_render_optional(b2),
                rb,
            );
            lemma_read_back_optional(a1, spec_render_optional(a2) + ta, b1, spec_render_optional(b2) + tb);
            lemma_read_back_optional(a2, ta, b2, tb);
            lemma_close(ra, rb);
        },
        Shape::List(x) => {
            let y = b->List_0;
            lemma_unwrap("List"@, spec_render(*x), ra, spec_render(*y), rb);
            lemma_read_back(*x, ta, *y, tb);
            lemma_close(ra, rb);
        },
        Shape::Future(x) => {
            let y = b->Future_0;
            lemma_unwrap("Future"@, spec_render_optional(x), ra, spec_render_optional(y), rb);
            lemma_read_back_optional(x, ta, y, tb);
            lemma_close(ra, rb);
        },
        Shape::Stream(a1, a2) => {
            let b1 = b->Stream_0;
            let b2 = b->Stream_1;
            lemma_unwrap_pair(
                "Stream"@,
                spec_render_optional(a1),
                spec_render_optional(a2),
                ra,
                spec_render_optional(b1),
                spec_render_optional(b2),
                rb,
            );
            lemma_read_back_optional(a1, spec_render_optional(a2) + ta, b1, spec_render_optional(b2) + tb);
            lemma_read_back_optional(a2, ta, b2, tb);
            lemma_close(ra, rb);
        },
        Shape::Own(x) => {
            let y = b->Own_0;
            lemma_unwrap("Own"@, spec_render(*x), ra, spec_render(*y), rb);
            lemma_read_back(*x, ta, *y, tb);
            lemma_close(ra, rb);
        },
        Shape::Borrow(x) => {
            let y = b->Borrow_0;
            lemma_unwrap("Borrow"@, spec_render(*x), ra, spec_render(*y), rb);
            lemma_read_back(*x, ta, *y, tb);
            lemma_close(ra, rb);
        },
    }
}

/// The rendering of a part that may be absent is read back in one way
/// only.
pub proof fn lemma_read_back_optional(
    a: Option<Box<Shape>>,
    ra: Seq<char>,
    b: Option<Box<Shape>>,
    rb: Seq<char>,
)
    requires
        spec_optional_ok(a),
        spec_optional_ok(b),
        spec_render_optional(a) + ra == spec_render_optional(b) + rb,
    ensures
        a == b,
        ra == rb,
    decreases a, 1nat,
{
    let pad = spec_pad();
    assert((spec_render_optional(a) + ra) + pad =~= spec_render_optional(a) + (ra + pad));
    assert((spec_render_optional(b) + rb) + pad =~= spec_render_optional(b) + (rb + pad));
    match (a, b) {
        (None, None) => {
            lemma_prefix_cancel("Empty"@, ra, rb);
        },
        (Some(x), Some(y)) => {
            lemma_read_back(*x, ra, *y, rb);
        },
        (None, Some(y)) => {
            lemma_classify_empty(ra + pad);
            lemma_classify(*y, rb + pad);
        },
        (Some(x), None) => {
            lemma_classify(*x, ra + pad);
            lemma_classify_empty(rb + pad);
        },
    }
}

/// The renderings of as many shapes are read back in one way only.
pub proof fn lemma_read_back_all(ps: Seq<Shape>, ra: Seq<char>, qs: Seq<Shape>, rb: Seq<char>)
    requires
        ps.len() == qs.len(),
        forall|i: int| 0 <= i < ps.len() ==> spec_shape_ok(#[trigger] ps[i]),
        forall|i: int| 0 <= i < qs.len() ==> spec_shape_ok(#[trigger] qs[i]),
        spec_render_all(ps) + ra == spec_render_all(qs) + rb,
    ensures
        ps == qs,
        ra == rb,
    decreases ps, 1nat,
{
    if ps.len() == 0 {
        assert(spec_render_all(ps) + ra =~= ra);
        assert(spec_render_all(qs) + rb =~= rb);
        assert(ps =~= qs);
    } else {
        let pf = ps.drop_last();
        let qf = qs.drop_last();
        let pl = ps.last();
        let ql = qs.last();
        assert(spec_shape_ok(pl));
        assert(spec_shape_ok(ql));
        assert forall|i: int| 0 <= i < pf.len() implies spec_shape_ok(#[trigger] pf[i]) by {
            assert(pf[i] == ps[i]);
        }
        assert forall|i: int| 0 <= i < qf.len() implies spec_shape_ok(#[trigger] qf[i]) by {
            assert(qf[i] == qs[i]);
        }
        assert(spec_render_all(ps) + ra =~= spec_render_all(pf) + (spec_render(pl) + ra));
        assert(spec_render_all(qs) + rb =~= spec_render_all(qf) + (spec_render(ql) + rb));
        lemma_read_back_all(pf, spec_render(pl) + ra, qf, spec_render(ql) + rb);
        lemma_read_back(pl, ra, ql, rb);
        assert(ps =~= pf.push(pl));
        assert(qs =~= qf.push(ql));
    }
}

/// Different shapes have different names, and one shape has one name: of
/// two types with shapes, in one schema or in two, the synthesized names
/// are the same if and only if the shapes are.
pub proof fn lemma_names_tell_shapes_apart(
    first: SchemaModel,
    first_names: NameTableModel,
    first_ty: Type,
    second: SchemaModel,
    second_names: NameTableModel,
    second_ty: Type,
)
    requires
        spec_shape_of(first, first_ty, first.types.len()) is Some,
        spec_shape_of(second, second_ty, second.types.len()) is Some,
    ensures
        spec_ty_name(first, first_names, first_ty, first.types.len()) is Some,
        spec_ty_name(second, second_names, second_ty, second.types.len()) is Some,
        spec_ty_name(first, first_names, first_ty, first.types.len()) == spec_ty_name(
            second,
            second_names,
            second_ty,
            second.types.len(),
        ) <==> spec_shape_of(first, first_ty, first.types.len()) == spec_shape_of(
            second,
            second_ty,
            second.types.len(),
        ),
{
    lemma_name_is_rendering(first, first_names, first_ty, first.types.len());
    lemma_name_is_rendering(second, second_names, second_ty, second.types.len());
    let a = spec_shape_of(first, first_ty, first.types.len())->0;
    let b = spec_shape_of(second, second_ty, second.types.len())->0;
    if spec_render(a) == spec_render(b) {
        assert(spec_render(a) + Seq::<char>::empty() =~= spec_render(a));
        assert(spec_render(b) + Seq::<char>::empty() =~= spec_render(b));
        lemma_read_back(a, Seq::empty(), b, Seq::empty());
    }
}

} // verus!
