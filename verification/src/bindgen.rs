//! Lifting of parameters and lowering of results for one exported function.
//!
//! Lifting decodes a parameter from its wire form; it names the wire
//! parameters that stand for it and collects the statements that rebuild the
//! value. Lowering encodes the result; it collects the statements that hand
//! the value back.

use vstd::prelude::*;
use crate::buffer::{pushed, EmissionBuffer};
use crate::schema::Type;
use crate::types::{spec_is_word, spec_word_name, word_name, UnsupportedType};

verus! {

/// The statements that hand a primitive result back and close the body.
pub const LOWER_WORD: &'static str = "return result;\n}\n";

/// The statements that hand a string result back and close the body. They
/// make the one allocation of the lowering, of as many bytes as the string
/// has, and copy the string there; they write the pointer and the length of
/// the copy, as two little-endian 32-bit words, into the eight bytes of a
/// header that the entry point keeps, and return the address of the
/// header.
pub const LOWER_STRING: &'static str =
    "const payload = alloc(result.len);\n@memcpy(payload[0..result.len], result);\nconst Header = struct {\nvar bytes: [8]u8 = .{0} ** 8;\n};\nstd.mem.writeIntLittle(u32, Header.bytes[0..4], @intCast(@intFromPtr(payload)));\nstd.mem.writeIntLittle(u32, Header.bytes[4..8], @intCast(result.len));\nreturn &Header.bytes;\n}\n";

/// The model of a [`FunctionBindgen`]: the wire parameters so far, each a
/// name and a type, and the text and indentation depth of the two buffers.
pub struct FunctionBindgenModel {
    pub args: Seq<(Seq<char>, Seq<char>)>,
    pub lower_src: (Seq<char>, nat),
    pub lift_src: (Seq<char>, nat),
}

/// The wire parameters that stand for the parameter `param` of type `ty`:
/// the parameter itself for a primitive type, a pointer and a length for a
/// string; none for the types that the backend does not implement.
pub open spec fn spec_lifted_args(param: Seq<char>, ty: Type) -> Option<Seq<(Seq<char>, Seq<char>)>> {
    if spec_is_word(ty) {
        Some(seq![(param, spec_word_name(ty))])
    } else if ty is String {
        Some(seq![(param + "Ptr"@, "[*]u8"@), (param + "Length"@, "u32"@)])
    } else {
        None
    }
}

/// The statement that rebuilds the string parameter `param` from its
/// pointer and its length.
pub open spec fn spec_lift_text(param: Seq<char>) -> Seq<char> {
    "const "@ + param + " = "@ + param + "Ptr[0.."@ + param + "Length];\n"@
}

/// The state after the parameter `param` of type `ty` has been lifted;
/// none where the type is not implemented.
pub open spec fn spec_lift_value(b: FunctionBindgenModel, param: Seq<char>, ty: Type) -> Option<
    FunctionBindgenModel,
> {
    match spec_lifted_args(param, ty) {
        Some(args) => Some(
            FunctionBindgenModel {
                args: b.args + args,
                lower_src: b.lower_src,
                lift_src: if ty is String {
                    pushed(b.lift_src.0, b.lift_src.1, spec_lift_text(param))
                } else {
                    b.lift_src
                },
            },
        ),
        None => None,
    }
}

/// The statements that hand a result of type `ty` back; none for a
/// reference to a type definition, which the backend does not implement.
pub open spec fn spec_lower_text(ty: Type) -> Option<Seq<char>> {
    match ty {
        Type::String => Some(LOWER_STRING@),
        Type::Id(_) => None,
        _ => Some(LOWER_WORD@),
    }
}

/// The state after a result of type `ty` has been lowered; none where the
/// type is not implemented.
pub open spec fn spec_lower_value(b: FunctionBindgenModel, ty: Type) -> Option<FunctionBindgenModel> {
    match spec_lower_text(ty) {
        Some(text) => Some(
            FunctionBindgenModel {
                args: b.args,
                lower_src: pushed(b.lower_src.0, b.lower_src.1, text),
                lift_src: b.lift_src,
            },
        ),
        None => None,
    }
}

/// The collector of what lifting and lowering produce for one function.
pub struct FunctionBindgen {
    /// The wire parameters, each a name and a type.
    pub args: Vec<(String, String)>,
    /// The statements that lower the result.
    pub lower_src: EmissionBuffer,
    /// The statements that lift the parameters.
    pub lift_src: EmissionBuffer,
}

impl View for FunctionBindgen {
    type V = FunctionBindgenModel;

    open spec fn view(&self) -> FunctionBindgenModel {
        FunctionBindgenModel {
            args: self.args.deep_view(),
            lower_src: self.lower_src@,
            lift_src: self.lift_src@,
        }
    }
}

impl FunctionBindgen {
    /// A collector that holds nothing yet.
    pub fn new() -> (r: Self)
        ensures
            r@ == (FunctionBindgenModel {
                args: Seq::empty(),
                lower_src: (Seq::empty(), 0nat),
                lift_src: (Seq::empty(), 0nat),
            }),
    {
        let r = FunctionBindgen {
            args: Vec::new(),
            lower_src: EmissionBuffer::new(),
            lift_src: EmissionBuffer::new(),
        };
        assert(r@.args =~= Seq::empty());
        r
    }

    /// Lowers the result `name` of type `ty`.
    pub fn lower(&mut self, name: &str, ty: &Type, in_export: bool) -> (r: Result<(), UnsupportedType>)
        ensures
            match spec_lower_value(old(self)@, *ty) {
                Some(after) => r is Ok && final(self)@ == after,
                None => r == Err::<(), UnsupportedType>(UnsupportedType { ty: *ty }) && final(self)@
                    == old(self)@,
            },
    {
        let mut lower_name = "lower_".to_string();
        lower_name.append(name);
        self.lower_value(name, ty, lower_name.as_str())
    }

    /// Appends the statements that hand a result of type `ty` back.
    pub fn lower_value(&mut self, param: &str, ty: &Type, lower_name: &str) -> (r: Result<
        (),
        UnsupportedType,
    >)
        ensures
            match spec_lower_value(old(self)@, *ty) {
                Some(after) => r is Ok && final(self)@ == after,
                None => r == Err::<(), UnsupportedType>(UnsupportedType { ty: *ty }) && final(self)@
                    == old(self)@,
            },
    {
        match ty {
            Type::String => {
                self.lower_src.push_str(LOWER_STRING);
                Ok(())
            },
            Type::Id(_) => Err(UnsupportedType { ty: *ty }),
            _ => {
                self.lower_src.push_str(LOWER_WORD);
                Ok(())
            },
        }
    }

    /// Lifts the parameter `name` of type `ty`.
    pub fn lift(&mut self, name: &str, ty: &Type) -> (r: Result<(), UnsupportedType>)
        ensures
            match spec_lift_value(old(self)@, name@, *ty) {
                Some(after) => r is Ok && final(self)@ == after,
                None => r == Err::<(), UnsupportedType>(UnsupportedType { ty: *ty }) && final(self)@
                    == old(self)@,
            },
    {
        self.lift_value(name, ty)
    }

    /// Appends the wire parameters that stand for `param`, and for a string
    /// the statement that rebuilds it.
    pub fn lift_value(&mut self, param: &str, ty: &Type) -> (r: Result<(), UnsupportedType>)
        ensures
            match spec_lift_value(old(self)@, param@, *ty) {
                Some(after) => r is Ok && final(self)@ == after,
                None => r == Err::<(), UnsupportedType>(UnsupportedType { ty: *ty }) && final(self)@
                    == old(self)@,
            },
    {
        let ghost before = self@;
        match word_name(ty) {
            Some(name) => {
                self.args.push((param.to_string(), name.to_string()));
                assert(self@.args =~= before.args + seq![(param@, spec_word_name(*ty))]);
                Ok(())
            },
            None => match ty {
                Type::String => {
                    let mut text = "const ".to_string();
                    text.append(param);
                    text.append(" = ");
                    text.append(param);
                    text.append("Ptr[0..");
                    text.append(param);
                    text.append("Length];\n");
                    self.lift_src.push_str(text.as_str());
                    let mut ptr = param.to_string();
                    ptr.append("Ptr");
                    let mut len = param.to_string();
                    len.append("Length");
                    self.args.push((ptr, "[*]u8".to_string()));
                    self.args.push((len, "u32".to_string()));
                    assert(self@.args =~= before.args + seq![
                        (param@ + "Ptr"@, "[*]u8"@),
                        (param@ + "Length"@, "u32"@),
                    ]);
                    Ok(())
                },
                _ => Err(UnsupportedType { ty: *ty }),
            },
        }
    }
}

} // verus!
