//! The text accumulator that generated code is appended to.
//!
//! The accumulator is `wit_bindgen_core::Source`, which re-indents what is
//! pushed into it line by line.

use vstd::prelude::*;
use wit_bindgen_core::Source;

verus! {

/// `wit_bindgen_core::Source`, of which nothing but its text and its depth
/// is used.
#[verifier::external_type_specification]
#[verifier::external_body]
pub struct ExSource(Source);

/// The text that a `Source` holds.
pub uninterp spec fn source_text(s: Source) -> Seq<char>;

/// The indentation depth that a `Source` is at.
pub uninterp spec fn source_indent(s: Source) -> nat;

/// The text and the indentation depth of a `Source` that held `text` at
/// depth `indent`, after `Source::push_str` of `pushed`.
pub uninterp spec fn pushed(text: Seq<char>, indent: nat, pushed: Seq<char>) -> (Seq<char>, nat);

/// Calls `Source::default`, the derived default of a `Source`: an empty
/// text at depth zero.
#[verifier::external_body]
pub(crate) fn source_new() -> (s: Source)
    ensures
        source_text(s) == Seq::<char>::empty(),
        source_indent(s) == 0,
{
    Source::default()
}

/// Calls `Source::push_str`, which writes `text` line by line: a text of
/// several lines loses the white space before each line, a line that starts
/// with `}` is moved out by one depth, a line that ends in `{` moves what
/// follows in by one depth, and every line break is followed by two spaces
/// for each depth. The method reads the text and the depth of the `Source`
/// and `text`, and nothing else, so what the `Source` holds afterwards
/// depends on these three alone; [`pushed`] names it. The method does not
/// panic: the depth falls with `saturating_sub`, and it rises only with a
/// line that ends in `{` and is written to the text, so that a `Source`
/// that only this function changes has a depth below the length of its
/// text.
#[verifier::external_body]
pub(crate) fn source_push_str(s: &mut Source, text: &str)
    ensures
        (source_text(*final(s)), source_indent(*final(s))) == pushed(
            source_text(*old(s)),
            source_indent(*old(s)),
            text@,
        ),
{
    s.push_str(text)
}

/// Copies the text of a `Source`, which it hands out through its `Deref` to
/// `str`.
#[verifier::external_body]
pub(crate) fn source_to_string(s: &Source) -> (r: String)
    ensures
        r@ == source_text(*s),
{
    s.to_string()
}

/// An append-only text buffer.
pub struct EmissionBuffer {
    src: Source,
}

impl View for EmissionBuffer {
    type V = (Seq<char>, nat);

    /// The text held, and the indentation depth that the next line starts
    /// at.
    closed spec fn view(&self) -> (Seq<char>, nat) {
        (source_text(self.src), source_indent(self.src))
    }
}

impl EmissionBuffer {
    /// An empty buffer.
    pub fn new() -> (r: Self)
        ensures
            r@ == (Seq::<char>::empty(), 0nat),
    {
        EmissionBuffer { src: source_new() }
    }

    /// Appends `text`, re-indented line by line.
    pub fn push_str(&mut self, text: &str)
        ensures
            final(self)@ == pushed(old(self)@.0, old(self)@.1, text@),
    {
        source_push_str(&mut self.src, text)
    }

    /// The text held.
    pub fn to_string(&self) -> (r: String)
        ensures
            r@ == self@.0,
    {
        source_to_string(&self.src)
    }
}

} // verus!
