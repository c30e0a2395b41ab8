//! The shared vocabulary of the adapters: the parse/render capability that a
//! wrapped value type must offer, the single error kind the adapters raise,
//! and the model of a string position that a format may mark absent.

use vstd::prelude::*;

verus! {

/// A value type that knows how to parse itself from text and render itself as
/// text. `parse_spec` and `render_spec` are the mathematical statements of the
/// two operations; `parse` and `render` are the executable counterparts, held
/// to those statements.
pub trait TextCodec: Sized {
    /// What parsing the text `s` yields: `Some(v)` when `s` is a valid
    /// rendering of `v`, `None` when the type rejects `s`.
    spec fn parse_spec(s: Seq<char>) -> Option<Self>;

    /// The text that rendering the value produces.
    spec fn render_spec(v: Self) -> Seq<char>;

    /// Parse a value from text. On rejection the `Err` carries the type's own
    /// human-readable message; which message is the type's choice.
    fn parse(s: &str) -> (r: Result<Self, String>)
        ensures
            r is Ok <==> Self::parse_spec(s@) is Some,
            r is Ok ==> Self::parse_spec(s@) == Some(r->Ok_0),
    ;

    /// Render the value as text.
    fn render(&self) -> (r: String)
        ensures
            r@ == Self::render_spec(*self),
    ;
}

/// The one error the adapters ever raise themselves: the wrapped type's parse
/// operation rejected the text. The message is the wrapped error's display
/// text, so diagnostics stay meaningful whatever the wrapped type is.
#[derive(Debug)]
pub struct ParseFailure {
    /// The wrapped type's own description of the rejection.
    pub message: String,
}

/// A string position as the host format presents it: either marked absent by
/// the format's native "no value" indicator, or holding a text scalar.
#[derive(Debug)]
pub enum TextScalar {
    /// The format's native absent indicator.
    Absent,
    /// A present text scalar.
    Text(String),
}

impl View for TextScalar {
    type V = Option<Seq<char>>;

    open spec fn view(&self) -> Option<Seq<char>> {
        match *self {
            TextScalar::Absent => None,
            TextScalar::Text(s) => Some(s@),
        }
    }
}

} // verus!
