//! The null-based optional adapter: an optional value whose absence is the
//! host format's native absent indicator. A present position holds the text
//! form; an empty string here is ordinary input text, not absence.

use vstd::prelude::*;

use crate::codec::{ParseFailure, TextCodec, TextScalar};

verus! {

/// What decoding an optionally-absent string position yields: native absence
/// becomes `Ok(None)`; present text parses to `Ok(Some(v))` or is rejected.
/// An empty present string is handed to the parse operation like any other.
pub open spec fn decode_spec<T: TextCodec>(input: Option<Seq<char>>) -> Result<Option<T>, ()> {
    match input {
        None => Ok(None),
        Some(s) => match T::parse_spec(s) {
            Some(v) => Ok(Some(v)),
            None => Err(()),
        },
    }
}

/// What encoding an optional value produces: `None` becomes the native absent
/// indicator; `Some(v)` becomes the rendering of `v` — never an empty string
/// standing in for absence.
pub open spec fn encode_spec<T: TextCodec>(o: Option<T>) -> Option<Seq<char>> {
    match o {
        None => None,
        Some(v) => Some(T::render_spec(v)),
    }
}

/// Decode an optional value from an optionally-absent string position.
pub fn decode<T: TextCodec>(input: &TextScalar) -> (r: Result<Option<T>, ParseFailure>)
    ensures
        r is Ok <==> decode_spec::<T>(input@) is Ok,
        r is Ok ==> r->Ok_0 == decode_spec::<T>(input@)->Ok_0,
{
    match input {
        TextScalar::Absent => Ok(None),
        TextScalar::Text(s) => match T::parse(s.as_str()) {
            Ok(v) => Ok(Some(v)),
            Err(message) => Err(ParseFailure { message }),
        },
    }
}

/// Encode an optional value into an optionally-absent string position.
pub fn encode<T: TextCodec>(o: &Option<T>) -> (r: TextScalar)
    ensures
        r@ == encode_spec::<T>(*o),
{
    match o {
        None => TextScalar::Absent,
        Some(v) => TextScalar::Text(v.render()),
    }
}

/// Round trip: for every optional value of a type whose own parse/render pair
/// round-trips, decoding the encoding yields the value back — absence included.
pub proof fn lemma_round_trip<T: TextCodec>(o: Option<T>)
    requires
        forall|w: T| #[trigger] T::parse_spec(T::render_spec(w)) == Some(w),
    ensures
        decode_spec::<T>(encode_spec::<T>(o)) == Ok::<Option<T>, ()>(o),
{
}

} // verus!
