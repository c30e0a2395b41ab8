//! The required-value adapter: a value in a plain string position, never
//! absent. Decoding hands the text verbatim to the type's parse operation;
//! encoding writes the type's rendering verbatim.

use vstd::prelude::*;

use crate::codec::{ParseFailure, TextCodec};

verus! {

/// What decoding the text `s` as a `T` yields: `Ok(v)` exactly when `T`
/// parses `s` to `v`, `Err` exactly when `T` rejects `s`.
pub open spec fn decode_spec<T: TextCodec>(s: Seq<char>) -> Result<T, ()> {
    match T::parse_spec(s) {
        Some(v) => Ok(v),
        None => Err(()),
    }
}

/// Decode a required value from its text form. The text is passed verbatim to
/// the type's parse operation; a rejection becomes a [`ParseFailure`] carrying
/// the type's own message.
pub fn decode<T: TextCodec>(s: &str) -> (r: Result<T, ParseFailure>)
    ensures
        r is Ok <==> decode_spec::<T>(s@) is Ok,
        r is Ok ==> r->Ok_0 == decode_spec::<T>(s@)->Ok_0,
{
    match T::parse(s) {
        Ok(v) => Ok(v),
        Err(message) => Err(ParseFailure { message }),
    }
}

/// Encode a required value as its text form, verbatim: no trimming, folding or
/// other normalization.
pub fn encode<T: TextCodec>(v: &T) -> (r: String)
    ensures
        r@ == T::render_spec(*v),
{
    v.render()
}

/// Round trip: for every value `v` of a type whose own parse/render pair
/// round-trips, decoding the encoding of `v` yields `v` back.
pub proof fn lemma_round_trip<T: TextCodec>(v: T)
    requires
        forall|w: T| #[trigger] T::parse_spec(T::render_spec(w)) == Some(w),
    ensures
        decode_spec::<T>(T::render_spec(v)) == Ok::<T, ()>(v),
{
}

} // verus!
