//! The empty-string-based optional adapter: an optional value that always
//! occupies a string position, with the empty string standing for absence.
//! On input, native absence and the empty string both mean absent; on output,
//! absence is always written as the empty string, never as the native absent
//! indicator.

use vstd::prelude::*;

use crate::codec::{ParseFailure, TextCodec, TextScalar};

verus! {

/// What decoding yields: native absence and the empty string both become
/// `Ok(None)`; any other text parses to `Ok(Some(v))` or is rejected.
pub open spec fn decode_spec<T: TextCodec>(input: Option<Seq<char>>) -> Result<Option<T>, ()> {
    match input {
        None => Ok(None),
        Some(s) => if s.len() == 0 {
            Ok(None)
        } else {
            match T::parse_spec(s) {
                Some(v) => Ok(Some(v)),
                None => Err(()),
            }
        },
    }
}

/// What encoding produces: always a string — the empty string for `None`, the
/// rendering of `v` for `Some(v)`.
pub open spec fn encode_spec<T: TextCodec>(o: Option<T>) -> Seq<char> {
    match o {
        None => Seq::empty(),
        Some(v) => T::render_spec(v),
    }
}

/// What a field serialized under an omit-when-absent policy carries: `None`
/// means the field is left out of the output entirely; `Some(text)` means a
/// string scalar is written. Without the policy an absent value still writes
/// the empty string.
pub open spec fn encode_field_spec<T: TextCodec>(o: Option<T>, omit_absent: bool) -> Option<
    Seq<char>,
> {
    if omit_absent && o is None {
        None
    } else {
        Some(encode_spec::<T>(o))
    }
}

/// Decode an optional value from a string position where the empty string
/// means absent.
pub fn decode<T: TextCodec>(input: &TextScalar) -> (r: Result<Option<T>, ParseFailure>)
    ensures
        r is Ok <==> decode_spec::<T>(input@) is Ok,
        r is Ok ==> r->Ok_0 == decode_spec::<T>(input@)->Ok_0,
{
    match input {
        TextScalar::Absent => Ok(None),
        TextScalar::Text(s) => if s.as_str().is_empty() {
            Ok(None)
        } else {
            match T::parse(s.as_str()) {
                Ok(v) => Ok(Some(v)),
                Err(message) => Err(ParseFailure { message }),
            }
        },
    }
}

/// Encode an optional value into a string position, the empty string standing
/// for absence.
pub fn encode<T: TextCodec>(o: &Option<T>) -> (r: String)
    ensures
        r@ == encode_spec::<T>(*o),
{
    match o {
        None => String::new(),
        Some(v) => v.render(),
    }
}

/// Encode a field under an optional omit-when-absent policy, as the host
/// framework's skip-when-absent feature layers it on this adapter: with the
/// policy on, an absent value omits the field entirely; otherwise the field
/// holds what [`encode`] produces.
pub fn encode_field<T: TextCodec>(o: &Option<T>, omit_absent: bool) -> (r: Option<String>)
    ensures
        r is Some <==> encode_field_spec::<T>(*o, omit_absent) is Some,
        match r {
            Some(text) => encode_field_spec::<T>(*o, omit_absent) == Some(text@),
            None => encode_field_spec::<T>(*o, omit_absent) is None,
        },
{
    if omit_absent && o.is_none() {
        None
    } else {
        Some(encode(o))
    }
}

/// Round trip: for every optional value of a type whose own parse/render pair
/// round-trips, decoding the string this adapter encodes yields the value
/// back — provided a present value never renders to the empty string, which
/// this adapter reserves for absence.
pub proof fn lemma_round_trip<T: TextCodec>(o: Option<T>)
    requires
        forall|w: T| #[trigger] T::parse_spec(T::render_spec(w)) == Some(w),
        o matches Some(v) ==> T::render_spec(v).len() != 0,
    ensures
        decode_spec::<T>(Some(encode_spec::<T>(o))) == Ok::<Option<T>, ()>(o),
{
}

} // verus!
