//! Adapters that convert values to and from their text form for use at the
//! boundary of a generic serialization framework: a required-value adapter, an
//! optional adapter that marks absence with the format's native absent
//! indicator, and an optional adapter that marks absence with an empty string.

pub mod codec;
pub mod emp;
pub mod ipv4;
pub mod opt;
pub mod plain;
