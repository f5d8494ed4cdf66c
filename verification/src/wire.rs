//! The byte encoding of log entries, done by `bincode`.
//!
//! A command travels as a `Result<(String, String), String>`: bincode lays
//! that value out exactly as it lays out the enum `Command` (a `u32` variant
//! index, then each field), so the bytes on the wire are those of the command.

use vstd::prelude::*;
use vstd::utf8::encode_utf8;

verus! {

/// The value that bincode encodes, taken by the views of its strings.
pub type WireView = Result<(Seq<char>, Seq<char>), Seq<char>>;

/// The view of a value handed to or received from bincode.
pub open spec fn wire_view(w: Result<(String, String), String>) -> WireView {
    match w {
        Ok((k, v)) => Ok((k@, v@)),
        Err(k) => Err(k@),
    }
}

/// The view of an optional decoded value.
pub open spec fn opt_wire_view(w: Option<Result<(String, String), String>>) -> Option<WireView> {
    match w {
        Some(x) => Some(wire_view(x)),
        None => None,
    }
}

/// The `width` lowest bytes of `n`, least significant first.
pub open spec fn le_bytes(n: nat, width: nat) -> Seq<u8>
    decreases width,
{
    if width == 0 {
        Seq::empty()
    } else {
        seq![(n % 256) as u8] + le_bytes(n / 256, (width - 1) as nat)
    }
}

/// A string as bincode writes it: its UTF-8 length as a little-endian `u64`,
/// then its UTF-8 bytes.
pub open spec fn bincode_str(s: Seq<char>) -> Seq<u8> {
    le_bytes(encode_utf8(s).len(), 8) + encode_utf8(s)
}

/// What `bincode::serialize` produces for a value: the variant index (`Ok` is
/// 0, `Err` is 1) as a little-endian `u32`, then each string of the variant.
pub open spec fn bincode_serialized(value: WireView) -> Seq<u8> {
    match value {
        Ok((k, v)) => le_bytes(0, 4) + bincode_str(k) + bincode_str(v),
        Err(k) => le_bytes(1, 4) + bincode_str(k),
    }
}

/// What `bincode::deserialize` yields from a byte string: `None` where it
/// reports an error.
pub uninterp spec fn bincode_deserialized(bytes: Seq<u8>) -> Option<WireView>;

/// Calls `bincode::serialize` (default fixed-width little-endian options).
/// Claims: the bytes are the encoding that `bincode_serialized` spells out
/// (fixed-width integers, no size limit), and decoding them
/// with `bincode::deserialize` gives the value back. Serialising strings into
/// a `Vec` never reports an error in bincode 1.3, so the `unwrap` cannot fire.
#[verifier::external_body]
pub(crate) fn bincode_serialize(value: &Result<(String, String), String>) -> (bytes: Vec<u8>)
    ensures
        bytes@ == bincode_serialized(wire_view(*value)),
        bincode_deserialized(bytes@) == Some(wire_view(*value)),
{
    bincode::serialize(value).unwrap()
}

/// Calls `bincode::deserialize` for a `Result<(String, String), String>`.
/// Claims only that the outcome is the named decoding of the bytes.
#[verifier::external_body]
pub(crate) fn bincode_deserialize(bytes: &[u8]) -> (value: Option<Result<(String, String), String>>)
    ensures
        opt_wire_view(value) == bincode_deserialized(bytes@),
{
    bincode::deserialize::<Result<(String, String), String>>(bytes).ok()
}

} // verus!
