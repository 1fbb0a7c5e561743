//! The record format: an entity record and its binary (de)serialization.
//!
//! A record is laid out as a tag byte, a little-endian `u32` byte count of
//! the UTF-8 encoded name, the name bytes themselves, and the three stat
//! fields as little-endian `u32` values.  Decoding reads exactly that prefix
//! and ignores whatever follows it, so a record written into a larger
//! zero-padded buffer decodes back unchanged.

use crate::errors::HorseError;
use vstd::bytes::{
    lemma_auto_spec_u32_to_from_le_bytes, spec_u32_from_le_bytes, spec_u32_to_le_bytes,
    u32_from_le_bytes, u32_to_le_bytes,
};
use vstd::prelude::*;
use vstd::slice::{slice_subrange, slice_to_vec};
use vstd::string::StrSliceExecFns;
use vstd::utf8::{
    decode_utf8, decode_utf8_encode_utf8, encode_utf8, encode_utf8_decode_utf8,
    encode_utf8_valid_utf8, valid_utf8,
};

verus! {

/// The leading byte of every encoded record.  A buffer that does not start
/// with it (a zeroed slot, foreign data) is rejected by `decode`.
pub const RECORD_TAG: u8 = 1;

/// The encoded size of a record with an empty name: the tag byte, the
/// four-byte name length, and three four-byte stat fields.
pub const MIN_RECORD_BYTES: usize = 17;

/// The largest UTF-8 byte length of a name the record format carries.
pub const MAX_NAME_BYTES: usize = 1024;

/// An entity record: a name and three stat counters.
#[derive(Debug)]
pub struct Horse {
    pub name: String,
    pub velocity: u32,
    pub durability: u32,
    pub stability: u32,
}

/// The mathematical model of a [`Horse`]: the name as a character sequence
/// beside the three stat fields.
#[verifier::ext_equal]
pub ghost struct HorseView {
    pub name: Seq<char>,
    pub velocity: u32,
    pub durability: u32,
    pub stability: u32,
}

impl View for Horse {
    type V = HorseView;

    open spec fn view(&self) -> HorseView {
        HorseView {
            name: self.name@,
            velocity: self.velocity,
            durability: self.durability,
            stability: self.stability,
        }
    }
}

/// A record the format can hold: its name's UTF-8 encoding fits the
/// length-prefixed name field.
pub open spec fn valid_record(h: HorseView) -> bool {
    encode_utf8(h.name).len() <= MAX_NAME_BYTES
}

/// The byte sequence that encodes the record `h`.
pub open spec fn spec_encode(h: HorseView) -> Seq<u8> {
    seq![RECORD_TAG] + spec_u32_to_le_bytes(encode_utf8(h.name).len() as u32) + encode_utf8(
        h.name,
    ) + spec_u32_to_le_bytes(h.velocity) + spec_u32_to_le_bytes(h.durability)
        + spec_u32_to_le_bytes(h.stability)
}

/// The record encoded at the front of `b`, or `None` when no valid encoding
/// starts there.  Bytes after the encoded prefix are ignored.
pub open spec fn spec_decode(b: Seq<u8>) -> Option<HorseView> {
    if b.len() < MIN_RECORD_BYTES {
        None
    } else if b[0] != RECORD_TAG {
        None
    } else {
        let l = spec_u32_from_le_bytes(b.subrange(1, 5)) as int;
        if l > MAX_NAME_BYTES {
            None
        } else if b.len() < MIN_RECORD_BYTES + l {
            None
        } else {
            let nb = b.subrange(5, 5 + l);
            if !valid_utf8(nb) {
                None
            } else {
                Some(
                    HorseView {
                        name: decode_utf8(nb),
                        velocity: spec_u32_from_le_bytes(b.subrange(5 + l, 9 + l)),
                        durability: spec_u32_from_le_bytes(b.subrange(9 + l, 13 + l)),
                        stability: spec_u32_from_le_bytes(b.subrange(13 + l, 17 + l)),
                    },
                )
            }
        }
    }
}

/// Relies on alloc's `String::from_utf8`: it succeeds exactly on valid UTF-8
/// input, and the returned string is the one whose UTF-8 encoding is that
/// input.
#[verifier::external_body]
fn string_from_utf8(bytes: Vec<u8>) -> (r: Option<String>)
    ensures
        r is Some <==> valid_utf8(bytes@),
        r matches Some(s) ==> encode_utf8(s@) == bytes@,
{
    match String::from_utf8(bytes) {
        Ok(s) => Some(s),
        Err(_) => None,
    }
}

impl Horse {
    /// Serializes the record into its binary layout.  Succeeds exactly on
    /// records the format can hold; a longer name is reported, not truncated.
    pub fn encode(&self) -> (r: Result<Vec<u8>, HorseError>)
        ensures
            valid_record(self@) ==> (r matches Ok(b) && b@ == spec_encode(self@)),
            !valid_record(self@) ==> (r matches Err(e) && e == HorseError::NameTooLong),
    {
        let name_bytes = self.name.as_str().as_bytes_vec();
        if name_bytes.len() > MAX_NAME_BYTES {
            return Err(HorseError::NameTooLong);
        }
        let mut out: Vec<u8> = Vec::new();
        out.push(RECORD_TAG);
        let mut len_bytes = u32_to_le_bytes(name_bytes.len() as u32);
        out.append(&mut len_bytes);
        let mut name_bytes = name_bytes;
        out.append(&mut name_bytes);
        let mut velocity_bytes = u32_to_le_bytes(self.velocity);
        out.append(&mut velocity_bytes);
        let mut durability_bytes = u32_to_le_bytes(self.durability);
        out.append(&mut durability_bytes);
        let mut stability_bytes = u32_to_le_bytes(self.stability);
        out.append(&mut stability_bytes);
        proof {
            assert(out@ =~= spec_encode(self@));
        }
        Ok(out)
    }

    /// Parses the record encoded at the front of `bytes`; any trailing bytes
    /// (a slot's zero padding) are ignored.  Returns `Malformed` exactly when
    /// no valid encoding starts there.
    pub fn decode(bytes: &[u8]) -> (r: Result<Horse, HorseError>)
        ensures
            match spec_decode(bytes@) {
                Some(h) => r matches Ok(x) && x@ == h,
                None => r matches Err(e) && e == HorseError::Malformed,
            },
    {
        if bytes.len() < MIN_RECORD_BYTES {
            return Err(HorseError::Malformed);
        }
        if bytes[0] != RECORD_TAG {
            return Err(HorseError::Malformed);
        }
        let name_len = u32_from_le_bytes(slice_subrange(bytes, 1, 5)) as usize;
        if name_len > MAX_NAME_BYTES {
            return Err(HorseError::Malformed);
        }
        if bytes.len() < MIN_RECORD_BYTES + name_len {
            return Err(HorseError::Malformed);
        }
        let name_bytes = slice_to_vec(slice_subrange(bytes, 5, 5 + name_len));
        let name = match string_from_utf8(name_bytes) {
            Some(s) => s,
            None => {
                return Err(HorseError::Malformed);
            },
        };
        let velocity = u32_from_le_bytes(slice_subrange(bytes, 5 + name_len, 9 + name_len));
        let durability = u32_from_le_bytes(slice_subrange(bytes, 9 + name_len, 13 + name_len));
        let stability = u32_from_le_bytes(slice_subrange(bytes, 13 + name_len, 17 + name_len));
        let horse = Horse { name, velocity, durability, stability };
        proof {
            let nb = bytes@.subrange(5, 5 + name_len as int);
            encode_utf8_decode_utf8(horse.name@);
            assert(decode_utf8(nb) == horse.name@);
        }
        Ok(horse)
    }
}

/// Round-trip law: decoding an encoded record gives the record back, with or
/// without trailing padding after the encoded prefix.
pub proof fn lemma_record_round_trip(h: HorseView, pad: Seq<u8>)
    requires
        valid_record(h),
    ensures
        spec_decode(spec_encode(h) + pad) == Some(h),
{
    lemma_auto_spec_u32_to_from_le_bytes();
    encode_utf8_valid_utf8(h.name);
    encode_utf8_decode_utf8(h.name);
    let nb = encode_utf8(h.name);
    let l = nb.len() as int;
    let e = spec_encode(h) + pad;
    assert(e.len() == 17 + l + pad.len());
    assert(e[0] == RECORD_TAG);
    assert(e.subrange(1, 5) =~= spec_u32_to_le_bytes(nb.len() as u32));
    assert(spec_u32_from_le_bytes(e.subrange(1, 5)) as int == l);
    assert(e.subrange(5, 5 + l) =~= nb);
    assert(e.subrange(5 + l, 9 + l) =~= spec_u32_to_le_bytes(h.velocity));
    assert(e.subrange(9 + l, 13 + l) =~= spec_u32_to_le_bytes(h.durability));
    assert(e.subrange(13 + l, 17 + l) =~= spec_u32_to_le_bytes(h.stability));
    assert(spec_decode(e) == Some(h));
}

/// A decoded record is itself encodable, and its encoding is no longer than
/// the bytes it was decoded from.
pub proof fn lemma_decode_valid(b: Seq<u8>)
    requires
        spec_decode(b) is Some,
    ensures
        valid_record(spec_decode(b).unwrap()),
        spec_encode(spec_decode(b).unwrap()).len() <= b.len(),
{
    lemma_auto_spec_u32_to_from_le_bytes();
    let l = spec_u32_from_le_bytes(b.subrange(1, 5)) as int;
    let nb = b.subrange(5, 5 + l);
    decode_utf8_encode_utf8(nb);
    let h = spec_decode(b).unwrap();
    assert(encode_utf8(h.name) == nb);
    assert(spec_encode(h).len() == 17 + l);
}

} // verus!
