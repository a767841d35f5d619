//! Record identities: twelve raw bytes, written as 24 hexadecimal digits.
use vstd::prelude::*;

use crate::error::TripError;

verus! {

/// Identity of a stored record.
#[derive(Clone, Copy, Debug)]
pub struct ObjectId {
    pub bytes: [u8; 12],
}

impl PartialEq for ObjectId {
    fn eq(&self, o: &ObjectId) -> (r: bool) {
        let mut i: usize = 0;
        while i < 12
            invariant
                0 <= i <= 12,
                forall|k: int| 0 <= k < i ==> self.bytes@[k] == o.bytes@[k],
            decreases 12 - i,
        {
            if self.bytes[i] != o.bytes[i] {
                return false;
            }
            i += 1;
        }
        proof {
            assert(self.bytes@ =~= o.bytes@);
        }
        true
    }
}

impl vstd::std_specs::cmp::PartialEqSpecImpl for ObjectId {
    open spec fn obeys_eq_spec() -> bool {
        true
    }

    open spec fn eq_spec(&self, o: &ObjectId) -> bool {
        self.bytes@ == o.bytes@
    }
}

impl Eq for ObjectId {}

/// Two identities are the same when their bytes are.
pub open spec fn same_id(a: ObjectId, b: ObjectId) -> bool {
    a.bytes@ == b.bytes@
}

pub open spec fn is_hex_digit(c: char) -> bool {
    ('0' <= c && c <= '9') || ('a' <= c && c <= 'f') || ('A' <= c && c <= 'F')
}

pub open spec fn hex_value(c: char) -> int {
    if '0' <= c && c <= '9' {
        c as int - '0' as int
    } else if 'a' <= c && c <= 'f' {
        c as int - 'a' as int + 10
    } else {
        c as int - 'A' as int + 10
    }
}

/// Whether `s` is the text form of an identity: exactly 24 hex digits.
pub open spec fn is_id_text(s: Seq<char>) -> bool {
    s.len() == 24 && forall|i: int| 0 <= i < 24 ==> #[trigger] is_hex_digit(s[i])
}

/// The bytes that a 24-digit text stands for, two digits per byte, high digit first.
pub open spec fn id_bytes_of(s: Seq<char>) -> Seq<u8> {
    Seq::new(12, |i: int| (hex_value(s[2 * i]) * 16 + hex_value(s[2 * i + 1])) as u8)
}

/// Relies on bson's `ObjectId::parse_str`: it hex-decodes the text (digits of
/// either case, two per byte) and accepts the result only when it is 12 bytes.
#[verifier::external_body]
fn decode_id_text(s: &str) -> (r: Option<ObjectId>)
    ensures
        r is Some <==> is_id_text(s@),
        r matches Some(id) ==> id.bytes@ == id_bytes_of(s@),
{
    bson::oid::ObjectId::parse_str(s).ok().map(|o| ObjectId { bytes: o.bytes() })
}

/// Relies on bson's `ObjectId::new`: a fresh identity from the clock, the
/// process and a counter. Nothing is promised of its bytes.
#[verifier::external_body]
pub(crate) fn fresh_id() -> (r: ObjectId) {
    ObjectId { bytes: bson::oid::ObjectId::new().bytes() }
}

/// Reads an identity from its text form; malformed text is a validation error.
pub fn parse_object_id(s: &str) -> (r: Result<ObjectId, TripError>)
    ensures
        r is Ok <==> is_id_text(s@),
        r matches Ok(id) ==> id.bytes@ == id_bytes_of(s@),
        r matches Err(e) ==> e == TripError::Validation,
{
    match decode_id_text(s) {
        Some(id) => Ok(id),
        None => Err(TripError::Validation),
    }
}

} // verus!
