//! The digest pipeline: each composite value paired with the SHA-256 of its decimal text.
use vstd::prelude::*;
use crate::assembler::{assemble_values, RangeDesc, RangeError};
use crate::decimal::{decimal_bytes, decimal_text};

verus! {

/// Lowercase hexadecimal text of the SHA-256 digest of `data`.
pub uninterp spec fn sha256_hex_of(data: Seq<u8>) -> Seq<char>;

pub open spec fn is_lower_hex_digit(c: char) -> bool {
    ('0' <= c && c <= '9') || ('a' <= c && c <= 'f')
}

/// The digest under which `value` is stored: SHA-256 of its decimal text, in hex.
pub open spec fn digest_of(value: nat) -> Seq<char> {
    sha256_hex_of(decimal_text(value))
}

/// Relies on rust-crypto's `Sha256` through `Digest::input` and `Digest::result_str`:
/// the 32-byte digest of `data` as 64 lowercase hex digits.
#[verifier::external_body]
fn sha256_hex(data: &[u8]) -> (r: String)
    ensures
        r@ == sha256_hex_of(data@),
        r@.len() == 64,
        forall|i: int| 0 <= i < 64 ==> is_lower_hex_digit(#[trigger] r@[i]),
{
    let mut hasher = crypto::sha2::Sha256::new();
    crypto::digest::Digest::input(&mut hasher, data);
    crypto::digest::Digest::result_str(&mut hasher)
}

/// A stored pair: a digest and the value it was computed from.
#[derive(Debug, Clone, PartialEq, Eq)]
pub struct Record {
    pub digest: String,
    pub value: i64,
}

impl Record {
    /// The record is the one the pipeline makes for its value.
    pub open spec fn is_generated(&self) -> bool {
        self.value >= 0 && self.digest@ == digest_of(self.value as nat)
    }
}

/// The record of `value`: its digest and the value itself.
pub fn to_hash(value: i64) -> (r: Record)
    requires
        value >= 0,
    ensures
        r.value == value,
        r.digest@ == digest_of(value as nat),
        r.digest@.len() == 64,
{
    let text = decimal_bytes(value as u64);
    let digest = sha256_hex(text.as_slice());
    Record { digest, value }
}

/// The records of a range, one per integer of `start..=end` in ascending order,
/// or `ValueTooLarge` exactly when some composite value exceeds `i64::MAX`.
pub fn range_records(r: &RangeDesc) -> (res: Result<Vec<Record>, RangeError>)
    requires
        r.wf(),
    ensures
        res is Ok <==> r.fits(),
        res is Err ==> res == Err::<Vec<Record>, RangeError>(RangeError::ValueTooLarge),
        res matches Ok(v) ==> v@.len() == r.spec_len() && forall|i: int|
            0 <= i < r.spec_len() ==> {
                &&& v@[i].value == #[trigger] r.value_at(i)
                &&& v@[i].is_generated()
            },
{
    let values = assemble_values(r)?;
    let mut out: Vec<Record> = Vec::new();
    let mut i: usize = 0;
    while i < values.len()
        invariant
            values@.len() == r.spec_len(),
            forall|j: int| 0 <= j < r.spec_len() ==> values@[j] == #[trigger] r.value_at(j),
            i <= values@.len(),
            out@.len() == i,
            forall|j: int|
                0 <= j < i ==> {
                    &&& out@[j].value == #[trigger] r.value_at(j)
                    &&& out@[j].is_generated()
                },
        decreases values@.len() - i,
    {
        assert(values@[i as int] == r.value_at(i as int));
        out.push(to_hash(values[i]));
        i = i + 1;
    }
    Ok(out)
}

} // verus!
