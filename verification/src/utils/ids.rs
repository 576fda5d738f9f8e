//! Entity ids: the 128-bit values of UUIDs, made, read from bytes and read from text
//! by the `uuid` crate.
use vstd::prelude::*;
use crate::domain::Id;

verus! {

#[verifier::external_type_specification]
#[verifier::external_body]
pub struct ExUuidError(uuid::Error);

/// The number that `bytes` spell in big-endian order.
pub open spec fn big_endian_value(bytes: Seq<u8>) -> int
    decreases bytes.len(),
{
    if bytes.len() == 0 {
        0
    } else {
        big_endian_value(bytes.drop_last()) * 256 + bytes.last()
    }
}

/// The UUID that a text holds in one of the forms that `uuid` writes (simple,
/// hyphenated, URN or braced), or nothing.
pub uninterp spec fn parsed_uuid(text: Seq<char>) -> Option<Id>;

/// Calls `Uuid::new_v4` and takes its 128-bit value.
/// Trusted: nothing; the value is random.
#[verifier::external_body]
pub(crate) fn new_id() -> (res: Id) {
    uuid::Uuid::new_v4().as_u128()
}

/// Calls `Uuid::from_slice` and takes the 128-bit value.
/// Trusted: it fails exactly when the slice is not 16 bytes long, and otherwise the
/// value is the bytes read in big-endian order (`from_bytes` then `as_u128`).
#[verifier::external_body]
pub(crate) fn uuid_from_slice(bytes: &[u8]) -> (res: Result<Id, uuid::Error>)
    ensures
        res is Ok <==> bytes@.len() == 16,
        res matches Ok(v) ==> v as int == big_endian_value(bytes@),
{
    match uuid::Uuid::from_slice(bytes) {
        Ok(u) => Ok(u.as_u128()),
        Err(e) => Err(e),
    }
}

/// Calls `Uuid::parse_str` and takes the 128-bit value.
/// Trusted: the outcome is a function of the text alone.
#[verifier::external_body]
pub(crate) fn uuid_from_text(text: &str) -> (res: Result<Id, uuid::Error>)
    ensures
        res is Ok <==> parsed_uuid(text@) is Some,
        res matches Ok(v) ==> parsed_uuid(text@) == Some(v),
{
    match uuid::Uuid::parse_str(text) {
        Ok(u) => Ok(u.as_u128()),
        Err(e) => Err(e),
    }
}

/// Calls `Uuid::from_u128` and copies out `as_bytes`.
/// Trusted: the UUID is built from the value's big-endian bytes (`to_be_bytes`), so
/// the result is those 16 bytes.
#[verifier::external_body]
pub(crate) fn uuid_bytes(id: Id) -> (res: Vec<u8>)
    ensures
        res@.len() == 16,
        big_endian_value(res@) == id as int,
{
    uuid::Uuid::from_u128(id).as_bytes().to_vec()
}

} // verus!
