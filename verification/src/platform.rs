//! Identifiers and time stamps as the rest of the library holds them, and the
//! few calls that fetch them from the machine.
//!
//! An identifier is the 128-bit number of a UUID. A time stamp counts
//! microseconds since the Unix epoch.

use vstd::prelude::*;

verus! {

/// The canonical text of an identifier: the lower-case hyphenated form that
/// `uuid::Uuid` prints, for the UUID whose 128-bit value is `id`.
pub uninterp spec fn hyphenated_id(id: u128) -> Seq<char>;

/// Draws a random identifier with `uuid::Uuid::new_v4` and returns the 128-bit
/// number it encodes.
///
/// Believed, not proved: the version field holds 4 and the variant field holds
/// binary 10, which that function fixes in every value it returns. Nothing is
/// claimed about the remaining bits; two draws may collide.
#[verifier::external_body]
pub(crate) fn fresh_id() -> (id: u128)
    ensures
        (id >> 76) & 0xf == 4,
        (id >> 62) & 0x3 == 2,
{
    uuid::Uuid::new_v4().as_u128()
}

/// Reads the wall clock with `chrono::Utc::now` and returns it in microseconds
/// since the Unix epoch, as `DateTime::timestamp_micros` gives it.
///
/// The reading depends on the machine, so nothing is claimed about it.
#[verifier::external_body]
pub(crate) fn current_time() -> (now: i64) {
    chrono::Utc::now().timestamp_micros()
}

/// Prints an identifier as `uuid::Uuid` does: `Uuid::from_u128`, then the
/// hyphenated form's `to_string`.
///
/// Believed, not proved: the text is [`hyphenated_id`] of the number.
#[verifier::external_body]
pub(crate) fn id_to_text(id: u128) -> (text: String)
    ensures
        text@ == hyphenated_id(id),
{
    uuid::Uuid::from_u128(id).hyphenated().to_string()
}

/// Whether two texts are the same.
pub fn same_text(a: &str, b: &str) -> (same: bool)
    ensures
        same == (a@ == b@),
{
    let left = a.to_owned();
    let right = b.to_owned();
    left == right
}

} // verus!
