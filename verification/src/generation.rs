//! [`Ulid`](crate::Ulid) generation from the system clock and the task RNG.

use crate::Ulid;
use rand::Rng;
use vstd::prelude::*;

verus! {

/// Relies on `chrono::Utc::now` and `chrono::DateTime::timestamp_millis`:
/// the current time as milliseconds since the Unix epoch. Nothing is
/// promised of the value.
#[verifier::external_body]
fn now_millis() -> (r: i64) {
    chrono::Utc::now().timestamp_millis()
}

/// Relies on `rand::thread_rng` and `rand::Rng::fill`: fills a 10-byte
/// buffer with random bytes. Nothing is promised of the values.
#[verifier::external_body]
fn random_bytes() -> (r: [u8; 10]) {
    let mut buf = [0u8; 10];
    rand::thread_rng().fill(&mut buf);
    buf
}

impl Ulid {
    /// Creates a random [`Ulid`] with the current timestamp.
    ///
    /// The task RNG supplies the random portion and the system clock the
    /// timestamp, so nothing can be promised of the value beyond its
    /// shape.
    pub fn new() -> (r: Ulid)
        ensures
            r@.len() == 16,
    {
        broadcast use crate::lemma_ulid_len;

        Ulid::from_millis(now_millis())
    }

    /// Creates a [`Ulid`] from milliseconds.
    ///
    /// The provided milliseconds fill the timestamp portion of the
    /// [`Ulid`]; the task RNG fills the random portion with bytes that
    /// nothing is promised of.
    pub fn from_millis(millis: i64) -> (r: Ulid)
        ensures
            r@.len() == 16,
            r@.subrange(0, 6) == crate::millis_bytes(millis),
            -0x8000_0000_0000 <= millis < 0x8000_0000_0000 ==> crate::millis_of(r@) == millis,
    {
        broadcast use crate::lemma_ulid_len;

        let bytes = random_bytes();
        let r = Ulid::from_millis_bytes(millis, bytes);
        proof {
            assert(r@.subrange(0, 6) =~= crate::millis_bytes(millis));
            if -0x8000_0000_0000 <= millis < 0x8000_0000_0000 {
                crate::lemma_millis_round_trip(millis, bytes@);
            }
        }
        r
    }
}

} // verus!
