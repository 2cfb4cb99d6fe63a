//! The time of day, from the `chrono` crate.

use crate::text::is_white;
use vstd::prelude::*;

verus! {

/// What every stamp is like: twenty characters or more, the last of them the
/// letter `Z`, and no white space among them, so no line feed either.
pub open spec fn is_stamp(stamp: Seq<char>) -> bool {
    &&& stamp.len() >= 20
    &&& stamp.last() == 'Z'
    &&& forall|i: int| 0 <= i < stamp.len() ==> !is_white(#[trigger] stamp[i])
}

/// The present moment in UTC, in the form that `chrono` gives a
/// `DateTime<Utc>` for debugging: the system's clock, `SystemTime::now()`,
/// turned into a `chrono::DateTime<chrono::Utc>` by its `From<SystemTime>`
/// and written with `{:?}`.
///
/// That form is a date of ten characters or more, the letter `T`, a time of
/// day of eight characters or more and the letter `Z`, made of digits and of
/// `-`, `+`, `:` and `.`. The contract claims its least length, its last
/// letter and that it holds no white space. Which moment it is depends on
/// the machine's clock. The conversion takes a clock before 1970 as well; it
/// takes none that stands more than some 262,000 years from 1970, which is
/// as far as `chrono` counts.
#[verifier::external_body]
pub(crate) fn utc_stamp() -> (stamp: String)
    ensures
        is_stamp(stamp@),
{
    format!("{:?}", chrono::DateTime::<chrono::Utc>::from(std::time::SystemTime::now()))
}

} // verus!
