//! The verdict of the spam classifier as the spam test page reports it.
use vstd::prelude::*;

use crate::text::{contains, contains_seq};

verus! {

/// What the spam filter decided for a message (`T` is the disposition
/// header) or for one of its tags (`T` is the tag's score).
#[derive(Debug, Clone, PartialEq, Eq)]
pub enum SpamFilterDisposition<T> {
    Allow { value: T },
    Discard,
    Reject,
}

/// The class a message was given: a disposition header that answers
/// ": Yes" marks spam, any other marks ham.
pub open spec fn spec_classification(value: Seq<char>) -> Seq<char> {
    if contains_seq(value, ": Yes"@) {
        "SPAM"@
    } else {
        "HAM"@
    }
}

/// The class named in the test result of an allowed message.
pub fn classification(value: &str) -> (r: &'static str)
    ensures
        r@ == spec_classification(value@),
{
    if contains(value, ": Yes") {
        "SPAM"
    } else {
        "HAM"
    }
}

/// The word that stands in place of a tag's score when the tag discarded
/// or rejected the message; none for a tag that allowed it.
pub fn tag_action<T>(d: &SpamFilterDisposition<T>) -> (r: Option<&'static str>)
    ensures
        d is Allow <==> r is None,
        d is Discard ==> r == Some("DISCARD"),
        d is Reject ==> r == Some("REJECT"),
{
    match d {
        SpamFilterDisposition::Allow { .. } => None,
        SpamFilterDisposition::Discard => Some("DISCARD"),
        SpamFilterDisposition::Reject => Some("REJECT"),
    }
}

} // verus!
