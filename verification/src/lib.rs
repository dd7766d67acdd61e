//! Data models and rules of the Stalwart web administration interface:
//! principals and their update sets, mail forwarding rules and the Sieve
//! scripts built from them, queued messages, DMARC/TLS/ARF reports, tracing
//! events, dashboard metrics and delivery troubleshooting stages.
use vstd::prelude::*;

pub mod dashboard;
pub mod directory;
pub mod editor;
pub mod forward;
pub mod incoming;
pub mod listing;
pub mod logs;
pub mod principals;
pub mod queue;
pub mod reports;
pub mod schema;
pub mod session;
pub mod spam;
pub mod text;
pub mod time;
pub mod tracing;
pub mod troubleshoot;
pub mod undelete;

verus! {

/// Colours of badges and buttons.
#[derive(Debug, Clone, Copy, PartialEq, Eq, Structural)]
pub enum Color {
    Green,
    Red,
    Yellow,
    Blue,
    Gray,
}

/// Icons shown beside statuses and results.
#[derive(Debug, Clone, Copy, PartialEq, Eq, Structural)]
pub enum Icon {
    Clock,
    CheckCircle,
    ExclamationTriangle,
    Cancel,
    AlertTriangle,
    ArrowRightCircle,
}

/// A page of items and the total number of items.
#[derive(Debug, Clone, PartialEq, Eq, Default)]
pub struct List<T> {
    pub items: Vec<T>,
    pub total: u64,
}

/// "`n` `word`", with the singular word for one item and the plural otherwise.
pub open spec fn spec_maybe_plural(items: nat, singular: Seq<char>, plural: Seq<char>) -> Seq<char> {
    text::dec(items) + " "@ + if items == 1 {
        singular
    } else {
        plural
    }
}

pub fn maybe_plural(items: usize, singular: &str, plural: &str) -> (r: String)
    ensures
        r@ == spec_maybe_plural(items as nat, singular@, plural@),
{
    let mut r = text::u64_to_string(items as u64);
    r.append(" ");
    if items == 1 {
        r.append(singular);
    } else {
        r.append(plural);
    }
    r
}

} // verus!
