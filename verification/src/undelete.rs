//! Deleted blobs that can still be restored: the restore requests made for
//! a selection and how the server's answers are reported.
use vstd::prelude::*;

use crate::text::str_eq;
use crate::time::UtcDateTime;
use crate::{maybe_plural, spec_maybe_plural};

verus! {

/// Deleted blobs shown on each page.
pub const UNDELETE_PAGE_SIZE: u32 = 20;

/// A deleted blob.
#[derive(Debug, Clone, PartialEq, Eq)]
pub struct DeletedBlob {
    pub hash: String,
    pub size: usize,
    pub deleted_at: UtcDateTime,
    pub expires_at: UtcDateTime,
    pub collection: String,
}

/// A request to restore a blob as it was at `time`, cancelling its
/// deletion scheduled for `cancel_deletion`.
#[derive(Debug, Clone, PartialEq, Eq)]
pub struct UndeleteRequest {
    pub hash: String,
    pub collection: String,
    pub time: UtcDateTime,
    pub cancel_deletion: UtcDateTime,
}

/// The server's answer to one restore request.
#[derive(Debug, Clone, PartialEq, Eq)]
pub enum UndeleteResponse {
    Success,
    NotFound,
    Error { reason: String },
}

/// The first blob with the hash `hash`.
pub open spec fn first_with_hash(blobs: Seq<DeletedBlob>, hash: Seq<char>, i: int) -> bool {
    0 <= i < blobs.len() && blobs[i].hash@ == hash && forall|j: int| 0 <= j < i ==> blobs[j].hash@ != hash
}

/// Some blob has the hash `hash`.
pub open spec fn has_hash(blobs: Seq<DeletedBlob>, hash: Seq<char>) -> bool {
    exists|i: int| 0 <= i < blobs.len() && (#[trigger] blobs[i]).hash@ == hash
}

/// The request that restores a blob.
pub open spec fn request_for(b: DeletedBlob) -> (Seq<char>, Seq<char>, UtcDateTime, UtcDateTime) {
    (b.hash@, b.collection@, b.deleted_at, b.expires_at)
}

/// The plain value of a request.
pub open spec fn request_view(r: UndeleteRequest) -> (Seq<char>, Seq<char>, UtcDateTime, UtcDateTime) {
    (r.hash@, r.collection@, r.time, r.cancel_deletion)
}

/// The requests for the selected hashes, in order: one per selected hash
/// that a listed blob has, made from the first such blob.
pub open spec fn spec_restore_requests(selected: Seq<Seq<char>>, blobs: Seq<DeletedBlob>) -> Seq<
    (Seq<char>, Seq<char>, UtcDateTime, UtcDateTime),
>
    decreases selected.len(),
{
    if selected.len() == 0 {
        Seq::empty()
    } else {
        let prev = spec_restore_requests(selected.drop_last(), blobs);
        let h = selected.last();
        if has_hash(blobs, h) {
            prev.push(request_for(blobs[choose|i: int| first_with_hash(blobs, h, i)]))
        } else {
            prev
        }
    }
}

/// The first blob with the hash, if any.
fn find_blob(blobs: &Vec<DeletedBlob>, hash: &str) -> (r: Option<usize>)
    ensures
        r matches Some(i) ==> first_with_hash(blobs@, hash@, i as int),
        r is None ==> !has_hash(blobs@, hash@),
{
    let mut i: usize = 0;
    while i < blobs.len()
        invariant
            i <= blobs@.len(),
            forall|j: int| 0 <= j < i ==> (#[trigger] blobs@[j]).hash@ != hash@,
        decreases blobs.len() - i,
    {
        if str_eq(blobs[i].hash.as_str(), hash) {
            return Some(i);
        }
        i = i + 1;
    }
    None
}

proof fn lemma_first_with_hash_unique(blobs: Seq<DeletedBlob>, h: Seq<char>, i: int, k: int)
    requires
        first_with_hash(blobs, h, i),
        first_with_hash(blobs, h, k),
    ensures
        i == k,
{
    if i < k {
        assert(blobs[i].hash@ != h);
    } else if k < i {
        assert(blobs[k].hash@ != h);
    }
}

/// The restore requests for a selection of blob hashes.
pub fn restore_requests(selected: &Vec<String>, blobs: &Vec<DeletedBlob>) -> (r: Vec<UndeleteRequest>)
    ensures
        r@.map_values(|q: UndeleteRequest| request_view(q)) == spec_restore_requests(
            selected@.map_values(|s: String| s@),
            blobs@,
        ),
{
    let ghost sel = selected@.map_values(|s: String| s@);
    let mut out: Vec<UndeleteRequest> = Vec::new();
    let mut i: usize = 0;
    while i < selected.len()
        invariant
            i <= selected@.len(),
            sel == selected@.map_values(|s: String| s@),
            out@.map_values(|q: UndeleteRequest| request_view(q)) == spec_restore_requests(sel.take(i as int), blobs@),
        decreases selected.len() - i,
    {
        assert(sel.take(i + 1).drop_last() =~= sel.take(i as int));
        assert(sel.take(i + 1).last() == selected@[i as int]@);
        match find_blob(blobs, selected[i].as_str()) {
            Some(k) => {
                let blob = &blobs[k];
                let ghost before = out@.map_values(|q: UndeleteRequest| request_view(q));
                out.push(
                    UndeleteRequest {
                        hash: blob.hash.clone(),
                        collection: blob.collection.clone(),
                        time: blob.deleted_at,
                        cancel_deletion: blob.expires_at,
                    },
                );
                proof {
                    let h = selected@[i as int]@;
                    assert(has_hash(blobs@, h)) by {
                        assert(blobs@[k as int].hash@ == h);
                    }
                    let c = choose|j: int| first_with_hash(blobs@, h, j);
                    lemma_first_with_hash_unique(blobs@, h, c, k as int);
                    assert(out@.map_values(|q: UndeleteRequest| request_view(q)) =~= before.push(
                        request_for(blobs@[k as int]),
                    ));
                }
            },
            None => {},
        }
        i = i + 1;
    }
    assert(sel.take(selected@.len() as int) =~= sel);
    out
}

/// Restored, not found, and the reasons of the errors, in order.
pub open spec fn spec_tally(rs: Seq<UndeleteResponse>) -> (nat, nat, Seq<Seq<char>>)
    decreases rs.len(),
{
    if rs.len() == 0 {
        (0, 0, Seq::empty())
    } else {
        let t = spec_tally(rs.drop_last());
        match rs.last() {
            UndeleteResponse::Success => ((t.0 + 1) as nat, t.1, t.2),
            UndeleteResponse::NotFound => (t.0, (t.1 + 1) as nat, t.2),
            UndeleteResponse::Error { reason } => (t.0, t.1, t.2.push(reason@)),
        }
    }
}

/// Counts the restored and missing blobs and collects the errors.
pub fn tally(responses: Vec<UndeleteResponse>) -> (r: (usize, usize, Vec<String>))
    ensures
        r.0 == spec_tally(responses@).0,
        r.1 == spec_tally(responses@).1,
        r.2@.map_values(|s: String| s@) == spec_tally(responses@).2,
{
    let mut success: usize = 0;
    let mut not_found: usize = 0;
    let mut errors: Vec<String> = Vec::new();
    let mut responses = responses;
    let ghost all = responses@;
    let n = responses.len();
    let mut i: usize = 0;
    while i < n
        invariant
            n == all.len(),
            i <= n,
            responses@ == all.skip(i as int),
            success == spec_tally(all.take(i as int)).0,
            not_found == spec_tally(all.take(i as int)).1,
            errors@.map_values(|s: String| s@) == spec_tally(all.take(i as int)).2,
            success + not_found + errors@.len() == i,
        decreases n - i,
    {
        let response = responses.remove(0);
        proof {
            assert(response == all[i as int]);
            assert(responses@ =~= all.skip(i + 1));
            assert(all.take(i + 1).drop_last() =~= all.take(i as int));
        }
        match response {
            UndeleteResponse::Success => {
                success = success + 1;
            },
            UndeleteResponse::NotFound => {
                not_found = not_found + 1;
            },
            UndeleteResponse::Error { reason } => {
                let ghost before = errors@.map_values(|s: String| s@);
                errors.push(reason);
                assert(errors@.map_values(|s: String| s@) =~= before.push(all[i as int]->reason@));
            },
        }
        i = i + 1;
    }
    assert(all.take(n as int) =~= all);
    (success, not_found, errors)
}

/// What a restore is reported as: a success when every blob was restored,
/// else a warning that says how many were missing and, when there were
/// errors, that they follow.
pub open spec fn spec_restore_message(success: nat, not_found: nat, errors: nat) -> (bool, Seq<char>) {
    if not_found == 0 && errors == 0 {
        (true, "Restored "@ + spec_maybe_plural(success, "blob"@, "blobs"@) + "."@)
    } else if errors == 0 {
        (
            false,
            "Restored "@ + spec_maybe_plural(success, "blob"@, "blobs"@) + " and "@ + spec_maybe_plural(
                not_found,
                "blob"@,
                "blobs"@,
            ) + " could not be found."@,
        )
    } else {
        (
            false,
            "Restored "@ + spec_maybe_plural(success, "blob"@, "blobs"@) + ", "@ + spec_maybe_plural(
                not_found,
                "blob"@,
                "blobs"@,
            ) + " could not be found. Errors were found:"@,
        )
    }
}

/// Whether the restore is reported as a success, and the message.
pub fn restore_message(success: usize, not_found: usize, errors: usize) -> (r: (bool, String))
    ensures
        (r.0, r.1@) == spec_restore_message(success as nat, not_found as nat, errors as nat),
{
    let restored = maybe_plural(success, "blob", "blobs");
    let mut text = String::from_str("Restored ");
    text.append(restored.as_str());
    if not_found == 0 && errors == 0 {
        text.append(".");
        (true, text)
    } else {
        let missing = maybe_plural(not_found, "blob", "blobs");
        if errors == 0 {
            text.append(" and ");
            text.append(missing.as_str());
            text.append(" could not be found.");
        } else {
            text.append(", ");
            text.append(missing.as_str());
            text.append(" could not be found. Errors were found:");
        }
        (false, text)
    }
}

} // verus!
