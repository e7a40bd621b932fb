//! Deleting: what a deletion amounts to, and how a tree is deleted in batches.

use crate::error::{FsError, Step};
use crate::metrics::Metrics;
use crate::paths::{children_prefix, is_root, is_root_path, list_prefix_under};
use crate::text::{least, same, starts_with};
use crate::trash::SystemTrashMatch;
use vstd::prelude::*;

verus! {

/// How many keys one request may delete.
pub const MAX_DELETE_OBJECTS_PER_REQUEST: usize = 1000;

/// How many keys an error names.
pub const FAILED_KEYS_SHOWN: usize = 5;

/// What deleting a file amounts to.
#[derive(Clone, Copy, Debug, PartialEq, Eq, Structural)]
pub enum DeletePlan {
    /// An entry of the recycle bin goes for good.
    Purge,
    /// The object goes for good.
    Hard,
    /// A tombstone is written; the object stays.
    Soft,
}

/// What deleting a file amounts to: nothing on a read-only mount, nothing for
/// the root; with a trash a tombstone, but for what stands in the recycle bin
/// or under its name; without one the object goes.
pub open spec fn delete_plan(
    read_only: bool,
    path: Seq<char>,
    trash: bool,
    in_bin: bool,
    under_bin_name: bool,
) -> Result<DeletePlan, FsError> {
    if read_only {
        Err(FsError::ReadOnly)
    } else if is_root(path) {
        Err(FsError::RootDeleted)
    } else if !trash {
        Ok(DeletePlan::Hard)
    } else if in_bin {
        Ok(DeletePlan::Purge)
    } else if under_bin_name {
        Ok(DeletePlan::Hard)
    } else {
        Ok(DeletePlan::Soft)
    }
}

/// What deleting a file amounts to.
pub fn plan_delete(
    read_only: bool,
    path: &str,
    trash: bool,
    in_bin: bool,
    under_bin_name: bool,
) -> (r: Result<DeletePlan, FsError>)
    ensures
        r == delete_plan(read_only, path@, trash, in_bin, under_bin_name),
{
    if read_only {
        return Err(FsError::ReadOnly);
    }
    if is_root_path(path) {
        return Err(FsError::RootDeleted);
    }
    if !trash {
        return Ok(DeletePlan::Hard);
    }
    if in_bin {
        return Ok(DeletePlan::Purge);
    }
    if under_bin_name {
        return Ok(DeletePlan::Hard);
    }
    Ok(DeletePlan::Soft)
}

/// How the deletion of one object ended; a failure is counted.
pub fn object_deleted(refused: Option<Vec<String>>, m: &mut Metrics) -> (r: Result<(), FsError>)
    ensures
        refused is None ==> r == Ok::<(), FsError>(()) && *final(m) == *old(m),
        refused matches Some(cause) ==> r == Err::<(), FsError>(
            FsError::Failed { step: Step::Delete, cause },
        ) && *final(m) == (Metrics {
            s3_errors: old(m).s3_errors.wrapping_add(1),
            s3_delete_errors: old(m).s3_delete_errors.wrapping_add(1),
            ..*old(m)
        }),
{
    match refused {
        None => Ok(()),
        Some(cause) => {
            m.s3_errors = m.s3_errors.wrapping_add(1);
            m.s3_delete_errors = m.s3_delete_errors.wrapping_add(1);
            Err(FsError::Failed { step: Step::Delete, cause })
        },
    }
}

/// What deleting a directory amounts to.
#[derive(Clone, Copy, Debug, PartialEq, Eq, Structural)]
pub enum DeleteDirPlan {
    /// The whole recycle bin is emptied.
    PurgeAll,
    /// A user's part of the recycle bin goes if nothing at all is left in it:
    /// ask whether there are children.
    RemoveIfEmpty,
    /// A user's part of the recycle bin still holds something.
    NotEmpty,
    /// An entry of the recycle bin goes for good.
    Purge,
    /// A tombstone is written; the tree stays.
    Soft,
    /// The tree goes for good.
    Hard,
}

/// What deleting a directory amounts to, from where in the recycle bin it
/// stands, if it does, and whether any tombstone is left.
pub open spec fn delete_dir_plan(
    read_only: bool,
    trash: bool,
    bin: Option<SystemTrashMatch>,
    no_tombstones: bool,
) -> Result<DeleteDirPlan, FsError> {
    if read_only {
        Err(FsError::ReadOnly)
    } else if !trash {
        Ok(DeleteDirPlan::Hard)
    } else {
        match bin {
            Some(SystemTrashMatch::Dir { level }) => if level == 0 {
                Ok(DeleteDirPlan::PurgeAll)
            } else if level == 1 {
                if no_tombstones {
                    Ok(DeleteDirPlan::RemoveIfEmpty)
                } else {
                    Ok(DeleteDirPlan::NotEmpty)
                }
            } else {
                Ok(DeleteDirPlan::Soft)
            },
            Some(SystemTrashMatch::Entry { .. }) => Ok(DeleteDirPlan::Purge),
            None => Ok(DeleteDirPlan::Soft),
        }
    }
}

/// What deleting a directory amounts to.
pub fn plan_delete_dir(
    read_only: bool,
    trash: bool,
    bin: &Option<SystemTrashMatch>,
    no_tombstones: bool,
) -> (r: Result<DeleteDirPlan, FsError>)
    ensures
        r == delete_dir_plan(read_only, trash, *bin, no_tombstones),
{
    if read_only {
        return Err(FsError::ReadOnly);
    }
    if !trash {
        return Ok(DeleteDirPlan::Hard);
    }
    match bin {
        Some(SystemTrashMatch::Dir { level }) => {
            if *level == 0 {
                Ok(DeleteDirPlan::PurgeAll)
            } else if *level == 1 {
                if no_tombstones {
                    Ok(DeleteDirPlan::RemoveIfEmpty)
                } else {
                    Ok(DeleteDirPlan::NotEmpty)
                }
            } else {
                Ok(DeleteDirPlan::Soft)
            }
        },
        Some(SystemTrashMatch::Entry { .. }) => Ok(DeleteDirPlan::Purge),
        None => Ok(DeleteDirPlan::Soft),
    }
}

/// How removing a user's part of the recycle bin ends once it is known whether
/// anything real stands in it.
pub fn bin_dir_removed(has_children: bool) -> (r: Result<(), FsError>)
    ensures
        r == (if has_children {
            Err::<(), FsError>(FsError::NotEmpty)
        } else {
            Ok(())
        }),
{
    if has_children {
        Err(FsError::NotEmpty)
    } else {
        Ok(())
    }
}

/// The keys that a page names.
pub open spec fn named_keys(keys: Seq<Option<String>>) -> Seq<String> {
    keys.filter_map(|k: Option<String>| k)
}

/// How many batches hold `n` keys.
pub open spec fn batch_count(n: nat) -> nat {
    ((n + MAX_DELETE_OBJECTS_PER_REQUEST - 1) / MAX_DELETE_OBJECTS_PER_REQUEST as int) as nat
}

/// Batch `i` of some keys.
pub open spec fn batch_at(keys: Seq<String>, i: int) -> Seq<String> {
    keys.subrange(
        i * MAX_DELETE_OBJECTS_PER_REQUEST,
        least((i + 1) * MAX_DELETE_OBJECTS_PER_REQUEST, keys.len() as int),
    )
}

/// Cuts the keys of a page in batches.
pub fn batches(keys: Vec<Option<String>>) -> (r: Vec<Vec<String>>)
    ensures
        r@.len() == batch_count(named_keys(keys@).len()),
        forall|i: int|
            0 <= i < r@.len() ==> (#[trigger] r@[i])@ == batch_at(named_keys(keys@), i),
{
    let ghost f = |k: Option<String>| k;
    let ghost all = keys@;
    let given = keys;
    let mut named: Vec<String> = Vec::new();
    let mut k: usize = 0;
    assert(all.take(0).filter_map(f) =~= Seq::<String>::empty());
    while k < given.len()
        invariant
            k <= given@.len(),
            given@ == all,
            f == (|k: Option<String>| k),
            named@ == all.take(k as int).filter_map(f),
        decreases given@.len() - k,
    {
        proof {
            all.lemma_filter_map_take_succ(f, k as int);
        }
        match &given[k] {
            Some(key) => {
                let copy = key.clone();
                named.push(copy);
            },
            None => {},
        }
        assert(named@ =~= all.take(k + 1).filter_map(f));
        k += 1;
    }
    assert(all.take(all.len() as int) =~= all);
    let ghost wanted = named_keys(all);
    let mut out: Vec<Vec<String>> = Vec::new();
    let mut rest = named;
    assert(wanted.skip(0) =~= wanted);
    while rest.len() > 0
        invariant
            rest@.len() == 0 || out@.len() * 1000 + rest@.len() == wanted.len(),
            rest@.len() == 0 ==> out@.len() == batch_count(wanted.len()),
            rest@.len() > 0 ==> rest@ == wanted.skip((out@.len() * 1000) as int),
            forall|i: int| 0 <= i < out@.len() ==> (#[trigger] out@[i])@ == batch_at(wanted, i),
        decreases rest@.len(),
    {
        let ghost n = out@.len() as int;
        if rest.len() > MAX_DELETE_OBJECTS_PER_REQUEST {
            let tail = rest.split_off(MAX_DELETE_OBJECTS_PER_REQUEST);
            proof {
                assert(rest@ =~= batch_at(wanted, n));
                assert(tail@ =~= wanted.skip((n + 1) * 1000));
            }
            out.push(rest);
            rest = tail;
        } else {
            assert(rest@ =~= batch_at(wanted, n));
            out.push(rest);
            rest = Vec::new();
        }
    }
    out
}

/// The batches hold every key once, in order, and none is empty or too large.
pub proof fn batches_cover_the_keys(keys: Seq<String>, i: int)
    requires
        0 <= i < keys.len(),
    ensures
        ({
            let b = i / MAX_DELETE_OBJECTS_PER_REQUEST as int;
            &&& 0 <= b < batch_count(keys.len())
            &&& batch_at(keys, b)[i - b * MAX_DELETE_OBJECTS_PER_REQUEST] == keys[i]
            &&& 0 < batch_at(keys, b).len() <= MAX_DELETE_OBJECTS_PER_REQUEST
        }),
        batch_at(keys, batch_count(keys.len()) - 1).len() > 0,
{
}

/// The keys that could not be deleted, as far as an error names them.
pub open spec fn shown_keys(failed: Seq<Option<String>>) -> Seq<String> {
    named_keys(failed).take(least(named_keys(failed).len() as int, FAILED_KEYS_SHOWN as int))
}

/// How one batch ended: well only if no key of it failed.
pub fn batch_deleted(total: usize, failed: Vec<Option<String>>) -> (r: Result<(), FsError>)
    ensures
        failed@.len() == 0 ==> r == Ok::<(), FsError>(()),
        failed@.len() > 0 ==> {
            &&& r is Err
            &&& r->Err_0 is BatchDeleteFailed
            &&& r->Err_0->failed == failed@.len() as u64
            &&& r->Err_0->total == total as u64
            &&& r->Err_0->sample@ == shown_keys(failed@)
        },
{
    if failed.len() == 0 {
        return Ok(());
    }
    let ghost f = |k: Option<String>| k;
    let ghost all = failed@;
    let mut sample: Vec<String> = Vec::new();
    let mut k: usize = 0;
    assert(all.take(0).filter_map(f) =~= Seq::<String>::empty());
    while k < failed.len() && sample.len() < FAILED_KEYS_SHOWN
        invariant
            k <= failed@.len(),
            failed@ == all,
            f == (|k: Option<String>| k),
            sample@.len() <= FAILED_KEYS_SHOWN,
            sample@ == all.take(k as int).filter_map(f),
        decreases failed@.len() - k,
    {
        proof {
            all.lemma_filter_map_take_succ(f, k as int);
        }
        match &failed[k] {
            Some(key) => {
                let copy = key.clone();
                sample.push(copy);
            },
            None => {},
        }
        assert(sample@ =~= all.take(k + 1).filter_map(f));
        k += 1;
    }
    proof {
        prefix_of_filter(all, k as int, f);
        assert(all.take(all.len() as int) =~= all);
        assert(sample@ =~= shown_keys(all));
    }
    Err(
        FsError::BatchDeleteFailed { failed: failed.len() as u64, total: total as u64, sample },
    )
}

proof fn prefix_of_filter(
    all: Seq<Option<String>>,
    k: int,
    f: spec_fn(Option<String>) -> Option<String>,
)
    requires
        0 <= k <= all.len(),
    ensures
        all.take(k).filter_map(f).is_prefix_of(all.filter_map(f)),
    decreases all.len() - k,
{
    if k == all.len() {
        assert(all.take(k) =~= all);
    } else {
        prefix_of_filter(all, k + 1, f);
        all.lemma_filter_map_take_succ(f, k);
        let a = all.take(k).filter_map(f);
        let b = all.take(k + 1).filter_map(f);
        let c = all.filter_map(f);
        assert(a =~= b.subrange(0, a.len() as int));
        assert(b =~= c.subrange(0, b.len() as int));
        assert(a =~= c.subrange(0, a.len() as int));
    }
}

/// The key of a directory's own marker: what the keys of its children begin
/// with.
pub fn marker_key(prefix: &str, dir: &str) -> (r: String)
    ensures
        r@ == children_prefix(prefix@, dir@),
{
    list_prefix_under(prefix, dir)
}

/// A header that the store's batch deletion must not carry: any checksum but
/// the MD5 digest that it asks for.
pub fn is_checksum_header(name: &str) -> (r: bool)
    ensures
        r == ("x-amz-checksum-"@.is_prefix_of(name@) || name@ == "x-amz-sdk-checksum-algorithm"@),
{
    starts_with(name, "x-amz-checksum-") || same(name, "x-amz-sdk-checksum-algorithm")
}

/// What deleting a tree does next.
#[derive(Debug, PartialEq, Eq)]
pub enum TreeNext {
    /// Ask for a page of the tree's objects, from the token on where there is
    /// one.
    List { token: Option<String> },
    /// Delete these objects.
    Delete { keys: Vec<String> },
    /// Delete the directory's own marker; whether that works does not matter.
    DeleteMarker { key: String },
    /// The tree is deleted, or an error ended it.
    Done { result: Result<(), FsError> },
}

/// A page of the tree's objects.
#[derive(Debug, PartialEq, Eq)]
pub enum TreePage {
    /// The keys, and whether and where it goes on.
    Keys { keys: Vec<Option<String>>, truncated: Option<bool>, token: Option<String> },
    /// The request failed.
    Failed { cause: Vec<String> },
}

/// How a batch ended.
#[derive(Debug, PartialEq, Eq)]
pub enum BatchReply {
    /// The store answered, and named the keys that it could not delete.
    Answer { failed: Vec<Option<String>> },
    /// The request failed.
    Failed { cause: Vec<String> },
}

/// The deletion of a tree, page by page and batch by batch. The next page is
/// asked for only when all of the one before is deleted, and the first failure
/// ends it.
pub struct TreeDeletion {
    /// The key of the directory's own marker.
    pub marker: String,
    /// The batches of the page that are still to be deleted.
    pub waiting: Vec<Vec<String>>,
    /// The size of the batch that is being deleted.
    pub sent: usize,
    pub truncated: Option<bool>,
    pub token: Option<String>,
}

impl TreeDeletion {
    /// What follows when the batches `waiting` are still to be deleted.
    pub open spec fn goes_on(
        &self,
        before: &Self,
        waiting: Seq<Vec<String>>,
        truncated: Option<bool>,
        token: Option<String>,
        r: TreeNext,
    ) -> bool {
        &&& self.marker == before.marker
        &&& self.truncated == truncated
        &&& self.token == token
        &&& if waiting.len() > 0 {
            &&& r == (TreeNext::Delete { keys: waiting[0] })
            &&& self.waiting@ == waiting.drop_first()
            &&& self.sent == waiting[0]@.len()
        } else {
            &&& self.waiting@ == waiting
            &&& if truncated != Some(true) {
                r is DeleteMarker && r->key@ == self.marker@
            } else if token is Some {
                r is List && r->List_token is Some && r->List_token->0@ == token->0@
            } else {
                r == (TreeNext::Done { result: Err::<(), FsError>(FsError::PartialListing) })
            }
        }
    }

    /// Begins the deletion of `dir` under a namespace prefix.
    pub fn start(prefix: &str, dir: &str) -> (r: (Self, TreeNext))
        ensures
            r.0.marker@ == children_prefix(prefix@, dir@),
            r.0.waiting@.len() == 0,
            r.1 == (TreeNext::List { token: None }),
    {
        (
            TreeDeletion {
                marker: marker_key(prefix, dir),
                waiting: Vec::new(),
                sent: 0,
                truncated: None,
                token: None,
            },
            TreeNext::List { token: None },
        )
    }

    fn advance(&mut self) -> (r: TreeNext)
        ensures
            final(self).goes_on(
                old(self),
                old(self).waiting@,
                old(self).truncated,
                old(self).token,
                r,
            ),
    {
        if self.waiting.len() > 0 {
            let keys = self.waiting.remove(0);
            assert(self.waiting@ =~= old(self).waiting@.drop_first());
            self.sent = keys.len();
            return TreeNext::Delete { keys };
        }
        match self.truncated {
            Some(true) => match &self.token {
                Some(token) => TreeNext::List { token: Some(token.clone()) },
                None => TreeNext::Done { result: Err(FsError::PartialListing) },
            },
            _ => TreeNext::DeleteMarker { key: self.marker.clone() },
        }
    }

    /// Takes in a page.
    pub fn listed(&mut self, page: TreePage) -> (r: TreeNext)
        requires
            old(self).waiting@.len() == 0,
        ensures
            page matches TreePage::Failed { cause } ==> r == (TreeNext::Done {
                result: Err::<(), FsError>(FsError::Failed { step: Step::ListForDelete, cause }),
            }),
            page matches TreePage::Keys { keys, truncated, token } ==> exists|
                waiting: Seq<Vec<String>>,
            |
                {
                    &&& waiting.len() == batch_count(named_keys(keys@).len())
                    &&& forall|i: int|
                        0 <= i < waiting.len() ==> (#[trigger] waiting[i])@ == batch_at(
                            named_keys(keys@),
                            i,
                        )
                    &&& #[trigger] final(self).goes_on(old(self), waiting, truncated, token, r)
                },
    {
        match page {
            TreePage::Failed { cause } => TreeNext::Done {
                result: Err(FsError::Failed { step: Step::ListForDelete, cause }),
            },
            TreePage::Keys { keys, truncated, token } => {
                self.waiting = batches(keys);
                self.truncated = truncated;
                self.token = token;
                let ghost waiting = self.waiting@;
                let r = self.advance();
                assert(self.goes_on(old(self), waiting, truncated, token, r));
                r
            },
        }
    }

    /// Takes in how a batch ended.
    pub fn batch_done(&mut self, reply: BatchReply) -> (r: TreeNext)
        ensures
            reply matches BatchReply::Failed { cause } ==> r == (TreeNext::Done {
                result: Err::<(), FsError>(FsError::Failed { step: Step::BatchDelete, cause }),
            }),
            reply matches BatchReply::Answer { failed } ==> {
                &&& failed@.len() == 0 ==> final(self).goes_on(
                    old(self),
                    old(self).waiting@,
                    old(self).truncated,
                    old(self).token,
                    r,
                )
                &&& failed@.len() > 0 ==> {
                    &&& r is Done
                    &&& r->result is Err
                    &&& r->result->Err_0 is BatchDeleteFailed
                    &&& r->result->Err_0->failed == failed@.len() as u64
                    &&& r->result->Err_0->total == old(self).sent as u64
                    &&& r->result->Err_0->sample@ == shown_keys(failed@)
                }
            },
    {
        match reply {
            BatchReply::Failed { cause } => TreeNext::Done {
                result: Err(FsError::Failed { step: Step::BatchDelete, cause }),
            },
            BatchReply::Answer { failed } => match batch_deleted(self.sent, failed) {
                Ok(_) => self.advance(),
                Err(e) => TreeNext::Done { result: Err(e) },
            },
        }
    }
}

} // verus!
