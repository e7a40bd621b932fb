//! The operations of a mount: what each does before the store is asked.

use crate::block_read::range_of;
use crate::budget::{permit_source, permit_units, units_of, BUDGET_UNIT};
use crate::config::MULTIPART_THRESHOLD;
use crate::deletion::{
    delete_dir_plan, delete_plan, plan_delete, plan_delete_dir, DeleteDirPlan, DeletePlan,
    TreeDeletion, TreeNext,
};
use crate::error::{FsError, Step};
use crate::fetching::slice_at;
use crate::fs::ObjectFs;
use crate::listing::{directory_entry, entries, DirEntry, Entry, Listing};
use crate::metrics::Metrics;
use crate::multipart::{create_counted, upload_started, CreateReply};
use crate::paths::{as_directory, children_prefix, directory_prefix, is_root, object_key};
use crate::reading::ReadNext;
use crate::rename::{bin_shown, started, Rename, RenameNext, RenamePhase};
use crate::stat::{head_counted, Lookup, LookupNext};
use crate::stat_cache::Cached;
use crate::streaming::StreamingUpload;
use crate::trash::{hidden, SystemTrashMatch};
use crate::writing::{plan_mkdir, upload_route, MkdirPlan, UploadRoute};
use tokio::sync::OwnedSemaphorePermit;
use vstd::prelude::*;

verus! {

/// What a write is to do.
pub struct WritePlan {
    /// The object that is written.
    pub key: String,
    /// How it is uploaded.
    pub route: UploadRoute,
    /// The share of the upload budget that is held until it is uploaded.
    pub budget: Option<OwnedSemaphorePermit>,
}

/// What the recycle bin says of a path that is read.
#[derive(Debug, PartialEq, Eq)]
pub enum BinRead {
    /// It does not stand in the bin, or no deleted object belongs to it.
    Plain,
    /// The object that was deleted.
    Original { key: String },
    /// The information that belongs to a deleted object.
    Info { bytes: Vec<u8> },
    /// There is no such information.
    NoInfo,
    /// It could not be found out.
    Failed { error: FsError },
}

/// What reading a range does next.
#[derive(Debug, PartialEq, Eq)]
pub enum RangeNext {
    /// It is over.
    Done { result: Result<Vec<u8>, FsError> },
    /// Fetch this many bytes of the object.
    Fetch { key: String, len: usize, sequential: bool },
}

/// The counters after one more read.
pub open spec fn read_counted(m: Metrics) -> Metrics {
    Metrics { reads: m.reads.wrapping_add(1), ..m }
}

/// The counters after a write of that many bytes was begun.
pub open spec fn write_counted(m: Metrics, bytes: u64) -> Metrics {
    Metrics {
        writes: m.writes.wrapping_add(1),
        s3_puts: m.s3_puts.wrapping_add(1),
        upload_bytes_total: m.upload_bytes_total.wrapping_add(bytes),
        ..m
    }
}

impl ObjectFs {
    /// Begins reading `len` bytes of `path` from `offset`, with what the
    /// recycle bin says of the path where it stands there.
    pub fn read_range(&mut self, path: &str, offset: u64, len: usize, bin: BinRead, now: u64) -> (r:
        RangeNext)
        requires
            old(self).wf(),
        ensures
            final(self).wf(),
            len == 0 ==> {
                &&& r is Done
                &&& r->result is Ok
                &&& r->result->Ok_0@ == Seq::<u8>::empty()
            },
            len > 0 && bin is Failed ==> r == (RangeNext::Done { result: Err(bin->error) }),
            len > 0 && bin is NoInfo ==> r == (RangeNext::Done {
                result: Err(FsError::EntryInfoMissing),
            }),
            len > 0 && bin is Info ==> {
                &&& r is Done
                &&& r->result is Ok
                &&& r->result->Ok_0@ == range_of(
                    bin->bytes@,
                    offset as nat,
                    (offset + len) as nat,
                )
            },
            len == 0 || !(bin is Plain || bin is Original) ==> *final(self) == (ObjectFs {
                metrics: read_counted(old(self).metrics),
                ..*old(self)
            }),
            len > 0 && (bin is Plain || bin is Original) ==> {
                &&& *final(self) == (ObjectFs {
                    metrics: final(self).metrics,
                    reader: final(self).reader,
                    ..*old(self)
                })
                &&& exists|next: ReadNext|
                    {
                        &&& #[trigger] final(self).reader.begun(
                            &old(self).reader,
                            path@,
                            offset,
                            len,
                            now,
                            read_counted(old(self).metrics),
                            final(self).metrics,
                            next,
                        )
                        &&& next matches ReadNext::Ready { data } ==> r == (RangeNext::Done {
                            result: Ok(data),
                        })
                        &&& next matches ReadNext::Fetch { len: fetch, sequential } ==> {
                            &&& r is Fetch
                            &&& r->key@ == (match bin {
                                BinRead::Original { key } => key@,
                                _ => object_key(old(self).prefix@, path@),
                            })
                            &&& r->len == fetch
                            &&& r->sequential == sequential
                        }
                    }
            },
    {
        self.metrics.reads = self.metrics.reads.wrapping_add(1);
        if len == 0 {
            return RangeNext::Done { result: Ok(Vec::new()) };
        }
        let key = match bin {
            BinRead::Plain => self.key_for(path),
            BinRead::Original { key } => key,
            BinRead::Info { bytes } => {
                return RangeNext::Done { result: Ok(slice_at(bytes.as_slice(), offset, len)) };
            },
            BinRead::NoInfo => {
                return RangeNext::Done { result: Err(FsError::EntryInfoMissing) };
            },
            BinRead::Failed { error } => {
                return RangeNext::Done { result: Err(error) };
            },
        };
        let next = self.reader.begin(path, offset, len, now, &mut self.metrics);
        match next {
            ReadNext::Ready { data } => RangeNext::Done { result: Ok(data) },
            ReadNext::Fetch { len, sequential } => RangeNext::Fetch { key, len, sequential },
        }
    }

    /// What is known of `path` without asking the store.
    pub fn stat(&mut self, path: &str, now: u64) -> (r: Cached)
        requires
            old(self).wf(),
        ensures
            final(self).wf(),
            *final(self) == (ObjectFs { metrics: final(self).metrics, ..*old(self) }),
            old(self).caches.knows_present(path@, now) ==> {
                &&& r is Present
                &&& r->entry@ == old(self).caches.stats@[path@].1@
                &&& final(self).metrics == (Metrics {
                    stat_cache_hits: old(self).metrics.stat_cache_hits.wrapping_add(1),
                    stat_positive_cache_hits: old(self).metrics.stat_positive_cache_hits.wrapping_add(1),
                    ..old(self).metrics
                })
            },
            !old(self).caches.knows_present(path@, now) && old(self).caches.knows_absent(
                path@,
                now,
            ) ==> {
                &&& r is Absent
                &&& final(self).metrics == (Metrics {
                    stat_cache_hits: old(self).metrics.stat_cache_hits.wrapping_add(1),
                    stat_negative_cache_hits: old(self).metrics.stat_negative_cache_hits.wrapping_add(1),
                    ..old(self).metrics
                })
            },
            !old(self).caches.knows_present(path@, now) && !old(self).caches.knows_absent(
                path@,
                now,
            ) ==> r is Unknown && final(self).metrics == old(self).metrics,
    {
        self.caches.lookup(path, now, &mut self.metrics)
    }

    /// Begins looking `path` up in the store. An entry of the recycle bin is
    /// taken as it was made up.
    pub fn stat_uncached(&mut self, path: &str, made_up: Option<DirEntry>) -> (r: (
        Lookup,
        LookupNext,
    ))
        requires
            old(self).wf(),
        ensures
            final(self).wf(),
            r.0.prefix@ == old(self).prefix@,
            r.0.path@ == path@,
            *final(self) == (ObjectFs { metrics: final(self).metrics, ..*old(self) }),
            path@ != seq!['/'] && made_up is None && hidden(
                old(self).trash,
                object_key(old(self).prefix@, path@),
            ) ==> r.1.absent() && final(self).metrics == old(self).metrics,
            path@ != seq!['/'] && made_up is None && !hidden(
                old(self).trash,
                object_key(old(self).prefix@, path@),
            ) ==> {
                &&& r.1 is Head
                &&& r.1->Head_key@ == object_key(old(self).prefix@, path@)
                &&& final(self).metrics == head_counted(old(self).metrics)
            },
            path@ == seq!['/'] ==> r.1.found(directory_entry(Seq::empty()))
                && final(self).metrics == old(self).metrics,
            path@ != seq!['/'] && made_up is Some ==> r.1.found(made_up->0@)
                && final(self).metrics == old(self).metrics,
    {
        let lookup = Lookup { prefix: self.prefix.clone(), path: path.to_owned() };
        let next = lookup.start(&self.trash, made_up, &mut self.metrics);
        (lookup, next)
    }

    /// Begins listing `dir`.
    pub fn list(&mut self, dir: &str) -> (r: Listing)
        requires
            old(self).wf(),
        ensures
            final(self).wf(),
            r.list_prefix@ == children_prefix(old(self).prefix@, dir@),
            r.skip_foreign_markers == old(self).notsup_compat_dir,
            entries(r.out@) == Seq::<Entry>::empty(),
            *final(self) == (ObjectFs {
                metrics: Metrics {
                    s3_lists: old(self).metrics.s3_lists.wrapping_add(1),
                    ..old(self).metrics
                },
                ..*old(self)
            }),
    {
        let list_prefix = self.list_prefix(dir);
        Listing::start(list_prefix, self.notsup_compat_dir, &mut self.metrics)
    }

    /// Begins writing an object of `size` bytes. A read-only mount changes and
    /// counts nothing. Otherwise the write is counted and what is known of the
    /// path forgotten, even where the upload budget then refuses it.
    pub fn write(&mut self, path: &str, size: u64) -> (r: Result<WritePlan, FsError>)
        requires
            old(self).wf(),
        ensures
            final(self).wf(),
            old(self).read_only ==> r is Err && r->Err_0 == FsError::ReadOnly && *final(self)
                == *old(self),
            !old(self).read_only ==> {
                let budget = old(self).upload_budget;
                let bytes = size as usize;
                &&& *final(self) == (ObjectFs {
                    metrics: write_counted(old(self).metrics, size),
                    caches: final(self).caches,
                    reader: final(self).reader,
                    disk_cache: final(self).disk_cache,
                    ..*old(self)
                })
                &&& final(self).forgot_stat(old(self), path@)
                &&& final(self).forgot_reads(old(self), path@)
                &&& r matches Ok(plan) ==> {
                    &&& plan.key@ == object_key(old(self).prefix@, path@)
                    &&& plan.route == (if size > MULTIPART_THRESHOLD {
                        UploadRoute::Multipart
                    } else {
                        UploadRoute::Single
                    })
                    &&& plan.budget is Some <==> budget.limited() && bytes > 0
                    &&& plan.budget is Some ==> permit_units(plan.budget->0) == units_of(
                        bytes as nat,
                    ) && permit_source(plan.budget->0) == budget.source()
                }
                &&& !budget.limited() || bytes == 0 ==> r is Ok
                &&& budget.too_large(bytes as nat) ==> r is Err && r->Err_0 == (
                FsError::UploadTooLarge {
                    bytes: bytes as u64,
                    limit: (budget.all_units() * BUDGET_UNIT) as u64,
                })
                &&& r is Err && !budget.too_large(bytes as nat) ==> r->Err_0 == (
                FsError::UploadBudgetHeld { bytes: bytes as u64 })
                &&& budget.limited() && bytes > 0 && !budget.too_large(bytes as nat) ==> exists|
                    answer: Option<OwnedSemaphorePermit>,
                |
                    {
                        &&& #[trigger] budget.answers(units_of(bytes as nat) as u32, answer)
                        &&& r is Ok <==> answer is Some
                        &&& r matches Ok(plan) ==> plan.budget == answer
                    }
            },
    {
        if self.read_only {
            return Err(FsError::ReadOnly);
        }
        self.metrics.writes = self.metrics.writes.wrapping_add(1);
        self.metrics.s3_puts = self.metrics.s3_puts.wrapping_add(1);
        self.metrics.upload_bytes_total = self.metrics.upload_bytes_total.wrapping_add(size);
        self.invalidate_stat(path);
        self.invalidate_read_cache(path);
        match self.upload_budget.acquire_upload_budget(size as usize) {
            Ok(budget) => Ok(
                WritePlan { key: self.key_for(path), route: upload_route(size), budget },
            ),
            Err(e) => Err(e),
        }
    }

    /// Once `path` is written: the key whose tombstones are to be lifted, where
    /// any covers it. Before that they stay, so that a write that fails does
    /// not undo a deletion.
    pub fn covered_key(&self, path: &str) -> (r: Option<String>)
        requires
            self.wf(),
        ensures
            r is Some <==> self.trash is Some && self.trash->0.index.covers(
                object_key(self.prefix@, path@),
            ),
            r is Some ==> r->0@ == object_key(self.prefix@, path@),
    {
        let key = self.key_for(path);
        match &self.trash {
            Some(trash) => {
                if trash.index.is_covered(key.as_str()) {
                    Some(key)
                } else {
                    None
                }
            },
            None => None,
        }
    }

    /// Begins an upload that is fed piece by piece: the key it goes to. It
    /// counts as one write now; its bytes are counted when they are complete.
    pub fn begin_streaming_upload(&mut self, path: &str) -> (r: Result<String, FsError>)
        requires
            old(self).wf(),
        ensures
            final(self).wf(),
            old(self).read_only ==> r == Err::<String, FsError>(FsError::ReadOnly) && *final(self)
                == *old(self),
            !old(self).read_only ==> {
                &&& r is Ok
                &&& r->Ok_0@ == object_key(old(self).prefix@, path@)
                &&& final(self).forgot_stat(old(self), path@)
                &&& *final(self) == (ObjectFs {
                    metrics: Metrics {
                        writes: old(self).metrics.writes.wrapping_add(1),
                        ..old(self).metrics
                    },
                    caches: final(self).caches,
                    ..*old(self)
                })
            },
    {
        if self.read_only {
            return Err(FsError::ReadOnly);
        }
        self.invalidate_stat(path);
        self.metrics.writes = self.metrics.writes.wrapping_add(1);
        Ok(self.key_for(path))
    }

    /// The upload that the store started.
    pub fn streaming_upload_started(&mut self, key: String, reply: CreateReply) -> (r: Result<
        StreamingUpload,
        FsError,
    >)
        requires
            old(self).wf(),
        ensures
            final(self).wf(),
            *final(self) == (ObjectFs {
                metrics: create_counted(old(self).metrics, reply),
                ..*old(self)
            }),
            r is Ok <==> reply is Created && reply->upload_id is Some,
            r matches Ok(upload) ==> {
                &&& upload.wf()
                &&& upload.key == key
                &&& upload.upload_id == reply->upload_id->0
                &&& upload.part_size == old(self).multipart_part_size
                &&& upload.verify_crc64 == old(self).verify_crc64
                &&& upload.content_md5 == old(self).content_md5
                &&& upload.total_bytes == 0
                &&& upload.next_part == 1
                &&& upload.parts@.len() == 0
                &&& upload.pending@.len() == 0
                &&& upload.hasher.has_read(Seq::empty())
                &&& upload.budget_units == 0
                &&& upload.budget_permits@.len() == 0
                &&& upload.failure is None
                &&& !upload.aborted
            },
            r matches Err(e) ==> e == (match reply {
                CreateReply::Created { .. } => FsError::NoUploadId,
                CreateReply::Refused { cause } => FsError::Failed {
                    step: Step::CreateUpload,
                    cause,
                },
            }),
    {
        match upload_started(reply, &mut self.metrics) {
            Ok(upload_id) => Ok(
                StreamingUpload::begin(
                    key,
                    upload_id,
                    self.multipart_part_size,
                    self.verify_crc64,
                    self.content_md5,
                ),
            ),
            Err(e) => Err(e),
        }
    }

    /// Begins making a directory. The root is always there; in the recycle bin
    /// nothing is written.
    pub fn mkdir(&mut self, path: &str, bin: &Option<SystemTrashMatch>) -> (r: Result<
        MkdirPlan,
        FsError,
    >)
        requires
            old(self).wf(),
        ensures
            final(self).wf(),
            old(self).read_only ==> r == Err::<MkdirPlan, FsError>(FsError::ReadOnly),
            !old(self).read_only && is_root(path@) ==> r == Err::<MkdirPlan, FsError>(
                FsError::RootExists,
            ),
            !old(self).read_only && !is_root(path@) ==> r is Ok && (if old(self).trash is Some
                && *bin is Some && bin->0 is Dir {
                r->Ok_0 is InBin
            } else {
                r->Ok_0 is Marker && r->Ok_0->path@ == as_directory(path@)
            }),
            !(r is Ok && r->Ok_0 is Marker) ==> *final(self) == *old(self),
            r is Ok && r->Ok_0 is Marker ==> {
                &&& final(self).forgot_stat(old(self), path@)
                &&& *final(self) == (ObjectFs { caches: final(self).caches, ..*old(self) })
            },
    {
        let none: Option<SystemTrashMatch> = None;
        let plan = if self.trash.is_some() {
            plan_mkdir(self.read_only, path, bin)
        } else {
            plan_mkdir(self.read_only, path, &none)
        };
        match &plan {
            Ok(MkdirPlan::Marker { .. }) => {
                self.invalidate_stat(path);
            },
            _ => {},
        }
        plan
    }

    /// What deleting `path` amounts to.
    pub fn delete(&self, path: &str, in_bin: bool, under_bin_name: bool) -> (r: Result<
        DeletePlan,
        FsError,
    >)
        ensures
            r == delete_plan(self.read_only, path@, self.trash is Some, in_bin, under_bin_name),
    {
        plan_delete(self.read_only, path, self.trash.is_some(), in_bin, under_bin_name)
    }

    /// Begins deleting the object of `path`: its key.
    pub fn delete_object(&mut self, path: &str) -> (r: String)
        requires
            old(self).wf(),
        ensures
            final(self).wf(),
            r@ == object_key(old(self).prefix@, path@),
            final(self).forgot_stat(old(self), path@),
            final(self).forgot_reads(old(self), path@),
            *final(self) == (ObjectFs {
                caches: final(self).caches,
                reader: final(self).reader,
                disk_cache: final(self).disk_cache,
                ..*old(self)
            }),
    {
        self.invalidate_stat(path);
        self.invalidate_read_cache(path);
        self.key_for(path)
    }

    /// What deleting a directory amounts to, from where in the recycle bin it
    /// stands, if it does.
    pub fn delete_dir_recursive(&self, bin: &Option<SystemTrashMatch>) -> (r: Result<
        DeleteDirPlan,
        FsError,
    >)
        requires
            self.wf(),
        ensures
            r == delete_dir_plan(
                self.read_only,
                self.trash is Some,
                *bin,
                self.trash is Some && self.trash->0.index.files().len() == 0
                    && self.trash->0.index.dirs().len() == 0,
            ),
    {
        let empty = match &self.trash {
            Some(trash) => trash.index.is_empty(),
            None => false,
        };
        plan_delete_dir(self.read_only, self.trash.is_some(), bin, empty)
    }

    /// Begins deleting a tree: the prefix of its keys, the same with and without
    /// slashes at the end of its path, and the deletion.
    pub fn delete_tree(&mut self, dir: &str) -> (r: (String, TreeDeletion, TreeNext))
        requires
            old(self).wf(),
        ensures
            final(self).wf(),
            r.0@ == (if is_root(dir@) {
                old(self).prefix@
            } else {
                directory_prefix(object_key(old(self).prefix@, dir@))
            }),
            r.1.marker@ == r.0@,
            r.1.waiting@.len() == 0,
            r.2 == (TreeNext::List { token: None }),
            final(self).forgot_stat(old(self), dir@),
            final(self).forgot_all_reads(old(self)),
            *final(self) == (ObjectFs {
                caches: final(self).caches,
                reader: final(self).reader,
                disk_cache: final(self).disk_cache,
                ..*old(self)
            }),
    {
        self.invalidate_stat(dir);
        self.clear_read_cache();
        let prefix = self.list_prefix(dir);
        let (deletion, next) = TreeDeletion::start(self.prefix.as_str(), dir);
        (prefix, deletion, next)
    }

    /// Begins a rename. A read-only mount changes nothing. Otherwise what is
    /// known of both paths, and everything that was read, is forgotten.
    pub fn rename(
        &mut self,
        old_path: &str,
        new_path: &str,
        replace_if_exists: bool,
        from_bin: Option<SystemTrashMatch>,
        to_bin: Option<SystemTrashMatch>,
    ) -> (r: (Rename, RenameNext))
        requires
            old(self).wf(),
        ensures
            final(self).wf(),
            r.0.bucket@ == old(self).bucket@,
            r.0.old_key@ == object_key(old(self).prefix@, old_path@),
            r.0.new_key@ == object_key(old(self).prefix@, new_path@),
            r.0.allow_dir == old(self).allow_rename_dir,
            r.0.dir_limit == old(self).rename_dir_limit,
            r.0.trash == old(self).trash is Some,
            r.1 == started(
                old(self).read_only,
                old_path@,
                new_path@,
                replace_if_exists,
                bin_shown(old(self).trash),
                from_bin,
                to_bin,
                old(self).trash is Some && old(self).trash->0.index.covers(
                    object_key(old(self).prefix@, old_path@),
                ),
            ),
            r.0.phase == (match r.1 {
                RenameNext::StatTarget => RenamePhase::Target,
                RenameNext::StatSource => RenamePhase::Source,
                _ => RenamePhase::Over,
            }),
            old(self).read_only ==> *final(self) == *old(self),
            !old(self).read_only ==> {
                &&& final(self).caches.same_limits(&old(self).caches)
                &&& final(self).caches.stats@ == old(self).caches.stats@.remove(old_path@).remove(
                    new_path@,
                )
                &&& final(self).caches.negative@ == old(self).caches.negative@.remove(
                    old_path@,
                ).remove(new_path@)
                &&& final(self).forgot_all_reads(old(self))
                &&& *final(self) == (ObjectFs {
                    caches: final(self).caches,
                    reader: final(self).reader,
                    disk_cache: final(self).disk_cache,
                    ..*old(self)
                })
            },
    {
        if !self.read_only {
            self.invalidate_stat(old_path);
            self.invalidate_stat(new_path);
            self.clear_read_cache();
        }
        Rename::start(
            self.bucket.as_str(),
            self.prefix.as_str(),
            old_path,
            new_path,
            replace_if_exists,
            self.read_only,
            self.allow_rename_dir,
            self.rename_dir_limit,
            &self.trash,
            from_bin,
            to_bin,
        )
    }
}

/// Once a path is changed, neither its attributes nor its bytes are answered
/// from what was remembered before.
pub proof fn changed_paths_are_asked_for_again(
    before: &ObjectFs,
    after: &ObjectFs,
    path: Seq<char>,
    offset: u64,
    len: usize,
    now: u64,
)
    requires
        after.forgot_stat(before, path),
        after.forgot_reads(before, path),
    ensures
        !after.caches.knows_present(path, now),
        !after.caches.knows_absent(path, now),
        !after.reader.serves(path, offset, len),
        !after.reader.sequential(path, offset),
        after.disk_cache is Some ==> forall|block: u64|
            !#[trigger] after.disk_cache->0.listed().contains(
                (object_key(before.prefix@, path), block),
            ),
{
    if after.disk_cache is Some {
        let key = object_key(before.prefix@, path);
        let keep = |e: (Seq<char>, u64)| e.0 != key;
        let listed = before.disk_cache->0.listed();
        assert forall|block: u64|
            !#[trigger] after.disk_cache->0.listed().contains((key, block)) by {
            if listed.filter(keep).contains((key, block)) {
                let i = listed.filter(keep).index_of((key, block));
                listed.lemma_filter_pred(keep, i);
            }
        }
    }
}

/// A change of one path leaves what is remembered of every other path alone.
pub proof fn other_paths_stay_remembered(
    before: &ObjectFs,
    after: &ObjectFs,
    path: Seq<char>,
    other: Seq<char>,
    offset: u64,
    len: usize,
    now: u64,
)
    requires
        other != path,
        after.forgot_stat(before, path),
        after.forgot_reads(before, path),
    ensures
        after.caches.knows_present(other, now) == before.caches.knows_present(other, now),
        after.caches.knows_absent(other, now) == before.caches.knows_absent(other, now),
        after.reader.serves(other, offset, len) == before.reader.serves(other, offset, len),
        after.reader.sequential(other, offset) == before.reader.sequential(other, offset),
{
}

/// What is taken into the trash is hidden: the object of a file, and of a
/// directory everything that stands under it.
pub proof fn deleted_paths_are_hidden(
    after: &ObjectFs,
    path: Seq<char>,
    is_dir: bool,
    rest: Seq<char>,
)
    requires
        after.trash is Some,
        !is_dir ==> after.trash->0.index.files().contains(object_key(after.prefix@, path)),
        is_dir ==> after.trash->0.index.dirs().contains(
            directory_prefix(object_key(after.prefix@, path)),
        ),
    ensures
        !is_dir ==> hidden(after.trash, object_key(after.prefix@, path)),
        is_dir ==> hidden(
            after.trash,
            directory_prefix(object_key(after.prefix@, path)) + rest,
        ),
{
    let dir = directory_prefix(object_key(after.prefix@, path));
    assert(dir.is_prefix_of(dir + rest)) by {
        assert((dir + rest).subrange(0, dir.len() as int) =~= dir);
    }
}

} // verus!
