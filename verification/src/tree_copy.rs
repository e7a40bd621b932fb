//! Copying a tree, page by page and object by object, and counting one.

use crate::block_read::capped_sum;
use crate::copying::MULTIPART_COPY_THRESHOLD;
use crate::error::{FsError, Step};
use crate::listing::after_prefix;
use crate::paths::{copy_source, dir_object_prefix, directory_prefix, s3_copy_source};
use crate::text::{joined, strip_prefix};
use vstd::prelude::*;

verus! {

/// An object of the tree.
#[derive(Debug, PartialEq, Eq)]
pub struct TreeObject {
    pub key: Option<String>,
    pub size: Option<i64>,
}

/// A page of the tree's objects.
#[derive(Debug, PartialEq, Eq)]
pub enum CopyPage {
    /// The objects, and whether and where it goes on.
    Objects { objects: Vec<TreeObject>, truncated: Option<bool>, token: Option<String> },
    /// The request failed.
    Failed { cause: Vec<String> },
}

/// What the store said when it was to copy the directory's own marker.
#[derive(Debug, PartialEq, Eq)]
pub enum MarkerReply {
    /// It is copied.
    Copied,
    /// There is no such object: the directory is there because something
    /// stands under it.
    Missing,
    /// The request failed.
    Refused { cause: Vec<String> },
}

/// What copying a tree does next.
#[derive(Debug, PartialEq, Eq)]
pub enum TreeCopyNext {
    /// Ask for a page of objects, from the token on where there is one.
    List { token: Option<String> },
    /// Copy an object at once.
    Copy { source: String, to: String },
    /// Copy an object in parts.
    CopyInParts { from: String, to: String, size: u64 },
    /// Copy the directory's own marker.
    CopyMarker { source: String, to: String },
    /// The tree is copied, or an error ended it.
    Done { result: Result<(), FsError> },
}

/// Where the object of `key` in the tree of `old_key` goes.
pub open spec fn destination(old_key: Seq<char>, new_key: Seq<char>, key: Seq<char>) -> Seq<char> {
    directory_prefix(new_key) + after_prefix(key, directory_prefix(old_key))
}

/// The request that copies one object: in parts where it is too large.
pub open spec fn copies(
    bucket: Seq<char>,
    old_key: Seq<char>,
    new_key: Seq<char>,
    key: Seq<char>,
    size: Option<i64>,
    r: TreeCopyNext,
) -> bool {
    if size is Some && size->0 >= MULTIPART_COPY_THRESHOLD {
        &&& r is CopyInParts
        &&& r->from@ == key
        &&& r->CopyInParts_to@ == destination(old_key, new_key, key)
        &&& r->size == size->0
    } else {
        &&& r is Copy
        &&& r->Copy_source@ == copy_source(bucket, key)
        &&& r->Copy_to@ == destination(old_key, new_key, key)
    }
}

/// The objects that have a key.
pub open spec fn with_keys(objects: Seq<TreeObject>) -> Seq<TreeObject> {
    objects.filter(|o: TreeObject| o.key is Some)
}

/// A copy of a tree under way. Objects are copied one after the other; the
/// next page is asked for when all of the one before are copied, the marker is
/// copied last, and the first failure ends it.
pub struct TreeCopy {
    pub bucket: String,
    pub old_key: String,
    pub new_key: String,
    /// The objects of the page that are still to be copied.
    pub waiting: Vec<TreeObject>,
    pub truncated: Option<bool>,
    pub token: Option<String>,
}

impl TreeCopy {
    /// What follows when the objects `waiting` are still to be copied.
    pub open spec fn goes_on(
        &self,
        before: &Self,
        waiting: Seq<TreeObject>,
        truncated: Option<bool>,
        token: Option<String>,
        r: TreeCopyNext,
    ) -> bool {
        let left = with_keys(waiting);
        &&& self.bucket == before.bucket
        &&& self.old_key == before.old_key
        &&& self.new_key == before.new_key
        &&& self.truncated == truncated
        &&& self.token == token
        &&& if left.len() > 0 {
            &&& copies(
                self.bucket@,
                self.old_key@,
                self.new_key@,
                left[0].key->0@,
                left[0].size,
                r,
            )
            &&& with_keys(self.waiting@) == left.drop_first()
        } else {
            &&& with_keys(self.waiting@) == left
            &&& if truncated != Some(true) {
                &&& r is CopyMarker
                &&& r->CopyMarker_source@ == copy_source(
                    self.bucket@,
                    directory_prefix(self.old_key@),
                )
                &&& r->CopyMarker_to@ == directory_prefix(self.new_key@)
            } else if token is Some {
                r is List && r->token is Some && r->token->0@ == token->0@
            } else {
                r == (TreeCopyNext::Done { result: Err::<(), FsError>(FsError::PartialListing) })
            }
        }
    }

    /// Begins the copy of the tree of `old_key` to `new_key`.
    pub fn start(bucket: &str, old_key: &str, new_key: &str) -> (r: (Self, TreeCopyNext))
        ensures
            r.0.bucket@ == bucket@,
            r.0.old_key@ == old_key@,
            r.0.new_key@ == new_key@,
            r.0.waiting@.len() == 0,
            r.1 == (TreeCopyNext::List { token: None }),
    {
        (
            TreeCopy {
                bucket: bucket.to_owned(),
                old_key: old_key.to_owned(),
                new_key: new_key.to_owned(),
                waiting: Vec::new(),
                truncated: None,
                token: None,
            },
            TreeCopyNext::List { token: None },
        )
    }

    fn copy_request(&self, key: String, size: Option<i64>) -> (r: TreeCopyNext)
        ensures
            copies(self.bucket@, self.old_key@, self.new_key@, key@, size, r),
    {
        let old_prefix = dir_object_prefix(self.old_key.as_str());
        let new_prefix = dir_object_prefix(self.new_key.as_str());
        let suffix = match strip_prefix(key.as_str(), old_prefix.as_str()) {
            Some(suffix) => suffix,
            None => key.clone(),
        };
        let to = joined(new_prefix.as_str(), suffix.as_str());
        let large: Option<u64> = match size {
            Some(n) => {
                if n >= MULTIPART_COPY_THRESHOLD as i64 {
                    Some(n as u64)
                } else {
                    None
                }
            },
            None => None,
        };
        match large {
            Some(size) => TreeCopyNext::CopyInParts { from: key, to, size },
            None => TreeCopyNext::Copy {
                source: s3_copy_source(self.bucket.as_str(), key.as_str()),
                to,
            },
        }
    }

    fn advance(&mut self) -> (r: TreeCopyNext)
        ensures
            final(self).goes_on(
                old(self),
                old(self).waiting@,
                old(self).truncated,
                old(self).token,
                r,
            ),
    {
        let ghost was = *self;
        while self.waiting.len() > 0
            invariant
                self.bucket == was.bucket,
                self.old_key == was.old_key,
                self.new_key == was.new_key,
                self.truncated == was.truncated,
                self.token == was.token,
                with_keys(self.waiting@) == with_keys(was.waiting@),
                was == *old(self),
            decreases self.waiting@.len(),
        {
            let ghost w = self.waiting@;
            let o = self.waiting.remove(0);
            proof {
                filter_front(w);
                assert(self.waiting@ =~= w.drop_first());
            }
            match o.key {
                Some(key) => {
                    let r = self.copy_request(key, o.size);
                    assert(self.goes_on(old(self), was.waiting@, was.truncated, was.token, r));
                    return r;
                },
                None => {},
            }
        }
        proof {
            assert(with_keys(self.waiting@) =~= Seq::<TreeObject>::empty()) by {
                assert(self.waiting@ =~= Seq::<TreeObject>::empty());
                reveal(Seq::filter);
            }
        }
        match self.truncated {
            Some(true) => match &self.token {
                Some(token) => TreeCopyNext::List { token: Some(token.clone()) },
                None => TreeCopyNext::Done { result: Err(FsError::PartialListing) },
            },
            _ => {
                let from = dir_object_prefix(self.old_key.as_str());
                TreeCopyNext::CopyMarker {
                    source: s3_copy_source(self.bucket.as_str(), from.as_str()),
                    to: dir_object_prefix(self.new_key.as_str()),
                }
            },
        }
    }

    /// Takes in a page.
    pub fn listed(&mut self, page: CopyPage) -> (r: TreeCopyNext)
        ensures
            page matches CopyPage::Failed { cause } ==> r == (TreeCopyNext::Done {
                result: Err::<(), FsError>(FsError::Failed { step: Step::ListForRename, cause }),
            }),
            page matches CopyPage::Objects { objects, truncated, token } ==> final(self).goes_on(
                old(self),
                objects@,
                truncated,
                token,
                r,
            ),
    {
        match page {
            CopyPage::Failed { cause } => TreeCopyNext::Done {
                result: Err(FsError::Failed { step: Step::ListForRename, cause }),
            },
            CopyPage::Objects { objects, truncated, token } => {
                self.waiting = objects;
                self.truncated = truncated;
                self.token = token;
                self.advance()
            },
        }
    }

    /// Takes in how the copy of an object ended.
    pub fn copied(&mut self, failed: Option<FsError>) -> (r: TreeCopyNext)
        ensures
            failed matches Some(e) ==> r == (TreeCopyNext::Done { result: Err::<(), FsError>(e) }),
            failed is None ==> final(self).goes_on(
                old(self),
                old(self).waiting@,
                old(self).truncated,
                old(self).token,
                r,
            ),
    {
        match failed {
            Some(e) => TreeCopyNext::Done { result: Err(e) },
            None => self.advance(),
        }
    }

    /// How the copy ends, once the marker was to be copied. A directory that is
    /// only implied by what stands under it has none, and is copied without.
    pub fn marker_copied(reply: MarkerReply) -> (r: Result<(), FsError>)
        ensures
            r == (match reply {
                MarkerReply::Copied => Ok::<(), FsError>(()),
                MarkerReply::Missing => Ok(()),
                MarkerReply::Refused { cause } => Err(
                    FsError::Failed { step: Step::CopyMarker, cause },
                ),
            }),
    {
        match reply {
            MarkerReply::Copied => Ok(()),
            MarkerReply::Missing => Ok(()),
            MarkerReply::Refused { cause } => Err(
                FsError::Failed { step: Step::CopyMarker, cause },
            ),
        }
    }
}

proof fn filter_front(w: Seq<TreeObject>)
    requires
        w.len() > 0,
    ensures
        with_keys(w) == (if w[0].key is Some {
            seq![w[0]] + with_keys(w.drop_first())
        } else {
            with_keys(w.drop_first())
        }),
        w[0].key is Some ==> with_keys(w).drop_first() == with_keys(w.drop_first()),
{
    let p = |o: TreeObject| o.key is Some;
    let head = seq![w[0]];
    assert(w =~= head + w.drop_first());
    Seq::filter_distributes_over_add(head, w.drop_first(), p);
    assert(head.filter(p) =~= (if w[0].key is Some {
        head
    } else {
        Seq::<TreeObject>::empty()
    })) by {
        reveal_with_fuel(Seq::filter, 2);
        assert(head.drop_last() =~= Seq::<TreeObject>::empty());
    }
    assert(with_keys(w) =~= (if w[0].key is Some {
        head + with_keys(w.drop_first())
    } else {
        with_keys(w.drop_first())
    }));
    if w[0].key is Some {
        assert(with_keys(w).drop_first() =~= with_keys(w.drop_first()));
    }
}

/// Objects of one tree never end up in the same place, and all of them end up
/// in the tree of the new key.
pub proof fn destinations_are_distinct(
    old_key: Seq<char>,
    new_key: Seq<char>,
    a: Seq<char>,
    b: Seq<char>,
)
    requires
        directory_prefix(old_key).is_prefix_of(a),
        directory_prefix(old_key).is_prefix_of(b),
        a != b,
    ensures
        destination(old_key, new_key, a) != destination(old_key, new_key, b),
        directory_prefix(new_key).is_prefix_of(destination(old_key, new_key, a)),
{
    let p = directory_prefix(old_key);
    let q = directory_prefix(new_key);
    let x = a.skip(p.len() as int);
    let y = b.skip(p.len() as int);
    if q + x == q + y {
        assert(x =~= (q + x).skip(q.len() as int));
        assert(y =~= (q + y).skip(q.len() as int));
        assert(a =~= p + x);
        assert(b =~= p + y);
    }
    assert(q =~= (q + x).subrange(0, q.len() as int));
}

/// What counting a tree does next.
#[derive(Debug, PartialEq, Eq)]
pub enum CountNext {
    /// Ask for a page, from the token on; that many objects so far.
    List { token: String, count: u64 },
    /// The tree has that many objects.
    Done { count: u64 },
}

/// Adds a page to the count of a tree. More than the limit is an error at
/// once, so that a tree that is too large is not counted to its end.
pub fn count_page(
    count: u64,
    objects: usize,
    limit: u64,
    truncated: Option<bool>,
    token: Option<String>,
) -> (r: Result<CountNext, FsError>)
    ensures
        ({
            let sum = capped_sum(count as nat, objects as nat) as u64;
            r == (if sum > limit {
                Err::<CountNext, FsError>(FsError::DirRenameLimit { limit, count: sum })
            } else if truncated != Some(true) {
                Ok(CountNext::Done { count: sum })
            } else if token is Some {
                Ok(CountNext::List { token: token->0, count: sum })
            } else {
                Err(FsError::PartialListing)
            })
        }),
{
    let sum: u64 = count.saturating_add(objects as u64);
    if sum > limit {
        return Err(FsError::DirRenameLimit { limit, count: sum });
    }
    match truncated {
        Some(true) => match token {
            Some(token) => Ok(CountNext::List { token, count: sum }),
            None => Err(FsError::PartialListing),
        },
        _ => Ok(CountNext::Done { count: sum }),
    }
}

} // verus!
