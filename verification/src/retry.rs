//! Uploads that failed and are tried again in the background, until they
//! succeed or have failed too often.

use crate::config::{backoff_secs, retry_backoff_secs, RETRY_MAX_ATTEMPTS};
use std::collections::VecDeque;
use std::path::PathBuf;
use vstd::prelude::*;

verus! {

/// A failed upload, with the bytes that are to be uploaded: in a file, or in
/// memory.
#[derive(Debug, PartialEq, Eq)]
pub struct RetryUpload {
    pub path: String,
    pub spool: Option<PathBuf>,
    pub buf: Option<Vec<u8>>,
    /// How often it has been tried again.
    pub attempts: u32,
}

/// Where the bytes of a failed upload are.
#[derive(Clone, Copy, Debug, PartialEq, Eq, Structural)]
pub enum RetrySource {
    File,
    Memory,
    /// Nowhere: there is nothing to upload.
    Nothing,
}

/// What became of another try.
#[derive(Debug, PartialEq, Eq)]
pub enum RetryOutcome {
    /// It succeeded; the file that held the bytes can go.
    Succeeded { spool: Option<PathBuf> },
    /// It failed, and will be tried once more.
    Again { item: RetryUpload },
    /// It failed once too often. The bytes are kept.
    GaveUp { item: RetryUpload },
}

impl RetryUpload {
    /// Where the bytes are: in the file, where there is one.
    pub fn source(&self) -> (r: RetrySource)
        ensures
            r == (if self.spool is Some {
                RetrySource::File
            } else if self.buf is Some {
                RetrySource::Memory
            } else {
                RetrySource::Nothing
            }),
    {
        if self.spool.is_some() {
            RetrySource::File
        } else if self.buf.is_some() {
            RetrySource::Memory
        } else {
            RetrySource::Nothing
        }
    }

    /// Seconds to wait before the next try.
    pub fn wait_secs(&self) -> (r: u64)
        ensures
            r == backoff_secs(self.attempts as nat),
    {
        retry_backoff_secs(self.attempts)
    }

    /// What a try leads to. A success gives the file away; a failure counts,
    /// and keeps everything else as it was.
    pub fn tried(self, succeeded: bool) -> (r: RetryOutcome)
        requires
            self.attempts < u32::MAX,
        ensures
            succeeded ==> r == (RetryOutcome::Succeeded { spool: self.spool }),
            !succeeded ==> {
                let item = RetryUpload { attempts: (self.attempts + 1) as u32, ..self };
                r == (if self.attempts + 1 >= RETRY_MAX_ATTEMPTS {
                    RetryOutcome::GaveUp { item }
                } else {
                    RetryOutcome::Again { item }
                })
            },
    {
        if succeeded {
            return RetryOutcome::Succeeded { spool: self.spool };
        }
        let attempts: u32 = self.attempts + 1;
        let item = RetryUpload { attempts, ..self };
        if attempts >= RETRY_MAX_ATTEMPTS {
            RetryOutcome::GaveUp { item }
        } else {
            RetryOutcome::Again { item }
        }
    }
}

/// The failed uploads that wait, first in first out.
pub struct RetryQueue {
    pub waiting: VecDeque<RetryUpload>,
}

impl RetryQueue {
    pub fn new() -> (r: Self)
        ensures
            r.waiting@.len() == 0,
    {
        RetryQueue { waiting: VecDeque::new() }
    }

    /// Puts an upload at the end.
    pub fn push_back(&mut self, item: RetryUpload)
        ensures
            final(self).waiting@ == old(self).waiting@.push(item),
    {
        self.waiting.push_back(item);
    }

    /// Takes the first one.
    pub fn pop_front(&mut self) -> (r: Option<RetryUpload>)
        ensures
            r is Some <==> old(self).waiting@.len() > 0,
            r is Some ==> r->0 == old(self).waiting@[0] && final(self).waiting@
                == old(self).waiting@.drop_first(),
            r is None ==> final(self).waiting@ == old(self).waiting@,
    {
        let ghost before = self.waiting@;
        let item = self.waiting.pop_front();
        proof {
            if item is Some {
                assert(self.waiting@ =~= before.drop_first());
            }
        }
        item
    }
}

/// How many tries are left for an upload that has had `attempts`.
pub open spec fn tries_left(attempts: nat) -> nat {
    if attempts >= RETRY_MAX_ATTEMPTS {
        0
    } else {
        (RETRY_MAX_ATTEMPTS - attempts) as nat
    }
}

/// No upload is tried for ever: every failure leaves one try less, and after
/// the last one it is given up.
pub proof fn tries_run_out(attempts: nat)
    requires
        attempts < RETRY_MAX_ATTEMPTS,
    ensures
        tries_left(attempts + 1) < tries_left(attempts),
        attempts + 1 >= RETRY_MAX_ATTEMPTS <==> tries_left(attempts + 1) == 0,
{
}

} // verus!
