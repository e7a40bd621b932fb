//! Budgets: how many bytes of write buffers, and of uploads, are under way at
//! once. They are counted in whole units and handed out as permits that give
//! them back when they are dropped.

use crate::error::FsError;
use std::sync::Arc;
use tokio::sync::{OwnedSemaphorePermit, Semaphore};
use vstd::prelude::*;

verus! {

/// The unit in which bytes are counted.
pub const BUDGET_UNIT: usize = 1024 * 1024;

/// Units that hold `bytes` bytes.
pub open spec fn units_of(bytes: nat) -> nat {
    ((bytes + BUDGET_UNIT - 1) / BUDGET_UNIT as int) as nat
}

/// Units that hold `bytes` bytes.
pub fn whole_units(bytes: usize) -> (r: usize)
    ensures
        r == units_of(bytes as nat),
        r <= usize::MAX / 8,
{
    let whole: usize = bytes / BUDGET_UNIT;
    if bytes % BUDGET_UNIT == 0 {
        whole
    } else {
        whole + 1
    }
}

/// The units of a budget of that many bytes, no more than a permit can hold.
pub open spec fn budget_units(bytes: nat) -> nat {
    if units_of(bytes) > u32::MAX {
        u32::MAX as nat
    } else {
        units_of(bytes)
    }
}

/// The units of the upload budget; none where it is not limited.
pub fn upload_budget_units(max_bytes: Option<usize>) -> (r: Option<usize>)
    ensures
        r is None <==> max_bytes is None || max_bytes == Some(0usize),
        r is Some ==> r->0 == budget_units(max_bytes->0 as nat) && 1 <= r->0 <= usize::MAX / 8
            && r->0 <= u32::MAX,
{
    match max_bytes {
        None => None,
        Some(bytes) => {
            if bytes == 0 {
                return None;
            }
            let units: usize = whole_units(bytes);
            if units as u64 > u32::MAX as u64 {
                Some(u32::MAX as usize)
            } else {
                Some(units)
            }
        },
    }
}

/// `tokio::sync::Semaphore`.
#[verifier::external_type_specification]
#[verifier::external_body]
pub struct ExSemaphore(Semaphore);

/// `tokio::sync::OwnedSemaphorePermit`.
#[verifier::external_type_specification]
#[verifier::external_body]
pub struct ExOwnedSemaphorePermit(OwnedSemaphorePermit);

/// How many units a permit holds, as `OwnedSemaphorePermit::num_permits` says.
pub uninterp spec fn permit_units(permit: OwnedSemaphorePermit) -> nat;

/// The semaphore that a permit's units go back to, as
/// `OwnedSemaphorePermit::semaphore` says.
pub uninterp spec fn permit_source(permit: OwnedSemaphorePermit) -> Semaphore;

/// How many units a semaphore was made with, the argument of `Semaphore::new`.
pub uninterp spec fn semaphore_size(sem: Semaphore) -> nat;

/// `Semaphore::new`, shared: a semaphore with that many units. It panics above
/// the number of units that a semaphore can hold, which the bound rules out.
/// How many are free at any later time depends on who holds them.
#[verifier::external_body]
fn new_semaphore(permits: usize) -> (r: Arc<Semaphore>)
    requires
        permits <= usize::MAX / 8,
    ensures
        semaphore_size(*r) == permits,
{
    Arc::new(Semaphore::new(permits))
}

/// `Arc::clone`: another handle on the same semaphore.
#[verifier::external_body]
fn share(sem: &Arc<Semaphore>) -> (r: Arc<Semaphore>)
    ensures
        r == *sem,
{
    Arc::clone(sem)
}

/// `Semaphore::try_acquire_many_owned`: a permit for exactly that many units
/// of this semaphore, or none, at once. Whether there is one depends on what
/// others hold. It panics above the number of permits that a semaphore can
/// hold, which the bound rules out.
#[verifier::external_body]
fn try_acquire(sem: &Arc<Semaphore>, permits: u32) -> (r: Option<OwnedSemaphorePermit>)
    requires
        permits <= usize::MAX / 8,
    ensures
        r is Some ==> permit_units(r->0) == permits,
        r is Some ==> permit_source(r->0) == **sem,
{
    sem.clone().try_acquire_many_owned(permits).ok()
}

/// Units of a budget that are held until they are dropped.
pub struct DirtyPermit {
    permit: Option<OwnedSemaphorePermit>,
}

impl DirtyPermit {
    /// How many units are held.
    pub closed spec fn units(&self) -> nat {
        match self.permit {
            Some(permit) => permit_units(permit),
            None => 0,
        }
    }

    /// The semaphore that the units go back to, where any are held.
    pub closed spec fn source(&self) -> Semaphore {
        permit_source(self.permit->0)
    }

    /// A permit that holds nothing.
    pub fn noop() -> (r: Self)
        ensures
            r.units() == 0,
    {
        DirtyPermit { permit: None }
    }

    /// A permit that holds what `permit` holds.
    pub fn holding(permit: OwnedSemaphorePermit) -> (r: Self)
        ensures
            r.units() == permit_units(permit),
            r.source() == permit_source(permit),
    {
        DirtyPermit { permit: Some(permit) }
    }
}

/// The budget for write buffers.
pub struct DirtyBudget {
    sem: Arc<Semaphore>,
    unit: usize,
    max_units: usize,
}

impl Clone for DirtyBudget {
    /// Another handle on the same budget.
    fn clone(&self) -> (r: Self)
        ensures
            r == *self,
    {
        DirtyBudget { sem: share(&self.sem), unit: self.unit, max_units: self.max_units }
    }
}

impl DirtyBudget {
    /// Bytes in a unit.
    pub closed spec fn unit_bytes(&self) -> nat {
        self.unit as nat
    }

    /// Units in all.
    pub closed spec fn all_units(&self) -> nat {
        self.max_units as nat
    }

    pub closed spec fn wf(&self) -> bool {
        &&& self.unit == BUDGET_UNIT
        &&& 1 <= self.max_units <= u32::MAX
        &&& self.max_units <= usize::MAX / 8
        &&& semaphore_size(*self.sem) == self.max_units
    }

    /// A budget of that many bytes, rounded up to whole units; none for zero.
    pub fn new(max_bytes: usize) -> (r: Option<Self>)
        ensures
            r is None <==> max_bytes == 0,
            r is Some ==> r->0.wf() && r->0.unit_bytes() == BUDGET_UNIT && r->0.all_units()
                == budget_units(max_bytes as nat),
    {
        if max_bytes == 0 {
            return None;
        }
        let units: usize = whole_units(max_bytes);
        let max_units: usize = if units as u64 > u32::MAX as u64 {
            u32::MAX as usize
        } else {
            units
        };
        Some(DirtyBudget { sem: new_semaphore(max_units), unit: BUDGET_UNIT, max_units })
    }

    /// Bytes in a unit.
    pub fn unit(&self) -> (r: usize)
        ensures
            r == self.unit_bytes(),
    {
        self.unit
    }

    /// Units in all.
    pub fn max_units(&self) -> (r: usize)
        ensures
            r == self.all_units(),
    {
        self.max_units
    }

    /// The semaphore that the units are taken from.
    pub closed spec fn source(&self) -> Arc<Semaphore> {
        self.sem
    }

    /// The semaphore that the units are taken from was asked for that many of
    /// them, without waiting, and answered so.
    pub closed spec fn answers(&self, units: u32, answer: Option<OwnedSemaphorePermit>) -> bool {
        call_ensures(try_acquire, (&self.sem, units), answer)
    }

    /// The semaphore that the units are taken from, for those who can wait.
    pub fn semaphore(&self) -> (r: &Arc<Semaphore>)
        ensures
            *r == self.source(),
            self.wf() ==> semaphore_size(**r) == self.all_units(),
    {
        &self.sem
    }

    /// What one who waited for units gets: nothing has to be waited for where
    /// none are needed, and an error is left where the budget was closed.
    pub fn acquire_units(units: usize, permit: Option<OwnedSemaphorePermit>) -> (r: Result<
        DirtyPermit,
        FsError,
    >)
        ensures
            units == 0 ==> r is Ok && r->Ok_0.units() == 0,
            units > 0 && permit is Some ==> r is Ok && r->Ok_0.units() == permit_units(permit->0)
                && r->Ok_0.source() == permit_source(permit->0),
            units > 0 && permit is None ==> r is Err && r->Err_0 == FsError::DirtyClosed,
    {
        if units == 0 {
            return Ok(DirtyPermit::noop());
        }
        match permit {
            Some(permit) => Ok(DirtyPermit::holding(permit)),
            None => Err(FsError::DirtyClosed),
        }
    }

    /// Units for `bytes` bytes; an error where the whole budget is smaller.
    pub fn units_for(&self, bytes: usize) -> (r: Result<usize, FsError>)
        requires
            self.wf(),
        ensures
            r == (if units_of(bytes as nat) <= self.all_units() {
                Ok::<usize, FsError>(units_of(bytes as nat) as usize)
            } else {
                Err(FsError::DirtyTooLarge { bytes: bytes as u64 })
            }),
    {
        let units: usize = whole_units(bytes);
        if units > self.max_units {
            return Err(FsError::DirtyTooLarge { bytes: bytes as u64 });
        }
        Ok(units)
    }

    /// Takes units of this budget without waiting. Nothing is always to be had,
    /// and more than there are never is; otherwise the semaphore is asked for
    /// exactly that many, and its answer depends on what others hold.
    pub fn try_acquire_units(&self, units: usize) -> (r: Option<DirtyPermit>)
        requires
            self.wf(),
        ensures
            units == 0 ==> r is Some,
            units > self.all_units() ==> r is None,
            0 < units <= self.all_units() ==> exists|answer: Option<OwnedSemaphorePermit>|
                {
                    &&& #[trigger] self.answers(units as u32, answer)
                    &&& r is Some <==> answer is Some
                },
            r is Some ==> r->0.units() == units,
            r is Some && units > 0 ==> r->0.source() == *self.source(),
    {
        if units == 0 {
            return Some(DirtyPermit::noop());
        }
        if units > self.max_units {
            return None;
        }
        let answer = try_acquire(&self.sem, units as u32);
        assert(self.answers(units as u32, answer));
        match answer {
            Some(permit) => Some(DirtyPermit::holding(permit)),
            None => None,
        }
    }
}

/// The budget for uploads, where there is one.
pub struct UploadBudget {
    sem: Option<Arc<Semaphore>>,
    units: usize,
}

impl UploadBudget {
    /// Uploads are limited.
    pub closed spec fn limited(&self) -> bool {
        self.sem is Some
    }

    /// Units in all.
    pub closed spec fn all_units(&self) -> nat {
        self.units as nat
    }

    pub closed spec fn wf(&self) -> bool {
        &&& self.units <= usize::MAX / 8
        &&& self.units <= u32::MAX
        &&& self.sem is Some ==> semaphore_size(*self.sem->0) == self.units
    }

    /// The semaphore that the units are taken from, where uploads are limited.
    pub closed spec fn source(&self) -> Semaphore {
        *self.sem->0
    }

    /// The semaphore that the units are taken from was asked for that many of
    /// them, without waiting, and answered so.
    pub closed spec fn answers(&self, units: u32, answer: Option<OwnedSemaphorePermit>) -> bool {
        call_ensures(try_acquire, (&self.sem->0, units), answer)
    }

    /// The budget for that many bytes; no limit for zero and for nothing.
    pub fn new(max_bytes: Option<usize>) -> (r: Self)
        ensures
            r.wf(),
            r.limited() <==> max_bytes is Some && max_bytes->0 > 0,
            r.all_units() == (if max_bytes is Some && max_bytes->0 > 0 {
                budget_units(max_bytes->0 as nat)
            } else {
                0
            }),
    {
        match upload_budget_units(max_bytes) {
            Some(units) => UploadBudget { sem: Some(new_semaphore(units)), units },
            None => UploadBudget { sem: None, units: 0 },
        }
    }

    /// An object of `bytes` bytes is larger than the whole budget.
    pub open spec fn too_large(&self, bytes: nat) -> bool {
        self.limited() && units_of(bytes) > self.all_units()
    }

    /// The units that an object of `bytes` bytes takes, zero where nothing has
    /// to be taken; an error where the whole budget is smaller.
    pub fn units_for(&self, bytes: usize) -> (r: Result<usize, FsError>)
        requires
            self.wf(),
        ensures
            self.too_large(bytes as nat) ==> r == Err::<usize, FsError>(
                FsError::UploadTooLarge {
                    bytes: bytes as u64,
                    limit: (self.all_units() * BUDGET_UNIT) as u64,
                },
            ),
            !self.too_large(bytes as nat) ==> r == Ok::<usize, FsError>(
                if self.limited() {
                    units_of(bytes as nat) as usize
                } else {
                    0
                },
            ),
    {
        if self.sem.is_none() {
            return Ok(0);
        }
        let units: usize = whole_units(bytes);
        if units > self.units {
            return Err(
                FsError::UploadTooLarge {
                    bytes: bytes as u64,
                    limit: self.units as u64 * BUDGET_UNIT as u64,
                },
            );
        }
        Ok(units)
    }

    /// What an object gets, from the units it takes and what was to be had:
    /// where units are needed and none are to be had, the write fails.
    pub fn granted(bytes: usize, units: usize, permit: Option<OwnedSemaphorePermit>) -> (r: Result<
        Option<OwnedSemaphorePermit>,
        FsError,
    >)
        ensures
            r == (if units == 0 {
                Ok::<Option<OwnedSemaphorePermit>, FsError>(None)
            } else if permit is Some {
                Ok(permit)
            } else {
                Err(FsError::UploadBudgetHeld { bytes: bytes as u64 })
            }),
    {
        if units == 0 {
            return Ok(None);
        }
        match permit {
            Some(permit) => Ok(Some(permit)),
            None => Err(FsError::UploadBudgetHeld { bytes: bytes as u64 }),
        }
    }

    /// Takes the units for an object of `bytes` bytes from this budget, without
    /// waiting: where there is a limit and the object fits, the semaphore is
    /// asked for exactly those. The permit is to be held until the object is
    /// uploaded.
    pub fn acquire_upload_budget(&self, bytes: usize) -> (r: Result<
        Option<OwnedSemaphorePermit>,
        FsError,
    >)
        requires
            self.wf(),
        ensures
            !self.limited() || bytes == 0 ==> r == Ok::<Option<OwnedSemaphorePermit>, FsError>(
                None,
            ),
            self.too_large(bytes as nat) ==> r == Err::<Option<OwnedSemaphorePermit>, FsError>(
                FsError::UploadTooLarge {
                    bytes: bytes as u64,
                    limit: (self.all_units() * BUDGET_UNIT) as u64,
                },
            ),
            self.limited() && bytes > 0 && !self.too_large(bytes as nat) ==> exists|
                answer: Option<OwnedSemaphorePermit>,
            |
                {
                    &&& #[trigger] self.answers(units_of(bytes as nat) as u32, answer)
                    &&& r == (if answer is Some {
                        Ok::<Option<OwnedSemaphorePermit>, FsError>(answer)
                    } else {
                        Err(FsError::UploadBudgetHeld { bytes: bytes as u64 })
                    })
                },
            r matches Ok(Some(permit)) ==> permit_units(permit) == units_of(bytes as nat)
                && permit_source(permit) == self.source(),
    {
        let units: usize = match self.units_for(bytes) {
            Ok(units) => units,
            Err(e) => {
                return Err(e);
            },
        };
        let permit = match &self.sem {
            Some(sem) => {
                if units == 0 {
                    None
                } else {
                    let answer = try_acquire(sem, units as u32);
                    assert(self.answers(units as u32, answer));
                    answer
                }
            },
            None => None,
        };
        UploadBudget::granted(bytes, units, permit)
    }

    /// Whether uploads are limited.
    pub fn is_limited(&self) -> (r: bool)
        ensures
            r == self.limited(),
    {
        self.sem.is_some()
    }

    /// Takes some more units for a stream that grows, without waiting: exactly
    /// that many of this budget, or none. Without a limit, and for more than
    /// there are in all, there is nothing to take; otherwise it is what the
    /// semaphore answers, which depends on what others hold.
    pub fn grow(&self, units: usize) -> (r: Option<OwnedSemaphorePermit>)
        requires
            self.wf(),
        ensures
            !self.limited() || units > self.all_units() ==> r is None,
            self.limited() && units <= self.all_units() ==> self.answers(units as u32, r),
            r is Some ==> permit_units(r->0) == units && permit_source(r->0) == self.source(),
    {
        match &self.sem {
            Some(sem) => {
                if units > self.units {
                    return None;
                }
                try_acquire(sem, units as u32)
            },
            None => None,
        }
    }
}

} // verus!
