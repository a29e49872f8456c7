//! The tone parameters as they pass from the control side to the render side.
//!
//! One party writes, the other reads, each through its own handle to the same
//! cell. The pair is replaced and copied as a whole while the lock is held,
//! and the lock is held for nothing else, so a reader never sees the frequency
//! of one write beside the amplitude of another. There is no queue: of several
//! writes between two reads the reader sees the last.

use vstd::prelude::*;
use std::sync::Arc;
use std::sync::Mutex;
use crate::mapper::ToneParameters;

verus! {

/// `std::sync::Mutex`, taken as it is: nothing is known of what it guards.
#[verifier::external_type_specification]
#[verifier::external_body]
#[verifier::reject_recursive_types(T)]
pub struct ExMutex<T: ?Sized>(Mutex<T>);

/// The pair that a lock was made around. It is a mark of the lock's making
/// and says nothing of what the lock guards later on.
pub uninterp spec fn made_with(cell: Mutex<ToneParameters>) -> ToneParameters;

/// `std::sync::Mutex::new`: a new lock that guards `initial`. The claim is
/// that the lock was made around that pair and no other.
#[verifier::external_body]
fn new_cell(initial: ToneParameters) -> (cell: Mutex<ToneParameters>)
    ensures
        made_with(cell) == initial,
{
    Mutex::new(initial)
}

/// `std::sync::Mutex::lock`, then a copy of the guarded pair. What comes back is
/// whatever was written last, by whichever handle, so nothing is claimed of
/// it. A poisoned lock still guards a whole pair, which is taken.
#[verifier::external_body]
fn load(cell: &Mutex<ToneParameters>) -> ToneParameters {
    match cell.lock() {
        Ok(guard) => *guard,
        Err(poisoned) => *poisoned.into_inner(),
    }
}

/// `std::sync::Mutex::lock`, then one assignment of the whole pair. A poisoned
/// lock is written through all the same.
#[verifier::external_body]
fn store(cell: &Mutex<ToneParameters>, params: ToneParameters) {
    match cell.lock() {
        Ok(mut guard) => *guard = params,
        Err(poisoned) => *poisoned.into_inner() = params,
    }
}

/// A handle to the shared pair.
pub struct SharedParameters {
    cell: Arc<Mutex<ToneParameters>>,
}

impl SharedParameters {
    /// The cell that this handle reaches.
    pub closed spec fn cell(&self) -> Mutex<ToneParameters> {
        *self.cell
    }

    /// The pair that the cell was made with. What the cell holds now is
    /// whatever was written last.
    pub open spec fn initial(&self) -> ToneParameters {
        made_with(self.cell())
    }

    /// A new cell that holds `initial`.
    pub fn new(initial: ToneParameters) -> (shared: Self)
        ensures
            shared.initial() == initial,
    {
        SharedParameters { cell: Arc::new(new_cell(initial)) }
    }

    /// Another handle to the same cell.
    pub fn handle(&self) -> (other: Self)
        ensures
            other.cell() == self.cell(),
    {
        SharedParameters { cell: self.cell.clone() }
    }

    /// Replaces the pair.
    pub fn write(&self, params: ToneParameters) {
        store(&self.cell, params)
    }

    /// Copies the pair out: the one written last, through whichever handle,
    /// or the one the cell was made with if none was written. Which that is
    /// rests with the other side, so nothing is promised of the pair here;
    /// what is done with it is stated where it is used.
    pub fn read(&self) -> ToneParameters {
        load(&self.cell)
    }
}

} // verus!
