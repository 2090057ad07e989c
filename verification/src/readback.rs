//! The read-back protocol.
//!
//! Reading a buffer back takes two waits, one after the other. The copy into
//! the staging buffer is submitted and the queue is waited for. Then the
//! mapping of the staging buffer is requested and its grant is waited for. An
//! idle queue says nothing about the mapping: only the grant makes the mapped
//! bytes readable.
//!
//! The caller talks to the device. It performs each [`Action`] and reports
//! what the device signalled; [`Readback`] decides what comes next.

use crate::device::{BufferDescriptor, BufferUsages};
use crate::error::WgpuError;
use crate::memory::CopyRegion;
use vstd::prelude::*;

verus! {

/// How far a read-back has come.
#[derive(Clone, Copy, Debug, PartialEq, Eq, Structural)]
pub enum Phase {
    /// The copy is submitted. The queue has not reported it complete.
    AwaitingQueue,
    /// The copy is complete and the mapping is requested. The grant is
    /// outstanding.
    AwaitingMap,
    /// The mapping is granted: the mapped bytes may be read.
    Mapped,
    /// A wait ended without its signal.
    TimedOut,
    /// The mapping was refused, or a signal came out of turn.
    Rejected,
}

/// What the device reports.
#[derive(Clone, Copy, Debug, PartialEq, Eq, Structural)]
pub enum Signal {
    /// Every submitted command has completed.
    QueueIdle,
    /// The requested mapping is granted.
    MapGranted,
    /// The requested mapping is refused.
    MapRejected,
    /// The wait was given up.
    TimedOut,
}

/// What the caller does next.
#[derive(Clone, Copy, Debug, PartialEq, Eq, Structural)]
pub enum Action {
    /// Allocate the staging buffer, enqueue the copy from the storage's
    /// buffer into it, submit, and wait for the queue.
    Stage { staging: BufferDescriptor, copy: CopyRegion },
    /// Request a read mapping of the first `len` bytes of the staging buffer
    /// and wait for the grant.
    RequestMap { len: u64 },
    /// Read the `len` mapped bytes and decode them.
    Read { len: u64 },
    /// Keep waiting for the outstanding signal.
    Wait,
    /// Give up: the read-back has failed.
    Fail { error: WgpuError },
}

impl Phase {
    /// The phase that follows when the device reports `signal`.
    pub open spec fn next(self, signal: Signal) -> Phase {
        match (self, signal) {
            (Phase::AwaitingQueue, Signal::QueueIdle) => Phase::AwaitingMap,
            (Phase::AwaitingQueue, Signal::TimedOut) => Phase::TimedOut,
            (Phase::AwaitingQueue, _) => Phase::Rejected,
            (Phase::AwaitingMap, Signal::QueueIdle) => Phase::AwaitingMap,
            (Phase::AwaitingMap, Signal::MapGranted) => Phase::Mapped,
            (Phase::AwaitingMap, Signal::MapRejected) => Phase::Rejected,
            (Phase::AwaitingMap, Signal::TimedOut) => Phase::TimedOut,
            (Phase::Mapped, _) => Phase::Mapped,
            (Phase::TimedOut, _) => Phase::TimedOut,
            (Phase::Rejected, _) => Phase::Rejected,
        }
    }

    /// The phase after the device has reported `signals` in turn.
    pub open spec fn after(self, signals: Seq<Signal>) -> Phase
        decreases signals.len(),
    {
        if signals.len() == 0 {
            self
        } else {
            self.after(signals.drop_last()).next(signals.last())
        }
    }

    /// The failure that the phase stands for, if it is one.
    pub open spec fn failure(self) -> Option<WgpuError> {
        match self {
            Phase::TimedOut => Some(WgpuError::ReadbackTimeout),
            Phase::Rejected => Some(WgpuError::MapFailed),
            _ => None,
        }
    }
}

/// The mapped bytes become readable only after both waits: the queue has
/// reported idle, and after that the mapping has been granted.
pub proof fn lemma_mapped_after_both_waits(signals: Seq<Signal>)
    requires
        Phase::AwaitingQueue.after(signals) == Phase::Mapped,
    ensures
        exists|i: int, j: int|
            0 <= i < j < signals.len() && signals[i] == Signal::QueueIdle && signals[j]
                == Signal::MapGranted,
    decreases signals.len(),
{
    if signals.len() > 0 {
        let front = signals.drop_last();
        let before = Phase::AwaitingQueue.after(front);
        if before == Phase::Mapped {
            lemma_mapped_after_both_waits(front);
            let (i, j) = choose|i: int, j: int|
                0 <= i < j < front.len() && front[i] == Signal::QueueIdle && front[j]
                    == Signal::MapGranted;
            assert(signals[i] == Signal::QueueIdle && signals[j] == Signal::MapGranted);
        } else {
            assert(before == Phase::AwaitingMap);
            assert(signals.last() == Signal::MapGranted);
            lemma_awaiting_map_after_idle(front);
            let i = choose|i: int| 0 <= i < front.len() && front[i] == Signal::QueueIdle;
            let j = signals.len() - 1;
            assert(signals[i] == Signal::QueueIdle && signals[j] == Signal::MapGranted);
        }
    }
}

/// The mapping is requested only after the queue has reported idle.
pub proof fn lemma_awaiting_map_after_idle(signals: Seq<Signal>)
    requires
        Phase::AwaitingQueue.after(signals) == Phase::AwaitingMap,
    ensures
        exists|i: int| 0 <= i < signals.len() && signals[i] == Signal::QueueIdle,
    decreases signals.len(),
{
    if signals.len() > 0 {
        let front = signals.drop_last();
        let before = Phase::AwaitingQueue.after(front);
        if before == Phase::AwaitingMap {
            lemma_awaiting_map_after_idle(front);
            let i = choose|i: int| 0 <= i < front.len() && front[i] == Signal::QueueIdle;
            assert(signals[i] == Signal::QueueIdle);
        } else {
            assert(before == Phase::AwaitingQueue);
            assert(signals[signals.len() - 1] == Signal::QueueIdle);
        }
    }
}

/// An idle queue is not a granted mapping: however often the queue reports
/// idle, without a grant nothing becomes readable.
pub proof fn lemma_idle_is_not_mapped(signals: Seq<Signal>)
    requires
        forall|i: int| 0 <= i < signals.len() ==> signals[i] != Signal::MapGranted,
    ensures
        Phase::AwaitingQueue.after(signals) != Phase::Mapped,
{
    if Phase::AwaitingQueue.after(signals) == Phase::Mapped {
        lemma_mapped_after_both_waits(signals);
    }
}

/// A failed read-back stays failed, whatever the device reports later.
pub proof fn lemma_failure_is_final(phase: Phase, signals: Seq<Signal>)
    requires
        phase.failure() is Some,
    ensures
        phase.after(signals) == phase,
    decreases signals.len(),
{
    if signals.len() > 0 {
        lemma_failure_is_final(phase, signals.drop_last());
    }
}

/// One read-back of one storage.
#[derive(Clone, Copy, Debug, PartialEq, Eq)]
pub struct Readback {
    phase: Phase,
    capacity: u64,
}

impl Readback {
    /// How far the read-back has come.
    pub closed spec fn spec_phase(&self) -> Phase {
        self.phase
    }

    /// The bytes that the staging buffer holds.
    pub closed spec fn spec_capacity(&self) -> u64 {
        self.capacity
    }

    /// What the caller does in a phase.
    pub open spec fn action(phase: Phase, capacity: u64) -> Action {
        match phase {
            Phase::AwaitingQueue => Action::Wait,
            Phase::AwaitingMap => Action::RequestMap { len: capacity },
            Phase::Mapped => Action::Read { len: capacity },
            Phase::TimedOut => Action::Fail { error: WgpuError::ReadbackTimeout },
            Phase::Rejected => Action::Fail { error: WgpuError::MapFailed },
        }
    }

    /// How the read-back of a buffer of `capacity` bytes starts.
    ///
    /// A buffer with bytes in it is staged: the first action allocates a
    /// staging buffer of the same capacity and copies the whole buffer into
    /// it. An empty buffer has nothing to copy or to map, so its read-back
    /// starts out readable, with no bytes.
    pub open spec fn begins(r: (Readback, Action), capacity: u64) -> bool {
        &&& r.0.spec_capacity() == capacity
        &&& capacity == 0 ==> r.0.spec_phase() == Phase::Mapped && r.1 == (Action::Read {
            len: 0,
        })
        &&& capacity > 0 ==> r.0.spec_phase() == Phase::AwaitingQueue && r.1 == (Action::Stage {
            staging: BufferDescriptor {
                size: capacity,
                usage: BufferUsages::staging(),
                mapped_at_creation: false,
            },
            copy: CopyRegion { src_offset: 0, dst_offset: 0, size: capacity },
        })
    }

    /// Starts the read-back of a buffer of `capacity` bytes.
    pub fn begin(capacity: u64) -> (r: (Readback, Action))
        ensures
            Self::begins(r, capacity),
    {
        if capacity == 0 {
            (Readback { phase: Phase::Mapped, capacity: 0 }, Action::Read { len: 0 })
        } else {
            (
                Readback { phase: Phase::AwaitingQueue, capacity: capacity },
                Action::Stage {
                    staging: BufferDescriptor {
                        size: capacity,
                        usage: BufferUsages::staging(),
                        mapped_at_creation: false,
                    },
                    copy: CopyRegion { src_offset: 0, dst_offset: 0, size: capacity },
                },
            )
        }
    }

    /// How far the read-back has come.
    pub fn phase(&self) -> (p: Phase)
        ensures
            p == self.spec_phase(),
    {
        self.phase
    }

    /// Takes what the device reported and says what to do next.
    pub fn signal(&mut self, signal: Signal) -> (action: Action)
        ensures
            final(self).spec_phase() == old(self).spec_phase().next(signal),
            final(self).spec_capacity() == old(self).spec_capacity(),
            action == if old(self).spec_phase() == Phase::AwaitingMap && signal
                == Signal::QueueIdle {
                Action::Wait
            } else {
                Self::action(final(self).spec_phase(), final(self).spec_capacity())
            },
    {
        let next: Phase = match (self.phase, signal) {
            (Phase::AwaitingQueue, Signal::QueueIdle) => Phase::AwaitingMap,
            (Phase::AwaitingQueue, Signal::TimedOut) => Phase::TimedOut,
            (Phase::AwaitingQueue, _) => Phase::Rejected,
            (Phase::AwaitingMap, Signal::QueueIdle) => {
                return Action::Wait;
            },
            (Phase::AwaitingMap, Signal::MapGranted) => Phase::Mapped,
            (Phase::AwaitingMap, Signal::MapRejected) => Phase::Rejected,
            (Phase::AwaitingMap, Signal::TimedOut) => Phase::TimedOut,
            (Phase::Mapped, _) => Phase::Mapped,
            (Phase::TimedOut, _) => Phase::TimedOut,
            (Phase::Rejected, _) => Phase::Rejected,
        };
        self.phase = next;
        match next {
            Phase::AwaitingQueue => Action::Wait,
            Phase::AwaitingMap => Action::RequestMap { len: self.capacity },
            Phase::Mapped => Action::Read { len: self.capacity },
            Phase::TimedOut => Action::Fail { error: WgpuError::ReadbackTimeout },
            Phase::Rejected => Action::Fail { error: WgpuError::MapFailed },
        }
    }
}

} // verus!
