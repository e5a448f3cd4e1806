//! Frame schedulers of the DWHCI host controller: they decide, transaction
//! by transaction, how split transactions proceed and which (micro)frame a
//! transfer waits for.
//!
//! The schedulers only decide. Waiting is left to the caller: a method that
//! must pause returns the number of microseconds to wait, and `wait_for_frame`
//! takes the current frame number register and returns the frame to wait for.
use vstd::prelude::*;

use crate::uspi::dwhci::{
    DWHCI_HOST_CHAN_INT_ACK, DWHCI_HOST_CHAN_INT_NAK, DWHCI_HOST_CHAN_INT_NYET,
    DWHCI_HOST_CHAN_INT_XFER_COMPLETE, DWHCI_MAX_FRAME_NUMBER,
};

verus! {

/// Length of a microframe in microseconds.
#[allow(non_upper_case_globals)]
pub const uFRAME: u32 = 125;

/// Interrupt status bit: transfer complete.
pub const XFER_COMPLETE: u32 = 1;
/// Interrupt status bit: NAK received.
pub const NAK: u32 = 1 << 4;
/// Interrupt status bit: ACK received.
pub const ACK: u32 = 1 << 5;
/// Interrupt status bit: NYET received.
pub const NYET: u32 = 1 << 6;

/// States of a split transaction.
#[derive(Debug, Copy, Clone, PartialEq, Eq, Structural)]
pub enum TFrameSchedulerState {
    StateStartSplit,
    StateStartSplitComplete,
    StateCompleteSplit,
    StateCompleteRetry,
    StateCompleteSplitComplete,
    StateCompleteSplitFailed,
    StateUnknown,
}

/// The frame number field of a frame number register value.
pub open spec fn frame_number(reg: u32) -> u32 {
    reg & 0xFFFF
}

/// A frame scheduler decides how a transfer proceeds through the frames.
pub trait TDWHCIFrameScheduler {
    /// The scheduler accepts the start of a split transaction.
    spec fn start_split_allowed(&self) -> bool;

    /// The scheduler accepts the request to complete a split transaction.
    spec fn complete_split_allowed(&self) -> bool;

    /// The scheduler accepts the end of a transaction with `status`.
    spec fn transaction_complete_allowed(&self, status: u32) -> bool;

    /// Starts a split transaction.
    fn start_split(&mut self)
        requires
            old(self).start_split_allowed(),
    ;

    /// Decides whether to issue the complete split; gives that decision and
    /// the microseconds to wait before it.
    fn complete_split(&mut self) -> (bool, u32)
        requires
            old(self).complete_split_allowed(),
    ;

    /// Records the end of a transaction with interrupt `status`; gives the
    /// microseconds to wait before going on.
    fn transaction_complete(&mut self, status: u32) -> u32
        requires
            old(self).transaction_complete_allowed(status),
    ;

    /// Chooses the frame to transfer in from the current frame number
    /// register; gives the frame number to wait for, if the caller must wait.
    fn wait_for_frame(&mut self, frame_register: u32) -> Option<u32>;

    /// Whether the chosen frame is odd.
    fn is_odd_frame(&self) -> bool;
}

proof fn lemma_status_bits(status: u32)
    by (bit_vector)
    ensures
        status & 0xFFFFu32 <= 0xFFFFu32,
        (status & (NYET | ACK) != 0) == (status & 0x60u32 != 0),
        (status as usize & (DWHCI_HOST_CHAN_INT_NYET | DWHCI_HOST_CHAN_INT_ACK) != 0) == (status & 0x60u32
            != 0),
        (status as usize & DWHCI_HOST_CHAN_INT_XFER_COMPLETE != 0) == (status & 1u32 != 0),
        (status as usize & DWHCI_HOST_CHAN_INT_NAK != 0) == (status & 0x10u32 != 0),
        (status & (DWHCI_HOST_CHAN_INT_ACK as u32) != 0) == (status & 0x20u32 != 0),
{
}

/// The scheduler of non-periodic split transactions.
pub struct TDWHCIFrameSchedulerNonPeriodic {
    pub state: TFrameSchedulerState,
    pub tries: u32,
}

impl TDWHCIFrameSchedulerNonPeriodic {
    /// A scheduler in the unknown state.
    pub fn new() -> (r: Self)
        ensures
            r.state == TFrameSchedulerState::StateUnknown,
            r.tries == 0,
    {
        Self { state: TFrameSchedulerState::StateUnknown, tries: 0 }
    }

    /// What `complete_split` does: new state, tries, decision and delay.
    pub open spec fn complete_split_spec(self) -> (TFrameSchedulerState, u32, bool, u32) {
        match self.state {
            TFrameSchedulerState::StateStartSplitComplete => (
                TFrameSchedulerState::StateStartSplitComplete,
                3,
                true,
                0,
            ),
            TFrameSchedulerState::StateCompleteRetry => (self.state, self.tries, true, (5 * uFRAME) as u32),
            _ => (self.state, self.tries, false, 0),
        }
    }

    /// What `transaction_complete` does: new state and delay.
    pub open spec fn transaction_complete_spec(self, status: u32) -> (TFrameSchedulerState, u32) {
        if self.state == TFrameSchedulerState::StateStartSplit {
            (TFrameSchedulerState::StateStartSplitComplete, 0)
        } else if status & XFER_COMPLETE != 0 {
            (TFrameSchedulerState::StateStartSplitComplete, 0)
        } else if status & (NYET | ACK) != 0 {
            if self.tries == 1 {
                (TFrameSchedulerState::StateCompleteSplitFailed, 0)
            } else {
                (TFrameSchedulerState::StateCompleteRetry, 0)
            }
        } else if self.tries == 1 {
            (TFrameSchedulerState::StateCompleteSplitFailed, (5 * uFRAME) as u32)
        } else {
            (TFrameSchedulerState::StateCompleteRetry, 0)
        }
    }
}

impl TDWHCIFrameScheduler for TDWHCIFrameSchedulerNonPeriodic {
    open spec fn start_split_allowed(&self) -> bool {
        true
    }

    open spec fn complete_split_allowed(&self) -> bool {
        self.state != TFrameSchedulerState::StateUnknown && self.state
            != TFrameSchedulerState::StateCompleteSplit
    }

    open spec fn transaction_complete_allowed(&self, status: u32) -> bool {
        ||| self.state == TFrameSchedulerState::StateStartSplit && status & ACK != 0
        ||| (self.state == TFrameSchedulerState::StateCompleteSplit || self.state
            == TFrameSchedulerState::StateCompleteRetry) && (status & XFER_COMPLETE != 0 || (status
            & (NYET | ACK | NAK) != 0 && self.tries > 0))
    }

    fn start_split(&mut self)
        ensures
            final(self).state == TFrameSchedulerState::StateStartSplit,
            final(self).tries == old(self).tries,
    {
        self.state = TFrameSchedulerState::StateStartSplit;
    }

    fn complete_split(&mut self) -> (r: (bool, u32))
        ensures
            (final(self).state, final(self).tries, r.0, r.1) == old(self).complete_split_spec(),
    {
        match self.state {
            TFrameSchedulerState::StateStartSplitComplete => {
                self.state = TFrameSchedulerState::StateStartSplitComplete;
                self.tries = 3;
                (true, 0)
            },
            TFrameSchedulerState::StateCompleteRetry => (true, 5 * uFRAME),
            _ => (false, 0),
        }
    }

    fn transaction_complete(&mut self, status: u32) -> (delay: u32)
        ensures
            (final(self).state, delay) == old(self).transaction_complete_spec(status),
            final(self).tries == old(self).tries,
    {
        proof {
            lemma_status_bits(status);
        }
        if self.state == TFrameSchedulerState::StateStartSplit {
            self.state = TFrameSchedulerState::StateStartSplitComplete;
            0
        } else if status as usize & DWHCI_HOST_CHAN_INT_XFER_COMPLETE != 0 {
            self.state = TFrameSchedulerState::StateStartSplitComplete;
            0
        } else if status as usize & (DWHCI_HOST_CHAN_INT_NYET | DWHCI_HOST_CHAN_INT_ACK) != 0 {
            if self.tries - 1 == 0 {
                self.state = TFrameSchedulerState::StateCompleteSplitFailed;
            } else {
                self.state = TFrameSchedulerState::StateCompleteRetry;
            }
            0
        } else {
            if self.tries - 1 == 0 {
                self.state = TFrameSchedulerState::StateCompleteSplitFailed;
                5 * uFRAME
            } else {
                self.state = TFrameSchedulerState::StateCompleteRetry;
                0
            }
        }
    }

    fn wait_for_frame(&mut self, frame_register: u32) -> (r: Option<u32>)
        ensures
            r is None,
            final(self).state == old(self).state && final(self).tries == old(self).tries,
    {
        None
    }

    fn is_odd_frame(&self) -> (r: bool)
        ensures
            r == false,
    {
        false
    }
}

/// Marks a periodic scheduler's frame as not chosen yet.
pub const PERIODIC_FRAME_UNSET: u32 = 8;

/// The scheduler of periodic split transactions.
pub struct TDWHCIFrameSchedulerPeriodic {
    pub state: TFrameSchedulerState,
    pub tries: u32,
    pub next_frame: u32,
}

impl TDWHCIFrameSchedulerPeriodic {
    /// A scheduler in the unknown state with no frame chosen.
    pub fn new() -> (r: Self)
        ensures
            r.state == TFrameSchedulerState::StateUnknown,
            r.tries == 0,
            r.next_frame == PERIODIC_FRAME_UNSET,
    {
        Self { state: TFrameSchedulerState::StateUnknown, tries: 0, next_frame: PERIODIC_FRAME_UNSET }
    }

    /// What `complete_split` does: new state, tries, frame and decision.
    pub open spec fn complete_split_spec(self) -> (TFrameSchedulerState, u32, u32, bool) {
        match self.state {
            TFrameSchedulerState::StateStartSplitComplete => (
                TFrameSchedulerState::StateStartSplitComplete,
                if self.next_frame != 5 {
                    3
                } else {
                    2
                },
                ((self.next_frame + 2) as u32) & 7,
                true,
            ),
            TFrameSchedulerState::StateCompleteRetry => (
                self.state,
                self.tries,
                ((self.next_frame + 1) as u32) & 7,
                true,
            ),
            _ => (self.state, self.tries, self.next_frame, false),
        }
    }

    /// What `transaction_complete` does: new state, tries and delay.
    pub open spec fn transaction_complete_spec(self, status: u32) -> (TFrameSchedulerState, u32, u32) {
        if self.state == TFrameSchedulerState::StateStartSplit {
            (TFrameSchedulerState::StateStartSplitComplete, self.tries, 0)
        } else if status & XFER_COMPLETE != 0 {
            (TFrameSchedulerState::StateCompleteSplitComplete, self.tries, 0)
        } else if status & (NYET | ACK) != 0 {
            if self.tries == 0 {
                (TFrameSchedulerState::StateCompleteSplitFailed, self.tries, (8 * uFRAME) as u32)
            } else {
                (TFrameSchedulerState::StateCompleteRetry, (self.tries - 1) as u32, 0)
            }
        } else {
            (TFrameSchedulerState::StateCompleteSplitFailed, self.tries, (5 * uFRAME) as u32)
        }
    }

    /// The frame `wait_for_frame` chooses.
    pub open spec fn chosen_frame(self, frame_register: u32) -> u32 {
        if self.next_frame == PERIODIC_FRAME_UNSET {
            let f = ((frame_number(frame_register) + 1) as u32) & 7;
            if f == 6 {
                7
            } else {
                f as u32
            }
        } else {
            self.next_frame
        }
    }
}

impl TDWHCIFrameScheduler for TDWHCIFrameSchedulerPeriodic {
    open spec fn start_split_allowed(&self) -> bool {
        true
    }

    open spec fn complete_split_allowed(&self) -> bool {
        &&& self.state == TFrameSchedulerState::StateStartSplitComplete || self.state
            == TFrameSchedulerState::StateCompleteRetry || self.state
            == TFrameSchedulerState::StateCompleteSplitComplete || self.state
            == TFrameSchedulerState::StateCompleteSplitFailed
        &&& self.next_frame + 2 <= u32::MAX
    }

    open spec fn transaction_complete_allowed(&self, status: u32) -> bool {
        ||| self.state == TFrameSchedulerState::StateStartSplit && status & ACK != 0
        ||| (self.state == TFrameSchedulerState::StateCompleteSplit || self.state
            == TFrameSchedulerState::StateCompleteRetry) && status & (XFER_COMPLETE | NYET | ACK | NAK)
            != 0
    }

    fn start_split(&mut self)
        ensures
            final(self).state == TFrameSchedulerState::StateStartSplit,
            final(self).next_frame == PERIODIC_FRAME_UNSET,
            final(self).tries == old(self).tries,
    {
        self.state = TFrameSchedulerState::StateStartSplit;
        self.next_frame = PERIODIC_FRAME_UNSET;
    }

    fn complete_split(&mut self) -> (r: (bool, u32))
        ensures
            (final(self).state, final(self).tries, final(self).next_frame, r.0)
                == old(self).complete_split_spec(),
            r.1 == 0,
    {
        match self.state {
            TFrameSchedulerState::StateStartSplitComplete => {
                self.state = TFrameSchedulerState::StateStartSplitComplete;
                self.tries = if self.next_frame != 5 {
                    3
                } else {
                    2
                };
                self.next_frame = (self.next_frame + 2) & 7;
                (true, 0)
            },
            TFrameSchedulerState::StateCompleteRetry => {
                self.next_frame = (self.next_frame + 1) & 7;
                (true, 0)
            },
            _ => (false, 0),
        }
    }

    fn transaction_complete(&mut self, status: u32) -> (delay: u32)
        ensures
            (final(self).state, final(self).tries, delay) == old(self).transaction_complete_spec(status),
            final(self).next_frame == old(self).next_frame,
    {
        proof {
            lemma_status_bits(status);
        }
        if self.state == TFrameSchedulerState::StateStartSplit {
            self.state = TFrameSchedulerState::StateStartSplitComplete;
            0
        } else if (status & XFER_COMPLETE) != 0 {
            self.state = TFrameSchedulerState::StateCompleteSplitComplete;
            0
        } else if (status & (NYET | ACK)) != 0 {
            if self.tries == 0 {
                self.state = TFrameSchedulerState::StateCompleteSplitFailed;
                8 * uFRAME
            } else {
                self.tries = self.tries - 1;
                self.state = TFrameSchedulerState::StateCompleteRetry;
                0
            }
        } else {
            self.state = TFrameSchedulerState::StateCompleteSplitFailed;
            5 * uFRAME
        }
    }

    fn wait_for_frame(&mut self, frame_register: u32) -> (r: Option<u32>)
        ensures
            final(self).next_frame == old(self).chosen_frame(frame_register),
            r == Some(final(self).next_frame),
            final(self).state == old(self).state && final(self).tries == old(self).tries,
    {
        proof {
            lemma_status_bits(frame_register);
        }
        if self.next_frame == PERIODIC_FRAME_UNSET {
            self.next_frame = ((frame_register & 0xFFFF) + 1) & 7;
            if self.next_frame == 6 {
                self.next_frame = self.next_frame + 1;
            }
        }
        Some(self.next_frame)
    }

    fn is_odd_frame(&self) -> (r: bool)
        ensures
            r == (self.next_frame & 1 != 0),
    {
        (self.next_frame & 1) != 0
    }
}

/// Marks a non-split scheduler's frame as not chosen yet.
pub const NO_SPLIT_FRAME_UNSET: u32 = 0x10000;

/// The scheduler of transfers without split transactions.
pub struct TDWHCIFrameSchedulerNoSplit {
    pub is_periodic: bool,
    pub next_frame: u32,
}

impl TDWHCIFrameSchedulerNoSplit {
    /// A scheduler with no frame chosen.
    pub fn new(periodic: bool) -> (r: Self)
        ensures
            r.is_periodic == periodic,
            r.next_frame == NO_SPLIT_FRAME_UNSET,
    {
        Self { is_periodic: periodic, next_frame: NO_SPLIT_FRAME_UNSET }
    }
}

impl TDWHCIFrameScheduler for TDWHCIFrameSchedulerNoSplit {
    /// Split transactions do not exist for this scheduler.
    open spec fn start_split_allowed(&self) -> bool {
        false
    }

    /// Split transactions do not exist for this scheduler.
    open spec fn complete_split_allowed(&self) -> bool {
        false
    }

    /// Split transactions do not exist for this scheduler.
    open spec fn transaction_complete_allowed(&self, status: u32) -> bool {
        false
    }

    fn start_split(&mut self) {
    }

    fn complete_split(&mut self) -> (bool, u32) {
        (false, 0)
    }

    fn transaction_complete(&mut self, status: u32) -> u32 {
        0
    }

    fn wait_for_frame(&mut self, frame_register: u32) -> (r: Option<u32>)
        ensures
            final(self).next_frame == ((frame_number(frame_register) + 1) as u32) & (DWHCI_MAX_FRAME_NUMBER as u32),
            final(self).is_periodic == old(self).is_periodic,
            r == (if old(self).is_periodic {
                Some(final(self).next_frame)
            } else {
                None::<u32>
            }),
    {
        proof {
            lemma_status_bits(frame_register);
        }
        self.next_frame = ((frame_register & 0xFFFF) + 1) & (DWHCI_MAX_FRAME_NUMBER as u32);
        if self.is_periodic {
            Some(self.next_frame)
        } else {
            None
        }
    }

    fn is_odd_frame(&self) -> (r: bool)
        ensures
            r == (self.next_frame & 1 != 0),
    {
        (self.next_frame & 1) != 0
    }
}

} // verus!
