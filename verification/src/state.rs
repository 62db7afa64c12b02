//! The lifecycle state of one plugin instance, shared between the main
//! thread and the audio thread.

use vstd::prelude::*;

verus! {

/// Lifecycle of one plugin instance.
#[derive(Debug, Clone, Copy, PartialEq, Eq, Structural)]
pub enum PluginState {
    /// The plugin is inactive; only the main thread uses it.
    Inactive,
    /// The last activation attempt failed.
    InactiveWithError,
    /// The plugin is active.  It may or may not be processing right now.
    Active,
    /// The main thread is waiting for the audio thread to drop the plugin's
    /// audio processor.
    WaitingToDrop,
    /// The audio thread released the plugin's processor; the main thread may
    /// now deactivate the plugin.
    DroppedAndReadyToDeactivate,
}

/// The transition table for `PluginState`.  Staying in place is always
/// allowed; apart from that only the listed transitions ever occur.
pub open spec fn state_transition_allowed(from: PluginState, to: PluginState) -> bool {
    ||| from == to
    ||| (from == PluginState::Inactive && to == PluginState::Active)
    ||| (from == PluginState::Inactive && to == PluginState::InactiveWithError)
    ||| (from == PluginState::InactiveWithError && to == PluginState::Inactive)
    ||| (from == PluginState::Active && to == PluginState::WaitingToDrop)
    ||| (from == PluginState::WaitingToDrop && to == PluginState::DroppedAndReadyToDeactivate)
    ||| (from == PluginState::DroppedAndReadyToDeactivate && to == PluginState::Inactive)
}

impl PluginState {
    /// The numeric code stored in the shared atomic cell.
    pub open spec fn code_spec(self) -> u32 {
        match self {
            PluginState::Inactive => 0,
            PluginState::InactiveWithError => 1,
            PluginState::Active => 2,
            PluginState::WaitingToDrop => 3,
            PluginState::DroppedAndReadyToDeactivate => 4,
        }
    }

    /// The numeric code stored in the shared atomic cell.
    pub fn code(self) -> (r: u32)
        ensures
            r == self.code_spec(),
    {
        match self {
            PluginState::Inactive => 0,
            PluginState::InactiveWithError => 1,
            PluginState::Active => 2,
            PluginState::WaitingToDrop => 3,
            PluginState::DroppedAndReadyToDeactivate => 4,
        }
    }
}

impl From<u32> for PluginState {
    /// Decodes a numeric state code; unknown codes conservatively map to
    /// `InactiveWithError`.
    fn from(s: u32) -> (r: Self) {
        match s {
            0 => PluginState::Inactive,
            1 => PluginState::InactiveWithError,
            2 => PluginState::Active,
            3 => PluginState::WaitingToDrop,
            4 => PluginState::DroppedAndReadyToDeactivate,
            _ => PluginState::InactiveWithError,
        }
    }
}

impl vstd::std_specs::convert::FromSpecImpl<u32> for PluginState {
    open spec fn obeys_from_spec() -> bool {
        true
    }

    open spec fn from_spec(s: u32) -> PluginState {
        if s == 0 {
            PluginState::Inactive
        } else if s == 1 {
            PluginState::InactiveWithError
        } else if s == 2 {
            PluginState::Active
        } else if s == 3 {
            PluginState::WaitingToDrop
        } else if s == 4 {
            PluginState::DroppedAndReadyToDeactivate
        } else {
            PluginState::InactiveWithError
        }
    }
}

/// The per-plugin cell shared by the main thread and the audio thread: the
/// lifecycle state, and the wake-up flag the main thread sets when the
/// plugin asks to be processed.
///
/// In the running engine this cell sits behind an atomic; here it is plain
/// data, and the surrounding application serialises access to it.
pub struct SharedPluginState {
    state: PluginState,
    start_processing: bool,
}

impl SharedPluginState {
    /// The current lifecycle state.
    pub closed spec fn state_spec(self) -> PluginState {
        self.state
    }

    /// Whether a request to start processing is pending.
    pub closed spec fn start_processing_spec(self) -> bool {
        self.start_processing
    }

    /// A fresh cell: `Inactive`, with no pending start request.
    pub fn new() -> (s: Self)
        ensures
            s.state_spec() == PluginState::Inactive,
            !s.start_processing_spec(),
    {
        SharedPluginState { state: PluginState::Inactive, start_processing: false }
    }

    /// Reads the current lifecycle state.
    pub fn get_state(&self) -> (r: PluginState)
        ensures
            r == self.state_spec(),
    {
        self.state
    }

    /// Moves to a new lifecycle state.  Only the transitions of the state
    /// table are ever taken.
    pub fn set_state(&mut self, state: PluginState)
        requires
            state_transition_allowed(old(self).state_spec(), state),
        ensures
            final(self).state_spec() == state,
            final(self).start_processing_spec() == old(self).start_processing_spec(),
    {
        self.state = state;
    }

    /// Asks the audio thread to start processing before its next block.
    pub fn request_start_processing(&mut self)
        ensures
            final(self).start_processing_spec(),
            final(self).state_spec() == old(self).state_spec(),
    {
        self.start_processing = true;
    }

    /// Reads and clears the pending start request, as the audio thread does
    /// once per block.
    pub fn take_start_processing(&mut self) -> (r: bool)
        ensures
            r == old(self).start_processing_spec(),
            !final(self).start_processing_spec(),
            final(self).state_spec() == old(self).state_spec(),
    {
        let r = self.start_processing;
        self.start_processing = false;
        r
    }
}

} // verus!
