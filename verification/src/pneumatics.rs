//! Pneumatic pistons driven by a digital ADI output.
use vstd::prelude::*;
use crate::adi::LogicLevel;

verus! {

/// The position of a pneumatic piston.
#[derive(Debug, Clone, Copy, PartialEq, PartialOrd, Ord, Eq, Structural)]
pub enum PneumaticState {
    Extended,
    Contracted,
}

impl Default for PneumaticState {
    fn default() -> (r: Self)
        ensures
            r == PneumaticState::Contracted,
    {
        PneumaticState::Contracted
    }
}

/// The other position.
pub open spec fn other_position(s: PneumaticState) -> PneumaticState {
    match s {
        PneumaticState::Contracted => PneumaticState::Extended,
        PneumaticState::Extended => PneumaticState::Contracted,
    }
}

impl core::ops::Not for PneumaticState {
    type Output = Self;

    fn not(self) -> (r: Self) {
        match self {
            Self::Contracted => Self::Extended,
            Self::Extended => Self::Contracted,
        }
    }
}

impl vstd::std_specs::ops::NotSpecImpl for PneumaticState {
    open spec fn obeys_not_spec() -> bool {
        true
    }

    open spec fn not_req(self) -> bool {
        true
    }

    open spec fn not_spec(self) -> Self {
        other_position(self)
    }
}

/// Taking the other position twice gives back the position.
pub proof fn lemma_pneumatic_not_involutive(s: PneumaticState)
    ensures
        other_position(other_position(s)) == s,
        other_position(s) != s,
{
}

/// The level that puts a piston whose valve opens on a high level into
/// `high_mode` in position `state`: high exactly when `state` is `high_mode`.
pub open spec fn drive_level(high_mode: PneumaticState, state: PneumaticState) -> LogicLevel {
    if state == high_mode {
        LogicLevel::High
    } else {
        LogicLevel::Low
    }
}

/// A pneumatic piston on a digital ADI output.
pub struct AdiPneumatic {
    high_mode: PneumaticState,
    current_state: PneumaticState,
    level: LogicLevel,
}

impl AdiPneumatic {
    /// The position a high level puts the piston in.
    pub closed spec fn spec_high_mode(&self) -> PneumaticState {
        self.high_mode
    }

    /// The position the piston reports.
    pub closed spec fn spec_state(&self) -> PneumaticState {
        self.current_state
    }

    /// The level the output is driven to.
    pub closed spec fn spec_level(&self) -> LogicLevel {
        self.level
    }

    /// A piston whose output drives it to `high_mode` when high, put into
    /// `default_state`.
    pub fn new(high_mode: PneumaticState, default_state: PneumaticState) -> (r: Self)
        ensures
            r.spec_high_mode() == high_mode,
            r.spec_state() == default_state,
            r.spec_level() == drive_level(high_mode, default_state),
    {
        let mut s = Self { high_mode, current_state: default_state, level: LogicLevel::Low };
        let _ = s.set_state(default_state);
        s
    }

    /// The position the piston reports: the one it was created in.
    pub fn state(&self) -> (r: PneumaticState)
        ensures
            r == self.spec_state(),
    {
        self.current_state
    }

    /// The level the output is driven to.
    pub fn level(&self) -> (r: LogicLevel)
        ensures
            r == self.spec_level(),
    {
        self.level
    }

    /// Drives the output to the level that moves the piston to `state`, and
    /// returns that level. The reported position is left as it was.
    pub fn set_state(&mut self, state: PneumaticState) -> (r: LogicLevel)
        ensures
            r == drive_level(old(self).spec_high_mode(), state),
            final(self).spec_level() == r,
            final(self).spec_high_mode() == old(self).spec_high_mode(),
            final(self).spec_state() == old(self).spec_state(),
    {
        let level = if self.high_mode == PneumaticState::Contracted {
            match state {
                PneumaticState::Contracted => LogicLevel::High,
                PneumaticState::Extended => LogicLevel::Low,
            }
        } else {
            match state {
                PneumaticState::Contracted => LogicLevel::Low,
                PneumaticState::Extended => LogicLevel::High,
            }
        };
        self.level = level;
        level
    }

    /// Drives the piston out.
    pub fn extend(&mut self) -> (r: LogicLevel)
        ensures
            r == drive_level(old(self).spec_high_mode(), PneumaticState::Extended),
            final(self).spec_level() == r,
            final(self).spec_high_mode() == old(self).spec_high_mode(),
            final(self).spec_state() == old(self).spec_state(),
    {
        self.set_state(PneumaticState::Extended)
    }

    /// Drives the piston in.
    pub fn contract(&mut self) -> (r: LogicLevel)
        ensures
            r == drive_level(old(self).spec_high_mode(), PneumaticState::Contracted),
            final(self).spec_level() == r,
            final(self).spec_high_mode() == old(self).spec_high_mode(),
            final(self).spec_state() == old(self).spec_state(),
    {
        self.set_state(PneumaticState::Contracted)
    }
}

/// Extending and contracting drive the output to opposite levels.
pub proof fn lemma_extend_contract_opposite(high_mode: PneumaticState)
    ensures
        drive_level(high_mode, PneumaticState::Extended) != drive_level(high_mode, PneumaticState::Contracted),
{
}

} // verus!
