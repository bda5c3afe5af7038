//! The alliance color license plate, read from a digital ADI input.
use vstd::prelude::*;
use crate::adi::LogicLevel;

verus! {

/// An alliance color.
#[derive(Clone, Copy, Debug, PartialEq, Eq, Structural)]
pub enum LicensePlate {
    Red,
    Blue,
}

/// The other alliance color.
pub open spec fn other_plate(p: LicensePlate) -> LicensePlate {
    match p {
        LicensePlate::Red => LicensePlate::Blue,
        LicensePlate::Blue => LicensePlate::Red,
    }
}

impl core::ops::Not for LicensePlate {
    type Output = Self;

    fn not(self) -> (r: Self) {
        match self {
            Self::Red => Self::Blue,
            Self::Blue => Self::Red,
        }
    }
}

impl vstd::std_specs::ops::NotSpecImpl for LicensePlate {
    open spec fn obeys_not_spec() -> bool {
        true
    }

    open spec fn not_req(self) -> bool {
        true
    }

    open spec fn not_spec(self) -> Self {
        other_plate(self)
    }
}

/// Taking the other color twice gives back the color.
pub proof fn lemma_license_plate_not_involutive(p: LicensePlate)
    ensures
        other_plate(other_plate(p)) == p,
        other_plate(p) != p,
{
}

/// A license plate sensor: a digital input that reads high for one color.
#[derive(Debug, Clone, Copy)]
pub struct AdiLicensePlate {
    /// The color the plate shows when the input reads high.
    pub high_state: LicensePlate,
}

impl AdiLicensePlate {
    /// The color shown, given what reading the input gave: `high_state`
    /// when it reads high, the other color when it reads low, and the
    /// read's error when it failed.
    pub fn state<E>(&self, level: Result<LogicLevel, E>) -> (r: Result<LicensePlate, E>)
        ensures
            match level {
                Ok(LogicLevel::High) => r == Ok::<LicensePlate, E>(self.high_state),
                Ok(LogicLevel::Low) => r == Ok::<LicensePlate, E>(other_plate(self.high_state)),
                Err(e) => r == Err::<LicensePlate, E>(e),
            },
    {
        let level = match level {
            Ok(l) => l,
            Err(e) => return Err(e),
        };
        Ok(if level.is_high() {
            self.high_state
        } else {
            core::ops::Not::not(self.high_state)
        })
    }
}

} // verus!
