//! Digital levels of the ADI (three-wire) ports.
use vstd::prelude::*;

verus! {

/// The level of a digital ADI port.
#[derive(Debug, Clone, Copy, PartialEq, Eq, Structural)]
pub enum LogicLevel {
    Low,
    High,
}

impl LogicLevel {
    /// Whether the level is high.
    pub fn is_high(&self) -> (r: bool)
        ensures
            r == (*self == LogicLevel::High),
    {
        match self {
            LogicLevel::High => true,
            LogicLevel::Low => false,
        }
    }

    /// Whether the level is low.
    pub fn is_low(&self) -> (r: bool)
        ensures
            r == (*self == LogicLevel::Low),
    {
        match self {
            LogicLevel::High => false,
            LogicLevel::Low => true,
        }
    }
}

} // verus!
