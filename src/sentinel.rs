//! Decoding of the sparse byte encodings stored in OTP.
use vstd::prelude::*;

use crate::error::AlertError;

verus! {

/// Byte that classifies an alert as belonging to no class.
pub const CLASS_X_BYTE: u8 = 0x94;
/// Byte that classifies an alert into class A.
pub const CLASS_A_BYTE: u8 = 0xee;
/// Byte that classifies an alert into class B.
pub const CLASS_B_BYTE: u8 = 0x64;
/// Byte that classifies an alert into class C.
pub const CLASS_C_BYTE: u8 = 0xa7;
/// Byte that classifies an alert into class D.
pub const CLASS_D_BYTE: u8 = 0x32;

/// Byte for an alert class that is not enabled.
pub const ENABLE_NONE_BYTE: u8 = 0xa9;
/// Byte for an enabled alert class.
pub const ENABLE_ENABLED_BYTE: u8 = 0x07;
/// Byte for an enabled alert class whose configuration is locked.
pub const ENABLE_LOCKED_BYTE: u8 = 0xd2;

/// Byte for a class that never escalates.
pub const ESCALATE_NONE_BYTE: u8 = 0xd1;
/// Byte for a class that escalates up to phase 0.
pub const ESCALATE_PHASE0_BYTE: u8 = 0xb9;
/// Byte for a class that escalates up to phase 1.
pub const ESCALATE_PHASE1_BYTE: u8 = 0xcb;
/// Byte for a class that escalates up to phase 2.
pub const ESCALATE_PHASE2_BYTE: u8 = 0x25;
/// Byte for a class that escalates up to phase 3.
pub const ESCALATE_PHASE3_BYTE: u8 = 0x76;

/// Alert classification.
#[derive(Clone, Copy, Debug, PartialEq, Eq, Structural)]
pub enum AlertClass {
    X,
    A,
    B,
    C,
    D,
}

/// Whether the alerts of a class are enabled, and whether that is locked.
#[derive(Clone, Copy, Debug, PartialEq, Eq, Structural)]
pub enum AlertEnable {
    Disabled,
    Enabled,
    Locked,
}

/// The last escalation phase that a class reaches.
#[derive(Clone, Copy, Debug, PartialEq, Eq, Structural)]
pub enum AlertEscalate {
    Disabled,
    Phase0,
    Phase1,
    Phase2,
    Phase3,
}

impl AlertClass {
    /// The class that a byte encodes, if any.
    pub open spec fn spec_decode(b: u8) -> Option<AlertClass> {
        if b == CLASS_X_BYTE {
            Some(AlertClass::X)
        } else if b == CLASS_A_BYTE {
            Some(AlertClass::A)
        } else if b == CLASS_B_BYTE {
            Some(AlertClass::B)
        } else if b == CLASS_C_BYTE {
            Some(AlertClass::C)
        } else if b == CLASS_D_BYTE {
            Some(AlertClass::D)
        } else {
            None
        }
    }

    /// Position of the class among A to D; X shares position 0.
    pub open spec fn spec_index(self) -> usize {
        match self {
            AlertClass::A => 0,
            AlertClass::B => 1,
            AlertClass::C => 2,
            AlertClass::D => 3,
            AlertClass::X => 0,
        }
    }

    /// The class at a position, or X past the last class.
    pub open spec fn spec_from_index(index: usize) -> AlertClass {
        if index == 0 {
            AlertClass::A
        } else if index == 1 {
            AlertClass::B
        } else if index == 2 {
            AlertClass::C
        } else if index == 3 {
            AlertClass::D
        } else {
            AlertClass::X
        }
    }

    /// Decodes a classification byte; any other byte is refused.
    pub fn try_from_byte(b: u8) -> (r: Result<AlertClass, AlertError>)
        ensures
            r == (match Self::spec_decode(b) {
                Some(c) => Ok(c),
                None => Err(AlertError::BadClass(b)),
            }),
            r is Err <==> b != CLASS_X_BYTE && b != CLASS_A_BYTE && b != CLASS_B_BYTE
                && b != CLASS_C_BYTE && b != CLASS_D_BYTE,
    {
        if b == CLASS_X_BYTE {
            Ok(AlertClass::X)
        } else if b == CLASS_A_BYTE {
            Ok(AlertClass::A)
        } else if b == CLASS_B_BYTE {
            Ok(AlertClass::B)
        } else if b == CLASS_C_BYTE {
            Ok(AlertClass::C)
        } else if b == CLASS_D_BYTE {
            Ok(AlertClass::D)
        } else {
            Err(AlertError::BadClass(b))
        }
    }

    pub fn index(&self) -> (r: usize)
        ensures
            r == self.spec_index(),
            r < 4,
    {
        match self {
            AlertClass::A => 0,
            AlertClass::B => 1,
            AlertClass::C => 2,
            AlertClass::D => 3,
            AlertClass::X => 0,
        }
    }

    pub fn from_index(index: usize) -> (r: AlertClass)
        ensures
            r == Self::spec_from_index(index),
    {
        match index {
            0 => AlertClass::A,
            1 => AlertClass::B,
            2 => AlertClass::C,
            3 => AlertClass::D,
            _ => AlertClass::X,
        }
    }
}

impl AlertEnable {
    /// The enable level that a byte encodes, if any.
    pub open spec fn spec_decode(b: u8) -> Option<AlertEnable> {
        if b == ENABLE_NONE_BYTE {
            Some(AlertEnable::Disabled)
        } else if b == ENABLE_ENABLED_BYTE {
            Some(AlertEnable::Enabled)
        } else if b == ENABLE_LOCKED_BYTE {
            Some(AlertEnable::Locked)
        } else {
            None
        }
    }

    /// Decodes an enable byte; any other byte is refused.
    pub fn try_from_byte(b: u8) -> (r: Result<AlertEnable, AlertError>)
        ensures
            r == (match Self::spec_decode(b) {
                Some(e) => Ok(e),
                None => Err(AlertError::BadEnable(b)),
            }),
            r is Err <==> b != ENABLE_NONE_BYTE && b != ENABLE_ENABLED_BYTE
                && b != ENABLE_LOCKED_BYTE,
    {
        if b == ENABLE_NONE_BYTE {
            Ok(AlertEnable::Disabled)
        } else if b == ENABLE_ENABLED_BYTE {
            Ok(AlertEnable::Enabled)
        } else if b == ENABLE_LOCKED_BYTE {
            Ok(AlertEnable::Locked)
        } else {
            Err(AlertError::BadEnable(b))
        }
    }
}

impl AlertEscalate {
    /// The escalation phase that a byte encodes, if any.
    pub open spec fn spec_decode(b: u8) -> Option<AlertEscalate> {
        if b == ESCALATE_NONE_BYTE {
            Some(AlertEscalate::Disabled)
        } else if b == ESCALATE_PHASE0_BYTE {
            Some(AlertEscalate::Phase0)
        } else if b == ESCALATE_PHASE1_BYTE {
            Some(AlertEscalate::Phase1)
        } else if b == ESCALATE_PHASE2_BYTE {
            Some(AlertEscalate::Phase2)
        } else if b == ESCALATE_PHASE3_BYTE {
            Some(AlertEscalate::Phase3)
        } else {
            None
        }
    }

    /// Decodes an escalation byte; any other byte is refused.
    pub fn try_from_byte(b: u8) -> (r: Result<AlertEscalate, AlertError>)
        ensures
            r == (match Self::spec_decode(b) {
                Some(e) => Ok(e),
                None => Err(AlertError::BadEscalate(b)),
            }),
            r is Err <==> b != ESCALATE_NONE_BYTE && b != ESCALATE_PHASE0_BYTE
                && b != ESCALATE_PHASE1_BYTE && b != ESCALATE_PHASE2_BYTE
                && b != ESCALATE_PHASE3_BYTE,
    {
        if b == ESCALATE_NONE_BYTE {
            Ok(AlertEscalate::Disabled)
        } else if b == ESCALATE_PHASE0_BYTE {
            Ok(AlertEscalate::Phase0)
        } else if b == ESCALATE_PHASE1_BYTE {
            Ok(AlertEscalate::Phase1)
        } else if b == ESCALATE_PHASE2_BYTE {
            Ok(AlertEscalate::Phase2)
        } else if b == ESCALATE_PHASE3_BYTE {
            Ok(AlertEscalate::Phase3)
        } else {
            Err(AlertError::BadEscalate(b))
        }
    }
}

} // verus!
