//! The mirror of the alert handler registers that OTP configures.
use vstd::prelude::*;

use crate::error::AlertError;
use crate::sentinel::{AlertClass, AlertEnable, AlertEscalate};

verus! {

/// Number of alert sources (one register of each kind per source).
pub const N_ALERTS: usize = 70;
/// Number of local alert sources.
pub const N_LOCAL_ALERTS: usize = 7;
/// Number of escalation classes.
pub const N_CLASSES: usize = 4;
/// Number of escalation phases of a class.
pub const N_PHASES: usize = 4;

/// Class register literal of an alert assigned to class A.
pub const CLASS_VALUE_A: u32 = 0;
/// Class register literal of an alert assigned to class B.
pub const CLASS_VALUE_B: u32 = 1;
/// Class register literal of an alert assigned to class C.
pub const CLASS_VALUE_C: u32 = 2;
/// Class register literal of an alert assigned to class D.
pub const CLASS_VALUE_D: u32 = 3;

/// Class control register: class enable bit.
pub const CTRL_EN_BIT: u32 = 0;
/// Class control register: lock bit.
pub const CTRL_LOCK_BIT: u32 = 1;
/// Class control register: escalation enable bit of phase 0.
pub const CTRL_EN_E0_BIT: u32 = 2;
/// Class control register: escalation enable bit of phase 1.
pub const CTRL_EN_E1_BIT: u32 = 3;
/// Class control register: escalation enable bit of phase 2.
pub const CTRL_EN_E2_BIT: u32 = 4;
/// Class control register: escalation enable bit of phase 3.
pub const CTRL_EN_E3_BIT: u32 = 5;
/// Class control register: width mask of each phase-to-signal map field.
pub const CTRL_MAP_MASK: u32 = 0x3;
/// Class control register: offset of the map field of phase 1.
pub const CTRL_MAP_E1_OFFSET: u32 = 8;
/// Class control register: offset of the map field of phase 2.
pub const CTRL_MAP_E2_OFFSET: u32 = 10;
/// Class control register: offset of the map field of phase 3.
pub const CTRL_MAP_E3_OFFSET: u32 = 12;

/// Registers of one escalation class.
#[derive(Clone, Copy, Debug)]
pub struct AlertClassRegs {
    pub regwen: u32,
    pub ctrl: u32,
    pub accum_thresh: u32,
    pub timeout_cyc: u32,
    pub phase_cycs: [u32; N_PHASES],
}

/// Register values of the alert handler that its CRC32 covers.
#[derive(Debug)]
pub struct AlertRegs {
    /// Write enable of each alert's configuration (0: locked).
    pub regwen: [u32; N_ALERTS],
    /// Enable of each alert.
    pub en: [u32; N_ALERTS],
    /// Class of each alert.
    pub class: [u32; N_ALERTS],
    /// Write enable of each local alert's configuration.
    pub loc_regwen: [u32; N_LOCAL_ALERTS],
    /// Enable of each local alert.
    pub loc_en: [u32; N_LOCAL_ALERTS],
    /// Class of each local alert.
    pub loc_class: [u32; N_LOCAL_ALERTS],
    /// Registers of classes A to D.
    pub class_regs: [AlertClassRegs; N_CLASSES],
}

/// What OTP gives for one class.
pub struct AlertClassConfig {
    pub enabled: AlertEnable,
    pub escalate: AlertEscalate,
    pub accum_thresh: u32,
    pub timeout_cyc: u32,
    pub phase_cycs: [u32; N_PHASES],
}

/// Register literal of a class; an unclassified alert keeps 0.
pub open spec fn class_value(c: AlertClass) -> u32 {
    match c {
        AlertClass::A => CLASS_VALUE_A,
        AlertClass::B => CLASS_VALUE_B,
        AlertClass::C => CLASS_VALUE_C,
        AlertClass::D => CLASS_VALUE_D,
        AlertClass::X => 0,
    }
}

/// Write enable of an alert of class `c` at enable level `e`.
pub open spec fn alert_regwen(c: AlertClass, e: AlertEnable) -> u32 {
    if c != AlertClass::X && e == AlertEnable::Locked { 0 } else { 1 }
}

/// Enable of an alert of class `c` at enable level `e`.
pub open spec fn alert_en(c: AlertClass, e: AlertEnable) -> u32 {
    if c != AlertClass::X && e != AlertEnable::Disabled { 1 } else { 0 }
}

/// The static phase-to-signal map: phase k drives escalation signal k.
pub open spec fn ctrl_map() -> u32 {
    ((1u32 & CTRL_MAP_MASK) << CTRL_MAP_E1_OFFSET) | ((2u32 & CTRL_MAP_MASK) << CTRL_MAP_E2_OFFSET)
        | ((3u32 & CTRL_MAP_MASK) << CTRL_MAP_E3_OFFSET)
}

/// Bits of the control register set by the enable level.
pub open spec fn ctrl_enable_bits(e: AlertEnable) -> u32 {
    match e {
        AlertEnable::Disabled => 0,
        AlertEnable::Enabled => 1u32 << CTRL_EN_BIT,
        AlertEnable::Locked => (1u32 << CTRL_EN_BIT) | (1u32 << CTRL_LOCK_BIT),
    }
}

/// Number of phases, from phase 0 on, that escalate.
pub open spec fn escalate_phases(p: AlertEscalate) -> u32 {
    match p {
        AlertEscalate::Disabled => 0,
        AlertEscalate::Phase0 => 1,
        AlertEscalate::Phase1 => 2,
        AlertEscalate::Phase2 => 3,
        AlertEscalate::Phase3 => 4,
    }
}

/// Bits of the control register set by the escalation phase: the escalation
/// enables of phase 0 up to and including the phase given.
pub open spec fn ctrl_escalate_bits(p: AlertEscalate) -> u32 {
    match p {
        AlertEscalate::Disabled => 0,
        AlertEscalate::Phase0 => 1u32 << CTRL_EN_E0_BIT,
        AlertEscalate::Phase1 => (1u32 << CTRL_EN_E0_BIT) | (1u32 << CTRL_EN_E1_BIT),
        AlertEscalate::Phase2 => (1u32 << CTRL_EN_E0_BIT) | (1u32 << CTRL_EN_E1_BIT) | (1u32
            << CTRL_EN_E2_BIT),
        AlertEscalate::Phase3 => (1u32 << CTRL_EN_E0_BIT) | (1u32 << CTRL_EN_E1_BIT) | (1u32
            << CTRL_EN_E2_BIT) | (1u32 << CTRL_EN_E3_BIT),
    }
}

/// Control register of a class.
pub open spec fn ctrl_value(e: AlertEnable, p: AlertEscalate) -> u32 {
    ctrl_map() | ctrl_enable_bits(e) | ctrl_escalate_bits(p)
}

impl AlertClassRegs {
    /// Registers of a class that nothing has configured.
    pub open spec fn is_default(self) -> bool {
        &&& self.regwen == 1
        &&& self.ctrl == 0
        &&& self.accum_thresh == 0
        &&& self.timeout_cyc == 0
        &&& forall|k: int| 0 <= k < N_PHASES ==> #[trigger] self.phase_cycs[k] == 0
    }

    /// Field-wise equality.
    pub open spec fn same(self, o: AlertClassRegs) -> bool {
        &&& self.regwen == o.regwen
        &&& self.ctrl == o.ctrl
        &&& self.accum_thresh == o.accum_thresh
        &&& self.timeout_cyc == o.timeout_cyc
        &&& self.phase_cycs@ == o.phase_cycs@
    }
}

impl Default for AlertClassRegs {
    fn default() -> (r: Self)
        ensures
            r.is_default(),
    {
        AlertClassRegs { regwen: 1, ctrl: 0, accum_thresh: 0, timeout_cyc: 0, phase_cycs: [0u32; N_PHASES] }
    }
}

impl PartialEq for AlertClassRegs {
    fn eq(&self, o: &AlertClassRegs) -> bool {
        self.regwen == o.regwen && self.ctrl == o.ctrl && self.accum_thresh == o.accum_thresh
            && self.timeout_cyc == o.timeout_cyc && words_equal(
            self.phase_cycs.as_slice(),
            o.phase_cycs.as_slice(),
        )
    }
}

impl vstd::std_specs::cmp::PartialEqSpecImpl for AlertClassRegs {
    open spec fn obeys_eq_spec() -> bool {
        true
    }

    open spec fn eq_spec(&self, o: &AlertClassRegs) -> bool {
        self.same(*o)
    }
}

impl Default for AlertRegs {
    fn default() -> (r: Self)
        ensures
            r.is_default(),
    {
        let c = AlertClassRegs::default();
        AlertRegs {
            regwen: [1u32; N_ALERTS],
            en: [0u32; N_ALERTS],
            class: [0u32; N_ALERTS],
            loc_regwen: [1u32; N_LOCAL_ALERTS],
            loc_en: [0u32; N_LOCAL_ALERTS],
            loc_class: [0u32; N_LOCAL_ALERTS],
            class_regs: [c; N_CLASSES],
        }
    }
}

impl PartialEq for AlertRegs {
    fn eq(&self, o: &AlertRegs) -> bool {
        if !(words_equal(self.regwen.as_slice(), o.regwen.as_slice()) && words_equal(
            self.en.as_slice(),
            o.en.as_slice(),
        ) && words_equal(self.class.as_slice(), o.class.as_slice()) && words_equal(
            self.loc_regwen.as_slice(),
            o.loc_regwen.as_slice(),
        ) && words_equal(self.loc_en.as_slice(), o.loc_en.as_slice()) && words_equal(
            self.loc_class.as_slice(),
            o.loc_class.as_slice(),
        )) {
            return false;
        }
        let mut k: usize = 0;
        while k < N_CLASSES
            invariant
                0 <= k <= N_CLASSES,
                forall|j: int| 0 <= j < k ==> (#[trigger] self.class_regs[j]).same(o.class_regs[j]),
            decreases N_CLASSES - k,
        {
            if !(self.class_regs[k] == o.class_regs[k]) {
                return false;
            }
            k = k + 1;
        }
        true
    }
}

impl vstd::std_specs::cmp::PartialEqSpecImpl for AlertRegs {
    open spec fn obeys_eq_spec() -> bool {
        true
    }

    open spec fn eq_spec(&self, o: &AlertRegs) -> bool {
        self.same(*o)
    }
}

/// Whether two word slices hold the same words.
fn words_equal(a: &[u32], b: &[u32]) -> (r: bool)
    ensures
        r == (a@ == b@),
{
    if a.len() != b.len() {
        return false;
    }
    let mut i: usize = 0;
    while i < a.len()
        invariant
            a@.len() == b@.len(),
            0 <= i <= a@.len(),
            forall|j: int| 0 <= j < i ==> a@[j] == b@[j],
        decreases a@.len() - i,
    {
        if a[i] != b[i] {
            return false;
        }
        i = i + 1;
    }
    assert(a@ =~= b@);
    true
}

impl AlertRegs {
    /// Registers that nothing has configured: every write enable set, all
    /// else zero.
    pub open spec fn is_default(self) -> bool {
        &&& forall|i: int| 0 <= i < N_ALERTS ==> #[trigger] self.regwen[i] == 1
        &&& forall|i: int| 0 <= i < N_ALERTS ==> #[trigger] self.en[i] == 0
        &&& forall|i: int| 0 <= i < N_ALERTS ==> #[trigger] self.class[i] == 0
        &&& forall|i: int| 0 <= i < N_LOCAL_ALERTS ==> #[trigger] self.loc_regwen[i] == 1
        &&& forall|i: int| 0 <= i < N_LOCAL_ALERTS ==> #[trigger] self.loc_en[i] == 0
        &&& forall|i: int| 0 <= i < N_LOCAL_ALERTS ==> #[trigger] self.loc_class[i] == 0
        &&& forall|k: int| 0 <= k < N_CLASSES ==> (#[trigger] self.class_regs[k]).is_default()
    }

    /// Field-wise equality.
    pub open spec fn same(self, o: AlertRegs) -> bool {
        &&& self.regwen@ == o.regwen@
        &&& self.en@ == o.en@
        &&& self.class@ == o.class@
        &&& self.loc_regwen@ == o.loc_regwen@
        &&& self.loc_en@ == o.loc_en@
        &&& self.loc_class@ == o.loc_class@
        &&& forall|k: int| 0 <= k < N_CLASSES ==> (#[trigger] self.class_regs[k]).same(o.class_regs[k])
    }

    /// Applies the classification and enable level of alert `index`.
    pub fn configure(&mut self, index: usize, cls: AlertClass, enabled: AlertEnable) -> (r: Result<(), AlertError>)
        ensures
            index >= N_ALERTS ==> r == Err::<(), AlertError>(AlertError::BadIndex(index)) && *final(self) == *old(self),
            index < N_ALERTS ==> {
                &&& r is Ok
                &&& final(self).class@ == (if cls == AlertClass::X { old(self).class@ } else { old(self).class@.update(index as int, class_value(cls)) })
                &&& final(self).en@ == (if alert_en(cls, enabled) == 1 { old(self).en@.update(index as int, 1) } else { old(self).en@ })
                &&& final(self).regwen@ == (if alert_regwen(cls, enabled) == 0 { old(self).regwen@.update(index as int, 0) } else { old(self).regwen@ })
                &&& final(self).loc_regwen == old(self).loc_regwen
                &&& final(self).loc_en == old(self).loc_en
                &&& final(self).loc_class == old(self).loc_class
                &&& final(self).class_regs == old(self).class_regs
            },
    {
        if index >= N_ALERTS {
            return Err(AlertError::BadIndex(index));
        }
        self.class[index] = match cls {
            AlertClass::A => CLASS_VALUE_A,
            AlertClass::B => CLASS_VALUE_B,
            AlertClass::C => CLASS_VALUE_C,
            AlertClass::D => CLASS_VALUE_D,
            AlertClass::X => return Ok(()),
        };
        match enabled {
            AlertEnable::Disabled => {},
            AlertEnable::Enabled => self.en[index] = 1,
            AlertEnable::Locked => {
                self.en[index] = 1;
                self.regwen[index] = 0;
            },
        }
        Ok(())
    }

    /// Applies the classification and enable level of local alert `index`.
    pub fn local_configure(&mut self, index: usize, cls: AlertClass, enabled: AlertEnable) -> (r: Result<(), AlertError>)
        ensures
            index >= N_LOCAL_ALERTS ==> r == Err::<(), AlertError>(AlertError::BadIndex(index)) && *final(self) == *old(self),
            index < N_LOCAL_ALERTS ==> {
                &&& r is Ok
                &&& final(self).loc_class@ == (if cls == AlertClass::X { old(self).loc_class@ } else { old(self).loc_class@.update(index as int, class_value(cls)) })
                &&& final(self).loc_en@ == (if alert_en(cls, enabled) == 1 { old(self).loc_en@.update(index as int, 1) } else { old(self).loc_en@ })
                &&& final(self).loc_regwen@ == (if alert_regwen(cls, enabled) == 0 { old(self).loc_regwen@.update(index as int, 0) } else { old(self).loc_regwen@ })
                &&& final(self).regwen == old(self).regwen
                &&& final(self).en == old(self).en
                &&& final(self).class == old(self).class
                &&& final(self).class_regs == old(self).class_regs
            },
    {
        if index >= N_LOCAL_ALERTS {
            return Err(AlertError::BadIndex(index));
        }
        self.loc_class[index] = match cls {
            AlertClass::A => CLASS_VALUE_A,
            AlertClass::B => CLASS_VALUE_B,
            AlertClass::C => CLASS_VALUE_C,
            AlertClass::D => CLASS_VALUE_D,
            AlertClass::X => return Ok(()),
        };
        match enabled {
            AlertEnable::Disabled => {},
            AlertEnable::Enabled => self.loc_en[index] = 1,
            AlertEnable::Locked => {
                self.loc_en[index] = 1;
                self.loc_regwen[index] = 0;
            },
        }
        Ok(())
    }

    /// Writes the control, threshold, timeout and phase cycle registers of
    /// class `cls` from its OTP configuration.
    pub fn class_configure(&mut self, cls: AlertClass, config: &AlertClassConfig) -> (r: Result<(), AlertError>)
        ensures
            cls == AlertClass::X ==> r == Err::<(), AlertError>(AlertError::BadClassSelection) && *final(self) == *old(self),
            cls != AlertClass::X ==> {
                &&& r is Ok
                &&& final(self).class_regs@ == old(self).class_regs@.update(
                    cls.spec_index() as int,
                    (AlertClassRegs {
                        regwen: old(self).class_regs[cls.spec_index() as int].regwen,
                        ctrl: ctrl_value(config.enabled, config.escalate),
                        accum_thresh: config.accum_thresh,
                        timeout_cyc: config.timeout_cyc,
                        phase_cycs: config.phase_cycs,
                    }),
                )
                &&& final(self).regwen == old(self).regwen
                &&& final(self).en == old(self).en
                &&& final(self).class == old(self).class
                &&& final(self).loc_regwen == old(self).loc_regwen
                &&& final(self).loc_en == old(self).loc_en
                &&& final(self).loc_class == old(self).loc_class
            },
    {
        let index: usize = match cls {
            AlertClass::A => 0,
            AlertClass::B => 1,
            AlertClass::C => 2,
            AlertClass::D => 3,
            AlertClass::X => return Err(AlertError::BadClassSelection),
        };
        proof {
            lemma_ctrl_values();
        }
        // The map field of phase 0 holds signal 0 and sets no bits.
        let mut reg: u32 = 0;
        reg = reg | ((1 & CTRL_MAP_MASK) << CTRL_MAP_E1_OFFSET);
        reg = reg | ((2 & CTRL_MAP_MASK) << CTRL_MAP_E2_OFFSET);
        reg = reg | ((3 & CTRL_MAP_MASK) << CTRL_MAP_E3_OFFSET);
        assert(reg == 0x3900u32) by {
            assert((0u32 | ((1u32 & 3u32) << 8u32) | ((2u32 & 3u32) << 10u32) | ((3u32 & 3u32) << 12u32)) == 0x3900u32) by (bit_vector);
        }
        match config.enabled {
            AlertEnable::Disabled => {
                assert((0x3900u32 | 0u32) == 0x3900u32) by (bit_vector);
            },
            AlertEnable::Enabled => {
                reg = set_bit(reg, CTRL_EN_BIT);
                assert((0x3900u32 | (1u32 << 0u32)) == (0x3900u32 | 1u32)) by (bit_vector);
            },
            AlertEnable::Locked => {
                reg = set_bit(reg, CTRL_LOCK_BIT);
                reg = set_bit(reg, CTRL_EN_BIT);
                assert(reg == 0x3903u32) by {
                    assert(((0x3900u32 | (1u32 << 1u32)) | (1u32 << 0u32)) == 0x3903u32) by (bit_vector);
                }
                assert((0x3900u32 | 3u32) == 0x3903u32) by (bit_vector);
            },
        }
        let ghost m = reg;
        assert(m == ctrl_map() | ctrl_enable_bits(config.enabled));
        match config.escalate {
            AlertEscalate::Phase0 => {
                reg = set_bit(reg, CTRL_EN_E0_BIT);
                assert((m | (1u32 << 2u32)) == m | 4u32) by (bit_vector);
            },
            AlertEscalate::Phase1 => {
                reg = set_bit(reg, CTRL_EN_E0_BIT);
                reg = set_bit(reg, CTRL_EN_E1_BIT);
                assert(((m | (1u32 << 2u32)) | (1u32 << 3u32)) == m | 0xcu32) by (bit_vector);
            },
            AlertEscalate::Phase2 => {
                reg = set_bit(reg, CTRL_EN_E0_BIT);
                reg = set_bit(reg, CTRL_EN_E1_BIT);
                reg = set_bit(reg, CTRL_EN_E2_BIT);
                assert((((m | (1u32 << 2u32)) | (1u32 << 3u32)) | (1u32 << 4u32)) == m | 0x1cu32) by (bit_vector);
            },
            AlertEscalate::Phase3 => {
                reg = set_bit(reg, CTRL_EN_E0_BIT);
                reg = set_bit(reg, CTRL_EN_E1_BIT);
                reg = set_bit(reg, CTRL_EN_E2_BIT);
                reg = set_bit(reg, CTRL_EN_E3_BIT);
                assert(((((m | (1u32 << 2u32)) | (1u32 << 3u32)) | (1u32 << 4u32)) | (1u32 << 5u32)) == m | 0x3cu32) by (bit_vector);
            },
            AlertEscalate::Disabled => {
                assert(m | 0u32 == m) by (bit_vector);
            },
        }
        self.class_regs[index].ctrl = reg;
        self.class_regs[index].accum_thresh = config.accum_thresh;
        self.class_regs[index].timeout_cyc = config.timeout_cyc;
        self.class_regs[index].phase_cycs = config.phase_cycs;
        Ok(())
    }
}

/// `reg` with bit `bit` set.
fn set_bit(reg: u32, bit: u32) -> (r: u32)
    requires
        bit < 32,
    ensures
        r == reg | (1u32 << bit),
{
    reg | (1u32 << bit)
}

/// The concrete values of the control register's parts.
proof fn lemma_ctrl_values()
    ensures
        ctrl_map() == 0x3900u32,
        ctrl_enable_bits(AlertEnable::Disabled) == 0u32,
        ctrl_enable_bits(AlertEnable::Enabled) == 1u32,
        ctrl_enable_bits(AlertEnable::Locked) == 3u32,
        ctrl_escalate_bits(AlertEscalate::Disabled) == 0u32,
        ctrl_escalate_bits(AlertEscalate::Phase0) == 4u32,
        ctrl_escalate_bits(AlertEscalate::Phase1) == 0xcu32,
        ctrl_escalate_bits(AlertEscalate::Phase2) == 0x1cu32,
        ctrl_escalate_bits(AlertEscalate::Phase3) == 0x3cu32,
{
    assert((((1u32 & 3u32) << 8u32) | ((2u32 & 3u32) << 10u32) | ((3u32 & 3u32) << 12u32)) == 0x3900u32) by (bit_vector);
    assert((1u32 << 0u32) == 1u32) by (bit_vector);
    assert(((1u32 << 0u32) | (1u32 << 1u32)) == 3u32) by (bit_vector);
    assert((1u32 << 2u32) == 4u32) by (bit_vector);
    assert(((1u32 << 2u32) | (1u32 << 3u32)) == 0xcu32) by (bit_vector);
    assert(((1u32 << 2u32) | (1u32 << 3u32) | (1u32 << 4u32)) == 0x1cu32) by (bit_vector);
    assert(((1u32 << 2u32) | (1u32 << 3u32) | (1u32 << 4u32) | (1u32 << 5u32)) == 0x3cu32) by (bit_vector);
}

/// Bit `2 + j` of a control word is the escalation bit of phase `j`; the
/// map and enable fields do not reach it.
proof fn lemma_escalate_bit_of_ctrl(eb: u32, pb: u32, j: u32)
    by (bit_vector)
    requires
        eb <= 3u32,
        j < 4u32,
    ensures
        ((0x3900u32 | eb | pb) >> (2u32 + j)) & 1u32 == (pb >> (2u32 + j)) & 1u32,
{
}

/// Bit `2 + j` of the escalation masks.
proof fn lemma_escalate_masks(j: u32)
    by (bit_vector)
    requires
        j < 4u32,
    ensures
        (0u32 >> (2u32 + j)) & 1u32 == 0u32,
        (((4u32 >> (2u32 + j)) & 1u32) == 1u32) == (j < 1u32),
        (((0xcu32 >> (2u32 + j)) & 1u32) == 1u32) == (j < 2u32),
        (((0x1cu32 >> (2u32 + j)) & 1u32) == 1u32) == (j < 3u32),
        (((0x3cu32 >> (2u32 + j)) & 1u32) == 1u32) == (j < 4u32),
{
}

/// Escalation is cumulative: a class that escalates up to phase `p` has
/// the escalation enable of phase `j` set exactly when `j` is at most `p`.
/// So phase 2 enables phases 0, 1 and 2 but not 3, and phase 0 only phase 0,
/// whatever the enable level.
pub proof fn lemma_escalation_cumulative(e: AlertEnable, p: AlertEscalate, j: u32)
    requires
        j < N_PHASES,
    ensures
        (((ctrl_value(e, p) >> (CTRL_EN_E0_BIT + j)) & 1u32) == 1u32) == (j < escalate_phases(p)),
{
    lemma_ctrl_values();
    lemma_escalate_bit_of_ctrl(ctrl_enable_bits(e), ctrl_escalate_bits(p), j);
    lemma_escalate_masks(j);
}

/// A class that is not enabled has neither its enable nor its lock bit set.
pub proof fn lemma_ctrl_without_enable(p: AlertEscalate)
    ensures
        ctrl_value(AlertEnable::Disabled, p) & 3u32 == 0u32,
{
    lemma_ctrl_values();
    let pb = ctrl_escalate_bits(p);
    assert((pb == 0u32 || pb == 4u32 || pb == 0xcu32 || pb == 0x1cu32 || pb == 0x3cu32) ==> (0x3900u32
        | 0u32 | pb) & 3u32 == 0u32) by (bit_vector);
}

} // verus!