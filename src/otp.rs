//! Derivation of the alert handler registers from the lifecycle state and OTP.
use vstd::prelude::*;

use crate::bytes::{byte_of, le_byte};
use crate::error::{AlertError, OtpReadError};
use crate::regs::{
    alert_en, alert_regwen, class_value, ctrl_value, lemma_ctrl_without_enable, AlertClassConfig,
    AlertRegs, N_ALERTS, N_CLASSES, N_LOCAL_ALERTS, N_PHASES,
};
use crate::sentinel::{AlertClass, AlertEnable, AlertEscalate};

verus! {

/// Number of decode steps of a derivation: one per alert, per local alert and
/// per class, in that order.
pub const N_STEPS: usize = N_ALERTS + N_LOCAL_ALERTS + N_CLASSES;

/// Lifecycle states of the device.
#[derive(Clone, Copy, Debug, PartialEq, Eq, Structural)]
pub enum LcStateVal {
    Test,
    Dev,
    Prod,
    ProdEnd,
    Rma,
}

/// A source of OTP words.
pub trait OtpRead {
    /// What reading the 32-bit word at byte `offset` of the OTP item `name`
    /// gives: the word, or why it cannot be read. Reads are deterministic:
    /// the same item and offset always give the same result. A reader that
    /// does not define it leaves the result unspecified.
    closed spec fn otp_word(&self, name: Seq<char>, offset: usize) -> Result<u32, OtpReadError> {
        arbitrary()
    }

    /// Reads the 32-bit word at byte `offset` of the OTP item `name`.
    fn read32_offset(&self, name: &str, offset: usize) -> (r: Result<u32, OtpReadError>)
        ensures
            r == self.otp_word(name@, offset),
    ;

    /// Reads the first 32-bit word of the OTP item `name`.
    fn read32(&self, name: &str) -> (r: Result<u32, OtpReadError>)
        ensures
            r == self.otp_word(name@, 0),
    {
        self.read32_offset(name, 0)
    }
}

/// The OTP words that the alert handler configuration is derived from.
#[derive(Clone, Copy, Debug)]
pub struct OtpAlertWords {
    /// Enable level of each class, one byte per class.
    pub class_enable: u32,
    /// Escalation phase of each class, one byte per class.
    pub class_escalate: u32,
    /// Class of each alert, one byte per lifecycle state.
    pub classification: [u32; N_ALERTS],
    /// Class of each local alert, one byte per lifecycle state.
    pub local_classification: [u32; N_LOCAL_ALERTS],
    /// Accumulation threshold of each class.
    pub accum_thresh: [u32; N_CLASSES],
    /// Timeout cycles of each class.
    pub timeout_cycles: [u32; N_CLASSES],
    /// Cycles of each phase of each class.
    pub phase_cycles: [[u32; N_PHASES]; N_CLASSES],
}

/// Byte lane of the classification words that a lifecycle state selects.
pub open spec fn lane(lc: LcStateVal) -> int {
    match lc {
        LcStateVal::Prod => 0,
        LcStateVal::ProdEnd => 1,
        LcStateVal::Dev => 2,
        LcStateVal::Rma => 3,
        LcStateVal::Test => 0,
    }
}

/// Class and enable level of an alert whose classification word is `word`.
pub open spec fn alert_setting(lane: int, class_enable: u32, word: u32) -> Result<
    (AlertClass, AlertEnable),
    AlertError,
> {
    match AlertClass::spec_decode(byte_of(word, lane)) {
        None => Err(AlertError::BadClass(byte_of(word, lane))),
        Some(c) => match AlertEnable::spec_decode(byte_of(class_enable, c.spec_index() as int)) {
            None => Err(AlertError::BadEnable(byte_of(class_enable, c.spec_index() as int))),
            Some(e) => Ok((c, e)),
        },
    }
}

/// Enable level and escalation phase of class `k`.
pub open spec fn class_setting(class_enable: u32, class_escalate: u32, k: int) -> Result<
    (AlertEnable, AlertEscalate),
    AlertError,
> {
    match AlertEnable::spec_decode(byte_of(class_enable, k)) {
        None => Err(AlertError::BadEnable(byte_of(class_enable, k))),
        Some(e) => match AlertEscalate::spec_decode(byte_of(class_escalate, k)) {
            None => Err(AlertError::BadEscalate(byte_of(class_escalate, k))),
            Some(p) => Ok((e, p)),
        },
    }
}

/// The error of a result, if it is one.
pub open spec fn error_of<T>(r: Result<T, AlertError>) -> Option<AlertError> {
    match r {
        Ok(_) => None,
        Err(e) => Some(e),
    }
}

/// The error of decode step `s`, if it fails.
pub open spec fn step_error(lc: LcStateVal, w: OtpAlertWords, s: int) -> Option<AlertError> {
    if s < N_ALERTS {
        error_of(alert_setting(lane(lc), w.class_enable, w.classification[s]))
    } else if s < N_ALERTS + N_LOCAL_ALERTS {
        error_of(
            alert_setting(lane(lc), w.class_enable, w.local_classification[s - N_ALERTS]),
        )
    } else {
        error_of(class_setting(w.class_enable, w.class_escalate, s - N_ALERTS - N_LOCAL_ALERTS))
    }
}

/// The error of the first failing step among the first `n`.
pub open spec fn first_error(lc: LcStateVal, w: OtpAlertWords, n: nat) -> Option<AlertError>
    decreases n,
{
    if n == 0 {
        None
    } else {
        match first_error(lc, w, (n - 1) as nat) {
            Some(e) => Some(e),
            None => step_error(lc, w, n - 1),
        }
    }
}

/// The error that a derivation stops at, if any. The test state reads no OTP.
pub open spec fn derive_error(lc: LcStateVal, w: OtpAlertWords) -> Option<AlertError> {
    if lc == LcStateVal::Test {
        None
    } else {
        first_error(lc, w, N_STEPS as nat)
    }
}

/// An alert's write enable, enable and class registers hold what its
/// classification word `word` asks for.
pub open spec fn alert_slot_set(regwen: u32, en: u32, class: u32, lane: int, class_enable: u32, word: u32) -> bool {
    match alert_setting(lane, class_enable, word) {
        Ok((c, e)) => regwen == alert_regwen(c, e) && en == alert_en(c, e) && class == class_value(c),
        Err(_) => false,
    }
}

/// Class `k` holds what OTP asks for.
pub open spec fn class_slot_set(m: AlertRegs, w: OtpAlertWords, k: int) -> bool {
    match class_setting(w.class_enable, w.class_escalate, k) {
        Ok((e, p)) => {
            &&& m.class_regs[k].regwen == 1
            &&& m.class_regs[k].ctrl == ctrl_value(e, p)
            &&& m.class_regs[k].accum_thresh == w.accum_thresh[k]
            &&& m.class_regs[k].timeout_cyc == w.timeout_cycles[k]
            &&& m.class_regs[k].phase_cycs@ == w.phase_cycles[k]@
        },
        Err(_) => false,
    }
}

impl AlertRegs {
    /// The registers hold what lifecycle state `lc` and OTP words `w` ask for.
    pub open spec fn derived_from(self, lc: LcStateVal, w: OtpAlertWords) -> bool {
        if lc == LcStateVal::Test {
            self.is_default()
        } else {
            &&& forall|i: int|
                0 <= i < N_ALERTS ==> alert_slot_set(
                    #[trigger] self.regwen[i],
                    self.en[i],
                    self.class[i],
                    lane(lc),
                    w.class_enable,
                    w.classification[i],
                )
            &&& forall|i: int|
                0 <= i < N_LOCAL_ALERTS ==> alert_slot_set(
                    #[trigger] self.loc_regwen[i],
                    self.loc_en[i],
                    self.loc_class[i],
                    lane(lc),
                    w.class_enable,
                    w.local_classification[i],
                )
            &&& forall|k: int| 0 <= k < N_CLASSES ==> #[trigger] class_slot_set(self, w, k)
        }
    }
}

/// `r` is what the derivation gives for `lc` and `w`: the first decode error,
/// or registers derived from them.
pub open spec fn derive_outcome(lc: LcStateVal, w: OtpAlertWords, r: Result<AlertRegs, AlertError>) -> bool {
    match derive_error(lc, w) {
        Some(e) => r == Err::<AlertRegs, AlertError>(e),
        None => r matches Ok(m) && m.derived_from(lc, w),
    }
}

impl AlertRegs {
    /// Derives the registers from lifecycle state `lc` and the OTP words `w`.
    pub fn from_otp_words(lc: LcStateVal, w: &OtpAlertWords) -> (r: Result<AlertRegs, AlertError>)
        ensures
            derive_outcome(lc, *w, r),
    {
        let mut alert = AlertRegs::default();
        let lc_shift: usize = match lc {
            LcStateVal::Prod => 0,
            LcStateVal::ProdEnd => 1,
            LcStateVal::Dev => 2,
            LcStateVal::Rma => 3,
            LcStateVal::Test => return Ok(alert),
        };
        let ghost lan = lane(lc);
        assert(lan == lc_shift as int);

        let mut i: usize = 0;
        while i < N_ALERTS
            invariant
                lc != LcStateVal::Test,
                lan == lane(lc),
                lan == lc_shift as int,
                0 <= i <= N_ALERTS,
                first_error(lc, *w, i as nat) is None,
                forall|j: int| 0 <= j < i ==> alert_slot_set(
                    #[trigger] alert.regwen[j], alert.en[j], alert.class[j], lan, w.class_enable, w.classification[j]),
                forall|j: int| i <= j < N_ALERTS ==> #[trigger] alert.regwen[j] == 1,
                forall|j: int| i <= j < N_ALERTS ==> #[trigger] alert.en[j] == 0,
                forall|j: int| i <= j < N_ALERTS ==> #[trigger] alert.class[j] == 0,
                forall|j: int| 0 <= j < N_LOCAL_ALERTS ==> #[trigger] alert.loc_regwen[j] == 1,
                forall|j: int| 0 <= j < N_LOCAL_ALERTS ==> #[trigger] alert.loc_en[j] == 0,
                forall|j: int| 0 <= j < N_LOCAL_ALERTS ==> #[trigger] alert.loc_class[j] == 0,
                forall|k: int| 0 <= k < N_CLASSES ==> (#[trigger] alert.class_regs[k]).regwen == 1,
            decreases N_ALERTS - i,
        {
            let value = w.classification[i];
            let cls = match AlertClass::try_from_byte(le_byte(value, lc_shift)) {
                Ok(c) => c,
                Err(e) => {
                    proof {
                        lemma_first_error_stays(lc, *w, (i + 1) as nat, N_STEPS as nat);
                    }
                    return Err(e);
                },
            };
            let enable = match AlertEnable::try_from_byte(le_byte(w.class_enable, cls.index())) {
                Ok(e) => e,
                Err(e) => {
                    proof {
                        lemma_first_error_stays(lc, *w, (i + 1) as nat, N_STEPS as nat);
                    }
                    return Err(e);
                },
            };
            let _ = alert.configure(i, cls, enable);
            i = i + 1;
        }

        let mut i: usize = 0;
        while i < N_LOCAL_ALERTS
            invariant
                lc != LcStateVal::Test,
                lan == lane(lc),
                lan == lc_shift as int,
                0 <= i <= N_LOCAL_ALERTS,
                first_error(lc, *w, (N_ALERTS + i) as nat) is None,
                forall|j: int| 0 <= j < N_ALERTS ==> alert_slot_set(
                    #[trigger] alert.regwen[j], alert.en[j], alert.class[j], lan, w.class_enable, w.classification[j]),
                forall|j: int| 0 <= j < i ==> alert_slot_set(
                    #[trigger] alert.loc_regwen[j], alert.loc_en[j], alert.loc_class[j], lan, w.class_enable, w.local_classification[j]),
                forall|j: int| i <= j < N_LOCAL_ALERTS ==> #[trigger] alert.loc_regwen[j] == 1,
                forall|j: int| i <= j < N_LOCAL_ALERTS ==> #[trigger] alert.loc_en[j] == 0,
                forall|j: int| i <= j < N_LOCAL_ALERTS ==> #[trigger] alert.loc_class[j] == 0,
                forall|k: int| 0 <= k < N_CLASSES ==> (#[trigger] alert.class_regs[k]).regwen == 1,
            decreases N_LOCAL_ALERTS - i,
        {
            let value = w.local_classification[i];
            let cls = match AlertClass::try_from_byte(le_byte(value, lc_shift)) {
                Ok(c) => c,
                Err(e) => {
                    proof {
                        lemma_first_error_stays(lc, *w, (N_ALERTS + i + 1) as nat, N_STEPS as nat);
                    }
                    return Err(e);
                },
            };
            let enable = match AlertEnable::try_from_byte(le_byte(w.class_enable, cls.index())) {
                Ok(e) => e,
                Err(e) => {
                    proof {
                        lemma_first_error_stays(lc, *w, (N_ALERTS + i + 1) as nat, N_STEPS as nat);
                    }
                    return Err(e);
                },
            };
            let _ = alert.local_configure(i, cls, enable);
            i = i + 1;
        }

        let mut k: usize = 0;
        while k < N_CLASSES
            invariant
                lc != LcStateVal::Test,
                lan == lane(lc),
                0 <= k <= N_CLASSES,
                first_error(lc, *w, (N_ALERTS + N_LOCAL_ALERTS + k) as nat) is None,
                forall|j: int| 0 <= j < N_ALERTS ==> alert_slot_set(
                    #[trigger] alert.regwen[j], alert.en[j], alert.class[j], lan, w.class_enable, w.classification[j]),
                forall|j: int| 0 <= j < N_LOCAL_ALERTS ==> alert_slot_set(
                    #[trigger] alert.loc_regwen[j], alert.loc_en[j], alert.loc_class[j], lan, w.class_enable, w.local_classification[j]),
                forall|j: int| 0 <= j < k ==> #[trigger] class_slot_set(alert, *w, j),
                forall|j: int| k <= j < N_CLASSES ==> (#[trigger] alert.class_regs[j]).regwen == 1,
            decreases N_CLASSES - k,
        {
            let enabled = match AlertEnable::try_from_byte(le_byte(w.class_enable, k)) {
                Ok(e) => e,
                Err(e) => {
                    proof {
                        lemma_first_error_stays(lc, *w, (N_ALERTS + N_LOCAL_ALERTS + k + 1) as nat, N_STEPS as nat);
                    }
                    return Err(e);
                },
            };
            let escalate = match AlertEscalate::try_from_byte(le_byte(w.class_escalate, k)) {
                Ok(p) => p,
                Err(e) => {
                    proof {
                        lemma_first_error_stays(lc, *w, (N_ALERTS + N_LOCAL_ALERTS + k + 1) as nat, N_STEPS as nat);
                    }
                    return Err(e);
                },
            };
            let config = AlertClassConfig {
                enabled,
                escalate,
                accum_thresh: w.accum_thresh[k],
                timeout_cyc: w.timeout_cycles[k],
                phase_cycs: w.phase_cycles[k],
            };
            let cls = AlertClass::from_index(k);
            let ghost prev = alert;
            let _ = alert.class_configure(cls, &config);
            assert forall|j: int| 0 <= j <= k implies #[trigger] class_slot_set(alert, *w, j) by {
                if j < k {
                    assert(alert.class_regs[j] == prev.class_regs[j]);
                    assert(class_slot_set(prev, *w, j));
                }
            }
            k = k + 1;
        }
        Ok(alert)
    }
}

/// Number of OTP reads of a derivation.
pub const N_READS: usize = 2 + N_ALERTS + N_LOCAL_ALERTS + N_CLASSES * (N_PHASES + 2);

/// First read of the class reads, which come class by class: the phase
/// cycles, then the accumulation threshold, then the timeout cycles.
pub const CLASS_READS_START: usize = 2 + N_ALERTS + N_LOCAL_ALERTS;

/// The OTP item and byte offset of read `s`, in the order the reads are made.
pub open spec fn read_item(s: int) -> (Seq<char>, usize) {
    if s == 0 {
        ("OWNER_SW_CFG_ROM_ALERT_CLASS_EN"@, 0usize)
    } else if s == 1 {
        ("OWNER_SW_CFG_ROM_ALERT_ESCALATION"@, 0usize)
    } else if s < 2 + N_ALERTS {
        ("OWNER_SW_CFG_ROM_ALERT_CLASSIFICATION"@, (4 * (s - 2)) as usize)
    } else if s < CLASS_READS_START {
        ("OWNER_SW_CFG_ROM_LOCAL_ALERT_CLASSIFICATION"@, (4 * (s - 2 - N_ALERTS)) as usize)
    } else {
        let k = (s - CLASS_READS_START) / 6;
        let r = (s - CLASS_READS_START) % 6;
        if r < 4 {
            ("OWNER_SW_CFG_ROM_ALERT_PHASE_CYCLES"@, (4 * (4 * k + r)) as usize)
        } else if r == 4 {
            ("OWNER_SW_CFG_ROM_ALERT_ACCUM_THRESH"@, (4 * k) as usize)
        } else {
            ("OWNER_SW_CFG_ROM_ALERT_TIMEOUT_CYCLES"@, (4 * k) as usize)
        }
    }
}

/// What read `s` gives.
pub open spec fn read_result<T: OtpRead>(otp: &T, s: int) -> Result<u32, OtpReadError> {
    otp.otp_word(read_item(s).0, read_item(s).1)
}

impl OtpAlertWords {
    /// The field that read `s` fills.
    pub open spec fn word_at(self, s: int) -> u32 {
        if s == 0 {
            self.class_enable
        } else if s == 1 {
            self.class_escalate
        } else if s < 2 + N_ALERTS {
            self.classification[s - 2]
        } else if s < CLASS_READS_START {
            self.local_classification[s - 2 - N_ALERTS]
        } else {
            let k = (s - CLASS_READS_START) / 6;
            let r = (s - CLASS_READS_START) % 6;
            if r < 4 {
                self.phase_cycles[k][r]
            } else if r == 4 {
                self.accum_thresh[k]
            } else {
                self.timeout_cycles[k]
            }
        }
    }

    /// Every field holds what its read from `otp` gives. As every field is
    /// filled by one read, this fixes the words.
    pub open spec fn read_from<T: OtpRead>(self, otp: &T) -> bool {
        forall|s: int| 0 <= s < N_READS ==> #[trigger] read_result(otp, s) == Ok::<u32, OtpReadError>(self.word_at(s))
    }
}

/// The word that read `s` gives, or 0 where it fails.
pub open spec fn read_word<T: OtpRead>(otp: &T, s: int) -> u32 {
    match read_result(otp, s) {
        Ok(v) => v,
        Err(_) => 0,
    }
}

/// The error of decode step `d` when read `s` gives `word(s)`. An alert or
/// local alert step decodes the class in its classification word and the
/// enable level of that class; a class step decodes the class's enable level
/// and escalation phase.
pub open spec fn decode_error(lc: LcStateVal, word: spec_fn(int) -> u32, d: int) -> Option<AlertError> {
    if d < N_ALERTS + N_LOCAL_ALERTS {
        error_of(alert_setting(lane(lc), word(0), word(2 + d)))
    } else {
        error_of(class_setting(word(0), word(1), d - N_ALERTS - N_LOCAL_ALERTS))
    }
}

/// Number of reads and decode steps together.
pub const N_EVENTS: usize = N_READS + N_STEPS;

/// First event of the class part.
pub const CLASS_EVENTS_START: usize = 2 + 2 * (N_ALERTS + N_LOCAL_ALERTS);

/// Event `t` of reading OTP: `(true, s)` is read `s`, `(false, d)` is decode
/// step `d`. The two per-class words are read first. Each alert and local
/// alert word is decoded right after it is read. Each class then reads its
/// phase cycles, decodes its enable level and escalation phase, and reads its
/// threshold and timeout.
pub open spec fn event(t: int) -> (bool, int) {
    if t < 2 {
        (true, t)
    } else if t < CLASS_EVENTS_START {
        let u = t - 2;
        if u % 2 == 0 {
            (true, 2 + u / 2)
        } else {
            (false, u / 2)
        }
    } else {
        let k = (t - CLASS_EVENTS_START) / 7;
        let r = (t - CLASS_EVENTS_START) % 7;
        if r < 4 {
            (true, CLASS_READS_START + 6 * k + r)
        } else if r == 4 {
            (false, N_ALERTS + N_LOCAL_ALERTS + k)
        } else {
            (true, CLASS_READS_START + 6 * k + r - 1)
        }
    }
}

/// The error of event `t`, if it fails.
pub open spec fn event_error<T: OtpRead>(lc: LcStateVal, otp: &T, t: int) -> Option<AlertError> {
    if event(t).0 {
        match read_result(otp, event(t).1) {
            Ok(_) => None,
            Err(e) => Some(AlertError::Read(e)),
        }
    } else {
        decode_error(lc, |s: int| read_word(otp, s), event(t).1)
    }
}

/// The error of the first failing event among the first `n`.
pub open spec fn first_event_error<T: OtpRead>(lc: LcStateVal, otp: &T, n: nat) -> Option<AlertError>
    decreases n,
{
    if n == 0 {
        None
    } else {
        match first_event_error(lc, otp, (n - 1) as nat) {
            Some(e) => Some(e),
            None => event_error(lc, otp, n - 1),
        }
    }
}

/// A failing event stays the first failure as more events follow.
proof fn lemma_first_event_error_stays<T: OtpRead>(lc: LcStateVal, otp: &T, n: nat, m: nat)
    requires
        n <= m,
        first_event_error(lc, otp, n) is Some,
    ensures
        first_event_error(lc, otp, m) == first_event_error(lc, otp, n),
    decreases m - n,
{
    if n < m {
        lemma_first_event_error_stays(lc, otp, n, (m - 1) as nat);
    }
}

/// Without a first failure, no event fails.
proof fn lemma_no_event_error<T: OtpRead>(lc: LcStateVal, otp: &T, n: nat)
    requires
        first_event_error(lc, otp, n) is None,
    ensures
        forall|t: int| 0 <= t < n ==> #[trigger] event_error(lc, otp, t) is None,
    decreases n,
{
    if n > 0 {
        lemma_no_event_error(lc, otp, (n - 1) as nat);
    }
}

/// When no decode step fails there is no first failure.
proof fn lemma_no_step_error(lc: LcStateVal, w: OtpAlertWords, n: nat)
    requires
        forall|d: int| 0 <= d < n ==> #[trigger] step_error(lc, w, d) is None,
    ensures
        first_error(lc, w, n) is None,
    decreases n,
{
    if n > 0 {
        lemma_no_step_error(lc, w, (n - 1) as nat);
    }
}

/// `x == q * d + r` splits into quotient `q` and remainder `r`.
proof fn lemma_div_mod(x: int, d: int, q: int, r: int)
    requires
        0 < d,
        0 <= r < d,
        x == q * d + r,
    ensures
        x / d == q,
        x % d == r,
{
    vstd::arithmetic::div_mod::lemma_fundamental_div_mod_converse(x, d, q, r);
}

/// Words read without a failing event decode without error.
proof fn lemma_read_words_decode<T: OtpRead>(lc: LcStateVal, otp: &T, w: OtpAlertWords)
    requires
        first_event_error(lc, otp, N_EVENTS as nat) is None,
        w.read_from(otp),
    ensures
        derive_error(lc, w) is None,
{
    lemma_no_event_error(lc, otp, N_EVENTS as nat);
    assert forall|s: int| 0 <= s < N_READS implies #[trigger] read_word(otp, s) == w.word_at(s) by {
        assert(read_result(otp, s) == Ok::<u32, OtpReadError>(w.word_at(s)));
    }
    assert forall|d: int| 0 <= d < N_STEPS implies #[trigger] step_error(lc, w, d) is None by {
        let t = if d < N_ALERTS + N_LOCAL_ALERTS {
            lemma_div_mod(2 * d + 1, 2, d, 1);
            3 + 2 * d
        } else {
            lemma_div_mod(7 * (d - N_ALERTS - N_LOCAL_ALERTS) + 4, 7, d - N_ALERTS - N_LOCAL_ALERTS, 4);
            CLASS_EVENTS_START + 7 * (d - N_ALERTS - N_LOCAL_ALERTS) + 4
        };
        assert(event(t) == (false, d));
        assert(event_error(lc, otp, t) is None);
        assert(read_word(otp, 0) == w.word_at(0));
        assert(read_word(otp, 1) == w.word_at(1));
        if d < N_ALERTS + N_LOCAL_ALERTS {
            assert(read_word(otp, 2 + d) == w.word_at(2 + d));
        }
    }
    lemma_no_step_error(lc, w, N_STEPS as nat);
}

/// Makes the read of event `t`.
fn read_event<T: OtpRead>(lc: LcStateVal, otp: &T, name: &str, offset: usize, Ghost(t): Ghost<int>) -> (r: Result<u32, AlertError>)
    requires
        0 <= t < N_EVENTS,
        event(t).0,
        name@ == read_item(event(t).1).0,
        offset == read_item(event(t).1).1,
        first_event_error(lc, otp, t as nat) is None,
    ensures
        r is Ok ==> read_result(otp, event(t).1) == Ok::<u32, OtpReadError>(r->Ok_0)
            && first_event_error(lc, otp, (t + 1) as nat) is None,
        r is Err ==> first_event_error(lc, otp, N_EVENTS as nat) == Some(r->Err_0),
{
    match otp.read32_offset(name, offset) {
        Ok(v) => Ok(v),
        Err(e) => {
            proof {
                lemma_first_event_error_stays(lc, otp, (t + 1) as nat, N_EVENTS as nat);
            }
            Err(AlertError::Read(e))
        },
    }
}

/// Decodes the classification word `word` of an alert or local alert at
/// event `t`.
fn check_alert_event<T: OtpRead>(lc: LcStateVal, lc_shift: usize, otp: &T, class_enable: u32, word: u32, Ghost(t): Ghost<int>) -> (r: Result<(), AlertError>)
    requires
        0 <= t < N_EVENTS,
        !event(t).0,
        0 <= event(t).1 < N_ALERTS + N_LOCAL_ALERTS,
        lc_shift == lane(lc),
        class_enable == read_word(otp, 0),
        word == read_word(otp, 2 + event(t).1),
        first_event_error(lc, otp, t as nat) is None,
    ensures
        r is Ok ==> first_event_error(lc, otp, (t + 1) as nat) is None,
        r is Err ==> first_event_error(lc, otp, N_EVENTS as nat) == Some(r->Err_0),
{
    let cls = match AlertClass::try_from_byte(le_byte(word, lc_shift)) {
        Ok(c) => c,
        Err(e) => {
            proof {
                lemma_first_event_error_stays(lc, otp, (t + 1) as nat, N_EVENTS as nat);
            }
            return Err(e);
        },
    };
    match AlertEnable::try_from_byte(le_byte(class_enable, cls.index())) {
        Ok(_) => Ok(()),
        Err(e) => {
            proof {
                lemma_first_event_error_stays(lc, otp, (t + 1) as nat, N_EVENTS as nat);
            }
            Err(e)
        },
    }
}

/// Decodes the enable level and escalation phase of class `k` at event `t`.
fn check_class_event<T: OtpRead>(lc: LcStateVal, otp: &T, class_enable: u32, class_escalate: u32, k: usize, Ghost(t): Ghost<int>) -> (r: Result<(), AlertError>)
    requires
        0 <= t < N_EVENTS,
        k < N_CLASSES,
        event(t) == (false, N_ALERTS + N_LOCAL_ALERTS + k),
        class_enable == read_word(otp, 0),
        class_escalate == read_word(otp, 1),
        first_event_error(lc, otp, t as nat) is None,
    ensures
        r is Ok ==> first_event_error(lc, otp, (t + 1) as nat) is None,
        r is Err ==> first_event_error(lc, otp, N_EVENTS as nat) == Some(r->Err_0),
{
    match AlertEnable::try_from_byte(le_byte(class_enable, k)) {
        Ok(_) => {},
        Err(e) => {
            proof {
                lemma_first_event_error_stays(lc, otp, (t + 1) as nat, N_EVENTS as nat);
            }
            return Err(e);
        },
    }
    match AlertEscalate::try_from_byte(le_byte(class_escalate, k)) {
        Ok(_) => Ok(()),
        Err(e) => {
            proof {
                lemma_first_event_error_stays(lc, otp, (t + 1) as nat, N_EVENTS as nat);
            }
            Err(e)
        },
    }
}

/// Reads from `otp` every word that the derivation uses, decoding each byte
/// as soon as the word that holds it is read, in the order of `event`. Stops
/// at the first read or decode that fails.
#[verifier::rlimit(60)]
pub fn read_otp_words<T: OtpRead>(lc: LcStateVal, otp: &T) -> (r: Result<OtpAlertWords, AlertError>)
    ensures
        match first_event_error(lc, otp, N_EVENTS as nat) {
            Some(e) => r == Err::<OtpAlertWords, AlertError>(e),
            None => r matches Ok(w) && w.read_from(otp) && derive_error(lc, w) is None,
        },
{
    let lc_shift: usize = match lc {
        LcStateVal::Prod => 0,
        LcStateVal::ProdEnd => 1,
        LcStateVal::Dev => 2,
        LcStateVal::Rma => 3,
        LcStateVal::Test => 0,
    };
    let mut w = OtpAlertWords {
        class_enable: 0,
        class_escalate: 0,
        classification: [0u32; N_ALERTS],
        local_classification: [0u32; N_LOCAL_ALERTS],
        accum_thresh: [0u32; N_CLASSES],
        timeout_cycles: [0u32; N_CLASSES],
        phase_cycles: [[0u32; N_PHASES]; N_CLASSES],
    };
    match read_event(lc, otp, "OWNER_SW_CFG_ROM_ALERT_CLASS_EN", 0, Ghost(0)) {
        Ok(v) => w.class_enable = v,
        Err(e) => return Err(e),
    }
    match read_event(lc, otp, "OWNER_SW_CFG_ROM_ALERT_ESCALATION", 0, Ghost(1)) {
        Ok(v) => w.class_escalate = v,
        Err(e) => return Err(e),
    }
    let mut i: usize = 0;
    while i < N_ALERTS
        invariant
            0 <= i <= N_ALERTS,
            lc_shift == lane(lc),
            w.class_enable == read_word(otp, 0),
            w.class_escalate == read_word(otp, 1),
            first_event_error(lc, otp, (2 + 2 * i) as nat) is None,
            forall|s: int| 0 <= s < 2 + i ==> #[trigger] read_result(otp, s) == Ok::<u32, OtpReadError>(w.word_at(s)),
        decreases N_ALERTS - i,
    {
        let ghost prev = w;
        proof {
            lemma_div_mod(2 * i, 2, i as int, 0);
        }
        let v = match read_event(lc, otp, "OWNER_SW_CFG_ROM_ALERT_CLASSIFICATION", i * 4, Ghost(2 + 2 * i as int)) {
            Ok(v) => v,
            Err(e) => return Err(e),
        };
        w.classification[i] = v;
        assert forall|s: int| 0 <= s < 2 + i + 1 implies #[trigger] read_result(otp, s) == Ok::<u32, OtpReadError>(w.word_at(s)) by {
            if s < 2 + i {
                assert(w.word_at(s) == prev.word_at(s));
            }
        }
        proof {
            lemma_div_mod(2 * i + 1, 2, i as int, 1);
        }
        match check_alert_event(lc, lc_shift, otp, w.class_enable, v, Ghost(3 + 2 * i as int)) {
            Ok(()) => {},
            Err(e) => return Err(e),
        }
        i = i + 1;
    }
    let mut i: usize = 0;
    while i < N_LOCAL_ALERTS
        invariant
            0 <= i <= N_LOCAL_ALERTS,
            lc_shift == lane(lc),
            w.class_enable == read_word(otp, 0),
            w.class_escalate == read_word(otp, 1),
            first_event_error(lc, otp, (2 + 2 * (N_ALERTS + i)) as nat) is None,
            forall|s: int| 0 <= s < 2 + N_ALERTS + i ==> #[trigger] read_result(otp, s) == Ok::<u32, OtpReadError>(w.word_at(s)),
        decreases N_LOCAL_ALERTS - i,
    {
        let ghost prev = w;
        let ghost d = N_ALERTS + i;
        proof {
            lemma_div_mod(2 * d, 2, d, 0);
        }
        let v = match read_event(
            lc,
            otp,
            "OWNER_SW_CFG_ROM_LOCAL_ALERT_CLASSIFICATION",
            i * 4,
            Ghost(2 + 2 * d),
        ) {
            Ok(v) => v,
            Err(e) => return Err(e),
        };
        w.local_classification[i] = v;
        assert forall|s: int| 0 <= s < 2 + N_ALERTS + i + 1 implies #[trigger] read_result(otp, s) == Ok::<u32, OtpReadError>(w.word_at(s)) by {
            if s < 2 + N_ALERTS + i {
                assert(w.word_at(s) == prev.word_at(s));
            }
        }
        proof {
            lemma_div_mod(2 * d + 1, 2, d, 1);
        }
        match check_alert_event(lc, lc_shift, otp, w.class_enable, v, Ghost(3 + 2 * d)) {
            Ok(()) => {},
            Err(e) => return Err(e),
        }
        i = i + 1;
    }
    let mut k: usize = 0;
    while k < N_CLASSES
        invariant
            0 <= k <= N_CLASSES,
            w.class_enable == read_word(otp, 0),
            w.class_escalate == read_word(otp, 1),
            first_event_error(lc, otp, (CLASS_EVENTS_START + 7 * k) as nat) is None,
            forall|s: int| 0 <= s < CLASS_READS_START + 6 * k ==> #[trigger] read_result(otp, s) == Ok::<u32, OtpReadError>(w.word_at(s)),
        decreases N_CLASSES - k,
    {
        let ghost e0 = CLASS_EVENTS_START + 7 * k;
        let mut phase: usize = 0;
        while phase < N_PHASES
            invariant
                0 <= k < N_CLASSES,
                0 <= phase <= N_PHASES,
                e0 == CLASS_EVENTS_START + 7 * k,
                w.class_enable == read_word(otp, 0),
                w.class_escalate == read_word(otp, 1),
                first_event_error(lc, otp, (e0 + phase) as nat) is None,
                forall|s: int| 0 <= s < CLASS_READS_START + 6 * k + phase ==> #[trigger] read_result(otp, s) == Ok::<u32, OtpReadError>(w.word_at(s)),
            decreases N_PHASES - phase,
        {
            let ghost prev = w;
            let ghost s0 = CLASS_READS_START + 6 * k + phase;
            proof {
                lemma_div_mod(7 * k + phase, 7, k as int, phase as int);
                lemma_div_mod(6 * k + phase, 6, k as int, phase as int);
            }
            match read_event(
                lc,
                otp,
                "OWNER_SW_CFG_ROM_ALERT_PHASE_CYCLES",
                (k * N_PHASES + phase) * 4,
                Ghost(e0 + phase),
            ) {
                Ok(v) => w.phase_cycles[k][phase] = v,
                Err(e) => return Err(e),
            }
            assert forall|s: int| 0 <= s < s0 + 1 implies #[trigger] read_result(otp, s) == Ok::<u32, OtpReadError>(w.word_at(s)) by {
                if s < s0 {
                    if s >= CLASS_READS_START {
                        let t = s - CLASS_READS_START;
                        lemma_div_mod(t, 6, t / 6, t % 6);
                        if t / 6 == k as int {
                            assert(t % 6 < phase);
                        }
                    }
                    assert(w.word_at(s) == prev.word_at(s));
                }
            }
            phase = phase + 1;
        }
        proof {
            lemma_div_mod(7 * k + 4, 7, k as int, 4);
        }
        match check_class_event(lc, otp, w.class_enable, w.class_escalate, k, Ghost(e0 + 4)) {
            Ok(()) => {},
            Err(e) => return Err(e),
        }
        let ghost prev = w;
        let ghost s0 = CLASS_READS_START + 6 * k + 4;
        proof {
            lemma_div_mod(7 * k + 5, 7, k as int, 5);
            lemma_div_mod(6 * k + 4, 6, k as int, 4);
        }
        match read_event(lc, otp, "OWNER_SW_CFG_ROM_ALERT_ACCUM_THRESH", k * 4, Ghost(e0 + 5)) {
            Ok(v) => w.accum_thresh[k] = v,
            Err(e) => return Err(e),
        }
        assert forall|s: int| 0 <= s < s0 + 1 implies #[trigger] read_result(otp, s) == Ok::<u32, OtpReadError>(w.word_at(s)) by {
            if s < s0 {
                if s >= CLASS_READS_START {
                    let t = s - CLASS_READS_START;
                    lemma_div_mod(t, 6, t / 6, t % 6);
                }
                assert(w.word_at(s) == prev.word_at(s));
            }
        }
        let ghost prev = w;
        let ghost s0 = CLASS_READS_START + 6 * k + 5;
        proof {
            lemma_div_mod(7 * k + 6, 7, k as int, 6);
            lemma_div_mod(6 * k + 5, 6, k as int, 5);
        }
        match read_event(lc, otp, "OWNER_SW_CFG_ROM_ALERT_TIMEOUT_CYCLES", k * 4, Ghost(e0 + 6)) {
            Ok(v) => w.timeout_cycles[k] = v,
            Err(e) => return Err(e),
        }
        assert forall|s: int| 0 <= s < s0 + 1 implies #[trigger] read_result(otp, s) == Ok::<u32, OtpReadError>(w.word_at(s)) by {
            if s < s0 {
                if s >= CLASS_READS_START {
                    let t = s - CLASS_READS_START;
                    lemma_div_mod(t, 6, t / 6, t % 6);
                }
                assert(w.word_at(s) == prev.word_at(s));
            }
        }
        k = k + 1;
    }
    proof {
        lemma_read_words_decode(lc, otp, w);
    }
    Ok(w)
}

impl AlertRegs {
    /// Creates the alert handler register values that lifecycle state `lc`
    /// and the contents of `otp` give. In the test state OTP is not read.
    /// Otherwise the first read or decode that fails, in the order of
    /// `event`, is the error; without one, the registers are derived from the
    /// words read.
    pub fn try_new<T: OtpRead>(lc: LcStateVal, otp: &T) -> (r: Result<AlertRegs, AlertError>)
        ensures
            lc == LcStateVal::Test ==> (r matches Ok(m) && m.is_default()),
            lc != LcStateVal::Test ==> match first_event_error(lc, otp, N_EVENTS as nat) {
                Some(e) => r == Err::<AlertRegs, AlertError>(e),
                None => exists|w: OtpAlertWords| w.read_from(otp) && (r matches Ok(m) && m.derived_from(lc, w)),
            },
    {
        if lc == LcStateVal::Test {
            return Ok(AlertRegs::default());
        }
        let w = match read_otp_words(lc, otp) {
            Ok(w) => w,
            Err(e) => return Err(e),
        };
        let r = AlertRegs::from_otp_words(lc, &w);
        assert(w.read_from(otp) && (r matches Ok(m) && m.derived_from(lc, w)));
        r
    }
}

/// An alert whose class has the enable level "locked" ends up enabled with
/// its write enable cleared.
pub proof fn lemma_locked_alert(lc: LcStateVal, w: OtpAlertWords, m: AlertRegs, i: int)
    requires
        lc != LcStateVal::Test,
        derive_outcome(lc, w, Ok(m)),
        0 <= i < N_ALERTS,
        AlertClass::spec_decode(byte_of(w.classification[i], lane(lc))) matches Some(c) && c
            != AlertClass::X && AlertEnable::spec_decode(byte_of(w.class_enable, c.spec_index() as int))
            == Some(AlertEnable::Locked),
    ensures
        m.regwen[i] == 0,
        m.en[i] == 1,
{
    assert(alert_slot_set(m.regwen[i], m.en[i], m.class[i], lane(lc), w.class_enable, w.classification[i]));
}

/// A local alert whose class has the enable level "locked" ends up enabled
/// with its write enable cleared.
pub proof fn lemma_locked_local_alert(lc: LcStateVal, w: OtpAlertWords, m: AlertRegs, i: int)
    requires
        lc != LcStateVal::Test,
        derive_outcome(lc, w, Ok(m)),
        0 <= i < N_LOCAL_ALERTS,
        AlertClass::spec_decode(byte_of(w.local_classification[i], lane(lc))) matches Some(c) && c
            != AlertClass::X && AlertEnable::spec_decode(byte_of(w.class_enable, c.spec_index() as int))
            == Some(AlertEnable::Locked),
    ensures
        m.loc_regwen[i] == 0,
        m.loc_en[i] == 1,
{
    assert(alert_slot_set(m.loc_regwen[i], m.loc_en[i], m.loc_class[i], lane(lc), w.class_enable, w.local_classification[i]));
}

/// An unclassified alert slot keeps its default values.
proof fn lemma_unclassified_slot(regwen: u32, en: u32, class: u32, lane: int, class_enable: u32, word: u32)
    requires
        alert_slot_set(regwen, en, class, lane, class_enable, word),
        AlertClass::spec_decode(byte_of(word, lane)) == Some(AlertClass::X),
    ensures
        regwen == 1,
        en == 0,
        class == 0,
{
}

/// When no alert is classified and no class is enabled, every alert and
/// local alert register keeps its default, every class stays writable and no
/// class has its enable or lock bit set. (The control words still carry the
/// phase-to-signal map, and the threshold, timeout and phase cycle registers
/// still take their OTP values.)
pub proof fn lemma_unclassified_alerts_keep_defaults(lc: LcStateVal, w: OtpAlertWords, m: AlertRegs)
    requires
        lc != LcStateVal::Test,
        derive_outcome(lc, w, Ok(m)),
        forall|i: int| 0 <= i < N_ALERTS ==> AlertClass::spec_decode(
            byte_of(#[trigger] w.classification[i], lane(lc)),
        ) == Some(AlertClass::X),
        forall|i: int| 0 <= i < N_LOCAL_ALERTS ==> AlertClass::spec_decode(
            byte_of(#[trigger] w.local_classification[i], lane(lc)),
        ) == Some(AlertClass::X),
        forall|k: int| 0 <= k < N_CLASSES ==> AlertEnable::spec_decode(byte_of(w.class_enable, k))
            == Some(AlertEnable::Disabled),
    ensures
        forall|i: int| 0 <= i < N_ALERTS ==> #[trigger] m.regwen[i] == 1,
        forall|i: int| 0 <= i < N_ALERTS ==> #[trigger] m.en[i] == 0,
        forall|i: int| 0 <= i < N_ALERTS ==> #[trigger] m.class[i] == 0,
        forall|i: int| 0 <= i < N_LOCAL_ALERTS ==> #[trigger] m.loc_regwen[i] == 1,
        forall|i: int| 0 <= i < N_LOCAL_ALERTS ==> #[trigger] m.loc_en[i] == 0,
        forall|i: int| 0 <= i < N_LOCAL_ALERTS ==> #[trigger] m.loc_class[i] == 0,
        forall|k: int| 0 <= k < N_CLASSES ==> (#[trigger] m.class_regs[k]).regwen == 1,
        forall|k: int| 0 <= k < N_CLASSES ==> (#[trigger] m.class_regs[k]).ctrl & 3u32 == 0u32,
{
    assert forall|i: int| 0 <= i < N_ALERTS implies m.regwen[i] == 1 && m.en[i] == 0 && m.class[i]
        == 0 by {
        lemma_unclassified_slot(m.regwen[i], m.en[i], m.class[i], lane(lc), w.class_enable, w.classification[i]);
    }
    assert forall|i: int| 0 <= i < N_LOCAL_ALERTS implies m.loc_regwen[i] == 1 && m.loc_en[i] == 0
        && m.loc_class[i] == 0 by {
        lemma_unclassified_slot(
            m.loc_regwen[i],
            m.loc_en[i],
            m.loc_class[i],
            lane(lc),
            w.class_enable,
            w.local_classification[i],
        );
    }
    assert forall|k: int| 0 <= k < N_CLASSES implies m.class_regs[k].regwen == 1
        && m.class_regs[k].ctrl & 3u32 == 0u32 by {
        assert(class_slot_set(m, w, k));
        let p = AlertEscalate::spec_decode(byte_of(w.class_escalate, k))->Some_0;
        lemma_ctrl_without_enable(p);
    }
}

/// A failing step stays the first failure as more steps follow.
proof fn lemma_first_error_stays(lc: LcStateVal, w: OtpAlertWords, n: nat, m: nat)
    requires
        n <= m,
        first_error(lc, w, n) is Some,
    ensures
        first_error(lc, w, m) == first_error(lc, w, n),
    decreases m - n,
{
    if n < m {
        lemma_first_error_stays(lc, w, n, (m - 1) as nat);
    }
}

} // verus!
