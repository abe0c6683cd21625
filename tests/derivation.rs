use alert_handler::bytes::{le_byte, words_to_le_bytes};
use alert_handler::regs::{N_ALERTS, N_CLASSES, N_LOCAL_ALERTS};
use alert_handler::{
    read_otp_words, AlertClass, AlertClassConfig, AlertEnable, AlertError, AlertEscalate,
    AlertRegs, LcStateVal, OtpAlertWords, OtpRead, OtpReadError,
};

fn words(class_enable: u32, class_escalate: u32, classification: u32) -> OtpAlertWords {
    OtpAlertWords {
        class_enable,
        class_escalate,
        classification: [classification; N_ALERTS],
        local_classification: [classification; N_LOCAL_ALERTS],
        accum_thresh: [0; N_CLASSES],
        timeout_cycles: [0; N_CLASSES],
        phase_cycles: [[0, 10, 10, 0xffffffff], [0, 10, 10, 0xffffffff], [0; 4], [0; 4]],
    }
}

fn is_default(m: &AlertRegs) -> bool {
    *m == AlertRegs::default()
}

struct WordsOtp {
    w: OtpAlertWords,
}

impl OtpRead for WordsOtp {
    fn read32_offset(&self, name: &str, offset: usize) -> Result<u32, OtpReadError> {
        let i = offset / 4;
        Ok(match name {
            "OWNER_SW_CFG_ROM_ALERT_CLASS_EN" => self.w.class_enable,
            "OWNER_SW_CFG_ROM_ALERT_ESCALATION" => self.w.class_escalate,
            "OWNER_SW_CFG_ROM_ALERT_CLASSIFICATION" => self.w.classification[i],
            "OWNER_SW_CFG_ROM_LOCAL_ALERT_CLASSIFICATION" => self.w.local_classification[i],
            "OWNER_SW_CFG_ROM_ALERT_PHASE_CYCLES" => self.w.phase_cycles[i / 4][i % 4],
            "OWNER_SW_CFG_ROM_ALERT_ACCUM_THRESH" => self.w.accum_thresh[i],
            "OWNER_SW_CFG_ROM_ALERT_TIMEOUT_CYCLES" => self.w.timeout_cycles[i],
            _ => {
                return Err(OtpReadError {
                    message: format!("no such OTP value {}", name),
                })
            }
        })
    }
}

struct UnreadableOtp {}

impl OtpRead for UnreadableOtp {
    fn read32_offset(&self, name: &str, _offset: usize) -> Result<u32, OtpReadError> {
        panic!("OTP read of {}", name)
    }
}

struct FailingOtp {}

impl OtpRead for FailingOtp {
    fn read32_offset(&self, name: &str, offset: usize) -> Result<u32, OtpReadError> {
        if name == "OWNER_SW_CFG_ROM_ALERT_TIMEOUT_CYCLES" {
            return Err(OtpReadError {
                message: format!("cannot read {}", name),
            });
        }
        WordsOtp {
            w: words(0xa9a9a9a9, 0xd1d1d1d1, 0x94949494),
        }
        .read32_offset(name, offset)
    }
}

#[test]
fn test_state_yields_defaults_without_reading() {
    let m = AlertRegs::try_new(LcStateVal::Test, &UnreadableOtp {}).unwrap();
    assert!(is_default(&m));
    let m = AlertRegs::from_otp_words(LcStateVal::Test, &words(0, 0, 0)).unwrap();
    assert!(is_default(&m));
    assert_eq!(m.class_regs[0].ctrl, 0);
}

#[test]
fn unclassified_alerts_keep_defaults() {
    for lc in [LcStateVal::Prod, LcStateVal::ProdEnd, LcStateVal::Dev, LcStateVal::Rma] {
        let m = AlertRegs::from_otp_words(lc, &words(0xa9a9a9a9, 0xd1d1d1d1, 0x94949494)).unwrap();
        let d = AlertRegs::default();
        assert_eq!(m.regwen, d.regwen);
        assert_eq!(m.en, d.en);
        assert_eq!(m.class, d.class);
        assert_eq!(m.loc_regwen, d.loc_regwen);
        assert_eq!(m.loc_en, d.loc_en);
        assert_eq!(m.loc_class, d.loc_class);
        for k in 0..N_CLASSES {
            assert_eq!(m.class_regs[k].regwen, 1);
            assert_eq!(m.class_regs[k].ctrl, 0x3900);
        }
    }
}

#[test]
fn unknown_bytes_are_refused() {
    let classes = [0x94u8, 0xee, 0x64, 0xa7, 0x32];
    let enables = [0xa9u8, 0x07, 0xd2];
    let escalates = [0xd1u8, 0xb9, 0xcb, 0x25, 0x76];
    for b in 0..=255u8 {
        assert_eq!(AlertClass::try_from_byte(b).is_ok(), classes.contains(&b));
        assert_eq!(AlertEnable::try_from_byte(b).is_ok(), enables.contains(&b));
        assert_eq!(AlertEscalate::try_from_byte(b).is_ok(), escalates.contains(&b));
    }
    assert_eq!(AlertClass::try_from_byte(0x95), Err(AlertError::BadClass(0x95)));
    assert_eq!(AlertEnable::try_from_byte(0x00), Err(AlertError::BadEnable(0x00)));
    assert_eq!(AlertEscalate::try_from_byte(0xff), Err(AlertError::BadEscalate(0xff)));
    assert_eq!(AlertClass::try_from_byte(0x32), Ok(AlertClass::D));
    assert_eq!(AlertEnable::try_from_byte(0xd2), Ok(AlertEnable::Locked));
    assert_eq!(AlertEscalate::try_from_byte(0x25), Ok(AlertEscalate::Phase2));
}

#[test]
fn bad_classification_byte_fails_derivation() {
    // Dev selects byte 2: 0x11 is no class.
    let r = AlertRegs::from_otp_words(LcStateVal::Dev, &words(0xa9a9a9a9, 0xd1d1d1d1, 0x94119494));
    assert_eq!(r, Err(AlertError::BadClass(0x11)));
    // Prod selects byte 0, which is valid.
    assert!(AlertRegs::from_otp_words(LcStateVal::Prod, &words(0xa9a9a9a9, 0xd1d1d1d1, 0x94119494)).is_ok());
}

#[test]
fn bad_enable_byte_fails_derivation() {
    // Unclassified alerts still read the enable byte of class A.
    let r = AlertRegs::from_otp_words(LcStateVal::Dev, &words(0xa9a9a955, 0xd1d1d1d1, 0x94949494));
    assert_eq!(r, Err(AlertError::BadEnable(0x55)));
    // Class D's enable byte is reached by the class configuration.
    let r = AlertRegs::from_otp_words(LcStateVal::Dev, &words(0x66a9a9a9, 0xd1d1d1d1, 0x94949494));
    assert_eq!(r, Err(AlertError::BadEnable(0x66)));
}

#[test]
fn bad_escalation_byte_fails_derivation() {
    let r = AlertRegs::from_otp_words(LcStateVal::Rma, &words(0xa9a9a9a9, 0xd1d1ffd1, 0x94949494));
    assert_eq!(r, Err(AlertError::BadEscalate(0xff)));
}

#[test]
fn first_failing_alert_decides_error() {
    let mut w = words(0xa9a9a9a9, 0xd1d1d1d1, 0x94949494);
    w.classification[5] = 0x00000013;
    w.classification[9] = 0x00000017;
    w.local_classification[0] = 0x00000019;
    assert_eq!(
        AlertRegs::from_otp_words(LcStateVal::Prod, &w),
        Err(AlertError::BadClass(0x13))
    );
}

#[test]
fn read_failure_is_propagated() {
    let r = AlertRegs::try_new(LcStateVal::Dev, &FailingOtp {});
    assert_eq!(
        r,
        Err(AlertError::Read(OtpReadError {
            message: "cannot read OWNER_SW_CFG_ROM_ALERT_TIMEOUT_CYCLES".to_string()
        }))
    );
}

#[test]
fn locked_alerts_are_enabled_and_locked() {
    // Dev selects byte 2: class A (0xee); class A is locked.
    let m = AlertRegs::from_otp_words(LcStateVal::Dev, &words(0xa9a9a9d2, 0xd1d1d1d1, 0x94ee9494)).unwrap();
    for i in 0..N_ALERTS {
        assert_eq!(m.regwen[i], 0);
        assert_eq!(m.en[i], 1);
        assert_eq!(m.class[i], 0);
    }
    for i in 0..N_LOCAL_ALERTS {
        assert_eq!(m.loc_regwen[i], 0);
        assert_eq!(m.loc_en[i], 1);
    }
    assert_eq!(m.class_regs[0].ctrl, 0x3903);
    assert_eq!(m.class_regs[0].regwen, 1);
}

#[test]
fn enabled_alerts_take_class_literal() {
    // ProdEnd selects byte 1: class C (0xa7); class C is enabled, not locked.
    let mut w = words(0xa907a9a9, 0xd1d1d1d1, 0x9494a794);
    w.classification[3] = 0x94946494; // class B, which is not enabled
    let m = AlertRegs::from_otp_words(LcStateVal::ProdEnd, &w).unwrap();
    assert_eq!(m.class[0], 2);
    assert_eq!(m.en[0], 1);
    assert_eq!(m.regwen[0], 1);
    assert_eq!(m.class[3], 1);
    assert_eq!(m.en[3], 0);
    assert_eq!(m.regwen[3], 1);
    assert_eq!(m.loc_class[6], 2);
    assert_eq!(m.class_regs[2].ctrl, 0x3901);
}

#[test]
fn escalation_is_cumulative() {
    // Class 0: phase 2, class 1: phase 0, class 2: phase 3, class 3: phase 1.
    let m = AlertRegs::from_otp_words(LcStateVal::Prod, &words(0xa9a9a9a9, 0xcb76b925, 0x94949494)).unwrap();
    assert_eq!(m.class_regs[0].ctrl, 0x3900 | 0b011100);
    assert_eq!(m.class_regs[1].ctrl, 0x3900 | 0b000100);
    assert_eq!(m.class_regs[2].ctrl, 0x3900 | 0b111100);
    assert_eq!(m.class_regs[3].ctrl, 0x3900 | 0b001100);
    let bit = |v: u32, phase: u32| (v >> (2 + phase)) & 1;
    assert_eq!(bit(m.class_regs[0].ctrl, 3), 0);
    for p in 0..3 {
        assert_eq!(bit(m.class_regs[0].ctrl, p), 1);
    }
}

#[test]
fn class_registers_take_otp_values() {
    let mut w = words(0xd207a9a9, 0xd1d1d1d1, 0x94949494);
    w.accum_thresh = [1, 2, 3, 4];
    w.timeout_cycles = [5, 6, 7, 8];
    let m = AlertRegs::try_new(LcStateVal::Dev, &WordsOtp { w }).unwrap();
    for k in 0..N_CLASSES {
        assert_eq!(m.class_regs[k].accum_thresh, k as u32 + 1);
        assert_eq!(m.class_regs[k].timeout_cyc, k as u32 + 5);
    }
    assert_eq!(m.class_regs[1].phase_cycs, [0, 10, 10, 0xffffffff]);
    assert_eq!(m.class_regs[0].ctrl, 0x3900);
    assert_eq!(m.class_regs[2].ctrl, 0x3901);
    assert_eq!(m.class_regs[3].ctrl, 0x3903);
}

#[test]
fn enabled_classes_change_only_enable_and_control() {
    let off = AlertRegs::from_otp_words(LcStateVal::Dev, &words(0xa9a9a9a9, 0xd1d1d1d1, 0x94949494)).unwrap();
    let on = AlertRegs::from_otp_words(LcStateVal::Dev, &words(0x07070707, 0xd1d1d1d1, 0x94949494)).unwrap();
    assert_eq!(off.class, on.class);
    assert_eq!(off.loc_class, on.loc_class);
    assert_eq!(off.regwen, on.regwen);
    for k in 0..N_CLASSES {
        assert_eq!(off.class_regs[k].accum_thresh, on.class_regs[k].accum_thresh);
        assert_eq!(off.class_regs[k].timeout_cyc, on.class_regs[k].timeout_cyc);
        assert_eq!(off.class_regs[k].phase_cycs, on.class_regs[k].phase_cycs);
        assert_eq!(on.class_regs[k].ctrl, 0x3901);
    }
    assert_eq!(off.crc32(), 0xE65FB2FF);
    assert_eq!(on.crc32(), 0x492518C9);
}

#[test]
fn checksum_follows_field_values() {
    let base = || AlertRegs::from_otp_words(LcStateVal::Dev, &words(0xa9a9a9a9, 0xd1d1d1d1, 0x94949494)).unwrap();
    assert_eq!(base().crc32(), base().crc32());
    let reference = base().crc32();
    let mut changed = Vec::new();
    let mut m = base();
    m.regwen[69] = 0;
    changed.push(m.crc32());
    let mut m = base();
    m.en[0] = 1;
    changed.push(m.crc32());
    let mut m = base();
    m.class[1] = 3;
    changed.push(m.crc32());
    let mut m = base();
    m.loc_regwen[6] = 0;
    changed.push(m.crc32());
    let mut m = base();
    m.loc_en[2] = 1;
    changed.push(m.crc32());
    let mut m = base();
    m.loc_class[3] = 2;
    changed.push(m.crc32());
    let mut m = base();
    m.class_regs[3].timeout_cyc = 1;
    changed.push(m.crc32());
    let mut m = base();
    m.class_regs[0].phase_cycs[3] = 0xfffffffe;
    changed.push(m.crc32());
    for (i, c) in changed.iter().enumerate() {
        assert_ne!(*c, reference);
        for d in &changed[i + 1..] {
            assert_ne!(c, d);
        }
    }
}

#[test]
fn bad_indices_and_classes_are_refused() {
    let mut m = AlertRegs::default();
    assert_eq!(
        m.configure(N_ALERTS, AlertClass::A, AlertEnable::Locked),
        Err(AlertError::BadIndex(N_ALERTS))
    );
    assert_eq!(
        m.local_configure(N_LOCAL_ALERTS, AlertClass::B, AlertEnable::Enabled),
        Err(AlertError::BadIndex(N_LOCAL_ALERTS))
    );
    let config = AlertClassConfig {
        enabled: AlertEnable::Enabled,
        escalate: AlertEscalate::Phase1,
        accum_thresh: 1,
        timeout_cyc: 2,
        phase_cycs: [3, 4, 5, 6],
    };
    assert_eq!(m.class_configure(AlertClass::X, &config), Err(AlertError::BadClassSelection));
    assert!(is_default(&m));
    assert_eq!(m.class_configure(AlertClass::B, &config), Ok(()));
    assert_eq!(m.class_regs[1].ctrl, 0x3900 | 0b1101);
    assert_eq!(m.class_regs[1].phase_cycs, [3, 4, 5, 6]);
}

#[test]
fn configure_unclassified_writes_nothing() {
    let mut m = AlertRegs::default();
    assert_eq!(m.configure(4, AlertClass::X, AlertEnable::Locked), Ok(()));
    assert!(is_default(&m));
    assert_eq!(m.configure(4, AlertClass::D, AlertEnable::Disabled), Ok(()));
    assert_eq!(m.class[4], 3);
    assert_eq!(m.en[4], 0);
}

#[test]
fn class_index_round_trip() {
    for i in 0..4usize {
        assert_eq!(AlertClass::from_index(i).index(), i);
    }
    assert_eq!(AlertClass::from_index(4), AlertClass::X);
    assert_eq!(AlertClass::X.index(), 0);
}

#[test]
fn read_words_and_default_read32() {
    let mut w = words(0x07a9d207, 0xd1b9cb25, 0x94ee6432);
    w.classification[7] = 0x3264a7ee;
    w.phase_cycles[3][2] = 99;
    let otp = WordsOtp { w };
    assert_eq!(otp.read32("OWNER_SW_CFG_ROM_ALERT_CLASS_EN"), Ok(0x07a9d207));
    let r = read_otp_words(LcStateVal::Prod, &otp).unwrap();
    assert_eq!(r.classification[7], 0x3264a7ee);
    assert_eq!(r.phase_cycles[3][2], 99);
    assert_eq!(r.class_escalate, 0xd1b9cb25);
}

#[test]
fn words_are_serialized_little_endian() {
    assert_eq!(le_byte(0x12345678, 0), 0x78);
    assert_eq!(le_byte(0x12345678, 3), 0x12);
    assert_eq!(
        words_to_le_bytes(&[0x12345678, 0xa0b0c0d0]),
        vec![0x78, 0x56, 0x34, 0x12, 0xd0, 0xc0, 0xb0, 0xa0]
    );
}

struct TwoFailuresOtp {}

impl OtpRead for TwoFailuresOtp {
    fn read32_offset(&self, name: &str, offset: usize) -> Result<u32, OtpReadError> {
        if name == "OWNER_SW_CFG_ROM_ALERT_ACCUM_THRESH"
            || (name == "OWNER_SW_CFG_ROM_ALERT_CLASSIFICATION" && offset == 8)
        {
            return Err(OtpReadError {
                message: format!("cannot read {} at {}", name, offset),
            });
        }
        WordsOtp {
            w: words(0xa9a9a9a9, 0xd1d1d1d1, 0x94949494),
        }
        .read32_offset(name, offset)
    }
}

#[test]
fn first_failed_read_decides_error() {
    let expected = OtpReadError {
        message: "cannot read OWNER_SW_CFG_ROM_ALERT_CLASSIFICATION at 8".to_string(),
    };
    assert_eq!(
        read_otp_words(LcStateVal::Rma, &TwoFailuresOtp {}).unwrap_err(),
        AlertError::Read(expected.clone())
    );
    assert_eq!(
        AlertRegs::try_new(LcStateVal::Rma, &TwoFailuresOtp {}),
        Err(AlertError::Read(expected))
    );
}

/// Serves `w`, but fails the read of one item at one offset.
struct FailAtOtp {
    w: OtpAlertWords,
    name: &'static str,
    offset: usize,
}

impl OtpRead for FailAtOtp {
    fn read32_offset(&self, name: &str, offset: usize) -> Result<u32, OtpReadError> {
        if name == self.name && offset == self.offset {
            return Err(OtpReadError {
                message: format!("cannot read {} at {}", name, offset),
            });
        }
        WordsOtp { w: self.w }.read32_offset(name, offset)
    }
}

#[test]
fn decode_before_later_failed_read_decides_error() {
    // Prod selects byte 0 of the first classification word: 0x11 is no class.
    let mut w = words(0xa9a9a9a9, 0xd1d1d1d1, 0x94949494);
    w.classification[0] = 0x94949411;
    let otp = FailAtOtp {
        w,
        name: "OWNER_SW_CFG_ROM_ALERT_TIMEOUT_CYCLES",
        offset: 0,
    };
    assert_eq!(
        AlertRegs::try_new(LcStateVal::Prod, &otp),
        Err(AlertError::BadClass(0x11))
    );
    assert_eq!(read_otp_words(LcStateVal::Prod, &otp).unwrap_err(), AlertError::BadClass(0x11));
}

#[test]
fn class_decode_sits_between_phase_and_threshold_reads() {
    // Class B's enable byte is bad; the alerts are unclassified.
    let w = words(0xa9a955a9, 0xd1d1d1d1, 0x94949494);
    let accum = FailAtOtp {
        w,
        name: "OWNER_SW_CFG_ROM_ALERT_ACCUM_THRESH",
        offset: 4,
    };
    assert_eq!(
        AlertRegs::try_new(LcStateVal::Dev, &accum),
        Err(AlertError::BadEnable(0x55))
    );
    let phase = FailAtOtp {
        w,
        name: "OWNER_SW_CFG_ROM_ALERT_PHASE_CYCLES",
        offset: (4 + 3) * 4,
    };
    assert_eq!(
        AlertRegs::try_new(LcStateVal::Dev, &phase),
        Err(AlertError::Read(OtpReadError {
            message: "cannot read OWNER_SW_CFG_ROM_ALERT_PHASE_CYCLES at 28".to_string()
        }))
    );
    let earlier = FailAtOtp {
        w,
        name: "OWNER_SW_CFG_ROM_ALERT_TIMEOUT_CYCLES",
        offset: 0,
    };
    assert_eq!(
        AlertRegs::try_new(LcStateVal::Dev, &earlier),
        Err(AlertError::Read(OtpReadError {
            message: "cannot read OWNER_SW_CFG_ROM_ALERT_TIMEOUT_CYCLES at 0".to_string()
        }))
    );
}
