use alert_handler::regs::{N_ALERTS, N_LOCAL_ALERTS};
use alert_handler::{
    checksum_bytes, AlertClassRegs, AlertRegs, LcStateVal, OtpRead, OtpReadError,
};

// Register values dumped from a device after alert_handler initialization.
fn test_regs() -> AlertRegs {
    AlertRegs {
        regwen: [0x00000001; N_ALERTS],
        en: [0x00000000; N_ALERTS],
        class: [0x00000000; N_ALERTS],
        loc_regwen: [0x00000001; N_LOCAL_ALERTS],
        loc_en: [0x00000000; N_LOCAL_ALERTS],
        loc_class: [0x00000000; N_LOCAL_ALERTS],
        class_regs: [
            AlertClassRegs {
                regwen: 0x00000001,
                ctrl: 0x00003900,
                accum_thresh: 0x00000000,
                timeout_cyc: 0x00000000,
                phase_cycs: [0x00000000, 0x0000000a, 0x0000000a, 0xffffffff],
            },
            AlertClassRegs {
                regwen: 0x00000001,
                ctrl: 0x00003900,
                accum_thresh: 0x00000000,
                timeout_cyc: 0x00000000,
                phase_cycs: [0x00000000, 0x0000000a, 0x0000000a, 0xffffffff],
            },
            AlertClassRegs {
                regwen: 0x00000001,
                ctrl: 0x00003900,
                accum_thresh: 0x00000000,
                timeout_cyc: 0x00000000,
                phase_cycs: [0x00000000, 0x00000000, 0x00000000, 0x00000000],
            },
            AlertClassRegs {
                regwen: 0x00000001,
                ctrl: 0x00003900,
                accum_thresh: 0x00000000,
                timeout_cyc: 0x00000000,
                phase_cycs: [0x00000000, 0x00000000, 0x00000000, 0x00000000],
            },
        ],
    }
}

const PHASE_CYCLES: [u32; 16] = [
    0x00000000, 0x0000000a, 0x0000000a, 0xffffffff, // Class 0
    0x00000000, 0x0000000a, 0x0000000a, 0xffffffff, // Class 1
    0x00000000, 0x00000000, 0x00000000, 0x00000000, // Class 2
    0x00000000, 0x00000000, 0x00000000, 0x00000000, // Class 3
];

/// An OTP image given by its class enable, escalation and classification words.
struct TestOtp {
    class_en: u32,
    escalation: u32,
    classification: u32,
    local_classification: u32,
}

impl OtpRead for TestOtp {
    fn read32_offset(&self, name: &str, offset: usize) -> Result<u32, OtpReadError> {
        Ok(match name {
            "OWNER_SW_CFG_ROM_ALERT_CLASS_EN" => self.class_en,
            "OWNER_SW_CFG_ROM_ALERT_ESCALATION" => self.escalation,
            "OWNER_SW_CFG_ROM_ALERT_CLASSIFICATION" => self.classification,
            "OWNER_SW_CFG_ROM_LOCAL_ALERT_CLASSIFICATION" => self.local_classification,
            "OWNER_SW_CFG_ROM_ALERT_PHASE_CYCLES" => PHASE_CYCLES[offset / 4],
            "OWNER_SW_CFG_ROM_ALERT_ACCUM_THRESH" | "OWNER_SW_CFG_ROM_ALERT_TIMEOUT_CYCLES" => {
                0x00000000
            }
            _ => panic!("No such OTP value {}", name),
        })
    }
}

struct TestOtpAlertsDisabled {}

// OTP values that correspond to the values of `test_regs`.
impl OtpRead for TestOtpAlertsDisabled {
    fn read32_offset(&self, name: &str, offset: usize) -> Result<u32, OtpReadError> {
        TestOtp {
            class_en: 0xa9a9a9a9,
            escalation: 0xd1d1d1d1,
            classification: 0x94949494,
            local_classification: 0x94949494,
        }
        .read32_offset(name, offset)
    }
}

struct TestOtpAlertsEnabled {}

// OTP values with the class enable values set to "enabled".
impl OtpRead for TestOtpAlertsEnabled {
    fn read32_offset(&self, name: &str, offset: usize) -> Result<u32, OtpReadError> {
        TestOtp {
            class_en: 0x07070707,
            escalation: 0xd1d1d1d1,
            classification: 0x94949494,
            local_classification: 0x94949494,
        }
        .read32_offset(name, offset)
    }
}

#[test]
fn test_new_crc() {
    assert_eq!(checksum_bytes(b"123456789"), 0xcbf43926);
    assert_eq!(
        checksum_bytes(b"The quick brown fox jumps over the lazy dog"),
        0x414fa339
    );
    assert_eq!(
        checksum_bytes(b"\xfe\xca\xfe\xca\x02\xb0\xad\x1b"),
        0x9508ac14
    );
}

#[test]
fn test_crc_from_regs() {
    assert_eq!(test_regs().crc32(), 0xE65FB2FF);
}

#[test]
fn test_regs_from_otp() {
    assert_eq!(
        test_regs(),
        AlertRegs::try_new(LcStateVal::Dev, &TestOtpAlertsDisabled {}).unwrap()
    );
}

#[test]
fn test_crc_disabled() {
    assert_eq!(
        AlertRegs::try_new(LcStateVal::Dev, &TestOtpAlertsDisabled {})
            .unwrap()
            .crc32(),
        0xE65FB2FF
    );
}

#[test]
fn test_crc_enabled() {
    assert_eq!(
        AlertRegs::try_new(LcStateVal::Dev, &TestOtpAlertsEnabled {})
            .unwrap()
            .crc32(),
        0x492518C9
    );
}
