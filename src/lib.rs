//! Expected alert handler register values derived from the lifecycle state
//! and OTP, and their CRC32.
pub mod bytes;
pub mod digest;
pub mod error;
pub mod otp;
pub mod regs;
pub mod sentinel;

pub use digest::checksum_bytes;
pub use error::{AlertError, OtpReadError};
pub use otp::{read_otp_words, LcStateVal, OtpAlertWords, OtpRead};
pub use regs::{AlertClassConfig, AlertClassRegs, AlertRegs};
pub use sentinel::{AlertClass, AlertEnable, AlertEscalate};
