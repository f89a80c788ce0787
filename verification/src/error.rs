use vstd::prelude::*;

verus! {

/// Failures that the emulator core and its loader report to callers.
///
/// Decode failures are the only recoverable failure the CPU engine itself
/// raises; they carry the offending byte pair and a human-readable reason.
/// The loader reports ROM-shape problems before any byte reaches the core.
/// The command- and number-parsing variants belong to the operator console
/// built around the core.
#[derive(Debug)]
pub enum Chip8Error {
    ROMLoaderError { reason: String },
    DecodeError { instr: (u8, u8), reason: String },
    CommandParseError(String),
    OpcodeParseError(String),
    NumericalConversionError(String),
}

} // verus!
