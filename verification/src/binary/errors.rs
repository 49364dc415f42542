//! Errors of binary parsing and version detection.

use vstd::prelude::*;
use crate::text::{decimal_seq, owned, push_decimal, push_str};

verus! {

#[verifier::external_type_specification]
#[verifier::external_body]
pub struct ExIoError(std::io::Error);

/// Core errors for binary parsing and version detection.
#[derive(Debug)]
pub enum CoreError {
    InvalidElf(String),
    InvalidMachO(String),
    InvalidPe(String),
    UnknownFormat { magic: [u8; 4] },
    SectionNotFound { name: String },
    SectionEmpty { name: String },
    UnsupportedVersion { version: String },
    VersionNotDetected,
    UnsupportedArchitecture(String),
    FileTooSmall { expected: usize, actual: usize },
    InvalidOffset { offset: usize, file_size: usize },
    Io(std::io::Error),
    GoblinError(String),
}


/// The bytes of a magic number as `Debug` writes an array: `[127, 69, 76, 70]`.
pub open spec fn magic_text(m: [u8; 4]) -> Seq<char> {
    "["@ + decimal_seq(m@[0] as nat) + ", "@ + decimal_seq(m@[1] as nat) + ", "@ + decimal_seq(m@[2] as nat)
        + ", "@ + decimal_seq(m@[3] as nat) + "]"@
}

/// The message of an error other than an I/O error.
pub open spec fn error_text(e: CoreError) -> Seq<char> {
    match e {
        CoreError::InvalidElf(t) => "Not a valid ELF file: "@ + t@,
        CoreError::InvalidMachO(t) => "Not a valid Mach-O file: "@ + t@,
        CoreError::InvalidPe(t) => "Not a valid PE file: "@ + t@,
        CoreError::UnknownFormat { magic } => "Unknown binary format (magic bytes: "@ + magic_text(magic) + ")"@,
        CoreError::SectionNotFound { name } => "Section '"@ + name@ + "' not found at expected offset"@,
        CoreError::SectionEmpty { name } => "Section '"@ + name@ + "' has zero size"@,
        CoreError::UnsupportedVersion { version } => "Dart VM version '"@ + version@ + "' is not supported"@,
        CoreError::VersionNotDetected => "Could not detect Dart VM version from binary"@,
        CoreError::UnsupportedArchitecture(t) => "Architecture not supported: "@ + t@,
        CoreError::FileTooSmall { expected, actual } => "File too small: expected at least "@
            + decimal_seq(expected as nat) + " bytes, got "@ + decimal_seq(actual as nat),
        CoreError::InvalidOffset { offset, file_size } => "Invalid offset: "@ + decimal_seq(offset as nat)
            + " exceeds file size "@ + decimal_seq(file_size as nat),
        CoreError::Io(_) => "IO error: "@,
        CoreError::GoblinError(t) => "Goblin parse error: "@ + t@,
    }
}

/// `Display` of an I/O error. What it says comes from the operating
/// system, so nothing is stated of it.
#[verifier::external_body]
fn io_error_text(e: &std::io::Error) -> String {
    format!("{}", e)
}

impl CoreError {
    /// The message of the error: its kind and its details. An I/O error's
    /// message is `IO error: ` and what the operating system says of it.
    pub fn message(&self) -> (r: String)
        ensures
            !(self is Io) ==> r@ == error_text(*self),
            self is Io ==> r@.len() >= 10 && r@.take(10) == error_text(*self),
    {
        proof {
            reveal_strlit("IO error: ");
        }
        let mut s = String::new();
        match self {
            CoreError::InvalidElf(t) => {
                push_str(&mut s, "Not a valid ELF file: ");
                push_str(&mut s, t.as_str());
            },
            CoreError::InvalidMachO(t) => {
                push_str(&mut s, "Not a valid Mach-O file: ");
                push_str(&mut s, t.as_str());
            },
            CoreError::InvalidPe(t) => {
                push_str(&mut s, "Not a valid PE file: ");
                push_str(&mut s, t.as_str());
            },
            CoreError::UnknownFormat { magic } => {
                push_str(&mut s, "Unknown binary format (magic bytes: ");
                push_str(&mut s, "[");
                push_decimal(&mut s, magic[0] as u64);
                push_str(&mut s, ", ");
                push_decimal(&mut s, magic[1] as u64);
                push_str(&mut s, ", ");
                push_decimal(&mut s, magic[2] as u64);
                push_str(&mut s, ", ");
                push_decimal(&mut s, magic[3] as u64);
                push_str(&mut s, "]");
                push_str(&mut s, ")");
            },
            CoreError::SectionNotFound { name } => {
                push_str(&mut s, "Section '");
                push_str(&mut s, name.as_str());
                push_str(&mut s, "' not found at expected offset");
            },
            CoreError::SectionEmpty { name } => {
                push_str(&mut s, "Section '");
                push_str(&mut s, name.as_str());
                push_str(&mut s, "' has zero size");
            },
            CoreError::UnsupportedVersion { version } => {
                push_str(&mut s, "Dart VM version '");
                push_str(&mut s, version.as_str());
                push_str(&mut s, "' is not supported");
            },
            CoreError::VersionNotDetected => {
                push_str(&mut s, "Could not detect Dart VM version from binary");
            },
            CoreError::UnsupportedArchitecture(t) => {
                push_str(&mut s, "Architecture not supported: ");
                push_str(&mut s, t.as_str());
            },
            CoreError::FileTooSmall { expected, actual } => {
                push_str(&mut s, "File too small: expected at least ");
                push_decimal(&mut s, *expected as u64);
                push_str(&mut s, " bytes, got ");
                push_decimal(&mut s, *actual as u64);
            },
            CoreError::InvalidOffset { offset, file_size } => {
                push_str(&mut s, "Invalid offset: ");
                push_decimal(&mut s, *offset as u64);
                push_str(&mut s, " exceeds file size ");
                push_decimal(&mut s, *file_size as u64);
            },
            CoreError::Io(e) => {
                push_str(&mut s, "IO error: ");
                let t = io_error_text(e);
                push_str(&mut s, t.as_str());
            },
            CoreError::GoblinError(t) => {
                push_str(&mut s, "Goblin parse error: ");
                push_str(&mut s, t.as_str());
            },
        }
        proof {
            match *self {
                CoreError::UnknownFormat { magic } => {
                    assert(s@ =~= error_text(*self));
                },
                CoreError::FileTooSmall { .. } => {
                    assert(s@ =~= error_text(*self));
                },
                CoreError::InvalidOffset { .. } => {
                    assert(s@ =~= error_text(*self));
                },
                CoreError::Io(_) => {
                    assert(s@.take(10) =~= error_text(*self));
                },
                _ => {
                    assert(s@ =~= error_text(*self));
                },
            }
        }
        s
    }
}

} // verus!
