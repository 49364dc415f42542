//! Binary containers: format and architecture identification, sections,
//! Dart VM version detection, and the ELF / Mach-O / PE front ends.

use vstd::prelude::*;
use crate::text::owned;

pub mod errors;
pub mod file;
pub mod elf;
pub mod pe;
pub mod macho;
pub mod sections;
pub mod version;
pub mod detect;

verus! {

/// Supported binary formats.
#[derive(Debug, Clone, Copy, PartialEq, Eq, Hash, Structural)]
pub enum BinaryFormat {
    Elf,
    MachO,
    Pe,
}

/// Supported CPU architectures.
#[derive(Debug, Clone, Copy, PartialEq, Eq, Hash, Structural)]
pub enum Architecture {
    Arm64,
    Arm32,
    X86_64,
    X86,
}

/// The display name of an architecture.
pub open spec fn architecture_name(a: Architecture) -> Seq<char> {
    match a {
        Architecture::Arm64 => "arm64"@,
        Architecture::Arm32 => "arm32"@,
        Architecture::X86_64 => "x86_64"@,
        Architecture::X86 => "x86"@,
    }
}

/// The display name of a binary format.
pub open spec fn format_name(f: BinaryFormat) -> Seq<char> {
    match f {
        BinaryFormat::Elf => "ELF"@,
        BinaryFormat::MachO => "Mach-O"@,
        BinaryFormat::Pe => "PE"@,
    }
}

impl Architecture {
    /// The display name (`arm64`, `arm32`, `x86_64`, `x86`).
    pub fn display(&self) -> (r: String)
        ensures
            r@ == architecture_name(*self),
    {
        match self {
            Architecture::Arm64 => owned("arm64"),
            Architecture::Arm32 => owned("arm32"),
            Architecture::X86_64 => owned("x86_64"),
            Architecture::X86 => owned("x86"),
        }
    }
}

impl BinaryFormat {
    /// The display name (`ELF`, `Mach-O`, `PE`).
    pub fn display(&self) -> (r: String)
        ensures
            r@ == format_name(*self),
    {
        match self {
            BinaryFormat::Elf => owned("ELF"),
            BinaryFormat::MachO => owned("Mach-O"),
            BinaryFormat::Pe => owned("PE"),
        }
    }
}


/// The outcome of parsing a binary's bytes with the front end of its format.
pub open spec fn parsed(format: BinaryFormat, data: Seq<u8>, r: Result<sections::ParsedBinary, errors::CoreError>) -> bool {
    match format {
        BinaryFormat::Elf => elf::elf_outcome(
            elf::elf_header_of(data),
            elf::elf_sections_of(data),
            elf::elf_symbols_of(data),
            elf::elf_segments_of(data),
            r,
        ),
        BinaryFormat::MachO => macho::macho_outcome(data, r),
        BinaryFormat::Pe => pe::pe_outcome(pe::pe_header_of(data), pe::pe_sections_of(data), r),
    }
}

/// Parse any supported binary file: the front end of its detected format.
pub fn parse_binary(file: &file::BinaryFile) -> (r: Result<sections::ParsedBinary, errors::CoreError>)
    ensures
        parsed(file.format_spec(), file.bytes(), r),
{
    match file.format() {
        BinaryFormat::Elf => elf::parse_elf(file),
        BinaryFormat::MachO => macho::parse_macho(file),
        BinaryFormat::Pe => pe::parse_pe(file),
    }
}

/// Detect the Dart VM version of a parsed binary.
pub fn detect_version(file: &file::BinaryFile, parsed: &sections::ParsedBinary) -> (r: Result<version::DartVersion, errors::CoreError>)
    ensures
        detect::detected(file.bytes(), r),
{
    detect::detect_dart_version(file, parsed)
}
} // verus!
