use dart_dec::binary::detect::{detect_by_fingerprint, detect_by_sdk_hash, lookup_sdk_hash};
use dart_dec::binary::elf::{elf_binary, ElfSection, ElfSegment, ElfSymbol};
use dart_dec::binary::errors::CoreError;
use dart_dec::binary::file::BinaryFile;
use dart_dec::binary::macho::{macho_binary, MachSection};
use dart_dec::binary::pe::{pe_binary, PeSection};
use dart_dec::binary::sections::{ParsedBinary, SectionInfo};
use dart_dec::binary::version::{Channel, Confidence, DetectionMethod};
use dart_dec::binary::{detect_version, parse_binary, Architecture, BinaryFormat};
use sha2::Digest;

fn create_test_elf() -> Vec<u8> {
    // Minimal ELF header (64-bit, little-endian, ARM64)
    let mut data: Vec<u8> = vec![
        0x7f, b'E', b'L', b'F', 2, 1, 1, 0, 0, 0, 0, 0, 0, 0, 0, 0, // e_ident
        3, 0, // e_type
        0xb7, 0, // e_machine
        1, 0, 0, 0, // e_version
        0, 0, 0, 0, 0, 0, 0, 0, // e_entry
        64, 0, 0, 0, 0, 0, 0, 0, // e_phoff
        0, 0, 0, 0, 0, 0, 0, 0, // e_shoff
        0, 0, 0, 0, // e_flags
        64, 0, // e_ehsize
        56, 0, // e_phentsize
        0, 0, // e_phnum
        64, 0, // e_shentsize
        0, 0, // e_shnum
        0, 0, // e_shstrndx
    ];
    data.extend_from_slice(&vec![0u8; 256]);
    data.extend_from_slice(b"Dart/3.2.0 (stable) something");
    data.extend_from_slice(&vec![0u8; 256]);
    data
}

#[test]
fn test_binary_file_open() {
    let file = BinaryFile::from_bytes(create_test_elf()).unwrap();
    assert_eq!(file.format(), BinaryFormat::Elf);
    assert!(file.file_size() > 64);
    assert!(!file.sha256().is_empty());
}

#[test]
fn test_binary_format_detection_elf() {
    let file = BinaryFile::from_bytes(create_test_elf()).unwrap();
    assert_eq!(file.format(), BinaryFormat::Elf);
}

#[test]
fn test_binary_slice() {
    let file = BinaryFile::from_bytes(create_test_elf()).unwrap();
    let slice = file.slice(0, 4).unwrap();
    assert_eq!(slice, &[0x7f, b'E', b'L', b'F']);
}

#[test]
fn test_binary_slice_bounds_check() {
    let file = BinaryFile::from_bytes(create_test_elf()).unwrap();
    let result = file.slice(0, file.file_size() + 1);
    assert!(result.is_err());
}

#[test]
fn test_find_pattern() {
    let file = BinaryFile::from_bytes(create_test_elf()).unwrap();
    let found = file.find_pattern(b"Dart/");
    assert!(found.is_some());
}

#[test]
fn test_find_all_patterns() {
    let file = BinaryFile::from_bytes(create_test_elf()).unwrap();
    let found = file.find_all_patterns(b"ELF");
    assert!(!found.is_empty());
}

#[test]
fn test_parse_elf() {
    let file = BinaryFile::from_bytes(create_test_elf()).unwrap();
    let parsed = parse_binary(&file).unwrap();
    assert_eq!(parsed.arch, Architecture::Arm64);
}

#[test]
fn test_version_detection() {
    let file = BinaryFile::from_bytes(create_test_elf()).unwrap();
    let parsed = parse_binary(&file).unwrap();
    let version = detect_version(&file, &parsed);
    if let Ok(v) = version {
        assert_eq!(v.major, 3);
        assert_eq!(v.minor, 2);
    }
}

#[test]
fn test_unknown_format() {
    let result = BinaryFile::from_bytes(vec![0xDE, 0xAD, 0xBE, 0xEF, 0x00, 0x00]);
    assert!(result.is_err());
}

#[test]
fn test_file_too_small() {
    let result = BinaryFile::from_bytes(vec![0x7f]);
    assert!(result.is_err());
}

#[test]
fn test_version_string_found_exactly() {
    let file = BinaryFile::from_bytes(create_test_elf()).unwrap();
    let parsed = parse_binary(&file).unwrap();
    let v = detect_version(&file, &parsed).unwrap();
    assert_eq!((v.major, v.minor, v.patch), (3, 2, 0));
    assert_eq!(v.channel, Channel::Stable);
    assert_eq!(v.detection_method, DetectionMethod::VersionString);
    assert_eq!(v.confidence, Confidence::High);
    assert_eq!(v.raw_string.as_deref(), Some("3.2.0 (stable)"));
    assert_eq!(v.display(), "3.2.0 (stable)");
}

#[test]
fn test_error_kinds() {
    match BinaryFile::from_bytes(vec![0x7f]) {
        Err(CoreError::FileTooSmall { expected, actual }) => {
            assert_eq!(expected, 4);
            assert_eq!(actual, 1);
        }
        _ => panic!("expected FileTooSmall"),
    }
    match BinaryFile::from_bytes(vec![0xDE, 0xAD, 0xBE, 0xEF, 0x00]) {
        Err(CoreError::UnknownFormat { magic }) => assert_eq!(magic, [0xDE, 0xAD, 0xBE, 0xEF]),
        _ => panic!("expected UnknownFormat"),
    }
}

#[test]
fn test_format_magics() {
    assert_eq!(BinaryFile::from_bytes(vec![0xfe, 0xed, 0xfa, 0xcf, 0]).unwrap().format(), BinaryFormat::MachO);
    assert_eq!(BinaryFile::from_bytes(vec![0xce, 0xfa, 0xed, 0xfe]).unwrap().format(), BinaryFormat::MachO);
    assert_eq!(BinaryFile::from_bytes(vec![b'M', b'Z', 0x90, 0]).unwrap().format(), BinaryFormat::Pe);
}

#[test]
fn test_sha256_matches_digest() {
    let data = create_test_elf();
    let expected = hex::encode(sha2::Sha256::digest(&data));
    let file = BinaryFile::from_bytes(data).unwrap();
    assert_eq!(file.sha256(), expected);
    assert_eq!(file.sha256().len(), 64);
}

#[test]
fn test_slice_offset_overflow_and_end() {
    let file = BinaryFile::from_bytes(vec![b'M', b'Z', 1, 2, 3, 4]).unwrap();
    match file.slice(usize::MAX, 2) {
        Err(CoreError::InvalidOffset { offset, file_size }) => {
            assert_eq!(offset, usize::MAX);
            assert_eq!(file_size, 6);
        }
        _ => panic!("expected InvalidOffset"),
    }
    match file.slice(4, 3) {
        Err(CoreError::InvalidOffset { offset, file_size }) => {
            assert_eq!(offset, 7);
            assert_eq!(file_size, 6);
        }
        _ => panic!("expected InvalidOffset"),
    }
    assert_eq!(file.slice(2, 4).unwrap(), &[1, 2, 3, 4]);
}

#[test]
fn test_find_patterns_non_overlapping() {
    let file = BinaryFile::from_bytes(vec![b'M', b'Z', b'a', b'a', b'a', b'a', b'a']).unwrap();
    assert_eq!(file.find_all_patterns(b"aa"), vec![2, 4]);
    assert_eq!(file.find_pattern(b"aa"), Some(2));
    assert_eq!(file.find_pattern(b""), None);
    assert!(file.find_all_patterns(b"").is_empty());
    assert_eq!(file.find_pattern(b"zz"), None);
}

#[test]
fn test_sdk_hash_detection() {
    let mut data = vec![b'M', b'Z', 0, 0];
    data.extend_from_slice(b"dart-sdk-hash:");
    data.extend_from_slice(b"0123456789abcdef0123456789ABCDEF01234567");
    data.extend_from_slice(&[0, 0]);
    let file = BinaryFile::from_bytes(data).unwrap();
    let v = detect_by_sdk_hash(&file).unwrap();
    assert_eq!((v.major, v.minor, v.patch), (3, 0, 0));
    assert_eq!(v.detection_method, DetectionMethod::SdkHash);
    assert_eq!(v.confidence, Confidence::Low);
    assert_eq!(v.sdk_hash.as_deref(), Some("0123456789abcdef0123456789ABCDEF01234567"));
    assert!(lookup_sdk_hash("0123456789abcdef0123456789ABCDEF01234567").is_none());
}

#[test]
fn test_sdk_hash_not_hex_is_skipped() {
    let mut data = vec![b'M', b'Z', 0, 0];
    data.extend_from_slice(b"dart-sdk-hash:");
    data.extend_from_slice(b"zz23456789abcdef0123456789abcdef01234567");
    let file = BinaryFile::from_bytes(data).unwrap();
    assert!(detect_by_sdk_hash(&file).is_none());
}

#[test]
fn test_fingerprint_detection() {
    let mut data = vec![b'M', b'Z', 0, 0, 0xf5, 0xf5, 0xdc, 0xdc];
    data.extend_from_slice(b"null-safety");
    let file = BinaryFile::from_bytes(data.clone()).unwrap();
    let v = detect_by_fingerprint(&file).unwrap();
    assert_eq!((v.major, v.minor), (2, 19));
    assert_eq!(v.confidence, Confidence::Medium);
    data.extend_from_slice(b"records");
    let file = BinaryFile::from_bytes(data).unwrap();
    let v = detect_by_fingerprint(&file).unwrap();
    assert_eq!((v.major, v.minor), (3, 0));
    let file = BinaryFile::from_bytes(vec![b'M', b'Z', 0, 0, b'r', b'e', b'c']).unwrap();
    assert!(detect_by_fingerprint(&file).is_none());
}

#[test]
fn test_version_not_detected() {
    let file = BinaryFile::from_bytes(vec![b'M', b'Z', 0, 0, 1, 2, 3]).unwrap();
    let parsed = ParsedBinary::new(Architecture::X86, vec![], 0);
    assert!(matches!(detect_version(&file, &parsed), Err(CoreError::VersionNotDetected)));
}

#[test]
fn test_broad_scan_skips_old_major() {
    let mut data = vec![b'M', b'Z', 0, 0, 0xff];
    data.extend_from_slice(b"xx 1.9.0 (beta) yy");
    let file = BinaryFile::from_bytes(data).unwrap();
    let parsed = ParsedBinary::new(Architecture::X86, vec![], 0);
    assert!(detect_version(&file, &parsed).is_err());
    let mut data = vec![b'M', b'Z', 0, 0, 0xff];
    data.extend_from_slice(b"xx 2.18.4 (dev) yy");
    let file = BinaryFile::from_bytes(data).unwrap();
    let v = detect_version(&file, &parsed).unwrap();
    assert_eq!((v.major, v.minor, v.patch, v.channel), (2, 18, 4, Channel::Dev));
}

#[test]
fn test_marked_window_takes_any_major() {
    let mut data = vec![b'M', b'Z', 0, 0];
    data.extend_from_slice(b"xx 1.9.0 (beta) yy");
    let file = BinaryFile::from_bytes(data).unwrap();
    let parsed = ParsedBinary::new(Architecture::X86, vec![], 0);
    let v = detect_version(&file, &parsed).unwrap();
    assert_eq!((v.major, v.minor, v.patch, v.channel), (1, 9, 0, Channel::Beta));
}

#[test]
fn test_elf_binary_unsupported_machine() {
    match elf_binary(0x99, 0, &vec![], &vec![], &vec![]) {
        Err(CoreError::UnsupportedArchitecture(t)) => assert_eq!(t, "ELF e_machine: 0x99"),
        _ => panic!("expected UnsupportedArchitecture"),
    }
}

#[test]
fn test_elf_binary_sections_and_symbols() {
    let secs = vec![
        ElfSection { name: String::new(), addr: 0, offset: 0, size: 0, flags: 0 },
        ElfSection { name: ".text".to_string(), addr: 0x1000, offset: 0x1000, size: 0x100, flags: 0x6 },
        ElfSection { name: ".data".to_string(), addr: 0x2000, offset: 0x1800, size: 0x10, flags: 0x3 },
    ];
    let syms = vec![
        ElfSymbol { name: Some("_kDartVmSnapshotData".to_string()), value: 0x3010, size: 0x40 },
        ElfSymbol { name: Some("_kDartVmSnapshotData".to_string()), value: 0x9999, size: 1 },
        ElfSymbol { name: Some("other".to_string()), value: 0x1, size: 1 },
        ElfSymbol { name: None, value: 0x1, size: 1 },
        ElfSymbol { name: Some("_kDartIsolateSnapshotData".to_string()), value: 0x7000, size: 8 },
    ];
    let segs = vec![
        ElfSegment { p_type: 2, vaddr: 0x3000, memsz: 0x100, offset: 0x9000 },
        ElfSegment { p_type: 1, vaddr: 0x3000, memsz: 0x100, offset: 0x2000 },
    ];
    let p = elf_binary(40, 0x1234, &secs, &syms, &segs).unwrap();
    assert_eq!(p.arch, Architecture::Arm32);
    assert_eq!(p.entry_point, 0x1234);
    assert_eq!(p.sections.len(), 4);
    assert_eq!(p.sections[0].name, ".text");
    assert!(p.sections[0].is_executable && !p.sections[0].is_writable);
    assert!(!p.sections[1].is_executable && p.sections[1].is_writable);
    assert_eq!(p.sections[2].name, "_kDartVmSnapshotData");
    assert_eq!(p.sections[2].file_offset, 0x2010);
    assert_eq!(p.sections[3].file_offset, 0x7000);
    assert_eq!(p.vm_snapshot_data().unwrap().virtual_addr, 0x3010);
    assert!(p.isolate_snapshot_data().is_some());
}

#[test]
fn test_pe_binary_sections() {
    let secs = vec![PeSection {
        name: b".text\0\0\0".to_vec(),
        virtual_size: 0x500,
        virtual_address: 0x1000,
        pointer_to_raw_data: 0x400,
        characteristics: 0x60000020,
    }];
    let p = pe_binary(true, 0x10, 0x140000000, &secs).unwrap();
    assert_eq!(p.arch, Architecture::X86_64);
    assert_eq!(p.entry_point, 0x140000010);
    assert_eq!(p.sections[0].name, ".text");
    assert_eq!(p.sections[0].virtual_addr, 0x140001000);
    assert!(p.sections[0].is_executable && !p.sections[0].is_writable);
    assert_eq!(pe_binary(false, 0, 0, &vec![]).unwrap().arch, Architecture::X86);
}

#[test]
fn test_macho_binary_sections() {
    let secs = vec![
        MachSection { seg_name: "__TEXT".to_string(), sect_name: "__text".to_string(), addr: 0x4000, offset: 0x4000, size: 0x20, seg_flags: 0x5 },
        MachSection { seg_name: String::new(), sect_name: "__const".to_string(), addr: 0x8000, offset: 0x8000, size: 0x8, seg_flags: 0x2 },
    ];
    let p = macho_binary(0x0100000c, 0x4000, &secs).unwrap();
    assert_eq!(p.arch, Architecture::Arm64);
    assert_eq!(p.sections[0].name, "__TEXT.__text");
    assert!(p.sections[0].is_executable);
    assert_eq!(p.sections[1].name, "__const");
    assert!(p.sections[1].is_writable);
    match macho_binary(0x12, 0, &vec![]) {
        Err(CoreError::UnsupportedArchitecture(t)) => assert_eq!(t, "Mach-O cputype: 0x12"),
        _ => panic!("expected UnsupportedArchitecture"),
    }
}

#[test]
fn test_invalid_pe_and_macho() {
    let file = BinaryFile::from_bytes(vec![b'M', b'Z', 0, 0, 0, 0]).unwrap();
    assert!(matches!(parse_binary(&file), Err(CoreError::InvalidPe(_))));
    let file = BinaryFile::from_bytes(vec![0xcf, 0xfa, 0xed, 0xfe, 0, 0]).unwrap();
    assert!(matches!(parse_binary(&file), Err(CoreError::InvalidMachO(_))));
    let file = BinaryFile::from_bytes(vec![0x7f, b'E', b'L', b'F', 0, 0]).unwrap();
    assert!(matches!(parse_binary(&file), Err(CoreError::InvalidElf(_))));
}

#[test]
fn test_section_info_lookup_helpers() {
    let s = SectionInfo { name: ".rodata".to_string(), virtual_addr: 1, file_offset: 2, size: 3, is_executable: false, is_writable: false };
    let p = ParsedBinary::new(Architecture::Arm64, vec![s], 0);
    assert_eq!(p.rodata().unwrap().size, 3);
}
