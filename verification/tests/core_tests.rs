use dart_dec::binary::errors::CoreError;
use dart_dec::binary::sections::{ParsedBinary, SectionInfo};
use dart_dec::binary::version::{Channel, Confidence, DartVersion, DetectionMethod};
use dart_dec::binary::{Architecture, BinaryFormat};

fn text_section() -> SectionInfo {
    SectionInfo {
        name: ".text".to_string(),
        virtual_addr: 0x1000,
        file_offset: 0x200,
        size: 0x5000,
        is_executable: true,
        is_writable: false,
    }
}

#[test]
fn test_architecture_display() {
    assert_eq!(Architecture::Arm64.display(), "arm64");
    assert_eq!(Architecture::Arm32.display(), "arm32");
    assert_eq!(Architecture::X86_64.display(), "x86_64");
}

#[test]
fn test_format_display() {
    assert_eq!(BinaryFormat::Elf.display(), "ELF");
    assert_eq!(BinaryFormat::MachO.display(), "Mach-O");
    assert_eq!(BinaryFormat::Pe.display(), "PE");
}

#[test]
fn test_section_info() {
    let section = text_section();
    assert_eq!(section.name, ".text");
    assert!(section.is_executable);
    assert!(!section.is_writable);
}

#[test]
fn test_parsed_binary_section_lookup() {
    let sections = vec![
        text_section(),
        SectionInfo {
            name: ".rodata".to_string(),
            virtual_addr: 0x6000,
            file_offset: 0x5200,
            size: 0x3000,
            is_executable: false,
            is_writable: false,
        },
    ];
    let parsed = ParsedBinary::new(Architecture::Arm64, sections, 0x1000);
    assert!(parsed.text().is_some());
    assert!(parsed.rodata().is_some());
    assert_eq!(parsed.text().unwrap().name, ".text");
    assert!(parsed.section_by_name(".bss").is_none());
}

#[test]
fn test_dart_version_display() {
    let v = DartVersion {
        major: 3,
        minor: 2,
        patch: 0,
        channel: Channel::Stable,
        sdk_hash: None,
        detection_method: DetectionMethod::VersionString,
        confidence: Confidence::High,
        raw_string: None,
    };
    assert_eq!(v.display(), "3.2.0 (stable)");
}

#[test]
fn test_version_low_confidence_display() {
    let v = DartVersion {
        major: 3,
        minor: 0,
        patch: 0,
        channel: Channel::Unknown,
        sdk_hash: None,
        detection_method: DetectionMethod::StructFingerprint,
        confidence: Confidence::Low,
        raw_string: None,
    };
    let display = v.display();
    assert!(display.contains("[confidence: Low]"));
}

#[test]
fn parsed_binary_finds_dart_snapshot_sections_by_substring() {
    let mk = |n: &str| SectionInfo {
        name: n.to_string(),
        virtual_addr: 0,
        file_offset: 0,
        size: 1,
        is_executable: false,
        is_writable: false,
    };
    let parsed = ParsedBinary::new(
        Architecture::Arm64,
        vec![mk(".rodata"), mk("__kDartVmSnapshotData"), mk("_kDartIsolateSnapshotInstructions"), mk(".rodata")],
        0,
    );
    assert_eq!(parsed.rodata_idx, Some(0));
    assert_eq!(parsed.vm_snapshot_data_idx, Some(1));
    assert_eq!(parsed.isolate_snapshot_instructions_idx, Some(2));
    assert_eq!(parsed.text_idx, None);
    assert_eq!(parsed.vm_snapshot_data().unwrap().name, "__kDartVmSnapshotData");
    assert_eq!(parsed.section_by_name(".rodata").unwrap().virtual_addr, 0);
}

#[test]
fn version_display_beta_medium() {
    let v = DartVersion {
        major: 2,
        minor: 19,
        patch: 6,
        channel: Channel::Beta,
        sdk_hash: None,
        detection_method: DetectionMethod::SdkHash,
        confidence: Confidence::Medium,
        raw_string: None,
    };
    assert_eq!(v.display(), "2.19.6 (beta) [confidence: Medium]");
    assert_eq!(Channel::Dev.display(), "dev");
}

#[test]
fn test_core_error_messages() {
    let e = CoreError::FileTooSmall { expected: 4, actual: 2 };
    assert_eq!(e.message(), "File too small: expected at least 4 bytes, got 2");
    let e = CoreError::UnknownFormat { magic: [0x7f, 0x45, 0x4c, 0x00] };
    assert_eq!(e.message(), "Unknown binary format (magic bytes: [127, 69, 76, 0])");
    assert_eq!(CoreError::VersionNotDetected.message(), "Could not detect Dart VM version from binary");
    let e = CoreError::InvalidOffset { offset: 10, file_size: 8 };
    assert_eq!(e.message(), "Invalid offset: 10 exceeds file size 8");
}
