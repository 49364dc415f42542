//! Sections of a parsed binary and the well-known Dart sections among them.

use vstd::prelude::*;
use crate::text::{contains_seq, str_contains, str_eq};
use super::Architecture;

verus! {

/// Information about a single section in the binary.
#[derive(Debug, Clone)]
pub struct SectionInfo {
    pub name: String,
    pub virtual_addr: u64,
    pub file_offset: u64,
    pub size: u64,
    pub is_executable: bool,
    pub is_writable: bool,
}

/// Parsed binary with extracted sections and architecture info.
#[derive(Debug, Clone)]
pub struct ParsedBinary {
    pub arch: Architecture,
    pub sections: Vec<SectionInfo>,
    pub entry_point: u64,
    /// Cached index into sections for .rodata
    pub rodata_idx: Option<usize>,
    /// Cached index into sections for .text
    pub text_idx: Option<usize>,
    /// Cached index into sections for vm snapshot data
    pub vm_snapshot_data_idx: Option<usize>,
    /// Cached index into sections for vm snapshot instructions
    pub vm_snapshot_instructions_idx: Option<usize>,
    /// Cached index into sections for isolate snapshot data
    pub isolate_snapshot_data_idx: Option<usize>,
    /// Cached index into sections for isolate snapshot instructions
    pub isolate_snapshot_instructions_idx: Option<usize>,
}

/// The kinds of well-known sections that `ParsedBinary` caches.
pub enum SpecialSection {
    Rodata,
    Text,
    VmSnapshotData,
    VmSnapshotInstructions,
    IsolateSnapshotData,
    IsolateSnapshotInstructions,
}

/// Whether a section name designates the given well-known section.
pub open spec fn names_section(kind: SpecialSection, name: Seq<char>) -> bool {
    match kind {
        SpecialSection::Rodata => name == ".rodata"@,
        SpecialSection::Text => name == ".text"@,
        SpecialSection::VmSnapshotData => contains_seq(name, "kDartVmSnapshotData"@)
            || name == "_kDartVmSnapshotData"@,
        SpecialSection::VmSnapshotInstructions => contains_seq(name, "kDartVmSnapshotInstructions"@)
            || name == "_kDartVmSnapshotInstructions"@,
        SpecialSection::IsolateSnapshotData => contains_seq(name, "kDartIsolateSnapshotData"@)
            || name == "_kDartIsolateSnapshotData"@,
        SpecialSection::IsolateSnapshotInstructions => contains_seq(
            name,
            "kDartIsolateSnapshotInstructions"@,
        ) || name == "_kDartIsolateSnapshotInstructions"@,
    }
}

/// `idx` is the position of the first section whose name designates `kind`,
/// or `None` when no section does.
pub open spec fn is_first_section(
    sections: Seq<SectionInfo>,
    kind: SpecialSection,
    idx: Option<usize>,
) -> bool {
    match idx {
        Some(i) => i < sections.len() && names_section(kind, sections[i as int].name@) && forall|j: int|
            0 <= j < i ==> !names_section(kind, #[trigger] sections[j].name@),
        None => forall|j: int| 0 <= j < sections.len() ==> !names_section(kind, #[trigger] sections[j].name@),
    }
}

/// `idx` is the position of the first section named exactly `name`, or `None`.
pub open spec fn is_first_named(sections: Seq<SectionInfo>, name: Seq<char>, idx: Option<int>) -> bool {
    match idx {
        Some(i) => 0 <= i < sections.len() && sections[i].name@ == name && forall|j: int|
            0 <= j < i ==> #[trigger] sections[j].name@ != name,
        None => forall|j: int| 0 <= j < sections.len() ==> #[trigger] sections[j].name@ != name,
    }
}

/// Every cached index points inside `sections`.
pub open spec fn index_in_bounds(idx: Option<usize>, len: nat) -> bool {
    idx matches Some(i) ==> i < len
}

impl ParsedBinary {
    /// Every cached section index is within bounds.
    pub open spec fn wf(&self) -> bool {
        let n = self.sections@.len();
        &&& index_in_bounds(self.rodata_idx, n)
        &&& index_in_bounds(self.text_idx, n)
        &&& index_in_bounds(self.vm_snapshot_data_idx, n)
        &&& index_in_bounds(self.vm_snapshot_instructions_idx, n)
        &&& index_in_bounds(self.isolate_snapshot_data_idx, n)
        &&& index_in_bounds(self.isolate_snapshot_instructions_idx, n)
    }

    /// The section at a cached index, if any.
    pub open spec fn cached(&self, idx: Option<usize>) -> Option<&SectionInfo> {
        match idx {
            Some(i) => Some(&self.sections@[i as int]),
            None => None,
        }
    }

    fn section_at(&self, idx: Option<usize>) -> (r: Option<&SectionInfo>)
        requires
            index_in_bounds(idx, self.sections@.len()),
        ensures
            r == self.cached(idx),
    {
        match idx {
            Some(i) => Some(&self.sections[i]),
            None => None,
        }
    }

    /// Get a section by name: the first section with exactly that name.
    pub fn section_by_name(&self, name: &str) -> (r: Option<&SectionInfo>)
        ensures
            exists|i: Option<int>| #[trigger] is_first_named(self.sections@, name@, i) && r == match i {
                Some(k) => Some(&self.sections@[k]),
                None => None::<&SectionInfo>,
            },
    {
        let mut i: usize = 0;
        while i < self.sections.len()
            invariant
                i <= self.sections@.len(),
                forall|j: int| 0 <= j < i ==> #[trigger] self.sections@[j].name@ != name@,
            decreases self.sections.len() - i,
        {
            if str_eq(self.sections[i].name.as_str(), name) {
                assert(is_first_named(self.sections@, name@, Some(i as int)));
                return Some(&self.sections[i]);
            }
            i = i + 1;
        }
        assert(is_first_named(self.sections@, name@, None));
        None
    }

    /// Get the .rodata section.
    pub fn rodata(&self) -> (r: Option<&SectionInfo>)
        requires
            index_in_bounds(self.rodata_idx, self.sections@.len()),
        ensures
            r == self.cached(self.rodata_idx),
    {
        self.section_at(self.rodata_idx)
    }

    /// Get the .text section.
    pub fn text(&self) -> (r: Option<&SectionInfo>)
        requires
            index_in_bounds(self.text_idx, self.sections@.len()),
        ensures
            r == self.cached(self.text_idx),
    {
        self.section_at(self.text_idx)
    }

    /// Get the _kDartVmSnapshotData section.
    pub fn vm_snapshot_data(&self) -> (r: Option<&SectionInfo>)
        requires
            index_in_bounds(self.vm_snapshot_data_idx, self.sections@.len()),
        ensures
            r == self.cached(self.vm_snapshot_data_idx),
    {
        self.section_at(self.vm_snapshot_data_idx)
    }

    /// Get the _kDartVmSnapshotInstructions section.
    pub fn vm_snapshot_instructions(&self) -> (r: Option<&SectionInfo>)
        requires
            index_in_bounds(self.vm_snapshot_instructions_idx, self.sections@.len()),
        ensures
            r == self.cached(self.vm_snapshot_instructions_idx),
    {
        self.section_at(self.vm_snapshot_instructions_idx)
    }

    /// Get the _kDartIsolateSnapshotData section.
    pub fn isolate_snapshot_data(&self) -> (r: Option<&SectionInfo>)
        requires
            index_in_bounds(self.isolate_snapshot_data_idx, self.sections@.len()),
        ensures
            r == self.cached(self.isolate_snapshot_data_idx),
    {
        self.section_at(self.isolate_snapshot_data_idx)
    }

    /// Get the _kDartIsolateSnapshotInstructions section.
    pub fn isolate_snapshot_instructions(&self) -> (r: Option<&SectionInfo>)
        requires
            index_in_bounds(self.isolate_snapshot_instructions_idx, self.sections@.len()),
        ensures
            r == self.cached(self.isolate_snapshot_instructions_idx),
    {
        self.section_at(self.isolate_snapshot_instructions_idx)
    }

    /// Build a new ParsedBinary from sections, locating the well-known sections:
    /// each cached index is that of the first section whose name designates it.
    pub fn new(arch: Architecture, sections: Vec<SectionInfo>, entry_point: u64) -> (r: Self)
        ensures
            r.arch == arch,
            r.sections@ == sections@,
            r.entry_point == entry_point,
            r.wf(),
            is_first_section(sections@, SpecialSection::Rodata, r.rodata_idx),
            is_first_section(sections@, SpecialSection::Text, r.text_idx),
            is_first_section(sections@, SpecialSection::VmSnapshotData, r.vm_snapshot_data_idx),
            is_first_section(
                sections@,
                SpecialSection::VmSnapshotInstructions,
                r.vm_snapshot_instructions_idx,
            ),
            is_first_section(sections@, SpecialSection::IsolateSnapshotData, r.isolate_snapshot_data_idx),
            is_first_section(
                sections@,
                SpecialSection::IsolateSnapshotInstructions,
                r.isolate_snapshot_instructions_idx,
            ),
    {
        let rodata_idx = first_section(&sections, SpecialSection::Rodata);
        let text_idx = first_section(&sections, SpecialSection::Text);
        let vm_snapshot_data_idx = first_section(&sections, SpecialSection::VmSnapshotData);
        let vm_snapshot_instructions_idx = first_section(&sections, SpecialSection::VmSnapshotInstructions);
        let isolate_snapshot_data_idx = first_section(&sections, SpecialSection::IsolateSnapshotData);
        let isolate_snapshot_instructions_idx = first_section(
            &sections,
            SpecialSection::IsolateSnapshotInstructions,
        );
        ParsedBinary {
            arch,
            sections,
            entry_point,
            rodata_idx,
            text_idx,
            vm_snapshot_data_idx,
            vm_snapshot_instructions_idx,
            isolate_snapshot_data_idx,
            isolate_snapshot_instructions_idx,
        }
    }
}

/// Whether a section name designates the given well-known section.
fn section_names(kind: &SpecialSection, name: &str) -> (r: bool)
    ensures
        r == names_section(*kind, name@),
{
    match kind {
        SpecialSection::Rodata => str_eq(name, ".rodata"),
        SpecialSection::Text => str_eq(name, ".text"),
        SpecialSection::VmSnapshotData => str_contains(name, "kDartVmSnapshotData") || str_eq(
            name,
            "_kDartVmSnapshotData",
        ),
        SpecialSection::VmSnapshotInstructions => str_contains(name, "kDartVmSnapshotInstructions")
            || str_eq(name, "_kDartVmSnapshotInstructions"),
        SpecialSection::IsolateSnapshotData => str_contains(name, "kDartIsolateSnapshotData")
            || str_eq(name, "_kDartIsolateSnapshotData"),
        SpecialSection::IsolateSnapshotInstructions => str_contains(
            name,
            "kDartIsolateSnapshotInstructions",
        ) || str_eq(name, "_kDartIsolateSnapshotInstructions"),
    }
}

/// The position of the first section designating `kind`.
fn first_section(sections: &Vec<SectionInfo>, kind: SpecialSection) -> (r: Option<usize>)
    ensures
        is_first_section(sections@, kind, r),
{
    let mut i: usize = 0;
    while i < sections.len()
        invariant
            i <= sections@.len(),
            forall|j: int| 0 <= j < i ==> !names_section(kind, #[trigger] sections@[j].name@),
        decreases sections.len() - i,
    {
        if section_names(&kind, sections[i].name.as_str()) {
            return Some(i);
        }
        i = i + 1;
    }
    None
}


/// The model of a section: its name as a character sequence.
pub struct SectionView {
    pub name: Seq<char>,
    pub virtual_addr: u64,
    pub file_offset: u64,
    pub size: u64,
    pub is_executable: bool,
    pub is_writable: bool,
}

impl SectionInfo {
    /// The model of the section.
    pub open spec fn view(self) -> SectionView {
        SectionView {
            name: self.name@,
            virtual_addr: self.virtual_addr,
            file_offset: self.file_offset,
            size: self.size,
            is_executable: self.is_executable,
            is_writable: self.is_writable,
        }
    }
}

/// The models of a list of sections.
pub open spec fn section_views(s: Seq<SectionInfo>) -> Seq<SectionView> {
    s.map_values(|x: SectionInfo| x.view())
}

/// `p` is what `ParsedBinary::new` builds from `arch`, its own sections
/// and `entry`: the well-known sections located among them.
pub open spec fn built_by_new(p: ParsedBinary, arch: Architecture, entry: u64) -> bool {
    &&& p.arch == arch
    &&& p.entry_point == entry
    &&& p.wf()
    &&& is_first_section(p.sections@, SpecialSection::Rodata, p.rodata_idx)
    &&& is_first_section(p.sections@, SpecialSection::Text, p.text_idx)
    &&& is_first_section(p.sections@, SpecialSection::VmSnapshotData, p.vm_snapshot_data_idx)
    &&& is_first_section(p.sections@, SpecialSection::VmSnapshotInstructions, p.vm_snapshot_instructions_idx)
    &&& is_first_section(p.sections@, SpecialSection::IsolateSnapshotData, p.isolate_snapshot_data_idx)
    &&& is_first_section(p.sections@, SpecialSection::IsolateSnapshotInstructions, p.isolate_snapshot_instructions_idx)
}
} // verus!
