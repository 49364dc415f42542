//! The high-level handle on one binary: the file, its sections, its Dart
//! version and, once read, its snapshot.

use vstd::prelude::*;
use crate::binary::{parse_binary, detect_version, parsed};
use crate::binary::detect::detected;
use crate::binary::file::format_of_magic;
use crate::binary::errors::CoreError;
use crate::binary::file::BinaryFile;
use crate::binary::sections::ParsedBinary;
use crate::binary::version::DartVersion;
use crate::snapshot::{DartString, ParsedSnapshot};
use crate::text::owned;

verus! {

/// A decompilation context.
pub struct DartDecContext {
    pub file: BinaryFile,
    pub parsed: ParsedBinary,
    pub version: DartVersion,
    pub snapshot: Option<ParsedSnapshot>,
}

/// The values of a list of recovered strings.
pub open spec fn string_values(s: Seq<DartString>) -> Seq<Seq<char>> {
    s.map_values(|d: DartString| d.value@)
}

impl DartDecContext {
    /// A context for a binary given by its bytes: the file read, its
    /// sections parsed and its version detected; no snapshot yet. The first
    /// of these steps to fail gives the error.
    pub fn from_bytes(data: Vec<u8>) -> (r: Result<DartDecContext, CoreError>)
        ensures
            data@.len() < 4 ==> (r matches Err(CoreError::FileTooSmall { expected, actual })
                && expected == 4 && actual == data@.len()),
            data@.len() >= 4 && format_of_magic(data@.take(4)) is None ==> (r matches Err(
                CoreError::UnknownFormat { magic },
            ) && magic@ == data@.take(4)),
            format_of_magic(data@.take(4)) matches Some(fmt) ==> data@.len() >= 4 ==> exists|p: Result<ParsedBinary, CoreError>| {
                &&& #[trigger] parsed(fmt, data@, p)
                &&& match p {
                    Err(e) => r == Err::<DartDecContext, CoreError>(e),
                    Ok(pb) => exists|v: Result<DartVersion, CoreError>| {
                        &&& #[trigger] detected(data@, v)
                        &&& match v {
                            Err(e) => r == Err::<DartDecContext, CoreError>(e),
                            Ok(ver) => r matches Ok(c) && c.file.wf() && c.file.bytes() == data@
                                && c.file.format_spec() == fmt && c.parsed == pb && c.version == ver
                                && c.snapshot is None,
                        }
                    },
                }
            },
    {
        let ghost bytes = data@;
        let file = match BinaryFile::from_bytes(data) {
            Ok(f) => f,
            Err(e) => return Err(e),
        };
        let pr = parse_binary(&file);
        let ghost pg = pr;
        let vr = match pr {
            Ok(p) => {
                let vr = detect_version(&file, &p);
                match vr {
                    Ok(v) => {
                        proof {
                            assert(parsed(file.format_spec(), bytes, pg) && detected(bytes, Ok::<DartVersion, CoreError>(v)));
                        }
                        return Ok(DartDecContext { file, parsed: p, version: v, snapshot: None });
                    },
                    Err(e) => {
                        proof {
                            assert(parsed(file.format_spec(), bytes, pg) && detected(bytes, Err::<DartVersion, CoreError>(e)));
                        }
                        return Err(e);
                    },
                }
            },
            Err(e) => e,
        };
        proof {
            assert(parsed(file.format_spec(), bytes, pg));
        }
        Err(vr)
    }

    /// Get all strings of the snapshot, or `Snapshot not parsed`.
    pub fn get_strings(&self) -> (r: Result<Vec<String>, String>)
        ensures
            self.snapshot is None ==> (r matches Err(e) && e@ == "Snapshot not parsed"@),
            self.snapshot matches Some(s) ==> (r matches Ok(v)
                && crate::text::string_views(v@) == string_values(s.strings.strings@)),
    {
        match &self.snapshot {
            None => Err(owned("Snapshot not parsed")),
            Some(s) => {
                let ss = &s.strings.strings;
                let mut v: Vec<String> = Vec::new();
                let mut i: usize = 0;
                while i < ss.len()
                    invariant
                        i <= ss@.len(),
                        crate::text::string_views(v@) == string_values(ss@.take(i as int)),
                    decreases ss@.len() - i,
                {
                    let ghost before = v@;
                    let t = ss[i].value.clone();
                    v.push(t);
                    assert(v@ == before.push(t));
                    assert(crate::text::string_views(v@) =~= crate::text::string_views(before).push(t@));
                    assert(ss@.take(i + 1) =~= ss@.take(i as int).push(ss@[i as int]));
                    assert(string_values(ss@.take(i + 1)) =~= string_values(ss@.take(i as int)).push(ss@[i as int].value@));
                    assert(crate::text::string_views(v@) =~= string_values(ss@.take(i + 1)));
                    i = i + 1;
                }
                assert(ss@.take(i as int) =~= ss@);
                Ok(v)
            },
        }
    }

    /// Decompile a function given by class and method name: once the
    /// snapshot is read, the fixed text `// Decompilation placeholder`,
    /// whatever the names; before, `Snapshot not parsed`.
    pub fn decompile_function(&self, _class_name: &str, _func_name: &str) -> (r: Result<String, String>)
        ensures
            self.snapshot is None ==> (r matches Err(e) && e@ == "Snapshot not parsed"@),
            self.snapshot is Some ==> (r matches Ok(t) && t@ == "// Decompilation placeholder"@),
    {
        match &self.snapshot {
            None => Err(owned("Snapshot not parsed")),
            Some(_) => Ok(owned("// Decompilation placeholder")),
        }
    }
}

} // verus!
