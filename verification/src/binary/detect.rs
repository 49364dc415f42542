//! Dart VM version detection: by version string, by SDK hash, by snapshot
//! fingerprint.

use vstd::prelude::*;
use vstd::utf8::{valid_utf8, decode_utf8};
use super::errors::CoreError;
use super::file::{BinaryFile, bytes_occurrences, first_bytes_occurrence, memmem_find, memmem_find_all};
use super::sections::ParsedBinary;
use super::version::{Channel, Confidence, DartVersion, DetectionMethod};
use crate::rx::{regex_captures, regex_captures_result, captures_view, opt_string_view};
use crate::text::{chars_of, owned, parse_unsigned, parse_unsigned_text, str_eq, utf8_lossy, utf8_lossy_of, utf8_text};

verus! {

/// The pattern of a version string: `X.Y.Z (channel)`.
pub open spec fn version_pattern() -> Seq<char> {
    "(\\d+)\\.(\\d+)\\.(\\d+)\\s*\\((stable|beta|dev)\\)"@
}

/// What one place in the file says of the version.
pub enum Outcome {
    /// Nothing here: look further.
    Continue,
    /// Stop looking: no version.
    Abort,
    /// A version string: major, minor, patch, channel and the matched text.
    Found(u32, u32, u32, Channel, Seq<char>),
}

/// The first outcome that is not `Continue`, `o` before `rest`.
pub open spec fn decide(o: Outcome, rest: Outcome) -> Outcome {
    if o is Continue { rest } else { o }
}

/// The channel a version string names.
pub open spec fn channel_of(t: Seq<char>) -> Channel {
    if t == "stable"@ {
        Channel::Stable
    } else if t == "beta"@ {
        Channel::Beta
    } else if t == "dev"@ {
        Channel::Dev
    } else {
        Channel::Unknown
    }
}

/// A capture group's text; an absent group reads as empty.
pub open spec fn group_text(g: Seq<Option<Seq<char>>>, i: int) -> Seq<char> {
    match g[i] {
        Some(t) => t,
        None => Seq::empty(),
    }
}

/// What a match of the version pattern says: its numbers must read as
/// `u32` (else the search stops); with `check_major`, a major version
/// outside 2..=4 is passed over.
pub open spec fn groups_outcome(g: Seq<Option<Seq<char>>>, check_major: bool) -> Outcome {
    if g.len() < 5 {
        Outcome::Abort
    } else {
        match (
            parse_unsigned(group_text(g, 1), u32::MAX as nat),
            parse_unsigned(group_text(g, 2), u32::MAX as nat),
            parse_unsigned(group_text(g, 3), u32::MAX as nat),
        ) {
            (Some(ma), Some(mi), Some(pa)) => if check_major && (ma < 2 || ma > 4) {
                Outcome::Continue
            } else {
                Outcome::Found(ma as u32, mi as u32, pa as u32, channel_of(group_text(g, 4)), group_text(g, 0))
            },
            _ => Outcome::Abort,
        }
    }
}

/// What a search for the version pattern says.
pub open spec fn captures_outcome(c: Option<Option<Seq<Option<Seq<char>>>>>, check_major: bool) -> Outcome {
    match c {
        None => Outcome::Abort,
        Some(None) => Outcome::Continue,
        Some(Some(g)) => groups_outcome(g, check_major),
    }
}

/// Marker `k` of the places where version strings are looked for.
pub open spec fn marker(k: int) -> Seq<u8> {
    if k == 0 {
        seq![0x44u8, 0x61, 0x72, 0x74, 0x2f]
    } else if k == 1 {
        seq![0x64u8, 0x61, 0x72, 0x74, 0x2d, 0x73, 0x64, 0x6b]
    } else if k == 2 {
        seq![0x28u8, 0x73, 0x74, 0x61, 0x62, 0x6c, 0x65, 0x29]
    } else if k == 3 {
        seq![0x28u8, 0x62, 0x65, 0x74, 0x61, 0x29]
    } else if k == 4 {
        seq![0x28u8, 0x64, 0x65, 0x76, 0x29]
    } else {
        seq![0x66u8, 0x6c, 0x75, 0x74, 0x74, 0x65, 0x72]
    }
}

/// The markers: `Dart/`, `dart-sdk`, `(stable)`, `(beta)`, `(dev)`, `flutter`.
fn marker_bytes(k: usize) -> (r: Vec<u8>)
    requires
        k < 6,
    ensures
        r@ == marker(k as int),
        r@.len() > 0,
{
    let r = if k == 0 {
        vec![0x44u8, 0x61, 0x72, 0x74, 0x2f]
    } else if k == 1 {
        vec![0x64u8, 0x61, 0x72, 0x74, 0x2d, 0x73, 0x64, 0x6b]
    } else if k == 2 {
        vec![0x28u8, 0x73, 0x74, 0x61, 0x62, 0x6c, 0x65, 0x29]
    } else if k == 3 {
        vec![0x28u8, 0x62, 0x65, 0x74, 0x61, 0x29]
    } else if k == 4 {
        vec![0x28u8, 0x64, 0x65, 0x76, 0x29]
    } else {
        vec![0x66u8, 0x6c, 0x75, 0x74, 0x74, 0x65, 0x72]
    };
    assert(r@ =~= marker(k as int));
    r
}

/// The window around a marker found at `off`: 32 bytes before it (or from
/// the start) to 256 bytes after its start (or to the end).
pub open spec fn window(data: Seq<u8>, off: int) -> Seq<u8> {
    let start = if off >= 32 { off - 32 } else { 0 };
    let end = if off + 256 < data.len() { off + 256 } else { data.len() as int };
    data.subrange(start, end)
}

/// What the window around a marker says: searched when it is UTF-8.
pub open spec fn window_outcome(data: Seq<u8>, off: int) -> Outcome {
    if valid_utf8(window(data, off)) {
        captures_outcome(regex_captures_result(version_pattern(), decode_utf8(window(data, off))), false)
    } else {
        Outcome::Continue
    }
}

/// The first decisive window among the occurrences of marker `k` from the
/// `j`-th on.
pub open spec fn marker_windows(data: Seq<u8>, k: int, j: int) -> Outcome
    decreases bytes_occurrences(data, marker(k), 0).len() - j,
{
    let occ = bytes_occurrences(data, marker(k), 0);
    if j < 0 || j >= occ.len() {
        Outcome::Continue
    } else {
        decide(window_outcome(data, occ[j]), marker_windows(data, k, j + 1))
    }
}

/// The first decisive window of markers `k` and after.
pub open spec fn marker_phase(data: Seq<u8>, k: int) -> Outcome
    decreases 6 - k,
{
    if k < 0 || k >= 6 {
        Outcome::Continue
    } else {
        decide(marker_windows(data, k, 0), marker_phase(data, k + 1))
    }
}

/// What the chunk of 4096 bytes (and 64 more, where there are) at `start`
/// says, read as UTF-8 with invalid sequences replaced.
pub open spec fn chunk_outcome(data: Seq<u8>, start: int) -> Outcome {
    let end = if start + 4160 < data.len() { start + 4160 } else { data.len() as int };
    captures_outcome(regex_captures_result(version_pattern(), utf8_lossy_of(data.subrange(start, end))), true)
}

/// The first decisive chunk from the one at `start` on, chunks starting
/// every 4096 bytes.
pub open spec fn chunk_phase(data: Seq<u8>, start: int) -> Outcome
    decreases data.len() + 4096 - start,
{
    if start < 0 || start >= data.len() {
        Outcome::Continue
    } else {
        decide(chunk_outcome(data, start), chunk_phase(data, start + 4096))
    }
}

/// What the version-string search says of a file: the marked windows
/// first, then the whole file chunk by chunk.
pub open spec fn version_string_outcome(data: Seq<u8>) -> Outcome {
    decide(marker_phase(data, 0), chunk_phase(data, 0))
}

/// `d` is the version a version string gives.
pub open spec fn found_version(d: DartVersion, ma: u32, mi: u32, pa: u32, ch: Channel, raw: Seq<char>) -> bool {
    &&& d.major == ma && d.minor == mi && d.patch == pa && d.channel == ch
    &&& d.sdk_hash is None
    &&& d.detection_method == DetectionMethod::VersionString
    &&& d.confidence == Confidence::High
    &&& d.raw_string matches Some(t) && t@ == raw
}

/// What a search for the version pattern in `text` says, as an executable
/// outcome: `Err(true)` to look further, `Err(false)` to stop.
fn search_text(text: &str, check_major: bool) -> (r: Result<DartVersion, bool>)
    ensures
        match captures_outcome(regex_captures_result(version_pattern(), text@), check_major) {
            Outcome::Continue => r == Err::<DartVersion, bool>(true),
            Outcome::Abort => r == Err::<DartVersion, bool>(false),
            Outcome::Found(ma, mi, pa, ch, raw) => r matches Ok(d) && found_version(d, ma, mi, pa, ch, raw),
        },
{
    let pattern = "(\\d+)\\.(\\d+)\\.(\\d+)\\s*\\((stable|beta|dev)\\)";
    assert(pattern@ == version_pattern());
    let c = regex_captures(pattern, text);
    let ghost cv = captures_view(c);
    match c {
        None => Err(false),
        Some(None) => Err(true),
        Some(Some(groups)) => {
            let ghost g = groups@.map_values(|x: Option<String>| opt_string_view(x));
            assert(cv == Some(Some(g)));
            if groups.len() < 5 {
                return Err(false);
            }
            let t0 = group_string(&groups, 0);
            let t1 = group_string(&groups, 1);
            let t2 = group_string(&groups, 2);
            let t3 = group_string(&groups, 3);
            let t4 = group_string(&groups, 4);
            let ma = parse_unsigned_text(t1.as_str(), 0xffff_ffff);
            let mi = parse_unsigned_text(t2.as_str(), 0xffff_ffff);
            let pa = parse_unsigned_text(t3.as_str(), 0xffff_ffff);
            match (ma, mi, pa) {
                (Some(ma), Some(mi), Some(pa)) => {
                    if check_major && (ma < 2 || ma > 4) {
                        return Err(true);
                    }
                    let channel = if str_eq(t4.as_str(), "stable") {
                        Channel::Stable
                    } else if str_eq(t4.as_str(), "beta") {
                        Channel::Beta
                    } else if str_eq(t4.as_str(), "dev") {
                        Channel::Dev
                    } else {
                        Channel::Unknown
                    };
                    Ok(DartVersion {
                        major: ma as u32,
                        minor: mi as u32,
                        patch: pa as u32,
                        channel: channel,
                        sdk_hash: None,
                        detection_method: DetectionMethod::VersionString,
                        confidence: Confidence::High,
                        raw_string: Some(t0),
                    })
                },
                _ => Err(false),
            }
        },
    }
}

/// The text of capture group `i`, empty where the group took no part.
fn group_string(groups: &Vec<Option<String>>, i: usize) -> (r: String)
    requires
        i < groups@.len(),
    ensures
        r@ == group_text(groups@.map_values(|x: Option<String>| opt_string_view(x)), i as int),
{
    match &groups[i] {
        Some(t) => t.clone(),
        None => String::new(),
    }
}

proof fn lemma_marker_windows_end(data: Seq<u8>, k: int, j: int)
    requires
        j >= bytes_occurrences(data, marker(k), 0).len(),
    ensures
        marker_windows(data, k, j) is Continue,
{
}

/// Search for a version string such as `3.2.0 (stable)`: first around the
/// places marked by `Dart/`, `dart-sdk`, the channel names or `flutter`,
/// then through the whole file, where a major version outside 2..=4 is
/// passed over. Numbers that do not fit a `u32` end the search.
pub fn detect_by_version_string(file: &BinaryFile) -> (r: Option<DartVersion>)
    ensures
        match version_string_outcome(file.bytes()) {
            Outcome::Found(ma, mi, pa, ch, raw) => r matches Some(d) && found_version(d, ma, mi, pa, ch, raw),
            _ => r is None,
        },
{
    let data = file.data();
    let n = data.len();
    let mut k: usize = 0;
    while k < 6
        invariant
            data@ == file.bytes(),
            n == data@.len(),
            k <= 6,
            version_string_outcome(data@) == decide(marker_phase(data@, k as int), chunk_phase(data@, 0)),
        decreases 6 - k,
    {
        let m = marker_bytes(k);
        let occ = memmem_find_all(data, m.as_slice());
        let ghost occs = bytes_occurrences(data@, marker(k as int), 0);
        let mut j: usize = 0;
        while j < occ.len()
            invariant
                data@ == file.bytes(),
                n == data@.len(),
                k < 6,
                m@ == marker(k as int),
                occs == bytes_occurrences(data@, marker(k as int), 0),
                occ@.len() == occs.len(),
                forall|q: int| 0 <= q < occ@.len() ==> occ@[q] as int == #[trigger] occs[q],
                j <= occ@.len(),
                version_string_outcome(data@) == decide(
                    decide(marker_windows(data@, k as int, j as int), marker_phase(data@, k + 1)),
                    chunk_phase(data@, 0),
                ),
            decreases occ@.len() - j,
        {
            let off = occ[j];
            assert(off as int == occs[j as int]);
            proof {
                crate::binary::file::lemma_occurrences_in_range(data@, marker(k as int), 0, j as int);
            }
            let start = if off >= 32 { off - 32 } else { 0 };
            let end = if n - off > 256 { off + 256 } else { n };
            let w = vstd::slice::slice_subrange(data, start, end);
            assert(w@ == window(data@, off as int));
            match utf8_text(w) {
                Some(text) => {
                    match search_text(text.as_str(), false) {
                        Ok(d) => return Some(d),
                        Err(false) => return None,
                        Err(true) => {},
                    }
                },
                None => {},
            }
            j = j + 1;
        }
        proof {
            lemma_marker_windows_end(data@, k as int, j as int);
        }
        k = k + 1;
    }
    let mut start: usize = 0;
    loop
        invariant
            data@ == file.bytes(),
            n == data@.len(),
            start <= n || start == 0,
            version_string_outcome(data@) == chunk_phase(data@, start as int),
        decreases n - start,
    {
        if start >= n {
            return None;
        }
        let end = if n - start > 4160 { start + 4160 } else { n };
        let text = utf8_lossy(vstd::slice::slice_subrange(data, start, end));
        match search_text(text.as_str(), true) {
            Ok(d) => return Some(d),
            Err(false) => return None,
            Err(true) => {},
        }
        if n - start <= 4096 {
            assert(chunk_phase(data@, start + 4096) is Continue);
            return None;
        }
        start = start + 4096;
    }
}

/// `h` is made of ASCII hexadecimal digits.
pub open spec fn all_hex(h: Seq<char>) -> bool {
    forall|i: int| 0 <= i < h.len() ==> ('0' <= #[trigger] h[i] <= '9' || 'a' <= h[i] <= 'f' || 'A' <= h[i] <= 'F')
}

/// The marker `dart-sdk-hash:`.
pub open spec fn hash_marker() -> Seq<u8> {
    seq![0x64u8, 0x61, 0x72, 0x74, 0x2d, 0x73, 0x64, 0x6b, 0x2d, 0x68, 0x61, 0x73, 0x68, 0x3a]
}

/// The SDK hash after the marker found at `off`, if the 40 bytes after the
/// marker are in the file and are ASCII hexadecimal digits.
pub open spec fn hash_at(data: Seq<u8>, off: int) -> Option<Seq<char>> {
    let s = off + 14;
    if s + 40 <= data.len() && valid_utf8(data.subrange(s, s + 40)) && all_hex(decode_utf8(data.subrange(s, s + 40))) {
        Some(decode_utf8(data.subrange(s, s + 40)))
    } else {
        None
    }
}

/// The first SDK hash among the marker occurrences from the `j`-th on.
pub open spec fn first_hash(data: Seq<u8>, j: int) -> Option<Seq<char>>
    decreases bytes_occurrences(data, hash_marker(), 0).len() - j,
{
    let occ = bytes_occurrences(data, hash_marker(), 0);
    if j < 0 || j >= occ.len() {
        None
    } else {
        match hash_at(data, occ[j]) {
            Some(h) => Some(h),
            None => first_hash(data, j + 1),
        }
    }
}

/// Known SDK hashes: none are known yet, so no hash maps to a version.
pub fn lookup_sdk_hash(_hash: &str) -> (r: Option<DartVersion>)
    ensures
        r is None,
{
    None
}

/// Whether every character is an ASCII hexadecimal digit.
fn is_hex_text(t: &str) -> (r: bool)
    ensures
        r == all_hex(t@),
{
    let cs = chars_of(t);
    let mut i: usize = 0;
    while i < cs.len()
        invariant
            cs@ == t@,
            i <= cs@.len(),
            forall|q: int| 0 <= q < i ==> ('0' <= #[trigger] t@[q] <= '9' || 'a' <= t@[q] <= 'f' || 'A' <= t@[q] <= 'F'),
        decreases cs@.len() - i,
    {
        let c = cs[i];
        if !(('0' <= c && c <= '9') || ('a' <= c && c <= 'f') || ('A' <= c && c <= 'F')) {
            return false;
        }
        i = i + 1;
    }
    true
}

/// Search for `dart-sdk-hash:` followed by 40 hexadecimal digits. A known
/// hash gives its version; an unknown one gives 3.0.0 with low confidence.
pub fn detect_by_sdk_hash(file: &BinaryFile) -> (r: Option<DartVersion>)
    ensures
        match first_hash(file.bytes(), 0) {
            Some(h) => r matches Some(d) && d.major == 3 && d.minor == 0 && d.patch == 0
                && d.channel == Channel::Unknown && (d.sdk_hash matches Some(t) && t@ == h)
                && d.detection_method == DetectionMethod::SdkHash && d.confidence == Confidence::Low
                && d.raw_string is None,
            None => r is None,
        },
{
    let data = file.data();
    let n = data.len();
    let m: Vec<u8> = vec![0x64u8, 0x61, 0x72, 0x74, 0x2d, 0x73, 0x64, 0x6b, 0x2d, 0x68, 0x61, 0x73, 0x68, 0x3a];
    assert(m@ =~= hash_marker());
    let occ = memmem_find_all(data, m.as_slice());
    let ghost occs = bytes_occurrences(data@, hash_marker(), 0);
    let mut j: usize = 0;
    while j < occ.len()
        invariant
            data@ == file.bytes(),
            n == data@.len(),
            occs == bytes_occurrences(data@, hash_marker(), 0),
            occ@.len() == occs.len(),
            forall|q: int| 0 <= q < occ@.len() ==> occ@[q] as int == #[trigger] occs[q],
            j <= occ@.len(),
            first_hash(data@, 0) == first_hash(data@, j as int),
        decreases occ@.len() - j,
    {
        let off = occ[j];
        assert(off as int == occs[j as int]);
        proof {
            crate::binary::file::lemma_occurrences_in_range(data@, hash_marker(), 0, j as int);
        }
        if n - off >= 54 {
            let s = off + 14;
            match utf8_text(vstd::slice::slice_subrange(data, s, s + 40)) {
                Some(h) => {
                    if is_hex_text(h.as_str()) {
                        match lookup_sdk_hash(h.as_str()) {
                            Some(v) => return Some(v),
                            None => {},
                        }
                        return Some(DartVersion {
                            major: 3,
                            minor: 0,
                            patch: 0,
                            channel: Channel::Unknown,
                            sdk_hash: Some(h),
                            detection_method: DetectionMethod::SdkHash,
                            confidence: Confidence::Low,
                            raw_string: None,
                        });
                    }
                },
                None => {},
            }
        }
        j = j + 1;
    }
    None
}

/// The bytes of the snapshot magic and of the feature names the
/// fingerprint looks for.
pub open spec fn snapshot_magic() -> Seq<u8> {
    seq![0xf5u8, 0xf5, 0xdc, 0xdc]
}

/// `null-safety`
pub open spec fn null_safety_bytes() -> Seq<u8> {
    seq![0x6eu8, 0x75, 0x6c, 0x6c, 0x2d, 0x73, 0x61, 0x66, 0x65, 0x74, 0x79]
}

/// `records`
pub open spec fn records_bytes() -> Seq<u8> {
    seq![0x72u8, 0x65, 0x63, 0x6f, 0x72, 0x64, 0x73]
}

/// `sealed-class`
pub open spec fn sealed_bytes() -> Seq<u8> {
    seq![0x73u8, 0x65, 0x61, 0x6c, 0x65, 0x64, 0x2d, 0x63, 0x6c, 0x61, 0x73, 0x73]
}

/// Whether `needle` occurs in `data`.
pub open spec fn has_bytes(data: Seq<u8>, needle: Seq<u8>) -> bool {
    first_bytes_occurrence(data, needle, 0) is Some
}

/// The version a snapshot fingerprint suggests: with the snapshot magic
/// present, 3.0.0 where records or sealed classes are mentioned, else
/// 2.19.0 where null safety is.
pub open spec fn fingerprint_version(data: Seq<u8>) -> Option<(u32, u32)> {
    if has_bytes(data, snapshot_magic()) {
        if has_bytes(data, records_bytes()) || has_bytes(data, sealed_bytes()) {
            Some((3, 0))
        } else if has_bytes(data, null_safety_bytes()) {
            Some((2, 19))
        } else {
            None
        }
    } else {
        None
    }
}

/// Guess the version from the snapshot magic and the feature names in the
/// file, with medium confidence.
pub fn detect_by_fingerprint(file: &BinaryFile) -> (r: Option<DartVersion>)
    ensures
        match fingerprint_version(file.bytes()) {
            Some((ma, mi)) => r matches Some(d) && d.major == ma && d.minor == mi && d.patch == 0
                && d.channel == Channel::Unknown && d.sdk_hash is None
                && d.detection_method == DetectionMethod::StructFingerprint && d.confidence == Confidence::Medium
                && d.raw_string is None,
            None => r is None,
        },
{
    let data = file.data();
    let magic: Vec<u8> = vec![0xf5u8, 0xf5, 0xdc, 0xdc];
    assert(magic@ =~= snapshot_magic());
    if memmem_find(data, magic.as_slice()).is_none() {
        return None;
    }
    let ns: Vec<u8> = vec![0x6eu8, 0x75, 0x6c, 0x6c, 0x2d, 0x73, 0x61, 0x66, 0x65, 0x74, 0x79];
    let rec: Vec<u8> = vec![0x72u8, 0x65, 0x63, 0x6f, 0x72, 0x64, 0x73];
    let sealed: Vec<u8> = vec![0x73u8, 0x65, 0x61, 0x6c, 0x65, 0x64, 0x2d, 0x63, 0x6c, 0x61, 0x73, 0x73];
    assert(ns@ =~= null_safety_bytes());
    assert(rec@ =~= records_bytes());
    assert(sealed@ =~= sealed_bytes());
    let has_null_safety = memmem_find(data, ns.as_slice()).is_some();
    let has_records = memmem_find(data, rec.as_slice()).is_some();
    let has_sealed = memmem_find(data, sealed.as_slice()).is_some();
    if has_records || has_sealed {
        Some(DartVersion {
            major: 3,
            minor: 0,
            patch: 0,
            channel: Channel::Unknown,
            sdk_hash: None,
            detection_method: DetectionMethod::StructFingerprint,
            confidence: Confidence::Medium,
            raw_string: None,
        })
    } else if has_null_safety {
        Some(DartVersion {
            major: 2,
            minor: 19,
            patch: 0,
            channel: Channel::Unknown,
            sdk_hash: None,
            detection_method: DetectionMethod::StructFingerprint,
            confidence: Confidence::Medium,
            raw_string: None,
        })
    } else {
        None
    }
}

/// Stub comparison needs known stub patterns for each version; none are
/// known, so it never decides.
pub fn detect_by_stub_comparison(_file: &BinaryFile) -> (r: Option<DartVersion>)
    ensures
        r is None,
{
    None
}

/// The version an SDK hash gives when no table knows it: 3.0.0, low
/// confidence, with the hash.
pub open spec fn hash_version(d: DartVersion, h: Seq<char>) -> bool {
    &&& d.major == 3 && d.minor == 0 && d.patch == 0
    &&& d.channel == Channel::Unknown
    &&& (d.sdk_hash matches Some(t) && t@ == h)
    &&& d.detection_method == DetectionMethod::SdkHash
    &&& d.confidence == Confidence::Low
    &&& d.raw_string is None
}

/// The version a fingerprint gives: its major and minor, patch 0, medium
/// confidence.
pub open spec fn fingerprinted_version(d: DartVersion, ma: u32, mi: u32) -> bool {
    &&& d.major == ma && d.minor == mi && d.patch == 0
    &&& d.channel == Channel::Unknown
    &&& d.sdk_hash is None
    &&& d.detection_method == DetectionMethod::StructFingerprint
    &&& d.confidence == Confidence::Medium
    &&& d.raw_string is None
}

/// The outcome of detecting the version of a binary's bytes: by version
/// string, else by SDK hash, else by fingerprint; `VersionNotDetected` when
/// none decides.
pub open spec fn detected(data: Seq<u8>, r: Result<DartVersion, CoreError>) -> bool {
    match version_string_outcome(data) {
        Outcome::Found(ma, mi, pa, ch, raw) => r matches Ok(d) && found_version(d, ma, mi, pa, ch, raw),
        _ => match first_hash(data, 0) {
            Some(h) => r matches Ok(d) && hash_version(d, h),
            None => match fingerprint_version(data) {
                Some((ma, mi)) => r matches Ok(d) && fingerprinted_version(d, ma, mi),
                None => r matches Err(CoreError::VersionNotDetected),
            },
        },
    }
}

/// Detect the Dart VM version: by version string, else by SDK hash, else by
/// fingerprint, else by stub comparison; `VersionNotDetected` when none
/// decides.
pub fn detect_dart_version(file: &BinaryFile, _parsed: &ParsedBinary) -> (r: Result<DartVersion, CoreError>)
    ensures
        detected(file.bytes(), r),
{
    if let Some(v) = detect_by_version_string(file) {
        return Ok(v);
    }
    if let Some(v) = detect_by_sdk_hash(file) {
        return Ok(v);
    }
    if let Some(v) = detect_by_fingerprint(file) {
        return Ok(v);
    }
    if let Some(v) = detect_by_stub_comparison(file) {
        return Ok(v);
    }
    Err(CoreError::VersionNotDetected)
}

} // verus!
