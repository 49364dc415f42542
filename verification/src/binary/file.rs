//! A binary file held in memory: its format, its SHA-256 digest, and
//! bounded access to its bytes.

use vstd::prelude::*;
use super::BinaryFormat;
use super::errors::CoreError;
use sha2::Digest;

verus! {

/// `needle` occurs in `hay` at position `i`.
pub open spec fn bytes_occur_at(hay: Seq<u8>, needle: Seq<u8>, i: int) -> bool {
    0 <= i && i + needle.len() <= hay.len() && hay.subrange(i, i + needle.len()) == needle
}

/// The position of the first occurrence of `needle` in `hay` at or after
/// `from`, if any.
pub open spec fn first_bytes_occurrence(hay: Seq<u8>, needle: Seq<u8>, from: int) -> Option<int>
    decreases hay.len() + 1 - from,
{
    if from < 0 || from + needle.len() > hay.len() {
        None
    } else if bytes_occur_at(hay, needle, from) {
        Some(from)
    } else {
        first_bytes_occurrence(hay, needle, from + 1)
    }
}

/// A found occurrence lies at or after `from` and within `hay`.
pub proof fn lemma_first_bytes_occurrence(hay: Seq<u8>, needle: Seq<u8>, from: int)
    ensures
        first_bytes_occurrence(hay, needle, from) matches Some(i) ==> from <= i && i + needle.len() <= hay.len()
            && bytes_occur_at(hay, needle, i),
    decreases hay.len() + 1 - from,
{
    if from < 0 || from + needle.len() > hay.len() {
    } else if bytes_occur_at(hay, needle, from) {
    } else {
        lemma_first_bytes_occurrence(hay, needle, from + 1);
    }
}

/// Each occurrence lies within `hay`, the needle fitting after it.
pub proof fn lemma_occurrences_in_range(hay: Seq<u8>, needle: Seq<u8>, from: int, j: int)
    requires
        0 <= j < bytes_occurrences(hay, needle, from).len(),
    ensures
        0 <= bytes_occurrences(hay, needle, from)[j],
        bytes_occurrences(hay, needle, from)[j] + needle.len() <= hay.len(),
        needle.len() > 0,
    decreases hay.len() + 1 - from,
{
    lemma_first_bytes_occurrence(hay, needle, from);
    let i = first_bytes_occurrence(hay, needle, from)->Some_0;
    if j > 0 {
        lemma_occurrences_in_range(hay, needle, i + needle.len(), j - 1);
    }
}

/// The successive non-overlapping occurrences of a non-empty `needle` in
/// `hay` from `from` on, each search resuming after the previous match.
pub open spec fn bytes_occurrences(hay: Seq<u8>, needle: Seq<u8>, from: int) -> Seq<int>
    decreases hay.len() + 1 - from,
{
    if needle.len() == 0 || from < 0 {
        Seq::empty()
    } else {
        match first_bytes_occurrence(hay, needle, from) {
            Some(i) => {
                proof {
                    lemma_first_bytes_occurrence(hay, needle, from);
                }
                seq![i] + bytes_occurrences(hay, needle, i + needle.len())
            },
            None => Seq::empty(),
        }
    }
}

/// The successive occurrences from `from` on: each is an occurrence at or
/// after `from`; each next one is the first at or after the end of the one
/// before, so they increase and do not overlap; the first is the first
/// occurrence from `from`, and none follows the last.
pub proof fn lemma_occurrences(hay: Seq<u8>, needle: Seq<u8>, from: int)
    requires
        needle.len() > 0,
        from >= 0,
    ensures
        ({
            let occ = bytes_occurrences(hay, needle, from);
            &&& forall|k: int| 0 <= k < occ.len() ==> from <= #[trigger] occ[k] && bytes_occur_at(hay, needle, occ[k])
            &&& forall|k: int| 0 <= k < occ.len() - 1 ==> #[trigger] occ[k] + needle.len() <= occ[k + 1]
                && first_bytes_occurrence(hay, needle, occ[k] + needle.len()) == Some(occ[k + 1])
            &&& (occ.len() > 0 <==> first_bytes_occurrence(hay, needle, from) is Some)
            &&& occ.len() > 0 ==> first_bytes_occurrence(hay, needle, from) == Some(occ[0])
            &&& occ.len() > 0 ==> first_bytes_occurrence(hay, needle, occ.last() + needle.len()) is None
        }),
    decreases hay.len() + 1 - from,
{
    lemma_first_bytes_occurrence(hay, needle, from);
    let occ = bytes_occurrences(hay, needle, from);
    match first_bytes_occurrence(hay, needle, from) {
        Some(i) => {
            let next = i + needle.len();
            let rest = bytes_occurrences(hay, needle, next);
            lemma_occurrences(hay, needle, next);
            assert(occ == seq![i] + rest);
            assert forall|k: int| 0 <= k < occ.len() implies from <= #[trigger] occ[k] && bytes_occur_at(hay, needle, occ[k]) by {
                if k > 0 {
                    assert(occ[k] == rest[k - 1]);
                }
            }
            assert forall|k: int| 0 <= k < occ.len() - 1 implies #[trigger] occ[k] + needle.len() <= occ[k + 1]
                && first_bytes_occurrence(hay, needle, occ[k] + needle.len()) == Some(occ[k + 1]) by {
                assert(occ[k + 1] == rest[k]);
                if k > 0 {
                    assert(occ[k] == rest[k - 1]);
                }
            }
            if rest.len() > 0 {
                assert(occ.last() == rest.last());
            }
        },
        None => {},
    }
}

/// Every byte pattern's occurrences, as `find_all_patterns` lists them:
/// each is an occurrence, they increase without overlapping, each next one
/// is the first after the one before, none is left after the last, and the
/// first is the one `find_pattern` gives.
pub proof fn law_find_all_patterns(hay: Seq<u8>, needle: Seq<u8>)
    requires
        needle.len() > 0,
    ensures
        ({
            let occ = bytes_occurrences(hay, needle, 0);
            &&& forall|k: int| 0 <= k < occ.len() ==> bytes_occur_at(hay, needle, #[trigger] occ[k])
            &&& forall|k: int, l: int| 0 <= k < l < occ.len() ==> #[trigger] occ[k] + needle.len() <= #[trigger] occ[l]
            &&& forall|k: int| 0 <= k < occ.len() - 1 ==>
                first_bytes_occurrence(hay, needle, #[trigger] occ[k] + needle.len()) == Some(occ[k + 1])
            &&& occ.len() > 0 ==> first_bytes_occurrence(hay, needle, occ.last() + needle.len()) is None
            &&& match first_bytes_occurrence(hay, needle, 0) {
                Some(i) => occ.len() > 0 && occ[0] == i,
                None => occ.len() == 0,
            }
        }),
{
    lemma_occurrences(hay, needle, 0);
    let occ = bytes_occurrences(hay, needle, 0);
    assert forall|k: int, l: int| 0 <= k < l < occ.len() implies #[trigger] occ[k] + needle.len() <= #[trigger] occ[l] by {
        lemma_increasing(occ, needle.len() as int, k, l);
    }
}

/// In a list where each next element lies at least `d` after the one
/// before, with `d` positive, each later element lies at least `d` after
/// each earlier one.
proof fn lemma_increasing(occ: Seq<int>, d: int, k: int, l: int)
    requires
        d > 0,
        0 <= k < l < occ.len(),
        forall|j: int| 0 <= j < occ.len() - 1 ==> #[trigger] occ[j] + d <= occ[j + 1],
    ensures
        occ[k] + d <= occ[l],
    decreases l - k,
{
    if l > k + 1 {
        lemma_increasing(occ, d, k, l - 1);
        assert(occ[l - 1] + d <= occ[l]);
    }
}

/// The lowercase hexadecimal digit of a nibble.
pub open spec fn hex_digit(n: u8) -> char {
    if n < 10 { (('0' as u8) + n) as char } else { (('a' as u8) + n - 10) as char }
}

/// Bytes as lowercase hexadecimal text, two digits per byte.
pub open spec fn hex_text(b: Seq<u8>) -> Seq<char>
    decreases b.len(),
{
    if b.len() == 0 {
        Seq::empty()
    } else {
        hex_text(b.drop_last()) + seq![hex_digit(b.last() / 16), hex_digit(b.last() % 16)]
    }
}

/// The SHA-256 digest of some bytes.
pub uninterp spec fn sha256_of(data: Seq<u8>) -> Seq<u8>;

/// `sha2::Sha256::digest`: the 32-byte SHA-256 digest of `data`. The
/// digest is named; its computation is not restated.
#[verifier::external_body]
fn sha256_digest(data: &[u8]) -> (r: Vec<u8>)
    ensures
        r@ == sha256_of(data@),
        r@.len() == 32,
{
    sha2::Sha256::digest(data).to_vec()
}

/// `hex::encode`: each byte as two lowercase hexadecimal digits.
#[verifier::external_body]
fn hex_encode(data: &[u8]) -> (r: String)
    ensures
        r@ == hex_text(data@),
{
    hex::encode(data)
}

/// `memchr::memmem::find`: the position of the first occurrence of
/// `needle` in `hay`.
#[verifier::external_body]
pub(crate) fn memmem_find(hay: &[u8], needle: &[u8]) -> (r: Option<usize>)
    ensures
        match first_bytes_occurrence(hay@, needle@, 0) {
            Some(i) => r == Some(i as usize),
            None => r is None,
        },
{
    memchr::memmem::find(hay, needle)
}

/// `memchr::memmem::find_iter`: the positions of the successive
/// non-overlapping occurrences of a non-empty `needle` in `hay`.
#[verifier::external_body]
pub(crate) fn memmem_find_all(hay: &[u8], needle: &[u8]) -> (r: Vec<usize>)
    requires
        needle@.len() > 0,
    ensures
        r@.len() == bytes_occurrences(hay@, needle@, 0).len(),
        forall|k: int| 0 <= k < r@.len() ==> r@[k] as int == #[trigger] bytes_occurrences(hay@, needle@, 0)[k],
{
    memchr::memmem::find_iter(hay, needle).collect()
}

/// The format that the first four bytes of a file announce, if any: ELF,
/// Mach-O (either byte order, 32 or 64 bits) or PE (`MZ`).
pub open spec fn format_of_magic(m: Seq<u8>) -> Option<BinaryFormat> {
    if m == seq![0x7fu8, 0x45u8, 0x4cu8, 0x46u8] {
        Some(BinaryFormat::Elf)
    } else if m == seq![0xfeu8, 0xedu8, 0xfau8, 0xceu8] || m == seq![0xceu8, 0xfau8, 0xedu8, 0xfeu8]
        || m == seq![0xfeu8, 0xedu8, 0xfau8, 0xcfu8] || m == seq![0xcfu8, 0xfau8, 0xedu8, 0xfeu8] {
        Some(BinaryFormat::MachO)
    } else if m[0] == 0x4du8 && m[1] == 0x5au8 {
        Some(BinaryFormat::Pe)
    } else {
        None
    }
}

/// A binary file in memory, with its detected format and its digest.
pub struct BinaryFile {
    data: Vec<u8>,
    format: BinaryFormat,
    file_size: usize,
    sha256: String,
}

impl BinaryFile {
    /// The file's bytes.
    pub closed spec fn bytes(&self) -> Seq<u8> {
        self.data@
    }

    /// The detected format.
    pub closed spec fn format_spec(&self) -> BinaryFormat {
        self.format
    }

    /// The size is the number of bytes, at least four, whose magic gives the
    /// format, and the digest is that of the bytes.
    pub closed spec fn wf(&self) -> bool {
        &&& self.file_size == self.data@.len()
        &&& self.data@.len() >= 4
        &&& format_of_magic(self.data@.take(4)) == Some(self.format)
        &&& self.sha256@ == hex_text(sha256_of(self.data@))
    }

    /// Takes a file's bytes, detecting its format from its magic bytes and
    /// computing its SHA-256 digest.
    pub fn from_bytes(data: Vec<u8>) -> (r: Result<BinaryFile, CoreError>)
        ensures
            data@.len() < 4 ==> (r matches Err(CoreError::FileTooSmall { expected, actual })
                && expected == 4 && actual == data@.len()),
            data@.len() >= 4 && format_of_magic(data@.take(4)) is None ==> (r matches Err(
                CoreError::UnknownFormat { magic },
            ) && magic@ == data@.take(4)),
            data@.len() >= 4 && format_of_magic(data@.take(4)) is Some ==> (r matches Ok(f) && f.wf()
                && f.bytes() == data@ && Some(f.format_spec()) == format_of_magic(data@.take(4))),
    {
        let n = data.len();
        if n < 4 {
            return Err(CoreError::FileTooSmall { expected: 4, actual: n });
        }
        let magic: [u8; 4] = [data[0], data[1], data[2], data[3]];
        let ghost m = data@.take(4);
        assert(m =~= seq![data@[0], data@[1], data@[2], data@[3]]);
        assert(magic@ =~= m);
        let (a, b, c, d) = (data[0], data[1], data[2], data[3]);
        let format = if a == 0x7f && b == 0x45 && c == 0x4c && d == 0x46 {
            BinaryFormat::Elf
        } else if (a == 0xfe && b == 0xed && c == 0xfa && (d == 0xce || d == 0xcf))
            || ((a == 0xce || a == 0xcf) && b == 0xfa && c == 0xed && d == 0xfe) {
            BinaryFormat::MachO
        } else if a == 0x4d && b == 0x5a {
            BinaryFormat::Pe
        } else {
            return Err(CoreError::UnknownFormat { magic });
        };
        let digest = sha256_digest(data.as_slice());
        let sha256 = hex_encode(digest.as_slice());
        Ok(BinaryFile { data, format, file_size: n, sha256 })
    }

    /// Get the binary format.
    pub fn format(&self) -> (r: BinaryFormat)
        ensures
            r == self.format_spec(),
    {
        self.format
    }

    /// Get the total file size.
    pub fn file_size(&self) -> (r: usize)
        requires
            self.wf(),
        ensures
            r == self.bytes().len(),
    {
        self.file_size
    }

    /// Get the SHA-256 digest of the file as lowercase hexadecimal text.
    pub fn sha256(&self) -> (r: &str)
        requires
            self.wf(),
        ensures
            r@ == hex_text(sha256_of(self.bytes())),
    {
        self.sha256.as_str()
    }

    /// The `len` bytes at `offset`, or `InvalidOffset` (with the end, or
    /// with `offset` where the end overflows) when they run past the end.
    pub fn slice(&self, offset: usize, len: usize) -> (r: Result<&[u8], CoreError>)
        requires
            self.wf(),
        ensures
            offset + len > usize::MAX ==> (r matches Err(CoreError::InvalidOffset { offset: o, file_size })
                && o == offset && file_size == self.bytes().len()),
            offset + len <= usize::MAX && offset + len > self.bytes().len() ==> (r matches Err(
                CoreError::InvalidOffset { offset: o, file_size },
            ) && o == offset + len && file_size == self.bytes().len()),
            offset + len <= self.bytes().len() ==> (r matches Ok(s) && s@ == self.bytes().subrange(
                offset as int,
                offset + len,
            )),
    {
        let end = match offset.checked_add(len) {
            Some(e) => e,
            None => return Err(CoreError::InvalidOffset { offset, file_size: self.file_size }),
        };
        if end > self.file_size {
            return Err(CoreError::InvalidOffset { offset: end, file_size: self.file_size });
        }
        Ok(vstd::slice::slice_subrange(self.data.as_slice(), offset, end))
    }

    /// Get the entire file data.
    pub fn data(&self) -> (r: &[u8])
        ensures
            r@ == self.bytes(),
    {
        self.data.as_slice()
    }

    /// The position of the first occurrence of a non-empty byte pattern;
    /// `None` for an empty one.
    pub fn find_pattern(&self, pattern: &[u8]) -> (r: Option<usize>)
        ensures
            pattern@.len() == 0 ==> r is None,
            pattern@.len() > 0 ==> match first_bytes_occurrence(self.bytes(), pattern@, 0) {
                Some(i) => r == Some(i as usize),
                None => r is None,
            },
    {
        if pattern.len() == 0 {
            return None;
        }
        memmem_find(self.data.as_slice(), pattern)
    }

    /// The positions of all non-overlapping occurrences of a non-empty byte
    /// pattern, in order; none for an empty one.
    pub fn find_all_patterns(&self, pattern: &[u8]) -> (r: Vec<usize>)
        ensures
            pattern@.len() == 0 ==> r@.len() == 0,
            pattern@.len() > 0 ==> r@.len() == bytes_occurrences(self.bytes(), pattern@, 0).len()
                && forall|k: int| 0 <= k < r@.len() ==> r@[k] as int == #[trigger] bytes_occurrences(
                    self.bytes(),
                    pattern@,
                    0,
                )[k],
    {
        if pattern.len() == 0 {
            return Vec::new();
        }
        memmem_find_all(self.data.as_slice(), pattern)
    }
}

} // verus!
