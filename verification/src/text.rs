//! Character-level string helpers shared by the whole library.
//!
//! Every helper is specified over the `Seq<char>` view of the strings
//! it reads and writes.

use vstd::prelude::*;
use vstd::string::StrSliceExecFns;

verus! {

/// `true` iff `needle` occurs in `hay` starting at position `i`.
pub open spec fn occurs_at(hay: Seq<char>, needle: Seq<char>, i: int) -> bool {
    0 <= i && i + needle.len() <= hay.len() && hay.subrange(i, i + needle.len()) == needle
}

/// `true` iff `needle` occurs somewhere in `hay`.
pub open spec fn contains_seq(hay: Seq<char>, needle: Seq<char>) -> bool {
    exists|i: int| occurs_at(hay, needle, i)
}

/// `true` iff `hay` begins with `prefix`.
pub open spec fn starts_with_seq(hay: Seq<char>, prefix: Seq<char>) -> bool {
    occurs_at(hay, prefix, 0)
}

/// `true` iff `hay` ends with `suffix`.
pub open spec fn ends_with_seq(hay: Seq<char>, suffix: Seq<char>) -> bool {
    suffix.len() <= hay.len() && occurs_at(hay, suffix, hay.len() - suffix.len())
}

/// The position of the first occurrence of `needle` in `hay`, if any.
pub open spec fn first_occurrence(hay: Seq<char>, needle: Seq<char>) -> Option<int> {
    if contains_seq(hay, needle) {
        Some(choose|i: int| occurs_at(hay, needle, i) && forall|j: int| 0 <= j < i ==> !occurs_at(hay, needle, j))
    } else {
        None
    }
}

proof fn lemma_least_occurrence(hay: Seq<char>, needle: Seq<char>, k: int)
    requires
        occurs_at(hay, needle, k),
    ensures
        exists|m: int| occurs_at(hay, needle, m) && forall|j: int| 0 <= j < m ==> !occurs_at(hay, needle, j),
    decreases k,
{
    if exists|j: int| 0 <= j < k && occurs_at(hay, needle, j) {
        let j = choose|j: int| 0 <= j < k && occurs_at(hay, needle, j);
        lemma_least_occurrence(hay, needle, j);
    } else {
        assert(occurs_at(hay, needle, k) && forall|j: int| 0 <= j < k ==> !occurs_at(hay, needle, j));
    }
}

/// The first occurrence is an occurrence, with none before it.
pub proof fn lemma_first_occurrence(hay: Seq<char>, needle: Seq<char>)
    ensures
        first_occurrence(hay, needle) matches Some(p) ==> occurs_at(hay, needle, p)
            && forall|j: int| 0 <= j < p ==> !occurs_at(hay, needle, j),
        first_occurrence(hay, needle) is None <==> !contains_seq(hay, needle),
{
    if contains_seq(hay, needle) {
        let k = choose|k: int| occurs_at(hay, needle, k);
        lemma_least_occurrence(hay, needle, k);
    }
}

/// A character appended to `hay` that does not end `needle` adds no occurrence of it.
pub proof fn lemma_occurs_push(hay: Seq<char>, needle: Seq<char>, c: char, i: int)
    requires
        needle.len() > 0,
        needle.last() != c,
    ensures
        occurs_at(hay.push(c), needle, i) == occurs_at(hay, needle, i),
{
    let h2 = hay.push(c);
    if 0 <= i && i + needle.len() <= hay.len() {
        assert(h2.subrange(i, i + needle.len()) =~= hay.subrange(i, i + needle.len()));
    } else if 0 <= i && i + needle.len() == hay.len() + 1 {
        assert(h2.subrange(i, i + needle.len()).last() == c);
    }
}

/// Appending a character that does not end `needle` leaves its first occurrence.
pub proof fn lemma_first_occurrence_push(hay: Seq<char>, needle: Seq<char>, c: char)
    requires
        needle.len() > 0,
        needle.last() != c,
    ensures
        contains_seq(hay.push(c), needle) == contains_seq(hay, needle),
        first_occurrence(hay.push(c), needle) == first_occurrence(hay, needle),
{
    let h2 = hay.push(c);
    assert forall|i: int| occurs_at(h2, needle, i) == occurs_at(hay, needle, i) by {
        lemma_occurs_push(hay, needle, c, i);
    }
    lemma_first_occurrence(hay, needle);
    lemma_first_occurrence(h2, needle);
    if contains_seq(hay, needle) {
        let p = first_occurrence(hay, needle)->0;
        let q = first_occurrence(h2, needle)->0;
        if p < q {
            assert(!occurs_at(h2, needle, p));
        } else if q < p {
            assert(!occurs_at(hay, needle, q));
        }
    }
}

/// Appends one character to a string (`String::push`).
#[verifier::external_body]
pub fn string_push(s: &mut String, c: char)
    ensures
        final(s)@ == old(s)@.push(c),
{
    s.push(c);
}

/// The characters of a string slice, in order.
pub fn chars_of(s: &str) -> (r: Vec<char>)
    ensures
        r@ == s@,
{
    let n = s.unicode_len();
    let mut r: Vec<char> = Vec::new();
    let mut i: usize = 0;
    while i < n
        invariant
            n == s@.len(),
            i <= n,
            r@ == s@.subrange(0, i as int),
        decreases n - i,
    {
        let c = s.get_char(i);
        r.push(c);
        i = i + 1;
        assert(r@ == s@.subrange(0, i as int));
    }
    assert(s@.subrange(0, n as int) == s@);
    r
}

/// Builds a string from a sequence of characters.
pub fn string_from_chars(v: &[char]) -> (r: String)
    ensures
        r@ == v@,
{
    let mut r = String::new();
    let mut i: usize = 0;
    while i < v.len()
        invariant
            i <= v@.len(),
            r@ == v@.subrange(0, i as int),
        decreases v.len() - i,
    {
        string_push(&mut r, v[i]);
        i = i + 1;
        assert(r@ == v@.subrange(0, i as int));
    }
    assert(v@.subrange(0, v@.len() as int) == v@);
    r
}

/// Copies a string slice into an owned string.
pub fn owned(s: &str) -> (r: String)
    ensures
        r@ == s@,
{
    let cs = chars_of(s);
    string_from_chars(cs.as_slice())
}

/// Appends `tail` to `s`.
pub fn push_str(s: &mut String, tail: &str)
    ensures
        final(s)@ == old(s)@ + tail@,
{
    let cs = chars_of(tail);
    let mut i: usize = 0;
    while i < cs.len()
        invariant
            cs@ == tail@,
            i <= cs@.len(),
            s@ == old(s)@ + tail@.subrange(0, i as int),
        decreases cs.len() - i,
    {
        string_push(s, cs[i]);
        i = i + 1;
        assert(s@ == old(s)@ + tail@.subrange(0, i as int));
    }
    assert(tail@.subrange(0, tail@.len() as int) == tail@);
}

/// `true` iff the character sequences `a[ai..ai+n]` and `b[bi..bi+n]` agree.
fn slices_agree(a: &[char], ai: usize, b: &[char], bi: usize, n: usize) -> (r: bool)
    requires
        ai + n <= a@.len(),
        bi + n <= b@.len(),
    ensures
        r == (a@.subrange(ai as int, ai + n) == b@.subrange(bi as int, bi + n)),
{
    let alen = a.len();
    let blen = b.len();
    let mut k: usize = 0;
    while k < n
        invariant
            alen == a@.len(),
            blen == b@.len(),
            ai + n <= a@.len(),
            bi + n <= b@.len(),
            k <= n,
            a@.subrange(ai as int, ai + k) == b@.subrange(bi as int, bi + k),
        decreases n - k,
    {
        if a[ai + k] != b[bi + k] {
            assert(a@.subrange(ai as int, ai + n)[k as int] != b@.subrange(bi as int, bi + n)[k as int]);
            return false;
        }
        assert(a@.subrange(ai as int, ai + k + 1) =~= a@.subrange(ai as int, ai + k).push(a@[ai + k]));
        assert(b@.subrange(bi as int, bi + k + 1) =~= b@.subrange(bi as int, bi + k).push(b@[bi + k]));
        k = k + 1;
    }
    true
}

/// `true` iff the two character sequences are equal.
pub fn chars_eq(a: &[char], b: &[char]) -> (r: bool)
    ensures
        r == (a@ == b@),
{
    if a.len() != b.len() {
        return false;
    }
    let r = slices_agree(a, 0, b, 0, a.len());
    assert(a@.subrange(0, a@.len() as int) == a@);
    assert(b@.subrange(0, b@.len() as int) == b@);
    r
}

/// `true` iff the two strings are equal.
pub fn str_eq(a: &str, b: &str) -> (r: bool)
    ensures
        r == (a@ == b@),
{
    let ca = chars_of(a);
    let cb = chars_of(b);
    chars_eq(ca.as_slice(), cb.as_slice())
}

/// `true` iff the characters `m` spell the string `lit`.
pub fn chars_is(m: &[char], lit: &str) -> (r: bool)
    ensures
        r == (m@ == lit@),
{
    let l = chars_of(lit);
    chars_eq(m, l.as_slice())
}

/// `true` iff `needle` occurs in `hay` at position `i`.
pub fn occurs_at_exec(hay: &[char], needle: &[char], i: usize) -> (r: bool)
    ensures
        r == occurs_at(hay@, needle@, i as int),
{
    if needle.len() > hay.len() || i > hay.len() - needle.len() {
        return false;
    }
    let r = slices_agree(hay, i, needle, 0, needle.len());
    assert(needle@.subrange(0, needle@.len() as int) == needle@);
    r
}

/// The position of the first occurrence of `needle` in `hay`.
pub fn find_chars(hay: &[char], needle: &[char]) -> (r: Option<usize>)
    ensures
        r matches Some(i) ==> first_occurrence(hay@, needle@) == Some(i as int),
        r matches Some(i) ==> occurs_at(hay@, needle@, i as int)
            && forall|j: int| 0 <= j < i ==> !occurs_at(hay@, needle@, j),
        r is None <==> !contains_seq(hay@, needle@),
{
    if needle.len() > hay.len() {
        assert(!contains_seq(hay@, needle@));
        return None;
    }
    let last = hay.len() - needle.len();
    let mut i: usize = 0;
    loop
        invariant
            last == hay@.len() - needle@.len(),
            i <= last,
            forall|j: int| 0 <= j < i ==> !occurs_at(hay@, needle@, j),
        decreases last - i,
    {
        if occurs_at_exec(hay, needle, i) {
            let ghost w = i as int;
            assert(contains_seq(hay@, needle@));
            let ghost c = choose|k: int| occurs_at(hay@, needle@, k) && forall|j: int| 0 <= j < k ==> !occurs_at(hay@, needle@, j);
            assert(occurs_at(hay@, needle@, c) && forall|j: int| 0 <= j < c ==> !occurs_at(hay@, needle@, j));
            assert(c == w) by {
                if c < w {
                } else if c > w {
                    assert(!occurs_at(hay@, needle@, w));
                }
            }
            return Some(i);
        }
        if i == last {
            assert forall|j: int| !occurs_at(hay@, needle@, j) by {
                if 0 <= j <= i {
                } else if j > i {
                }
            }
            return None;
        }
        i = i + 1;
    }
}

/// `true` iff `needle` occurs in `hay`.
pub fn contains_chars(hay: &[char], needle: &[char]) -> (r: bool)
    ensures
        r == contains_seq(hay@, needle@),
{
    find_chars(hay, needle).is_some()
}

/// `true` iff `needle` occurs in the string `hay`.
pub fn str_contains(hay: &str, needle: &str) -> (r: bool)
    ensures
        r == contains_seq(hay@, needle@),
{
    let h = chars_of(hay);
    let n = chars_of(needle);
    contains_chars(h.as_slice(), n.as_slice())
}

/// `true` iff `hay` starts with `prefix`.
pub fn str_starts_with(hay: &str, prefix: &str) -> (r: bool)
    ensures
        r == starts_with_seq(hay@, prefix@),
{
    let h = chars_of(hay);
    let p = chars_of(prefix);
    occurs_at_exec(h.as_slice(), p.as_slice(), 0)
}

/// `true` iff `hay` ends with `suffix`.
pub fn str_ends_with(hay: &str, suffix: &str) -> (r: bool)
    ensures
        r == ends_with_seq(hay@, suffix@),
{
    let h = chars_of(hay);
    let p = chars_of(suffix);
    if p.len() > h.len() {
        return false;
    }
    occurs_at_exec(h.as_slice(), p.as_slice(), h.len() - p.len())
}


/// The lowercase hexadecimal digit for `d` (`d < 16`).
pub open spec fn digit_char(d: nat) -> char {
    if d == 0 { '0' } else if d == 1 { '1' } else if d == 2 { '2' } else if d == 3 { '3' }
    else if d == 4 { '4' } else if d == 5 { '5' } else if d == 6 { '6' } else if d == 7 { '7' }
    else if d == 8 { '8' } else if d == 9 { '9' } else if d == 10 { 'a' } else if d == 11 { 'b' }
    else if d == 12 { 'c' } else if d == 13 { 'd' } else if d == 14 { 'e' } else { 'f' }
}

/// The digits of `n` written in base `base` (2..=16), most significant first, without leading zeros.
pub open spec fn digits_seq(n: nat, base: nat) -> Seq<char>
    decreases n,
{
    if base < 2 || n < base {
        seq![digit_char(n)]
    } else {
        proof {
            assert(n / base < n) by (nonlinear_arith)
                requires
                    base >= 2,
                    n >= base,
            ;
        }
        digits_seq(n / base, base).push(digit_char(n % base))
    }
}

/// Decimal text of a natural number.
pub open spec fn decimal_seq(n: nat) -> Seq<char> {
    digits_seq(n, 10)
}

/// Lowercase hexadecimal text of a natural number.
pub open spec fn hex_seq(n: nat) -> Seq<char> {
    digits_seq(n, 16)
}

/// Decimal text of an integer, with a leading `-` for negative values.
pub open spec fn int_decimal_seq(v: int) -> Seq<char> {
    if v < 0 {
        seq!['-'] + decimal_seq((-v) as nat)
    } else {
        decimal_seq(v as nat)
    }
}

/// `s` padded on the left with `c` up to `width` characters.
pub open spec fn pad_left(s: Seq<char>, c: char, width: nat) -> Seq<char> {
    if s.len() >= width {
        s
    } else {
        Seq::new((width - s.len()) as nat, |i: int| c) + s
    }
}

/// The character for the digit `d`.
pub fn digit_to_char(d: u64) -> (c: char)
    requires
        d < 16,
    ensures
        c == digit_char(d as nat),
{
    if d == 0 { '0' } else if d == 1 { '1' } else if d == 2 { '2' } else if d == 3 { '3' }
    else if d == 4 { '4' } else if d == 5 { '5' } else if d == 6 { '6' } else if d == 7 { '7' }
    else if d == 8 { '8' } else if d == 9 { '9' } else if d == 10 { 'a' } else if d == 11 { 'b' }
    else if d == 12 { 'c' } else if d == 13 { 'd' } else if d == 14 { 'e' } else { 'f' }
}

/// Appends the digits of `n` in base `base` to `s`.
pub fn push_digits(s: &mut String, n: u64, base: u64)
    requires
        2 <= base <= 16,
    ensures
        final(s)@ == old(s)@ + digits_seq(n as nat, base as nat),
    decreases n,
{
    if n < base {
        string_push(s, digit_to_char(n));
    } else {
        assert(n / base < n) by (nonlinear_arith)
            requires
                base >= 2,
                n >= base,
        ;
        push_digits(s, n / base, base);
        string_push(s, digit_to_char(n % base));
        assert(s@ == old(s)@ + digits_seq(n as nat, base as nat));
    }
}

/// Appends the decimal text of `n` to `s`.
pub fn push_decimal(s: &mut String, n: u64)
    ensures
        final(s)@ == old(s)@ + decimal_seq(n as nat),
{
    push_digits(s, n, 10);
}

/// Appends the decimal text of the signed value `v` to `s`.
pub fn push_signed_decimal(s: &mut String, v: i64)
    ensures
        final(s)@ == old(s)@ + int_decimal_seq(v as int),
{
    if v < 0 {
        string_push(s, '-');
        let m: u64 = ((-(v + 1)) as u64) + 1;
        push_digits(s, m, 10);
        assert(s@ == old(s)@ + int_decimal_seq(v as int));
    } else {
        push_digits(s, v as u64, 10);
    }
}

/// Appends the lowercase hexadecimal text of `n` to `s`.
pub fn push_hex(s: &mut String, n: u64)
    ensures
        final(s)@ == old(s)@ + hex_seq(n as nat),
{
    push_digits(s, n, 16);
}

/// Appends `c` to `s` repeated `count` times.
pub fn push_repeated(s: &mut String, c: char, count: usize)
    ensures
        final(s)@ == old(s)@ + Seq::new(count as nat, |i: int| c),
{
    let mut k: usize = 0;
    while k < count
        invariant
            k <= count,
            s@ == old(s)@ + Seq::new(k as nat, |i: int| c),
        decreases count - k,
    {
        string_push(s, c);
        k = k + 1;
        assert(s@ =~= old(s)@ + Seq::new(k as nat, |i: int| c));
    }
}

/// Whether a character is white space in the Unicode sense (the
/// `White_Space` property), as `str::trim` understands it.
pub open spec fn is_ws(c: char) -> bool {
    let v = c as u32;
    ||| 0x09 <= v <= 0x0d
    ||| v == 0x20
    ||| v == 0x85
    ||| v == 0xa0
    ||| v == 0x1680
    ||| 0x2000 <= v <= 0x200a
    ||| v == 0x2028
    ||| v == 0x2029
    ||| v == 0x202f
    ||| v == 0x205f
    ||| v == 0x3000
}

/// The text without its leading white space.
pub open spec fn trim_start_seq(s: Seq<char>) -> Seq<char>
    decreases s.len(),
{
    if s.len() > 0 && is_ws(s[0]) {
        trim_start_seq(s.drop_first())
    } else {
        s
    }
}

/// The text without its trailing white space.
pub open spec fn trim_end_seq(s: Seq<char>) -> Seq<char>
    decreases s.len(),
{
    if s.len() > 0 && is_ws(s.last()) {
        trim_end_seq(s.drop_last())
    } else {
        s
    }
}

/// The text without leading and trailing white space.
pub open spec fn trim_seq(s: Seq<char>) -> Seq<char> {
    trim_end_seq(trim_start_seq(s))
}

/// Whether a character is white space.
pub fn char_is_ws(c: char) -> (r: bool)
    ensures
        r == is_ws(c),
{
    let v = c as u32;
    (0x09 <= v && v <= 0x0d) || v == 0x20 || v == 0x85 || v == 0xa0 || v == 0x1680
        || (0x2000 <= v && v <= 0x200a) || v == 0x2028 || v == 0x2029 || v == 0x202f
        || v == 0x205f || v == 0x3000
}

/// The text without leading and trailing white space (`str::trim`).
pub fn trim_text(s: &str) -> (r: String)
    ensures
        r@ == trim_seq(s@),
{
    let cs = chars_of(s);
    let n = cs.len();
    let mut i: usize = 0;
    assert(s@.subrange(0, n as int) =~= s@);
    while i < n && char_is_ws(cs[i])
        invariant
            cs@ == s@,
            n == cs@.len(),
            0 <= i <= n,
            trim_start_seq(s@) == trim_start_seq(s@.subrange(i as int, n as int)),
        decreases n - i,
    {
        assert(s@.subrange(i as int, n as int).drop_first() =~= s@.subrange(i + 1, n as int));
        i = i + 1;
    }
    assert(trim_start_seq(s@) == s@.subrange(i as int, n as int));
    let mut j: usize = n;
    while j > i && char_is_ws(cs[j - 1])
        invariant
            cs@ == s@,
            n == cs@.len(),
            0 <= i <= j <= n,
            trim_end_seq(s@.subrange(i as int, n as int)) == trim_end_seq(s@.subrange(i as int, j as int)),
        decreases j,
    {
        assert(s@.subrange(i as int, j as int).drop_last() =~= s@.subrange(i as int, j - 1));
        j = j - 1;
    }
    let mut r = String::new();
    let mut k: usize = i;
    while k < j
        invariant
            cs@ == s@,
            0 <= i <= k <= j <= n == cs@.len(),
            r@ == s@.subrange(i as int, k as int),
        decreases j - k,
    {
        string_push(&mut r, cs[k]);
        k = k + 1;
        assert(r@ =~= s@.subrange(i as int, k as int));
    }
    r
}

/// The text with each single quote preceded by a backslash.
pub open spec fn escape_quotes(s: Seq<char>) -> Seq<char>
    decreases s.len(),
{
    if s.len() == 0 {
        Seq::empty()
    } else {
        escape_quotes(s.drop_last()) + if s.last() == '\'' { seq!['\\', '\''] } else { seq![s.last()] }
    }
}

/// Appends `t` to `s` with each single quote preceded by a backslash.
pub fn push_escaped_quotes(s: &mut String, t: &str)
    ensures
        final(s)@ == old(s)@ + escape_quotes(t@),
{
    let cs = chars_of(t);
    let mut k: usize = 0;
    while k < cs.len()
        invariant
            cs@ == t@,
            0 <= k <= cs@.len(),
            s@ == old(s)@ + escape_quotes(t@.take(k as int)),
        decreases cs@.len() - k,
    {
        let c = cs[k];
        if c == '\'' {
            string_push(s, '\\');
            string_push(s, '\'');
        } else {
            string_push(s, c);
        }
        assert(t@.take(k + 1).drop_last() =~= t@.take(k as int));
        assert(s@ =~= old(s)@ + escape_quotes(t@.take(k + 1)));
        k = k + 1;
    }
    assert(t@.take(cs@.len() as int) =~= t@);
}

/// A copy of a list of bytes.
pub fn copy_bytes(v: &[u8]) -> (r: Vec<u8>)
    ensures
        r@ == v@,
{
    let mut r: Vec<u8> = Vec::new();
    let mut i: usize = 0;
    while i < v.len()
        invariant
            0 <= i <= v@.len(),
            r@ == v@.take(i as int),
        decreases v@.len() - i,
    {
        r.push(v[i]);
        assert(r@ =~= v@.take(i + 1));
        i = i + 1;
    }
    assert(r@ =~= v@);
    r
}


/// The characters `cs[a..b]` as a string.
pub fn substring(cs: &[char], a: usize, b: usize) -> (r: String)
    requires
        a <= b <= cs@.len(),
    ensures
        r@ == cs@.subrange(a as int, b as int),
{
    let mut r = String::new();
    let mut k: usize = a;
    while k < b
        invariant
            a <= k <= b <= cs@.len(),
            r@ == cs@.subrange(a as int, k as int),
        decreases b - k,
    {
        string_push(&mut r, cs[k]);
        k = k + 1;
        assert(r@ =~= cs@.subrange(a as int, k as int));
    }
    r
}

/// The position of the first line feed at or after `i`, or the length.
pub open spec fn next_newline(s: Seq<char>, i: int) -> int
    decreases s.len() - i,
{
    if i < 0 || i >= s.len() {
        s.len() as int
    } else if s[i] == '\n' {
        i
    } else {
        next_newline(s, i + 1)
    }
}

/// A line as `str::lines` gives it: one carriage return before the line
/// feed that ends it is dropped.
pub open spec fn line_body(s: Seq<char>, i: int, e: int) -> Seq<char> {
    if e < s.len() && i < e && s[e - 1] == '\r' {
        s.subrange(i, e - 1)
    } else {
        s.subrange(i, e)
    }
}

/// The lines of `s` from position `i` on (`str::lines`): split at line
/// feeds, the last line feed ending the last line.
pub open spec fn lines_from(s: Seq<char>, i: int) -> Seq<Seq<char>>
    decreases s.len() + 1 - i,
{
    if i < 0 || i >= s.len() {
        Seq::empty()
    } else {
        let e = next_newline(s, i);
        proof {
            lemma_next_newline_bounds(s, i);
        }
        seq![line_body(s, i, e)] + lines_from(s, e + 1)
    }
}

/// The lines of a text.
pub open spec fn lines_of(s: Seq<char>) -> Seq<Seq<char>> {
    lines_from(s, 0)
}

/// The views of a list of strings.
pub open spec fn string_views(v: Seq<String>) -> Seq<Seq<char>> {
    v.map_values(|x: String| x@)
}

pub proof fn lemma_next_newline_bounds(s: Seq<char>, i: int)
    requires
        0 <= i <= s.len(),
    ensures
        i <= next_newline(s, i) <= s.len(),
        next_newline(s, i) < s.len() ==> s[next_newline(s, i)] == '\n',
    decreases s.len() - i,
{
    if i < s.len() && s[i] != '\n' {
        lemma_next_newline_bounds(s, i + 1);
    }
}

/// Up to the joining line feed, the line ends of `a + "\n" + b` are those of `a`.
pub proof fn lemma_next_newline_before(a: Seq<char>, b: Seq<char>, i: int)
    requires
        0 <= i <= a.len(),
    ensures
        next_newline(a + seq!['\n'] + b, i) == next_newline(a, i),
    decreases a.len() - i,
{
    let s = a + seq!['\n'] + b;
    if i < a.len() {
        assert(s[i] == a[i]);
        if a[i] != '\n' {
            lemma_next_newline_before(a, b, i + 1);
        }
    } else {
        assert(s[i] == '\n');
    }
}

/// Past the joining line feed, the line ends of `a + "\n" + b` are those of `b`, shifted.
proof fn lemma_next_newline_after(a: Seq<char>, b: Seq<char>, j: int)
    requires
        a.len() + 1 <= j <= a.len() + 1 + b.len(),
    ensures
        next_newline(a + seq!['\n'] + b, j) == next_newline(b, j - a.len() - 1) + a.len() + 1,
    decreases a.len() + 1 + b.len() - j,
{
    let s = a + seq!['\n'] + b;
    let k = j - a.len() - 1;
    if j < s.len() {
        assert(s[j] == b[k]);
        if b[k] != '\n' {
            lemma_next_newline_after(a, b, j + 1);
        }
    }
}

/// Past the joining line feed, the lines of `a + "\n" + b` are those of `b`.
pub proof fn lemma_lines_after(a: Seq<char>, b: Seq<char>, j: int)
    requires
        a.len() + 1 <= j <= a.len() + 1 + b.len(),
    ensures
        lines_from(a + seq!['\n'] + b, j) == lines_from(b, j - a.len() - 1),
    decreases a.len() + 1 + b.len() - j,
{
    let s = a + seq!['\n'] + b;
    let n = a.len() as int;
    let k = j - n - 1;
    if j < s.len() {
        let e = next_newline(s, j);
        lemma_next_newline_after(a, b, j);
        lemma_next_newline_bounds(s, j);
        lemma_next_newline_bounds(b, k);
        if e < s.len() && j < e {
            assert(s[e - 1] == b[e - n - 2]);
        }
        assert(line_body(s, j, e) =~= line_body(b, k, e - n - 1));
        if e < s.len() {
            lemma_lines_after(a, b, e + 1);
        }
        assert(lines_from(s, j) == seq![line_body(s, j, e)] + lines_from(s, e + 1));
        assert(lines_from(b, k) == seq![line_body(b, k, e - n - 1)] + lines_from(b, e - n));
    }
}

/// The lines of a text (`str::lines`).
pub fn text_lines(s: &str) -> (r: Vec<String>)
    ensures
        string_views(r@) == lines_of(s@),
{
    let cs = chars_of(s);
    let n = cs.len();
    let mut out: Vec<String> = Vec::new();
    let mut i: usize = 0;
    while i < n
        invariant
            cs@ == s@,
            n == cs@.len(),
            i <= n,
            string_views(out@) + lines_from(s@, i as int) == lines_of(s@),
        decreases n - i,
    {
        let mut e: usize = i;
        while e < n && cs[e] != '\n'
            invariant
                cs@ == s@,
                n == cs@.len(),
                i <= e <= n,
                next_newline(s@, i as int) == next_newline(s@, e as int),
            decreases n - e,
        {
            e = e + 1;
        }
        let end = if e < n && i < e && cs[e - 1] == '\r' { e - 1 } else { e };
        let line = substring(cs.as_slice(), i, end);
        let ghost before = string_views(out@);
        out.push(line);
        assert(string_views(out@) =~= before.push(line_body(s@, i as int, e as int)));
        assert(lines_from(s@, i as int) == seq![line_body(s@, i as int, e as int)] + lines_from(s@, e + 1));
        assert(string_views(out@) + lines_from(s@, e + 1) =~= before + lines_from(s@, i as int));
        if e >= n {
            assert(lines_from(s@, e + 1) == Seq::<Seq<char>>::empty());
            assert(string_views(out@) =~= lines_of(s@));
            i = n;
        } else {
            i = e + 1;
        }
    }
    assert(lines_from(s@, i as int) == Seq::<Seq<char>>::empty());
    assert(string_views(out@) =~= lines_of(s@));
    out
}


/// Whether a character is an ASCII decimal digit.
pub open spec fn is_ascii_digit(c: char) -> bool {
    '0' <= c <= '9'
}

/// The value of a string of ASCII decimal digits.
pub open spec fn digits_value(s: Seq<char>) -> nat
    decreases s.len(),
{
    if s.len() == 0 {
        0
    } else {
        digits_value(s.drop_last()) * 10 + ((s.last() as u32 - '0' as u32) as nat)
    }
}

/// The digits that `u64::from_str` and its kin read: the text without one
/// leading `+`.
pub open spec fn unsigned_digits(s: Seq<char>) -> Seq<char> {
    if s.len() > 0 && s[0] == '+' { s.drop_first() } else { s }
}

/// What `from_str` gives for an unsigned integer type whose largest value
/// is `max`: a number for an optional `+` then one or more ASCII digits
/// whose value fits, nothing otherwise.
pub open spec fn parse_unsigned(s: Seq<char>, max: nat) -> Option<nat> {
    let d = unsigned_digits(s);
    if d.len() > 0 && (forall|i: int| 0 <= i < d.len() ==> is_ascii_digit(#[trigger] d[i])) && digits_value(d) <= max {
        Some(digits_value(d))
    } else {
        None
    }
}

proof fn lemma_digits_value_monotone(s: Seq<char>, k: int)
    requires
        0 <= k <= s.len(),
        forall|i: int| 0 <= i < s.len() ==> is_ascii_digit(#[trigger] s[i]),
    ensures
        digits_value(s.take(k)) <= digits_value(s),
    decreases s.len() - k,
{
    if k < s.len() {
        lemma_digits_value_monotone(s, k + 1);
        assert(s.take(k + 1).drop_last() =~= s.take(k));
    } else {
        assert(s.take(k) =~= s);
    }
}

/// Reads an unsigned decimal number no larger than `max`, as `from_str`
/// does for the unsigned integer types.
pub fn parse_unsigned_text(s: &str, max: u64) -> (r: Option<u64>)
    ensures
        match parse_unsigned(s@, max as nat) {
            Some(v) => r == Some(v as u64),
            None => r is None,
        },
{
    let cs = chars_of(s);
    let start: usize = if cs.len() > 0 && cs[0] == '+' { 1 } else { 0 };
    let ghost d = unsigned_digits(s@);
    assert(d =~= s@.subrange(start as int, s@.len() as int));
    if start >= cs.len() {
        return None;
    }
    let mut acc: u64 = 0;
    let mut i: usize = start;
    while i < cs.len()
        invariant
            cs@ == s@,
            d == s@.subrange(start as int, s@.len() as int),
            d == unsigned_digits(s@),
            start <= i <= cs@.len(),
            forall|j: int| 0 <= j < i - start ==> is_ascii_digit(#[trigger] d[j]),
            acc == digits_value(d.take(i - start)),
            acc <= max,
        decreases cs@.len() - i,
    {
        let c = cs[i];
        if !('0' <= c && c <= '9') {
            assert(!is_ascii_digit(d[i - start]));
            assert(unsigned_digits(s@) == d);
            assert(parse_unsigned(s@, max as nat) is None);
            return None;
        }
        let v = (c as u32 - '0' as u32) as u64;
        if v > max {
            proof {
                assert(d.take(i + 1 - start).drop_last() =~= d.take(i - start));
                assert forall|j: int| 0 <= j < i + 1 - start implies is_ascii_digit(#[trigger] d[j]) by {
                    if j == i - start {
                    }
                }
                if forall|j: int| 0 <= j < d.len() ==> is_ascii_digit(#[trigger] d[j]) {
                    lemma_digits_value_monotone(d, i + 1 - start);
                }
                assert(unsigned_digits(s@) == d);
            }
            return None;
        }
        assert(d.take(i + 1 - start).drop_last() =~= d.take(i - start));
        assert(d.take(i + 1 - start).last() == c);
        if acc > (max - v) / 10 {
            proof {
                assert(acc * 10 + v > max) by (nonlinear_arith)
                    requires acc > (max - v) / 10, v <= max;
                assert forall|j: int| 0 <= j < i + 1 - start implies is_ascii_digit(#[trigger] d[j]) by {
                    if j == i - start {
                    }
                }
                if forall|j: int| 0 <= j < d.len() ==> is_ascii_digit(#[trigger] d[j]) {
                    lemma_digits_value_monotone(d, i + 1 - start);
                }
                assert(unsigned_digits(s@) == d);
            }
            return None;
        }
        assert(acc * 10 + v <= max) by (nonlinear_arith)
            requires acc <= (max - v) / 10, v <= 9;
        acc = acc * 10 + v;
        i = i + 1;
    }
    assert(d.take(i - start) =~= d);
    Some(acc)
}


/// The text `String::from_utf8_lossy` makes of some bytes.
pub uninterp spec fn utf8_lossy_of(bytes: Seq<u8>) -> Seq<char>;

/// `String::from_utf8_lossy`: the text of some bytes, each invalid
/// sequence replaced by U+FFFD. Valid UTF-8 comes back unchanged, as its
/// documentation says; for the rest the text is named.
#[verifier::external_body]
pub fn utf8_lossy(bytes: &[u8]) -> (r: String)
    ensures
        r@ == utf8_lossy_of(bytes@),
        vstd::utf8::valid_utf8(bytes@) ==> r@ == vstd::utf8::decode_utf8(bytes@),
{
    String::from_utf8_lossy(bytes).into_owned()
}

/// `std::str::from_utf8`: the text of valid UTF-8, nothing otherwise.
#[verifier::external_body]
pub fn utf8_text(bytes: &[u8]) -> (r: Option<String>)
    ensures
        r is Some <==> vstd::utf8::valid_utf8(bytes@),
        r matches Some(t) ==> t@ == vstd::utf8::decode_utf8(bytes@),
{
    match std::str::from_utf8(bytes) {
        Ok(t) => Some(t.to_string()),
        Err(_) => None,
    }
}
} // verus!
