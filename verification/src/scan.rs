//! Security scanning of recovered strings and of Android manifests.

use vstd::prelude::*;
use vstd::string::StringSliceAdditionalSpecFns;
use vstd::utf8::{encode_utf8, decode_utf8, is_char_boundary, encode_utf8_decode_utf8};
use crate::rx::{regex_is_match, regex_match_result};
use crate::text::{
    chars_of, contains_chars, contains_seq, find_chars, first_occurrence, lemma_first_occurrence,
    lemma_first_occurrence_push, lemma_lines_after, lemma_next_newline_before, lemma_next_newline_bounds,
    line_body, lines_from, lines_of, next_newline, occurs_at, owned, push_str, starts_with_seq, string_views, substring, text_lines,
};

verus! {

/// How serious a finding is.
#[derive(Debug, Clone, Copy, PartialEq, Eq, Structural)]
pub enum Severity {
    Critical,
    High,
    Medium,
    Low,
}

/// A security finding.
#[derive(Debug, Clone)]
pub struct SecurityFinding {
    pub rule_id: String,
    pub severity: Severity,
    pub description: String,
    pub evidence: String,
    pub location: Option<String>,
}

/// The model of a finding: strings as character sequences.
pub struct FindingView {
    pub rule_id: Seq<char>,
    pub severity: Severity,
    pub description: Seq<char>,
    pub evidence: Seq<char>,
    pub location: Option<Seq<char>>,
}

impl View for SecurityFinding {
    type V = FindingView;

    open spec fn view(&self) -> FindingView {
        FindingView {
            rule_id: self.rule_id@,
            severity: self.severity,
            description: self.description@,
            evidence: self.evidence@,
            location: match self.location {
                Some(l) => Some(l@),
                None => None,
            },
        }
    }
}

/// The number of secret rules.
pub const SECRET_RULE_COUNT: usize = 11;

/// Secret rule `k`: its name, its rule id (`SECRET_` and the name in upper
/// case with `_` for each space), its pattern and its severity.
pub open spec fn secret_rule(k: int) -> (Seq<char>, Seq<char>, Seq<char>, Severity) {
    if k == 0 {
        ("AWS Access Key"@, "SECRET_AWS_ACCESS_KEY"@, "AKIA[0-9A-Z]{16}"@, Severity::Critical)
    } else if k == 1 {
        ("AWS Secret Key"@, "SECRET_AWS_SECRET_KEY"@, "(?i)aws(.{0,20})?(?-i)['\"][0-9a-zA-Z/+]{40}['\"]"@, Severity::Critical)
    } else if k == 2 {
        ("Google API Key"@, "SECRET_GOOGLE_API_KEY"@, "AIza[0-9A-Za-z\\-_]{35}"@, Severity::High)
    } else if k == 3 {
        ("Firebase URL"@, "SECRET_FIREBASE_URL"@, "https://[a-z0-9-]+\\.firebaseio\\.com"@, Severity::Medium)
    } else if k == 4 {
        ("Private Key"@, "SECRET_PRIVATE_KEY"@, "-----BEGIN (RSA |EC )?PRIVATE KEY-----"@, Severity::Critical)
    } else if k == 5 {
        ("JWT Token"@, "SECRET_JWT_TOKEN"@, "eyJ[A-Za-z0-9-_]+\\.eyJ[A-Za-z0-9-_]+\\.[A-Za-z0-9-_]+"@, Severity::High)
    } else if k == 6 {
        ("Slack Token"@, "SECRET_SLACK_TOKEN"@, "xox[bpors]-[0-9]{12}-[0-9]{12}-[a-zA-Z0-9]{24}"@, Severity::High)
    } else if k == 7 {
        ("GitHub Token"@, "SECRET_GITHUB_TOKEN"@, "gh[pousr]_[A-Za-z0-9_]{36}"@, Severity::High)
    } else if k == 8 {
        ("HTTP URL (insecure)"@, "SECRET_HTTP_URL_(INSECURE)"@, "http://[^\\s\"']+"@, Severity::Low)
    } else if k == 9 {
        ("Hardcoded Password"@, "SECRET_HARDCODED_PASSWORD"@,
            "(?i)(password|passwd|pwd)\\s*[:=]\\s*['\"][^'\"]{4,}['\"]"@, Severity::High)
    } else {
        ("Bearer Token"@, "SECRET_BEARER_TOKEN"@, "(?i)bearer\\s+[a-z0-9\\-._~+/]+=*"@, Severity::High)
    }
}

/// A secret rule as executable strings.
fn secret_rule_exec(k: usize) -> (r: (&'static str, &'static str, &'static str, Severity))
    requires
        k < SECRET_RULE_COUNT,
    ensures
        (r.0@, r.1@, r.2@, r.3) == secret_rule(k as int),
{
    if k == 0 {
        ("AWS Access Key", "SECRET_AWS_ACCESS_KEY", "AKIA[0-9A-Z]{16}", Severity::Critical)
    } else if k == 1 {
        ("AWS Secret Key", "SECRET_AWS_SECRET_KEY", "(?i)aws(.{0,20})?(?-i)['\"][0-9a-zA-Z/+]{40}['\"]", Severity::Critical)
    } else if k == 2 {
        ("Google API Key", "SECRET_GOOGLE_API_KEY", "AIza[0-9A-Za-z\\-_]{35}", Severity::High)
    } else if k == 3 {
        ("Firebase URL", "SECRET_FIREBASE_URL", "https://[a-z0-9-]+\\.firebaseio\\.com", Severity::Medium)
    } else if k == 4 {
        ("Private Key", "SECRET_PRIVATE_KEY", "-----BEGIN (RSA |EC )?PRIVATE KEY-----", Severity::Critical)
    } else if k == 5 {
        ("JWT Token", "SECRET_JWT_TOKEN", "eyJ[A-Za-z0-9-_]+\\.eyJ[A-Za-z0-9-_]+\\.[A-Za-z0-9-_]+", Severity::High)
    } else if k == 6 {
        ("Slack Token", "SECRET_SLACK_TOKEN", "xox[bpors]-[0-9]{12}-[0-9]{12}-[a-zA-Z0-9]{24}", Severity::High)
    } else if k == 7 {
        ("GitHub Token", "SECRET_GITHUB_TOKEN", "gh[pousr]_[A-Za-z0-9_]{36}", Severity::High)
    } else if k == 8 {
        ("HTTP URL (insecure)", "SECRET_HTTP_URL_(INSECURE)", "http://[^\\s\"']+", Severity::Low)
    } else if k == 9 {
        ("Hardcoded Password", "SECRET_HARDCODED_PASSWORD",
            "(?i)(password|passwd|pwd)\\s*[:=]\\s*['\"][^'\"]{4,}['\"]", Severity::High)
    } else {
        ("Bearer Token", "SECRET_BEARER_TOKEN", "(?i)bearer\\s+[a-z0-9\\-._~+/]+=*", Severity::High)
    }
}

/// A text cut to its first `max` bytes of UTF-8 with `...` after, when it
/// is longer than that.
pub open spec fn truncated(s: Seq<char>, max: nat) -> Seq<char> {
    if encode_utf8(s).len() > max {
        decode_utf8(encode_utf8(s).subrange(0, max as int)) + "..."@
    } else {
        s
    }
}

/// Shortens `s` to its first `max` bytes followed by `...` when it is
/// longer. The cut must fall on a character boundary.
pub fn truncate(s: &str, max: usize) -> (r: String)
    requires
        encode_utf8(s@).len() <= usize::MAX,
        encode_utf8(s@).len() > max ==> is_char_boundary(encode_utf8(s@), max as int),
    ensures
        r@ == truncated(s@, max as nat),
{
    if s.len() > max {
        let (head, _tail) = s.split_at(max);
        proof {
            encode_utf8_decode_utf8(head@);
            assert(head.spec_bytes() == encode_utf8(head@));
            assert(encode_utf8(head@) =~= encode_utf8(s@).subrange(0, max as int));
            assert(decode_utf8(encode_utf8(s@).subrange(0, max as int)) == head@);
        }
        let mut r = owned(head);
        push_str(&mut r, "...");
        r
    } else {
        owned(s)
    }
}

/// The finding that rule `k` makes on the string `s`.
pub open spec fn secret_finding(s: Seq<char>, k: int) -> FindingView {
    FindingView {
        rule_id: secret_rule(k).1,
        severity: secret_rule(k).3,
        description: "Possible "@ + secret_rule(k).0,
        evidence: truncated(s, 100),
        location: None,
    }
}

/// The findings of the first `k` rules on the string `s`: those whose
/// pattern compiles and matches.
pub open spec fn findings_in(s: Seq<char>, k: int) -> Seq<FindingView>
    decreases k,
{
    if k <= 0 {
        Seq::empty()
    } else {
        findings_in(s, k - 1) + if regex_match_result(secret_rule(k - 1).2, s) == Some(true) {
            seq![secret_finding(s, k - 1)]
        } else {
            Seq::empty()
        }
    }
}

/// The findings on the first `n` strings, string by string.
pub open spec fn findings_over(strings: Seq<Seq<char>>, n: int) -> Seq<FindingView>
    decreases n,
{
    if n <= 0 || n > strings.len() {
        Seq::empty()
    } else {
        findings_over(strings, n - 1) + findings_in(strings[n - 1], SECRET_RULE_COUNT as int)
    }
}

/// Whether a string can be cut after 100 bytes when it is longer (and its
/// length in bytes fits in a `usize`).
pub open spec fn cuttable(s: Seq<char>) -> bool {
    &&& encode_utf8(s).len() <= usize::MAX
    &&& encode_utf8(s).len() > 100 ==> is_char_boundary(encode_utf8(s), 100)
}

/// The views of a list of findings.
pub open spec fn finding_views(v: Seq<SecurityFinding>) -> Seq<FindingView> {
    v.map_values(|f: SecurityFinding| f@)
}

/// Scan strings for hardcoded secrets (API keys, tokens, URLs): each string
/// against each rule, in order.
pub fn scan_secrets(strings: &[String]) -> (r: Vec<SecurityFinding>)
    requires
        forall|i: int| 0 <= i < strings@.len() ==> cuttable(#[trigger] strings@[i]@),
    ensures
        finding_views(r@) == findings_over(string_views(strings@), strings@.len() as int),
{
    let ghost sv = string_views(strings@);
    let mut findings: Vec<SecurityFinding> = Vec::new();
    let mut i: usize = 0;
    while i < strings.len()
        invariant
            i <= strings@.len(),
            sv == string_views(strings@),
            forall|j: int| 0 <= j < strings@.len() ==> cuttable(#[trigger] strings@[j]@),
            finding_views(findings@) == findings_over(sv, i as int),
        decreases strings@.len() - i,
    {
        let s = strings[i].as_str();
        let ghost base = finding_views(findings@);
        let mut k: usize = 0;
        while k < SECRET_RULE_COUNT
            invariant
                k <= SECRET_RULE_COUNT,
                s@ == strings@[i as int]@,
                cuttable(s@),
                finding_views(findings@) == base + findings_in(s@, k as int),
            decreases SECRET_RULE_COUNT - k,
        {
            let (name, id, pattern, severity) = secret_rule_exec(k);
            let m = regex_is_match(pattern, s);
            let ghost before = finding_views(findings@);
            if m == Some(true) {
                let mut description = owned("Possible ");
                push_str(&mut description, name);
                let f = SecurityFinding {
                    rule_id: owned(id),
                    severity: severity,
                    description: description,
                    evidence: truncate(s, 100),
                    location: None,
                };
                findings.push(f);
                assert(finding_views(findings@) =~= before.push(secret_finding(s@, k as int)));
            } else {
                assert(finding_views(findings@) =~= before);
            }
            assert(finding_views(findings@) =~= base + findings_in(s@, k + 1));
            k = k + 1;
        }
        assert(sv[i as int] == s@);
        assert(finding_views(findings@) =~= findings_over(sv, i + 1));
        i = i + 1;
    }
    findings
}

/// The permission a manifest line declares: on a line that mentions
/// `uses-permission`, the text from the first `android.permission.` up to
/// the next double quote.
pub open spec fn permission_of_line(l: Seq<char>) -> Option<Seq<char>> {
    if contains_seq(l, "uses-permission"@) {
        match first_occurrence(l, "android.permission."@) {
            Some(st) => {
                let rest = l.subrange(st, l.len() as int);
                match first_occurrence(rest, "\""@) {
                    Some(e) => Some(rest.take(e)),
                    None => None,
                }
            },
            None => None,
        }
    } else {
        None
    }
}

/// The permissions declared on the first `n` lines, in order.
pub open spec fn permissions_of(lines: Seq<Seq<char>>, n: int) -> Seq<Seq<char>>
    decreases n,
{
    if n <= 0 || n > lines.len() {
        Seq::empty()
    } else {
        permissions_of(lines, n - 1) + line_permissions(lines[n - 1])
    }
}

/// The permission of one line, as a list of at most one.
#[verifier::opaque]
pub open spec fn line_permissions(l: Seq<char>) -> Seq<Seq<char>> {
    match permission_of_line(l) {
        Some(p) => seq![p],
        None => Seq::empty(),
    }
}

/// The permissions declared on all of `lines`, in order.
pub open spec fn all_permissions(lines: Seq<Seq<char>>) -> Seq<Seq<char>> {
    permissions_of(lines, lines.len() as int)
}

/// The permissions that a manifest text declares, line by line.
pub open spec fn manifest_permissions(text: Seq<char>) -> Seq<Seq<char>> {
    all_permissions(lines_of(text))
}

/// The permission a line declares, if any.
fn line_permission(line: &str) -> (r: Option<String>)
    ensures
        match permission_of_line(line@) {
            Some(p) => r matches Some(x) && x@ == p,
            None => r is None,
        },
{
    let cs = chars_of(line);
    let marker = chars_of("uses-permission");
    if !contains_chars(cs.as_slice(), marker.as_slice()) {
        return None;
    }
    let prefix = chars_of("android.permission.");
    match find_chars(cs.as_slice(), prefix.as_slice()) {
        Some(st) => {
            let rest = substring(cs.as_slice(), st, cs.len());
            let rest_cs = chars_of(rest.as_str());
            let quote = chars_of("\"");
            match find_chars(rest_cs.as_slice(), quote.as_slice()) {
                Some(e) => {
                    let p = substring(rest_cs.as_slice(), 0, e);
                    assert(p@ =~= rest@.take(e as int));
                    Some(p)
                },
                None => None,
            }
        },
        None => None,
    }
}

/// Android permissions analysis (from AndroidManifest.xml): the permission
/// of each `uses-permission` line, in order.
#[verifier::rlimit(60)]
pub fn analyze_permissions(manifest_content: &str) -> (r: Vec<String>)
    ensures
        string_views(r@) == manifest_permissions(manifest_content@),
{
    let lines = text_lines(manifest_content);
    let ghost ls = lines_of(manifest_content@);
    let mut permissions: Vec<String> = Vec::new();
    let mut i: usize = 0;
    while i < lines.len()
        invariant
            i <= lines@.len(),
            string_views(lines@) == ls,
            string_views(permissions@) == permissions_of(ls, i as int),
        decreases lines@.len() - i,
    {
        let ghost before = string_views(permissions@);
        assert(ls[i as int] == lines@[i as int]@);
        assert(permissions_of(ls, i + 1) == permissions_of(ls, i as int) + line_permissions(ls[i as int]));
        match line_permission(lines[i].as_str()) {
            Some(p) => {
                permissions.push(p);
                proof {
                    reveal(line_permissions);
                }
                assert(line_permissions(ls[i as int]) == seq![p@]);
                assert(string_views(permissions@) =~= before.push(p@));
            },
            None => {
                proof {
                    reveal(line_permissions);
                }
                assert(line_permissions(ls[i as int]) == Seq::<Seq<char>>::empty());
            },
        }
        assert(string_views(permissions@) =~= permissions_of(ls, i + 1));
        i = i + 1;
    }
    assert(manifest_permissions(manifest_content@) == permissions_of(ls, ls.len() as int));
    permissions
}

proof fn lemma_permissions_prefix(z: Seq<Seq<char>>, w: Seq<Seq<char>>, k: int)
    requires
        0 <= k <= z.len(),
        k <= w.len(),
        z.take(k) == w.take(k),
    ensures
        permissions_of(z, k) == permissions_of(w, k),
    decreases k,
{
    if k > 0 {
        assert(z[k - 1] == z.take(k)[k - 1]);
        assert(w[k - 1] == w.take(k)[k - 1]);
        assert(z.take(k - 1) =~= z.take(k).take(k - 1));
        assert(w.take(k - 1) =~= w.take(k).take(k - 1));
        lemma_permissions_prefix(z, w, k - 1);
    }
}

proof fn lemma_all_permissions_concat(x: Seq<Seq<char>>, y: Seq<Seq<char>>)
    ensures
        all_permissions(x + y) == all_permissions(x) + all_permissions(y),
    decreases y.len(),
{
    if y.len() == 0 {
        assert(x + y =~= x);
        assert(all_permissions(x) + all_permissions(y) =~= all_permissions(x));
    } else {
        let y1 = y.drop_last();
        let xy = x + y;
        lemma_all_permissions_concat(x, y1);
        assert(xy.take(xy.len() - 1) =~= (x + y1).take(xy.len() - 1));
        lemma_permissions_prefix(xy, x + y1, xy.len() - 1);
        assert(y.take(y.len() - 1) =~= y1.take(y.len() - 1));
        lemma_permissions_prefix(y, y1, y.len() - 1);
        assert(xy[xy.len() - 1] == y[y.len() - 1]);
        assert(all_permissions(xy) =~= all_permissions(x) + all_permissions(y));
    }
}

proof fn lemma_single_line(l: Seq<char>)
    ensures
        all_permissions(seq![l]) == line_permissions(l),
{
    assert(permissions_of(seq![l], 0) == Seq::<Seq<char>>::empty());
    assert(all_permissions(seq![l]) =~= line_permissions(l));
}

proof fn lemma_needles_end()
    ensures
        "uses-permission"@.len() > 0 && "uses-permission"@.last() != '\r',
        "android.permission."@.len() > 0 && "android.permission."@.last() != '\r',
        "\""@.len() > 0 && "\""@.last() != '\r',
{
    reveal_strlit("uses-permission");
    reveal_strlit("android.permission.");
    reveal_strlit("\"");
}

/// A carriage return at the end of a line changes nothing of what it declares.
#[verifier::rlimit(60)]
proof fn lemma_permission_ignores_cr(l: Seq<char>)
    ensures
        permission_of_line(l.push('\r')) == permission_of_line(l),
{
    lemma_needles_end();
    let l2 = l.push('\r');
    let marker = "uses-permission"@;
    let prefix = "android.permission."@;
    let quote = "\""@;
    lemma_first_occurrence_push(l, marker, '\r');
    lemma_first_occurrence_push(l, prefix, '\r');
    lemma_first_occurrence(l, prefix);
    match first_occurrence(l, prefix) {
        Some(st) => {
            let rest = l.subrange(st, l.len() as int);
            assert(l2.subrange(st, l2.len() as int) =~= rest.push('\r'));
            lemma_first_occurrence_push(rest, quote, '\r');
            lemma_first_occurrence(rest, quote);
            match first_occurrence(rest, quote) {
                Some(e) => {
                    assert(rest.push('\r').take(e) =~= rest.take(e));
                },
                None => {},
            }
        },
        None => {},
    }
}

proof fn lemma_line_permissions_cr(l: Seq<char>)
    ensures
        line_permissions(l.push('\r')) == line_permissions(l),
{
    reveal(line_permissions);
    lemma_permission_ignores_cr(l);
}

proof fn lemma_no_permission_on_empty_line()
    ensures
        line_permissions(Seq::<char>::empty()) == Seq::<Seq<char>>::empty(),
{
    reveal(line_permissions);
    reveal_strlit("uses-permission");
    assert(!contains_seq(Seq::<char>::empty(), "uses-permission"@));
}

proof fn lemma_permissions_before(a: Seq<char>, b: Seq<char>, i: int)
    requires
        0 <= i <= a.len(),
    ensures
        all_permissions(lines_from(a + seq!['\n'] + b, i)) == all_permissions(lines_from(a, i))
            + all_permissions(lines_from(a + seq!['\n'] + b, a.len() as int + 1)),
    decreases a.len() - i,
{
    let s = a + seq!['\n'] + b;
    let n = a.len() as int;
    lemma_next_newline_before(a, b, i);
    lemma_next_newline_bounds(a, i);
    lemma_next_newline_bounds(s, i);
    let e = next_newline(a, i);
    assert(lines_from(s, i) == seq![line_body(s, i, e)] + lines_from(s, e + 1));
    lemma_all_permissions_concat(seq![line_body(s, i, e)], lines_from(s, e + 1));
    lemma_single_line(line_body(s, i, e));
    if i == n {
        assert(line_body(s, n, n) =~= Seq::<char>::empty());
        lemma_no_permission_on_empty_line();
        assert(lines_from(a, n) == Seq::<Seq<char>>::empty());
        assert(all_permissions(Seq::<Seq<char>>::empty()) == Seq::<Seq<char>>::empty());
        assert(all_permissions(lines_from(s, i)) =~= all_permissions(lines_from(a, i))
            + all_permissions(lines_from(s, n + 1)));
    } else {
        assert(lines_from(a, i) == seq![line_body(a, i, e)] + lines_from(a, e + 1));
        lemma_all_permissions_concat(seq![line_body(a, i, e)], lines_from(a, e + 1));
        lemma_single_line(line_body(a, i, e));
        if e < n {
            if i < e {
                assert(s[e - 1] == a[e - 1]);
            }
            assert(line_body(s, i, e) =~= line_body(a, i, e));
            lemma_permissions_before(a, b, e + 1);
            assert(all_permissions(lines_from(s, i)) =~= all_permissions(lines_from(a, i))
                + all_permissions(lines_from(s, n + 1)));
        } else {
            assert(lines_from(a, e + 1) == Seq::<Seq<char>>::empty());
            assert(all_permissions(Seq::<Seq<char>>::empty()) == Seq::<Seq<char>>::empty());
            assert(s[n - 1] == a[n - 1]);
            if s[n - 1] == '\r' {
                assert(line_body(a, i, n) =~= line_body(s, i, n).push('\r'));
                lemma_line_permissions_cr(line_body(s, i, n));
            } else {
                assert(line_body(a, i, n) =~= line_body(s, i, n));
            }
            assert(all_permissions(lines_from(s, i)) =~= all_permissions(lines_from(a, i))
                + all_permissions(lines_from(s, n + 1)));
        }
    }
}

/// Two manifest texts joined by a line feed declare the permissions of the
/// first followed by those of the second.
pub proof fn law_permissions_concatenate(a: Seq<char>, b: Seq<char>)
    ensures
        manifest_permissions(a + seq!['\n'] + b) == manifest_permissions(a) + manifest_permissions(b),
{
    lemma_permissions_before(a, b, 0);
    lemma_lines_after(a, b, a.len() as int + 1);
}

/// What a declared permission looks like: it begins with
/// `android.permission.` and holds no double quote.
pub open spec fn is_permission_text(p: Seq<char>) -> bool {
    starts_with_seq(p, "android.permission."@) && forall|j: int| 0 <= j < p.len() ==> p[j] != '"'
}

proof fn lemma_prefix_has_no_quote()
    ensures
        "android.permission."@.len() == 19,
        forall|j: int| 0 <= j < 19 ==> "android.permission."@[j] != '"',
        "\""@ == seq!['"'],
{
    reveal_strlit("android.permission.");
    reveal_strlit("\"");
    assert("\""@ =~= seq!['"']);
}

#[verifier::rlimit(60)]
proof fn lemma_line_shape(l: Seq<char>)
    ensures
        permission_of_line(l) matches Some(p) ==> is_permission_text(p),
{
    lemma_prefix_has_no_quote();
    let prefix = "android.permission."@;
    let quote = "\""@;
    lemma_first_occurrence(l, prefix);
    if let Some(p) = permission_of_line(l) {
        let st = first_occurrence(l, prefix)->0;
        let rest = l.subrange(st, l.len() as int);
        lemma_first_occurrence(rest, quote);
        let e = first_occurrence(rest, quote)->0;
        assert(p == rest.take(e));
        assert(rest.subrange(0, 19) =~= l.subrange(st, st + 19));
        assert(rest[e] == '"') by {
            assert(rest.subrange(e, e + 1)[0] == quote[0]);
        }
        if e < 19 {
            assert(rest[e] == rest.subrange(0, 19)[e]);
            assert(false);
        }
        assert(p.subrange(0, 19) =~= rest.subrange(0, 19));
        assert forall|j: int| 0 <= j < p.len() implies p[j] != '"' by {
            if p[j] == '"' {
                assert(rest.subrange(j, j + 1) =~= quote);
                assert(occurs_at(rest, quote, j));
            }
        }
    }
}

proof fn lemma_permissions_shape(lines: Seq<Seq<char>>, n: int)
    requires
        0 <= n <= lines.len(),
    ensures
        permissions_of(lines, n).len() <= n,
        forall|k: int| 0 <= k < permissions_of(lines, n).len() ==> is_permission_text(#[trigger] permissions_of(lines, n)[k]),
    decreases n,
{
    if n > 0 {
        lemma_permissions_shape(lines, n - 1);
        lemma_line_shape(lines[n - 1]);
        reveal(line_permissions);
        let prev = permissions_of(lines, n - 1);
        assert forall|k: int| 0 <= k < permissions_of(lines, n).len() implies is_permission_text(
            #[trigger] permissions_of(lines, n)[k]) by {
            if k < prev.len() {
                assert(permissions_of(lines, n)[k] == prev[k]);
            }
        }
    }
}

/// Each permission that a manifest declares begins with
/// `android.permission.` and holds no double quote, and no line declares
/// more than one.
pub proof fn law_permission_shape(text: Seq<char>)
    ensures
        manifest_permissions(text).len() <= lines_of(text).len(),
        forall|k: int| 0 <= k < manifest_permissions(text).len() ==> is_permission_text(#[trigger] manifest_permissions(text)[k]),
{
    lemma_permissions_shape(lines_of(text), lines_of(text).len() as int);
}

} // verus!
