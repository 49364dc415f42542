//! SARIF reports of security findings.

use vstd::prelude::*;
use crate::scan::{SecurityFinding, Severity};
use crate::text::owned;

verus! {

/// A SARIF log.
pub struct SarifReport {
    pub schema: String,
    pub version: String,
    pub runs: Vec<SarifRun>,
}

/// One run of a tool.
pub struct SarifRun {
    pub tool: SarifTool,
    pub results: Vec<SarifResult>,
}

/// The tool of a run.
pub struct SarifTool {
    pub driver: SarifDriver,
}

/// The tool's driver and the rules it knows.
pub struct SarifDriver {
    pub name: String,
    pub version: String,
    pub rules: Vec<SarifRule>,
}

/// A rule of the tool.
pub struct SarifRule {
    pub id: String,
    pub name: String,
    pub short_description: SarifMessage,
}

/// One result of a run.
pub struct SarifResult {
    pub rule_id: String,
    pub level: String,
    pub message: SarifMessage,
}

/// A message.
pub struct SarifMessage {
    pub text: String,
}

/// Whether a rule has the given id, name and description.
pub open spec fn rule_is(r: SarifRule, id: Seq<char>, name: Seq<char>, text: Seq<char>) -> bool {
    r.id@ == id && r.name@ == name && r.short_description.text@ == text
}

/// A rule.
fn rule(id: &str, name: &str, text: &str) -> (r: SarifRule)
    ensures
        rule_is(r, id@, name@, text@),
{
    SarifRule { id: owned(id), name: owned(name), short_description: SarifMessage { text: owned(text) } }
}

/// The report frame holds: SARIF 2.1.0, one run of `dart_dec` 0.1.0, which
/// knows the rules DART001 (hardcoded secret), DART002 (weak crypto) and
/// DART003 (insecure URL).
pub open spec fn report_frame(r: SarifReport) -> bool {
    &&& r.schema@ == "https://raw.githubusercontent.com/oasis-tcs/sarif-spec/master/Schemata/sarif-schema-2.1.0.json"@
    &&& r.version@ == "2.1.0"@
    &&& r.runs@.len() == 1
    &&& r.runs@[0].tool.driver.name@ == "dart_dec"@
    &&& r.runs@[0].tool.driver.version@ == "0.1.0"@
    &&& r.runs@[0].tool.driver.rules@.len() == 3
    &&& rule_is(r.runs@[0].tool.driver.rules@[0], "DART001"@, "HardcodedSecret"@, "Hardcoded secret found"@)
    &&& rule_is(r.runs@[0].tool.driver.rules@[1], "DART002"@, "WeakCrypto"@, "Weak cryptographic primitive"@)
    &&& rule_is(r.runs@[0].tool.driver.rules@[2], "DART003"@, "InsecureUrl"@, "Insecure HTTP URL found"@)
}

/// The report frame with the given results in its run.
fn report_with_results(results: Vec<SarifResult>) -> (r: SarifReport)
    ensures
        report_frame(r),
        r.runs@[0].results@ == results@,
{
    let rules = vec![
        rule("DART001", "HardcodedSecret", "Hardcoded secret found"),
        rule("DART002", "WeakCrypto", "Weak cryptographic primitive"),
        rule("DART003", "InsecureUrl", "Insecure HTTP URL found"),
    ];
    let run = SarifRun {
        tool: SarifTool { driver: SarifDriver { name: owned("dart_dec"), version: owned("0.1.0"), rules: rules } },
        results: results,
    };
    SarifReport {
        schema: owned("https://raw.githubusercontent.com/oasis-tcs/sarif-spec/master/Schemata/sarif-schema-2.1.0.json"),
        version: owned("2.1.0"),
        runs: vec![run],
    }
}

/// A SARIF 2.1.0 report with one run of `dart_dec` 0.1.0, which knows the
/// rules DART001 (hardcoded secret), DART002 (weak crypto) and DART003
/// (insecure URL), and has no result yet.
pub fn new_report() -> (r: SarifReport)
    ensures
        report_frame(r),
        r.runs@[0].results@.len() == 0,
{
    report_with_results(Vec::new())
}

/// The SARIF level of a severity: critical and high findings are errors,
/// medium ones warnings, low ones notes.
pub open spec fn sarif_level(s: Severity) -> Seq<char> {
    match s {
        Severity::Critical => "error"@,
        Severity::High => "error"@,
        Severity::Medium => "warning"@,
        Severity::Low => "note"@,
    }
}

/// The SARIF level of a severity.
pub fn severity_level(s: Severity) -> (r: String)
    ensures
        r@ == sarif_level(s),
{
    match s {
        Severity::Critical => owned("error"),
        Severity::High => owned("error"),
        Severity::Medium => owned("warning"),
        Severity::Low => owned("note"),
    }
}

/// A result reports a finding: its rule, the level of its severity and its
/// description as the message.
pub open spec fn reports_finding(r: SarifResult, f: SecurityFinding) -> bool {
    &&& r.rule_id@ == f.rule_id@
    &&& r.level@ == sarif_level(f.severity)
    &&& r.message.text@ == f.description@
}

/// The SARIF report of a security scan: the report frame of `new_report`,
/// with one result per finding, in order.
pub fn sarif_report_from(findings: &[SecurityFinding]) -> (r: SarifReport)
    ensures
        report_frame(r),
        r.runs@[0].results@.len() == findings@.len(),
        forall|i: int| 0 <= i < findings@.len() ==> reports_finding(#[trigger] r.runs@[0].results@[i], findings@[i]),
{
    let mut results: Vec<SarifResult> = Vec::new();
    let mut i: usize = 0;
    while i < findings.len()
        invariant
            i <= findings@.len(),
            results@.len() == i,
            forall|k: int| 0 <= k < i ==> reports_finding(#[trigger] results@[k], findings@[k]),
        decreases findings@.len() - i,
    {
        let f = &findings[i];
        let res = SarifResult {
            rule_id: f.rule_id.clone(),
            level: severity_level(f.severity),
            message: SarifMessage { text: f.description.clone() },
        };
        results.push(res);
        i = i + 1;
    }
    report_with_results(results)
}

} // verus!
