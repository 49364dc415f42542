//! Dart VM versions and the strategies that detect them in a binary.

use vstd::prelude::*;
use crate::text::{decimal_seq, owned, push_decimal, push_str};

verus! {

/// Dart VM release channel.
#[derive(Debug, Clone, Copy, PartialEq, Eq, Hash, Structural)]
pub enum Channel {
    Stable,
    Beta,
    Dev,
    Unknown,
}

/// How the version was detected.
#[derive(Debug, Clone, Copy, PartialEq, Eq, Hash, Structural)]
pub enum DetectionMethod {
    /// Found version string directly (e.g. "3.2.0 (stable)")
    VersionString,
    /// Identified by SDK hash
    SdkHash,
    /// Heuristic based on struct sizes/fingerprinting
    StructFingerprint,
    /// Compared stub code patterns
    StubComparison,
}

/// Confidence level for version detection.
#[derive(Debug, Clone, Copy, PartialEq, Eq, Hash, Structural)]
pub enum Confidence {
    High,
    Medium,
    Low,
}

/// Detected Dart VM version.
#[derive(Debug, Clone)]
pub struct DartVersion {
    pub major: u32,
    pub minor: u32,
    pub patch: u32,
    pub channel: Channel,
    pub sdk_hash: Option<String>,
    pub detection_method: DetectionMethod,
    pub confidence: Confidence,
    pub raw_string: Option<String>,
}

/// The display name of a channel.
pub open spec fn channel_name(c: Channel) -> Seq<char> {
    match c {
        Channel::Stable => "stable"@,
        Channel::Beta => "beta"@,
        Channel::Dev => "dev"@,
        Channel::Unknown => "unknown"@,
    }
}

/// The name of a confidence level as `Debug` writes it.
pub open spec fn confidence_name(c: Confidence) -> Seq<char> {
    match c {
        Confidence::High => "High"@,
        Confidence::Medium => "Medium"@,
        Confidence::Low => "Low"@,
    }
}

/// The suffix a version's display gives its channel.
pub open spec fn channel_suffix(c: Channel) -> Seq<char> {
    match c {
        Channel::Stable => " (stable)"@,
        Channel::Beta => " (beta)"@,
        Channel::Dev => " (dev)"@,
        Channel::Unknown => Seq::empty(),
    }
}

/// The display text of a version: `X.Y.Z`, the channel, and the confidence unless high.
pub open spec fn version_text(v: DartVersion) -> Seq<char> {
    decimal_seq(v.major as nat) + "."@ + decimal_seq(v.minor as nat) + "."@ + decimal_seq(
        v.patch as nat,
    ) + channel_suffix(v.channel) + if v.confidence == Confidence::High {
        Seq::empty()
    } else {
        " [confidence: "@ + confidence_name(v.confidence) + "]"@
    }
}

impl Channel {
    /// The display name (`stable`, `beta`, `dev`, `unknown`).
    pub fn display(&self) -> (r: String)
        ensures
            r@ == channel_name(*self),
    {
        match self {
            Channel::Stable => owned("stable"),
            Channel::Beta => owned("beta"),
            Channel::Dev => owned("dev"),
            Channel::Unknown => owned("unknown"),
        }
    }
}

impl Confidence {
    /// The name as `Debug` writes it (`High`, `Medium`, `Low`).
    pub fn name(&self) -> (r: &'static str)
        ensures
            r@ == confidence_name(*self),
    {
        match self {
            Confidence::High => "High",
            Confidence::Medium => "Medium",
            Confidence::Low => "Low",
        }
    }
}

impl DartVersion {
    /// The display text, e.g. `3.2.0 (stable)` or `3.0.0 [confidence: Low]`.
    pub fn display(&self) -> (r: String)
        ensures
            r@ == version_text(*self),
    {
        let mut s = String::new();
        push_decimal(&mut s, self.major as u64);
        push_str(&mut s, ".");
        push_decimal(&mut s, self.minor as u64);
        push_str(&mut s, ".");
        push_decimal(&mut s, self.patch as u64);
        let suffix = match self.channel {
            Channel::Stable => " (stable)",
            Channel::Beta => " (beta)",
            Channel::Dev => " (dev)",
            Channel::Unknown => "",
        };
        proof {
            reveal_strlit("");
        }
        assert(suffix@ == channel_suffix(self.channel));
        push_str(&mut s, suffix);
        if self.confidence != Confidence::High {
            push_str(&mut s, " [confidence: ");
            push_str(&mut s, self.confidence.name());
            push_str(&mut s, "]");
        }
        assert(s@ =~= version_text(*self));
        s
    }
}

} // verus!
