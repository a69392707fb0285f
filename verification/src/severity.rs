//! Severity levels for structured logs.

use vstd::prelude::*;

use crate::validation::ValidationError;

verus! {

/// Canonical severity levels, ordered from most verbose to most severe.
#[derive(Clone, Copy, Debug, PartialEq, Eq, PartialOrd, Ord, Hash)]
pub enum Severity {
    /// Trace level - most verbose
    Trace,
    /// Debug level - development debugging
    Debug,
    /// Info level - general information
    Info,
    /// Warn level - warning conditions
    Warn,
    /// Error level - error conditions
    Error,
    /// Fatal level - critical errors
    Fatal,
}

/// Position of a severity in the total order `Trace < Debug < ... < Fatal`.
pub open spec fn severity_rank(s: Severity) -> nat {
    match s {
        Severity::Trace => 0,
        Severity::Debug => 1,
        Severity::Info => 2,
        Severity::Warn => 3,
        Severity::Error => 4,
        Severity::Fatal => 5,
    }
}

/// The ranks follow the declared order strictly, `Trace < Debug < Info <
/// Warn < Error < Fatal`, so no two severities share a rank.
pub proof fn law_severity_ranks_strictly_increase()
    ensures
        severity_rank(Severity::Trace) < severity_rank(Severity::Debug),
        severity_rank(Severity::Debug) < severity_rank(Severity::Info),
        severity_rank(Severity::Info) < severity_rank(Severity::Warn),
        severity_rank(Severity::Warn) < severity_rank(Severity::Error),
        severity_rank(Severity::Error) < severity_rank(Severity::Fatal),
        forall|a: Severity, b: Severity| #[trigger] severity_rank(a) == #[trigger] severity_rank(b) ==> a == b,
{
}

/// Title-case display name of a severity.
pub open spec fn severity_display(s: Severity) -> Seq<char> {
    match s {
        Severity::Trace => "Trace"@,
        Severity::Debug => "Debug"@,
        Severity::Info => "Info"@,
        Severity::Warn => "Warn"@,
        Severity::Error => "Error"@,
        Severity::Fatal => "Fatal"@,
    }
}

/// Lower-case keyword that names a severity when parsing.
pub open spec fn severity_keyword(s: Severity) -> Seq<char> {
    match s {
        Severity::Trace => "trace"@,
        Severity::Debug => "debug"@,
        Severity::Info => "info"@,
        Severity::Warn => "warn"@,
        Severity::Error => "error"@,
        Severity::Fatal => "fatal"@,
    }
}

/// Code point of a character after ASCII lower-casing.
pub open spec fn ascii_lower(c: char) -> int {
    if 'A' <= c && c <= 'Z' {
        (c as int) + 32
    } else {
        c as int
    }
}

/// Two character sequences are equal up to ASCII case.
///
/// For the severity keywords this coincides with comparing full Unicode
/// lower-casings: no non-ASCII character lower-cases to one of their letters.
pub open spec fn eq_ignore_ascii_case(a: Seq<char>, b: Seq<char>) -> bool {
    &&& a.len() == b.len()
    &&& forall|i: int| 0 <= i < a.len() ==> ascii_lower(#[trigger] a[i]) == ascii_lower(b[i])
}

impl Severity {
    /// The rank of this severity in the total order.
    pub fn rank(&self) -> (r: u8)
        ensures
            r == severity_rank(*self),
    {
        match self {
            Severity::Trace => 0,
            Severity::Debug => 1,
            Severity::Info => 2,
            Severity::Warn => 3,
            Severity::Error => 4,
            Severity::Fatal => 5,
        }
    }

    /// `true` when `self` is at least as severe as `other`.
    pub fn at_least(&self, other: &Severity) -> (r: bool)
        ensures
            r == (severity_rank(*self) >= severity_rank(*other)),
    {
        self.rank() >= other.rank()
    }

    /// Title-case name: `Trace`, `Debug`, `Info`, `Warn`, `Error`, `Fatal`.
    pub fn display_name(&self) -> (r: String)
        ensures
            r@ == severity_display(*self),
    {
        let s = match self {
            Severity::Trace => "Trace",
            Severity::Debug => "Debug",
            Severity::Info => "Info",
            Severity::Warn => "Warn",
            Severity::Error => "Error",
            Severity::Fatal => "Fatal",
        };
        s.to_string()
    }

    /// Parses a severity keyword, ignoring case.
    pub fn parse(s: &str) -> (r: Result<Severity, ValidationError>)
        ensures
            match r {
                Ok(sev) => eq_ignore_ascii_case(s@, severity_keyword(sev)),
                Err(e) => e == ValidationError::InvalidSeverity
                    && forall|k: Severity| !eq_ignore_ascii_case(s@, #[trigger] severity_keyword(k)),
            },
    {
        proof { reveal_strlit("trace"); reveal_strlit("debug"); reveal_strlit("info");
            reveal_strlit("warn"); reveal_strlit("error"); reveal_strlit("fatal"); }
        if matches_keyword(s, "trace") {
            Ok(Severity::Trace)
        } else if matches_keyword(s, "debug") {
            Ok(Severity::Debug)
        } else if matches_keyword(s, "info") {
            Ok(Severity::Info)
        } else if matches_keyword(s, "warn") {
            Ok(Severity::Warn)
        } else if matches_keyword(s, "error") {
            Ok(Severity::Error)
        } else if matches_keyword(s, "fatal") {
            Ok(Severity::Fatal)
        } else {
            Err(ValidationError::InvalidSeverity)
        }
    }
}

impl std::str::FromStr for Severity {
    type Err = ValidationError;

    fn from_str(s: &str) -> (r: Result<Severity, ValidationError>)
        ensures
            match r {
                Ok(sev) => eq_ignore_ascii_case(s@, severity_keyword(sev)),
                Err(e) => e == ValidationError::InvalidSeverity
                    && forall|k: Severity| !eq_ignore_ascii_case(s@, #[trigger] severity_keyword(k)),
            },
    {
        Severity::parse(s)
    }
}

fn lower_char(c: char) -> (r: u32)
    ensures
        r == ascii_lower(c),
{
    if 'A' <= c && c <= 'Z' {
        (c as u32) + 32
    } else {
        c as u32
    }
}

/// Case-insensitive comparison of `s` against an ASCII keyword.
fn matches_keyword(s: &str, keyword: &str) -> (r: bool)
    ensures
        r == eq_ignore_ascii_case(s@, keyword@),
{
    let n = s.unicode_len();
    let m = keyword.unicode_len();
    if n != m {
        return false;
    }
    let mut i: usize = 0;
    while i < n
        invariant
            n == s@.len(),
            m == keyword@.len(),
            n == m,
            i <= n,
            forall|j: int| 0 <= j < i ==> ascii_lower(#[trigger] s@[j]) == ascii_lower(keyword@[j]),
        decreases n - i,
    {
        if lower_char(s.get_char(i)) != lower_char(keyword.get_char(i)) {
            return false;
        }
        i = i + 1;
    }
    true
}

} // verus!
