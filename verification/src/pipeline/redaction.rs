//! Redaction: attributes whose names contain a configured fragment (without
//! regard to case) have their values replaced by a marker.

use vstd::prelude::*;

use crate::attribute::{LogAttribute, LogAttributeValue};
use crate::pipeline::config::RedactionConfig;
use crate::record::LogRecord;
use crate::text::str_chars;

verus! {

/// The value that replaces a redacted attribute's value.
pub const REDACTED_MARKER: &'static str = "**REDACTED**";

/// The lower-case form of a string as `str::to_lowercase` gives it (full
/// Unicode case mapping).
pub uninterp spec fn lowercase_text(s: Seq<char>) -> Seq<char>;

/// `str::to_lowercase`; its result is named `lowercase_text`.
#[verifier::external_body]
fn lowercase(s: &str) -> (r: String)
    ensures
        r@ == lowercase_text(s@),
{
    s.to_lowercase()
}

/// `t` occurs in `s` as a contiguous run of characters.
pub open spec fn contains_seq(s: Seq<char>, t: Seq<char>) -> bool {
    exists|i: int| 0 <= i && i + t.len() <= s.len() && #[trigger] s.subrange(i, i + t.len()) == t
}

fn seq_contains(s: &Vec<char>, t: &Vec<char>) -> (r: bool)
    ensures
        r == contains_seq(s@, t@),
{
    if t.len() > s.len() {
        return false;
    }
    if t.len() == 0 {
        assert(s@.subrange(0int, 0int + t@.len()) =~= t@);
        return true;
    }
    let mut i: usize = 0;
    let last = s.len() - t.len();
    while i <= last
        invariant
            0 < t@.len() <= s@.len(),
            s@.len() == s.len(),
            last == s@.len() - t@.len(),
            i <= last + 1,
            forall|k: int| 0 <= k < i ==> #[trigger] s@.subrange(k, k + t@.len()) != t@,
        decreases s@.len() - i,
    {
        let mut j: usize = 0;
        let mut same = true;
        while j < t.len()
            invariant
                i <= last,
                last == s@.len() - t@.len(),
                0 < t@.len() <= s@.len(),
                s@.len() == s.len(),
                j <= t@.len(),
                same == forall|m: int| 0 <= m < j ==> s@[i + m] == t@[m],
            decreases t@.len() - j,
        {
            if s[i + j] != t[j] {
                same = false;
            }
            j = j + 1;
        }
        if same {
            assert(s@.subrange(i as int, i + t@.len()) =~= t@);
            return true;
        }
        assert(s@.subrange(i as int, i + t@.len()) != t@) by {
            let m = choose|m: int| 0 <= m < t@.len() && s@[i + m] != t@[m];
            assert(s@.subrange(i as int, i + t@.len())[m] == s@[i + m]);
        }
        i = i + 1;
    }
    assert forall|k: int| 0 <= k && k + t@.len() <= s@.len() implies #[trigger] s@.subrange(k, k + t@.len())
        != t@ by {
    }
    false
}

/// `name` is sensitive: redaction is on and the lower-cased name contains
/// the lower-cased form of some configured field.
pub open spec fn is_sensitive_name(config: RedactionConfig, name: Seq<char>) -> bool {
    config.enabled && exists|i: int|
        0 <= i < config.fields@.len() && contains_seq(
            lowercase_text(name),
            lowercase_text(#[trigger] config.fields@[i]@),
        )
}

/// The value is the string marker `**REDACTED**`.
pub open spec fn is_redacted_value(v: LogAttributeValue) -> bool {
    v matches LogAttributeValue::String(s) && s@ == "**REDACTED**"@
}

/// `b` is `a` with its sensitive attributes redacted under `config`: the
/// same timestamp, severity, message and attribute names, in the same
/// order; each sensitive attribute's value is the marker, and every other
/// value is kept.
pub open spec fn redaction_of(config: RedactionConfig, a: LogRecord, b: LogRecord) -> bool {
    &&& b.spec_timestamp() == a.spec_timestamp()
    &&& b.spec_severity() == a.spec_severity()
    &&& b.spec_message() == a.spec_message()
    &&& b.spec_attributes().len() == a.spec_attributes().len()
    &&& forall|i: int|
        0 <= i < b.spec_attributes().len() ==> {
            let x = a.spec_attributes()[i];
            let y = #[trigger] b.spec_attributes()[i];
            &&& y.spec_name() == x.spec_name()
            &&& is_sensitive_name(config, x.spec_name()) ==> is_redacted_value(y.spec_value())
            &&& !is_sensitive_name(config, x.spec_name()) ==> y.spec_value()@ == x.spec_value()@
        }
}

/// Replaces the values of sensitive attributes with a marker.
pub struct Redactor {
    config: RedactionConfig,
}

impl Redactor {
    /// The configuration.
    pub closed spec fn spec_config(&self) -> RedactionConfig {
        self.config
    }

    /// A redactor with the given configuration.
    pub fn new(config: RedactionConfig) -> (r: Self)
        ensures
            r.spec_config() == config,
    {
        Redactor { config }
    }

    /// `name` contains a configured field, without regard to case.
    pub fn is_sensitive(&self, name: &str) -> (r: bool)
        ensures
            r == is_sensitive_name(self.spec_config(), name@),
    {
        if !self.config.enabled {
            return false;
        }
        let lname = lowercase(name);
        let lchars = str_chars(lname.as_str());
        let mut i: usize = 0;
        while i < self.config.fields.len()
            invariant
                self.config.enabled,
                lchars@ == lowercase_text(name@),
                i <= self.config.fields@.len(),
                forall|k: int| 0 <= k < i ==> !contains_seq(
                    lowercase_text(name@),
                    lowercase_text(#[trigger] self.config.fields@[k]@),
                ),
            decreases self.config.fields.len() - i,
        {
            let lfield = lowercase(self.config.fields[i].as_str());
            let fchars = str_chars(lfield.as_str());
            if seq_contains(&lchars, &fchars) {
                return true;
            }
            i = i + 1;
        }
        false
    }

    /// The attribute with its value replaced by the marker when its name is
    /// sensitive; otherwise a copy of it.
    pub fn redact_attribute(&self, attribute: &LogAttribute) -> (r: LogAttribute)
        ensures
            r.spec_name() == attribute.spec_name(),
            is_sensitive_name(self.spec_config(), attribute.spec_name()) ==> is_redacted_value(r.spec_value()),
            !is_sensitive_name(self.spec_config(), attribute.spec_name()) ==> r.spec_value()@
                == attribute.spec_value()@,
    {
        if self.is_sensitive(attribute.name()) {
            attribute.with_value(LogAttributeValue::string(REDACTED_MARKER.to_string()))
        } else {
            attribute.duplicate()
        }
    }

    /// A copy of `record` with every sensitive attribute redacted; the
    /// timestamp, severity, message and attribute order are kept.
    pub fn redact(&self, record: &LogRecord) -> (r: LogRecord)
        requires
            record.wf(),
        ensures
            r.wf(),
            redaction_of(self.spec_config(), *record, r),
    {
        let attrs = record.attributes();
        let mut out: Vec<LogAttribute> = Vec::new();
        let mut i: usize = 0;
        while i < attrs.len()
            invariant
                attrs@ == record.spec_attributes(),
                i <= attrs@.len(),
                out@.len() == i,
                forall|j: int|
                    0 <= j < i ==> {
                        let a = attrs@[j];
                        let b = #[trigger] out@[j];
                        &&& b.spec_name() == a.spec_name()
                        &&& is_sensitive_name(self.spec_config(), a.spec_name()) ==> is_redacted_value(b.spec_value())
                        &&& !is_sensitive_name(self.spec_config(), a.spec_name()) ==> b.spec_value()@
                            == a.spec_value()@
                    },
            decreases attrs.len() - i,
        {
            let b = self.redact_attribute(&attrs[i]);
            out.push(b);
            i = i + 1;
        }
        let message = record.message().to_string();
        proof {
            record.lemma_wf_message();
        }
        match LogRecord::new(*record.timestamp(), *record.severity(), message, out) {
            Ok(r) => r,
            Err(_) => {
                proof {
                    assert(false);
                }
                record.duplicate()
            },
        }
    }
}

} // verus!
