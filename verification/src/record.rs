//! Log records: the canonical, immutable log entry.

use vstd::prelude::*;

use crate::attribute::{LogAttribute, Timestamp};
use crate::severity::Severity;
use crate::validation::ValidationError;

verus! {

/// Canonical log entry. Immutable after construction.
#[derive(Clone, Debug, PartialEq)]
pub struct LogRecord {
    timestamp: Timestamp,
    severity: Severity,
    message: String,
    attributes: Vec<LogAttribute>,
}

impl LogRecord {
    /// The record's timestamp.
    pub closed spec fn spec_timestamp(&self) -> Timestamp {
        self.timestamp
    }

    /// The record's severity.
    pub closed spec fn spec_severity(&self) -> Severity {
        self.severity
    }

    /// The record's message.
    pub closed spec fn spec_message(&self) -> Seq<char> {
        self.message@
    }

    /// The record's attributes, in order.
    pub closed spec fn spec_attributes(&self) -> Seq<LogAttribute> {
        self.attributes@
    }

    /// The record was built by `new` (its message is non-empty).
    pub closed spec fn wf(&self) -> bool {
        self.message@.len() > 0
    }

    /// Creates a new log record; refuses an empty message.
    pub fn new(
        timestamp: Timestamp,
        severity: Severity,
        message: String,
        attributes: Vec<LogAttribute>,
    ) -> (r: Result<Self, ValidationError>)
        ensures
            message@.len() == 0 ==> r == Err::<Self, ValidationError>(ValidationError::EmptyMessage),
            message@.len() > 0 ==> (r matches Ok(rec) && rec.wf()
                && rec.spec_timestamp() == timestamp && rec.spec_severity() == severity
                && rec.spec_message() == message@ && rec.spec_attributes() == attributes@),
    {
        if message.as_str().is_empty() {
            return Err(ValidationError::EmptyMessage);
        }
        Ok(LogRecord { timestamp, severity, message, attributes })
    }

    /// A well-formed record has a non-empty message.
    pub proof fn lemma_wf_message(&self)
        requires
            self.wf(),
        ensures
            self.spec_message().len() > 0,
    {
    }

    /// Copies the record.
    pub fn duplicate(&self) -> (r: Self)
        ensures
            r.spec_timestamp() == self.spec_timestamp(),
            r.spec_severity() == self.spec_severity(),
            r.spec_message() == self.spec_message(),
            r.spec_attributes().len() == self.spec_attributes().len(),
            forall|i: int| 0 <= i < r.spec_attributes().len() ==>
                (#[trigger] r.spec_attributes()[i]).spec_name() == self.spec_attributes()[i].spec_name()
                && r.spec_attributes()[i].spec_value()@ == self.spec_attributes()[i].spec_value()@,
            self.wf() ==> r.wf(),
    {
        let mut out: Vec<LogAttribute> = Vec::new();
        let mut i: usize = 0;
        while i < self.attributes.len()
            invariant
                i <= self.attributes@.len(),
                out@.len() == i,
                forall|j: int| 0 <= j < i ==>
                    (#[trigger] out@[j]).spec_name() == self.attributes@[j].spec_name()
                    && out@[j].spec_value()@ == self.attributes@[j].spec_value()@,
            decreases self.attributes.len() - i,
        {
            out.push(self.attributes[i].duplicate());
            i = i + 1;
        }
        LogRecord {
            timestamp: self.timestamp,
            severity: self.severity,
            message: self.message.clone(),
            attributes: out,
        }
    }

    /// Returns the timestamp.
    pub fn timestamp(&self) -> (r: &Timestamp)
        ensures
            *r == self.spec_timestamp(),
    {
        &self.timestamp
    }

    /// Returns the severity.
    pub fn severity(&self) -> (r: &Severity)
        ensures
            *r == self.spec_severity(),
    {
        &self.severity
    }

    /// Returns the message.
    pub fn message(&self) -> (r: &str)
        ensures
            r@ == self.spec_message(),
    {
        self.message.as_str()
    }

    /// Returns the attributes.
    pub fn attributes(&self) -> (r: &[LogAttribute])
        ensures
            r@ == self.spec_attributes(),
    {
        self.attributes.as_slice()
    }
}

} // verus!
