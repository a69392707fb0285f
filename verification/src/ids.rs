//! Opaque string identifiers that tag a log line.

use vstd::prelude::*;

verus! {

/// Opaque string identifier for cross-service correlation.
#[derive(Clone, Debug, PartialEq, Eq, Hash)]
pub struct CorrelationId(String);

/// Opaque string identifier for trace correlation.
#[derive(Clone, Debug, PartialEq, Eq, Hash)]
pub struct TraceId(String);

/// Opaque string identifier for span correlation.
#[derive(Clone, Debug, PartialEq, Eq, Hash)]
pub struct SpanId(String);

impl View for CorrelationId {
    type V = Seq<char>;

    closed spec fn view(&self) -> Seq<char> {
        self.0@
    }
}

impl View for TraceId {
    type V = Seq<char>;

    closed spec fn view(&self) -> Seq<char> {
        self.0@
    }
}

impl View for SpanId {
    type V = Seq<char>;

    closed spec fn view(&self) -> Seq<char> {
        self.0@
    }
}

impl CorrelationId {
    /// Creates a new correlation ID.
    pub fn new(id: String) -> (r: Self)
        ensures
            r@ == id@,
    {
        CorrelationId(id)
    }

    /// Returns a string slice of the inner identifier.
    pub fn as_str(&self) -> (r: &str)
        ensures
            r@ == self@,
    {
        self.0.as_str()
    }

    /// The identifier's text, as its `Display` rendered it.
    pub fn to_text(&self) -> (r: String)
        ensures
            r@ == self@,
    {
        self.0.clone()
    }

    /// Copies the identifier.
    pub fn duplicate(&self) -> (r: Self)
        ensures
            r == *self,
    {
        CorrelationId(self.0.clone())
    }
}

impl TraceId {
    /// Creates a new trace ID.
    pub fn new(id: String) -> (r: Self)
        ensures
            r@ == id@,
    {
        TraceId(id)
    }

    /// Returns a string slice of the inner identifier.
    pub fn as_str(&self) -> (r: &str)
        ensures
            r@ == self@,
    {
        self.0.as_str()
    }

    /// The identifier's text, as its `Display` rendered it.
    pub fn to_text(&self) -> (r: String)
        ensures
            r@ == self@,
    {
        self.0.clone()
    }

    /// Copies the identifier.
    pub fn duplicate(&self) -> (r: Self)
        ensures
            r == *self,
    {
        TraceId(self.0.clone())
    }
}

impl SpanId {
    /// Creates a new span ID.
    pub fn new(id: String) -> (r: Self)
        ensures
            r@ == id@,
    {
        SpanId(id)
    }

    /// Returns a string slice of the inner identifier.
    pub fn as_str(&self) -> (r: &str)
        ensures
            r@ == self@,
    {
        self.0.as_str()
    }

    /// The identifier's text, as its `Display` rendered it.
    pub fn to_text(&self) -> (r: String)
        ensures
            r@ == self@,
    {
        self.0.clone()
    }

    /// Copies the identifier.
    pub fn duplicate(&self) -> (r: Self)
        ensures
            r == *self,
    {
        SpanId(self.0.clone())
    }
}

impl From<String> for CorrelationId {
    fn from(s: String) -> (r: Self)
        ensures
            r@ == s@,
    {
        CorrelationId(s)
    }
}

impl vstd::std_specs::convert::FromSpecImpl<String> for CorrelationId {
    open spec fn obeys_from_spec() -> bool {
        true
    }

    closed spec fn from_spec(v: String) -> Self {
        CorrelationId(v)
    }
}

impl From<String> for TraceId {
    fn from(s: String) -> (r: Self)
        ensures
            r@ == s@,
    {
        TraceId(s)
    }
}

impl vstd::std_specs::convert::FromSpecImpl<String> for TraceId {
    open spec fn obeys_from_spec() -> bool {
        true
    }

    closed spec fn from_spec(v: String) -> Self {
        TraceId(v)
    }
}

impl From<String> for SpanId {
    fn from(s: String) -> (r: Self)
        ensures
            r@ == s@,
    {
        SpanId(s)
    }
}

impl vstd::std_specs::convert::FromSpecImpl<String> for SpanId {
    open spec fn obeys_from_spec() -> bool {
        true
    }

    closed spec fn from_spec(v: String) -> Self {
        SpanId(v)
    }
}

} // verus!
