//! W3C Trace Context: trace and span identifiers, flags, state and the
//! `traceparent` text form.

use vstd::prelude::*;
use vstd::utf8::*;

use crate::hex::{byte_hex, first_bad_pair, hex_string, id_slicing_panics, pair_at, pair_bytes,
    pairs_ok_before, parse_hex_id, parse_hex_u8, parse_hex_u8_spec, push_hex_byte, push_hex_bytes};
use crate::text::{lemma_split_append_piece, lemma_split_single, no_char, push_char, push_str, split_on,
    split_str, strs_view};
use crate::hex::{all_hex, hex_char, hex_digit, hex_value, pair_ok};

verus! {

broadcast use vstd::utf8::encode_utf8_valid_utf8, vstd::utf8::encode_utf8_decode_utf8;

/// Outcome of reading an identifier of `n` bytes written in hexadecimal:
/// the bytes, or the error message (`len_msg` for a wrong byte length, else
/// `bad_prefix` followed by the text of the first pair that is not a byte).
pub open spec fn hex_id_outcome(s: Seq<char>, n: nat, len_msg: Seq<char>, bad_prefix: Seq<char>)
    -> Result<Seq<u8>, Seq<char>> {
    let b = encode_utf8(s);
    if b.len() != 2 * n {
        Err(len_msg)
    } else if pairs_ok_before(b, n as int) {
        Ok(pair_bytes(b, n))
    } else {
        Err(bad_prefix + decode_utf8(pair_at(b, first_bad_pair(b, n))))
    }
}

/// Outcome of `TraceId::from_str`.
pub open spec fn trace_id_outcome(s: Seq<char>) -> Result<Seq<u8>, Seq<char>> {
    hex_id_outcome(s, 16, "TraceId must be 32 characters"@, "Invalid hex character in TraceId: "@)
}

/// Outcome of `SpanId::from_str`.
pub open spec fn span_id_outcome(s: Seq<char>) -> Result<Seq<u8>, Seq<char>> {
    hex_id_outcome(s, 8, "SpanId must be 16 characters"@, "Invalid hex character in SpanId: "@)
}

fn read_hex_id(s: &str, n: usize, len_msg: &str, bad_prefix: &str) -> (r: Result<Vec<u8>, String>)
    requires
        n <= 16,
        !id_slicing_panics(encode_utf8(s@), n as nat),
    ensures
        match hex_id_outcome(s@, n as nat, len_msg@, bad_prefix@) {
            Ok(v) => r matches Ok(x) && x@ == v,
            Err(m) => r matches Err(x) && x@ == m,
        },
{
    match parse_hex_id(s, n) {
        Ok(v) => Ok(v),
        Err(None) => Err(len_msg.to_string()),
        Err(Some(t)) => {
            let mut m = bad_prefix.to_string();
            push_str(&mut m, t.as_str());
            Err(m)
        },
    }
}

/// A 16-byte trace identifier.
#[derive(Debug, Clone, Copy, PartialEq, Eq, Hash)]
pub struct TraceId([u8; 16]);

/// An 8-byte span identifier.
#[derive(Debug, Clone, Copy, PartialEq, Eq, Hash)]
pub struct SpanId([u8; 8]);

impl View for TraceId {
    type V = Seq<u8>;

    closed spec fn view(&self) -> Seq<u8> {
        self.0@
    }
}

impl View for SpanId {
    type V = Seq<u8>;

    closed spec fn view(&self) -> Seq<u8> {
        self.0@
    }
}

/// All bytes are zero.
pub open spec fn all_zero(b: Seq<u8>) -> bool {
    forall|i: int| 0 <= i < b.len() ==> #[trigger] b[i] == 0
}

pub fn bytes_all_zero(b: &[u8]) -> (r: bool)
    ensures
        r == all_zero(b@),
{
    let mut i: usize = 0;
    while i < b.len()
        invariant
            i <= b.len(),
            forall|j: int| 0 <= j < i ==> #[trigger] b@[j] == 0,
        decreases b.len() - i,
    {
        if b[i] != 0 {
            return false;
        }
        i = i + 1;
    }
    true
}

impl TraceId {
    /// Create a new TraceId from bytes.
    pub fn new(bytes: [u8; 16]) -> (r: Self)
        ensures
            r@ == bytes@,
    {
        TraceId(bytes)
    }

    /// Create a new TraceId from a UUID, given by its sixteen bytes.
    pub fn from_uuid(bytes: [u8; 16]) -> (r: Self)
        ensures
            r@ == bytes@,
    {
        TraceId(bytes)
    }

    /// Get the bytes of the trace ID.
    pub fn as_bytes(&self) -> (r: &[u8; 16])
        ensures
            r@ == self@,
    {
        &self.0
    }

    /// Check if this is a zero trace ID.
    pub fn is_zero(&self) -> (r: bool)
        ensures
            r == all_zero(self@),
    {
        bytes_all_zero(self.0.as_slice())
    }

    /// The identifier as 32 lower-case hexadecimal digits (its `Display`).
    pub fn to_text(&self) -> (r: String)
        ensures
            r@ == hex_string(self@),
    {
        let mut out = String::new();
        push_hex_bytes(&mut out, self.0.as_slice());
        out
    }

    /// Parses 32 hexadecimal digits.
    pub fn from_str(s: &str) -> (r: Result<Self, String>)
        requires
            !id_slicing_panics(encode_utf8(s@), 16),
        ensures
            match trace_id_outcome(s@) {
                Ok(v) => r matches Ok(id) && id@ == v,
                Err(m) => r matches Err(x) && x@ == m,
            },
    {
        match read_hex_id(s, 16, "TraceId must be 32 characters", "Invalid hex character in TraceId: ") {
            Ok(v) => {
                let mut arr = [0u8; 16];
                let mut i: usize = 0;
                while i < 16
                    invariant
                        v@.len() == 16,
                        i <= 16,
                        forall|j: int| 0 <= j < i ==> #[trigger] arr@[j] == v@[j],
                    decreases 16 - i,
                {
                    arr.set(i, v[i]);
                    i = i + 1;
                }
                assert(arr@ =~= v@);
                Ok(TraceId(arr))
            },
            Err(m) => Err(m),
        }
    }
}

impl SpanId {
    /// Create a new SpanId from bytes.
    pub fn new(bytes: [u8; 8]) -> (r: Self)
        ensures
            r@ == bytes@,
    {
        SpanId(bytes)
    }

    /// Get the bytes of the span ID.
    pub fn as_bytes(&self) -> (r: &[u8; 8])
        ensures
            r@ == self@,
    {
        &self.0
    }

    /// Check if this is a zero span ID.
    pub fn is_zero(&self) -> (r: bool)
        ensures
            r == all_zero(self@),
    {
        bytes_all_zero(self.0.as_slice())
    }

    /// The identifier as 16 lower-case hexadecimal digits (its `Display`).
    pub fn to_text(&self) -> (r: String)
        ensures
            r@ == hex_string(self@),
    {
        let mut out = String::new();
        push_hex_bytes(&mut out, self.0.as_slice());
        out
    }

    /// Parses 16 hexadecimal digits.
    pub fn from_str(s: &str) -> (r: Result<Self, String>)
        requires
            !id_slicing_panics(encode_utf8(s@), 8),
        ensures
            match span_id_outcome(s@) {
                Ok(v) => r matches Ok(id) && id@ == v,
                Err(m) => r matches Err(x) && x@ == m,
            },
    {
        match read_hex_id(s, 8, "SpanId must be 16 characters", "Invalid hex character in SpanId: ") {
            Ok(v) => {
                let mut arr = [0u8; 8];
                let mut i: usize = 0;
                while i < 8
                    invariant
                        v@.len() == 8,
                        i <= 8,
                        forall|j: int| 0 <= j < i ==> #[trigger] arr@[j] == v@[j],
                    decreases 8 - i,
                {
                    arr.set(i, v[i]);
                    i = i + 1;
                }
                assert(arr@ =~= v@);
                Ok(SpanId(arr))
            },
            Err(m) => Err(m),
        }
    }
}

/// Trace flags with sampling information.
#[derive(Debug, Clone, Copy, PartialEq, Eq, Hash, Structural)]
pub struct TraceFlags(u8);

/// The sampled bit is set in `flags`.
pub open spec fn sampled_bit(flags: u8) -> bool {
    flags & 1u8 != 0
}

impl TraceFlags {
    /// The raw flags value.
    pub closed spec fn bits(&self) -> u8 {
        self.0
    }

    /// Create new trace flags.
    pub fn new(flags: u8) -> (r: Self)
        ensures
            r.bits() == flags,
    {
        TraceFlags(flags)
    }

    /// Get the raw flags value.
    pub fn as_u8(&self) -> (r: u8)
        ensures
            r == self.bits(),
    {
        self.0
    }

    /// Check if the sampled flag is set.
    pub fn is_sampled(&self) -> (r: bool)
        ensures
            r == sampled_bit(self.bits()),
    {
        self.0 & 1u8 != 0
    }

    /// Set or clear the sampled flag, leaving the other bits alone.
    pub fn set_sampled(&mut self, sampled: bool)
        ensures
            final(self).bits() == if sampled { old(self).bits() | 1u8 } else { old(self).bits() & 0xFEu8 },
            sampled_bit(final(self).bits()) == sampled,
            final(self).bits() & 0xFEu8 == old(self).bits() & 0xFEu8,
    {
        let old_bits = self.0;
        if sampled {
            self.0 = old_bits | 1u8;
            assert((old_bits | 1u8) & 1u8 != 0) by (bit_vector);
            assert((old_bits | 1u8) & 0xFEu8 == old_bits & 0xFEu8) by (bit_vector);
        } else {
            self.0 = old_bits & 0xFEu8;
            assert((old_bits & 0xFEu8) & 1u8 == 0) by (bit_vector);
            assert((old_bits & 0xFEu8) & 0xFEu8 == old_bits & 0xFEu8) by (bit_vector);
        }
    }

    /// The flags as two lower-case hexadecimal digits (`Display`, `LowerHex`).
    pub fn to_text(&self) -> (r: String)
        ensures
            r@ == byte_hex(self.bits()),
    {
        let mut out = String::new();
        push_hex_byte(&mut out, self.0);
        out
    }

    /// Parses hexadecimal flags as `u8::from_str_radix(s, 16)` does.
    pub fn from_str(s: &str) -> (r: Result<Self, String>)
        ensures
            match parse_hex_u8_spec(encode_utf8(s@)) {
                Some(v) => r matches Ok(f) && f.bits() == v,
                None => r matches Err(m) && m@ == "Invalid hex string for TraceFlags"@,
            },
    {
        match parse_hex_u8(s.as_bytes()) {
            Some(v) => Ok(TraceFlags(v)),
            None => Err("Invalid hex string for TraceFlags".to_string()),
        }
    }
}

/// Maximum number of vendor entries in a trace state.
pub const TRACE_STATE_MAX_ENTRIES: usize = 32;

/// Trace state: vendor-specific key/value entries, at most 32 of them.
#[derive(Debug, Clone, PartialEq, Eq)]
pub struct TraceState {
    entries: Vec<(String, String)>,
}

/// The text of each entry of a trace state.
pub open spec fn entries_view(v: Seq<(String, String)>) -> Seq<(Seq<char>, Seq<char>)> {
    v.map_values(|e: (String, String)| (e.0@, e.1@))
}

impl TraceState {
    /// Maximum number of vendor entries allowed.
    pub const MAX_ENTRIES: usize = 32;

    /// The entries, in insertion order.
    pub closed spec fn spec_entries(&self) -> Seq<(Seq<char>, Seq<char>)> {
        entries_view(self.entries@)
    }

    /// Create a new empty TraceState.
    pub fn new() -> (r: Self)
        ensures
            r.spec_entries().len() == 0,
    {
        TraceState { entries: Vec::new() }
    }

    /// Add a vendor entry. Refused when 32 entries are already held, when
    /// the key is empty or longer than 256 bytes, or when the value is
    /// longer than 256 bytes (checked in that order).
    pub fn add(&mut self, key: &str, value: &str) -> (r: Result<(), String>)
        ensures
            old(self).spec_entries().len() >= 32 ==> (r matches Err(m)
                && m@ == "Maximum number of trace state entries exceeded"@
                && final(self).spec_entries() == old(self).spec_entries()),
            old(self).spec_entries().len() < 32 && (key@.len() == 0 || encode_utf8(key@).len() > 256)
                ==> (r matches Err(m) && m@ == "Invalid key length"@
                && final(self).spec_entries() == old(self).spec_entries()),
            old(self).spec_entries().len() < 32 && !(key@.len() == 0 || encode_utf8(key@).len() > 256)
                && encode_utf8(value@).len() > 256 ==> (r matches Err(m) && m@ == "Invalid value length"@
                && final(self).spec_entries() == old(self).spec_entries()),
            old(self).spec_entries().len() < 32 && !(key@.len() == 0 || encode_utf8(key@).len() > 256)
                && encode_utf8(value@).len() <= 256 ==> (r is Ok
                && final(self).spec_entries() == old(self).spec_entries().push((key@, value@))),
    {
        if self.entries.len() >= 32 {
            return Err("Maximum number of trace state entries exceeded".to_string());
        }
        if key.is_empty() || key.as_bytes().len() > 256 {
            return Err("Invalid key length".to_string());
        }
        if value.as_bytes().len() > 256 {
            return Err("Invalid value length".to_string());
        }
        self.entries.push((key.to_string(), value.to_string()));
        assert(entries_view(self.entries@) =~= entries_view(old(self).entries@).push((key@, value@)));
        Ok(())
    }

    /// Get all entries.
    pub fn entries(&self) -> (r: &[(String, String)])
        ensures
            entries_view(r@) == self.spec_entries(),
    {
        self.entries.as_slice()
    }
}

impl Default for TraceState {
    fn default() -> (r: Self)
        ensures
            r.spec_entries().len() == 0,
    {
        TraceState::new()
    }
}

/// Trace context containing all trace information.
#[derive(Debug, Clone, PartialEq, Eq)]
pub struct TraceContext {
    /// Version of the trace context
    pub version: u8,
    /// Trace identifier
    pub trace_id: TraceId,
    /// Span identifier
    pub span_id: SpanId,
    /// Parent span identifier (optional)
    pub parent_span_id: Option<SpanId>,
    /// Trace flags
    pub trace_flags: TraceFlags,
    /// Trace state
    pub trace_state: TraceState,
}

/// A context is valid: version is not 0xff, trace and span identifiers are
/// not all zero, and a parent span identifier, if present, is not all zero.
pub open spec fn context_valid(c: TraceContext) -> bool {
    &&& c.version != 0xffu8
    &&& !all_zero(c.trace_id@)
    &&& !all_zero(c.span_id@)
    &&& match c.parent_span_id {
        Some(p) => !all_zero(p@),
        None => true,
    }
}

/// The `traceparent` text of a context: version, trace id, span id and
/// flags in lower-case hexadecimal, separated by dashes.
pub open spec fn traceparent_text(c: TraceContext) -> Seq<char> {
    byte_hex(c.version) + seq!['-'] + hex_string(c.trace_id@) + seq!['-'] + hex_string(c.span_id@)
        + seq!['-'] + byte_hex(c.trace_flags.bits())
}

impl TraceContext {
    /// Create a new trace context with version 0.
    pub fn new(
        trace_id: TraceId,
        span_id: SpanId,
        parent_span_id: Option<SpanId>,
        trace_flags: TraceFlags,
        trace_state: TraceState,
    ) -> (r: Self)
        ensures
            r == (TraceContext {
                version: 0,
                trace_id,
                span_id,
                parent_span_id,
                trace_flags,
                trace_state,
            }),
    {
        TraceContext { version: 0, trace_id, span_id, parent_span_id, trace_flags, trace_state }
    }

    /// Check if this trace context is valid.
    pub fn is_valid(&self) -> (r: bool)
        ensures
            r == context_valid(*self),
    {
        if self.version == 0xFF {
            return false;
        }
        if self.trace_id.is_zero() || self.span_id.is_zero() {
            return false;
        }
        if let Some(parent) = &self.parent_span_id {
            if parent.is_zero() {
                return false;
            }
        }
        true
    }

    /// The `traceparent` text (`Display`): `vv-<trace id>-<span id>-ff`.
    pub fn to_text(&self) -> (r: String)
        ensures
            r@ == traceparent_text(*self),
    {
        let mut out = String::new();
        push_hex_byte(&mut out, self.version);
        push_char(&mut out, '-');
        let t = self.trace_id.to_text();
        push_str(&mut out, t.as_str());
        push_char(&mut out, '-');
        let s = self.span_id.to_text();
        push_str(&mut out, s.as_str());
        push_char(&mut out, '-');
        push_hex_byte(&mut out, self.trace_flags.0);
        assert(out@ =~= traceparent_text(*self));
        out
    }
}

/// Outcome of reading a `traceparent` text: version, trace id bytes, span id
/// bytes and flags, or the error message.
pub open spec fn traceparent_outcome(s: Seq<char>) -> Result<(u8, Seq<u8>, Seq<u8>, u8), Seq<char>> {
    let p = split_on(s, '-');
    if p.len() != 4 {
        Err("Invalid traceparent format"@)
    } else {
        match parse_hex_u8_spec(encode_utf8(p[0])) {
            None => Err("Invalid version in traceparent"@),
            Some(v) => if v == 0xffu8 {
                Err("Invalid version in traceparent"@)
            } else {
                match trace_id_outcome(p[1]) {
                    Err(e) => Err("Invalid trace_id in traceparent: "@ + e),
                    Ok(t) => match span_id_outcome(p[2]) {
                        Err(e) => Err("Invalid span_id in traceparent: "@ + e),
                        Ok(sp) => match parse_hex_u8_spec(encode_utf8(p[3])) {
                            None => Err("Invalid trace_flags in traceparent"@),
                            Some(f) => Ok((v, t, sp, f)),
                        },
                    },
                }
            },
        }
    }
}

/// Reading the `traceparent` text `s` reaches an identifier whose byte
/// slicing falls inside a multi-byte character (where the reader panics).
pub open spec fn traceparent_panics(s: Seq<char>) -> bool {
    let p = split_on(s, '-');
    &&& p.len() == 4
    &&& parse_hex_u8_spec(encode_utf8(p[0])) matches Some(v)
    &&& v != 0xffu8
    &&& (id_slicing_panics(encode_utf8(p[1]), 16) || (trace_id_outcome(p[1]) is Ok
        && id_slicing_panics(encode_utf8(p[2]), 8)))
}

fn prefixed(prefix: &str, e: String) -> (r: String)
    ensures
        r@ == prefix@ + e@,
{
    let mut m = prefix.to_string();
    push_str(&mut m, e.as_str());
    m
}

impl TraceContext {
    /// Parses a `traceparent` text `version-traceid-spanid-flags`. The
    /// result has no parent span and an empty trace state.
    pub fn from_str(s: &str) -> (r: Result<Self, String>)
        requires
            !traceparent_panics(s@),
        ensures
            match traceparent_outcome(s@) {
                Ok(t) => r matches Ok(c) && c.version == t.0 && c.trace_id@ == t.1 && c.span_id@
                    == t.2 && c.trace_flags.bits() == t.3 && c.parent_span_id is None
                    && c.trace_state.spec_entries().len() == 0,
                Err(m) => r matches Err(x) && x@ == m,
            },
    {
        let parts = split_str(s, '-');
        assert(parts@.len() == split_on(s@, '-').len());
        if parts.len() != 4 {
            return Err("Invalid traceparent format".to_string());
        }
        assert(parts@[0]@ == split_on(s@, '-')[0]);
        assert(parts@[1]@ == split_on(s@, '-')[1]);
        assert(parts@[2]@ == split_on(s@, '-')[2]);
        assert(parts@[3]@ == split_on(s@, '-')[3]);
        let version = match parse_hex_u8(parts[0].as_bytes()) {
            Some(v) => v,
            None => {
                return Err("Invalid version in traceparent".to_string());
            },
        };
        if version == 0xFF {
            return Err("Invalid version in traceparent".to_string());
        }
        let trace_id = match TraceId::from_str(parts[1]) {
            Ok(t) => t,
            Err(e) => {
                return Err(prefixed("Invalid trace_id in traceparent: ", e));
            },
        };
        let span_id = match SpanId::from_str(parts[2]) {
            Ok(t) => t,
            Err(e) => {
                return Err(prefixed("Invalid span_id in traceparent: ", e));
            },
        };
        let trace_flags = match parse_hex_u8(parts[3].as_bytes()) {
            Some(f) => TraceFlags(f),
            None => {
                return Err("Invalid trace_flags in traceparent".to_string());
            },
        };
        Ok(TraceContext {
            version,
            trace_id,
            span_id,
            parent_span_id: None,
            trace_flags,
            trace_state: TraceState::new(),
        })
    }
}

proof fn lemma_hex_char(n: nat)
    requires
        n < 16,
    ensures
        hex_char(n) != '-',
        '\0' <= hex_char(n) <= '\u{7f}',
        hex_char(n) as u8 != 43u8,
        hex_digit(hex_char(n) as u8) == Some(n),
{
}

/// The digit at position `k` of `hex_string(t)`.
pub open spec fn hex_string_digit(t: Seq<u8>, k: int) -> char {
    if k % 2 == 0 {
        hex_char((t[k / 2] / 16) as nat)
    } else {
        hex_char((t[k / 2] % 16) as nat)
    }
}

proof fn lemma_hex_string_index(t: Seq<u8>)
    ensures
        hex_string(t).len() == 2 * t.len(),
        forall|k: int| 0 <= k < 2 * t.len() ==> #[trigger] hex_string(t)[k] == hex_string_digit(t, k),
    decreases t.len(),
{
    if t.len() > 0 {
        let t1 = t.drop_last();
        lemma_hex_string_index(t1);
        let h1 = hex_string(t1);
        let bh = byte_hex(t.last());
        assert forall|k: int| 0 <= k < 2 * t.len() implies #[trigger] hex_string(t)[k]
            == hex_string_digit(t, k) by {
            if k < 2 * t1.len() {
                assert(hex_string(t)[k] == h1[k]);
                assert(t1[k / 2] == t[k / 2]);
            } else if k == 2 * t1.len() {
                assert(hex_string(t)[k] == bh[0]);
                assert(k / 2 == t1.len());
                assert(k % 2 == 0);
            } else {
                assert(hex_string(t)[k] == bh[1]);
                assert(k / 2 == t1.len());
                assert(k % 2 == 1);
            }
        }
    }
}

proof fn lemma_hex_string_shape(t: Seq<u8>)
    ensures
        hex_string(t).len() == 2 * t.len(),
        no_char(hex_string(t), '-'),
        is_ascii_chars(hex_string(t)),
        forall|i: int| 0 <= i < hex_string(t).len() ==> (#[trigger] hex_string(t)[i]) as u8 != 43u8,
{
    lemma_hex_string_index(t);
    let h = hex_string(t);
    assert forall|k: int| 0 <= k < h.len() implies #[trigger] h[k] != '-' && '\0' <= h[k]
        <= '\u{7f}' && h[k] as u8 != 43u8 by {
        assert(h[k] == hex_string_digit(t, k));
        lemma_hex_char((t[k / 2] / 16) as nat);
        lemma_hex_char((t[k / 2] % 16) as nat);
    }
}

proof fn lemma_parse_byte_hex_pair(b: u8, d: Seq<u8>)
    requires
        d == seq![hex_char((b / 16) as nat) as u8, hex_char((b % 16) as nat) as u8],
    ensures
        parse_hex_u8_spec(d) == Some(b),
{
    lemma_hex_char((b / 16) as nat);
    lemma_hex_char((b % 16) as nat);
    let d1 = d.drop_last();
    assert(d1 =~= seq![d[0]]);
    assert(d1.drop_last() =~= Seq::<u8>::empty());
    assert(hex_value(d1.drop_last()) == 0);
    assert(d1.last() == d[0]);
    assert(hex_digit(d[0]) == Some((b / 16) as nat));
    assert(hex_value(d1) == (b / 16) as nat);
    assert(hex_value(d) == (b / 16) as nat * 16 + (b % 16) as nat);
    assert(all_hex(d)) by {
        assert forall|i: int| 0 <= i < d.len() implies (#[trigger] hex_digit(d[i])) is Some by {
            if i == 0 {
            } else {
            }
        }
    }
}

proof fn lemma_byte_hex_parse(b: u8)
    ensures
        byte_hex(b).len() == 2,
        no_char(byte_hex(b), '-'),
        parse_hex_u8_spec(encode_utf8(byte_hex(b))) == Some(b),
{
    let h = byte_hex(b);
    lemma_hex_char((b / 16) as nat);
    lemma_hex_char((b % 16) as nat);
    assert(is_ascii_chars(h));
    vstd::utf8::is_ascii_chars_encode_utf8(h);
    let e = encode_utf8(h);
    assert(e =~= seq![hex_char((b / 16) as nat) as u8, hex_char((b % 16) as nat) as u8]) by {
        assert(e[0] == h[0] as u8);
        assert(e[1] == h[1] as u8);
    }
    lemma_parse_byte_hex_pair(b, e);
}

proof fn lemma_hex_id_roundtrip(t: Seq<u8>, n: nat)
    requires
        t.len() == n,
    ensures
        !id_slicing_panics(encode_utf8(hex_string(t)), n),
        encode_utf8(hex_string(t)).len() == 2 * n,
        pairs_ok_before(encode_utf8(hex_string(t)), n as int),
        pair_bytes(encode_utf8(hex_string(t)), n) == t,
{
    lemma_hex_string_shape(t);
    lemma_hex_string_index(t);
    let h = hex_string(t);
    let b = encode_utf8(h);
    vstd::utf8::is_ascii_chars_encode_utf8(h);
    assert(b.len() == 2 * n);
    assert forall|j: int| 0 <= j < b.len() implies !is_continuation_byte(#[trigger] b[j]) by {
        assert(b[j] == h[j] as u8);
    }
    assert forall|i: int| 0 <= i < n implies #[trigger] pair_ok(b, i)
        && parse_hex_u8_spec(pair_at(b, i)) == Some(t[i]) by {
        assert(b[2 * i] == h[2 * i] as u8);
        assert(b[2 * i + 1] == h[2 * i + 1] as u8);
        assert(h[2 * i] == hex_string_digit(t, 2 * i));
        assert(h[2 * i + 1] == hex_string_digit(t, 2 * i + 1));
        assert((2 * i) / 2 == i && (2 * i) % 2 == 0);
        assert((2 * i + 1) / 2 == i && (2 * i + 1) % 2 == 1);
        assert(pair_at(b, i) =~= seq![hex_char((t[i] / 16) as nat) as u8, hex_char((t[i] % 16) as nat) as u8]);
        lemma_parse_byte_hex_pair(t[i], pair_at(b, i));
    }
    assert forall|i: int| 0 <= i < n implies #[trigger] pair_bytes(b, n)[i] == t[i] by {
        assert(pair_ok(b, i));
    }
    assert(pair_bytes(b, n) =~= t);
}

/// Reading back the `traceparent` text of a context whose version is not
/// 0xff gives its version, identifiers and flags, and never panics.
pub proof fn lemma_traceparent_roundtrip(c: TraceContext)
    requires
        c.version != 0xffu8,
    ensures
        !traceparent_panics(traceparent_text(c)),
        traceparent_outcome(traceparent_text(c)) == Ok::<(u8, Seq<u8>, Seq<u8>, u8), Seq<char>>(
            (c.version, c.trace_id@, c.span_id@, c.trace_flags.bits()),
        ),
{
    let v = byte_hex(c.version);
    let t = hex_string(c.trace_id@);
    let sp = hex_string(c.span_id@);
    let f = byte_hex(c.trace_flags.bits());
    lemma_byte_hex_parse(c.version);
    lemma_byte_hex_parse(c.trace_flags.bits());
    lemma_hex_string_shape(c.trace_id@);
    lemma_hex_string_shape(c.span_id@);
    lemma_hex_id_roundtrip(c.trace_id@, 16);
    lemma_hex_id_roundtrip(c.span_id@, 8);
    lemma_split_single(v, '-');
    lemma_split_append_piece(v, t, '-');
    lemma_split_append_piece(v + seq!['-'] + t, sp, '-');
    lemma_split_append_piece(v + seq!['-'] + t + seq!['-'] + sp, f, '-');
    let p = split_on(traceparent_text(c), '-');
    assert(p =~= seq![v, t, sp, f]);
    assert(trace_id_outcome(t) == Ok::<Seq<u8>, Seq<char>>(c.trace_id@));
    assert(span_id_outcome(sp) == Ok::<Seq<u8>, Seq<char>>(c.span_id@));
}

/// Reading back the text of a trace identifier gives the identifier, and
/// never panics.
pub proof fn lemma_trace_id_text_roundtrip(id: TraceId)
    ensures
        !id_slicing_panics(encode_utf8(hex_string(id@)), 16),
        trace_id_outcome(hex_string(id@)) == Ok::<Seq<u8>, Seq<char>>(id@),
{
    lemma_hex_id_roundtrip(id@, 16);
}

/// Reading back the text of a span identifier gives the identifier, and
/// never panics.
pub proof fn lemma_span_id_text_roundtrip(id: SpanId)
    ensures
        !id_slicing_panics(encode_utf8(hex_string(id@)), 8),
        span_id_outcome(hex_string(id@)) == Ok::<Seq<u8>, Seq<char>>(id@),
{
    lemma_hex_id_roundtrip(id@, 8);
}

/// Reading back the text of trace flags gives the same flags.
pub proof fn lemma_trace_flags_text_roundtrip(f: TraceFlags)
    ensures
        parse_hex_u8_spec(encode_utf8(byte_hex(f.bits()))) == Some(f.bits()),
{
    lemma_byte_hex_parse(f.bits());
}

/// The `traceparent` text of any context is ASCII.
pub proof fn lemma_traceparent_text_ascii(c: TraceContext)
    ensures
        is_ascii_chars(traceparent_text(c)),
{
    lemma_hex_string_shape(c.trace_id@);
    lemma_hex_string_shape(c.span_id@);
    lemma_hex_char((c.version / 16) as nat);
    lemma_hex_char((c.version % 16) as nat);
    lemma_hex_char((c.trace_flags.bits() / 16) as nat);
    lemma_hex_char((c.trace_flags.bits() % 16) as nat);
    let t = traceparent_text(c);
    let v = byte_hex(c.version);
    let ti = hex_string(c.trace_id@);
    let sp = hex_string(c.span_id@);
    let f = byte_hex(c.trace_flags.bits());
    assert forall|i: int| 0 <= i < t.len() implies '\0' <= #[trigger] t[i] <= '\u{7f}' by {
        if i < 2 {
            assert(t[i] == v[i]);
        } else if i == 2 {
        } else if i < 3 + ti.len() {
            assert(t[i] == ti[i - 3]);
        } else if i == 3 + ti.len() {
        } else if i < 4 + ti.len() + sp.len() {
            assert(t[i] == sp[i - 4 - ti.len()]);
        } else if i == 4 + ti.len() + sp.len() {
        } else {
            assert(t[i] == f[i - 5 - ti.len() - sp.len()]);
        }
    }
}

} // verus!
