//! Correlation identifiers: a UUID that ties together the telemetry of one
//! logical operation, with the creation time it carries.

use vstd::prelude::*;

use crate::hex::{hex_string, push_hex_bytes};
use crate::propagation::trace_context::all_zero;
use crate::text::{push_char, push_str};

verus! {

/// The Unix time `(seconds, nanoseconds)` of the timestamp a UUID with
/// bytes `b` carries (versions 1, 6 and 7), as `uuid` computes it.
pub uninterp spec fn uuid_unix_time(b: Seq<u8>) -> Option<(u64, u32)>;

/// `Uuid::get_timestamp` followed by `Timestamp::to_unix`, on the UUID
/// with the given bytes; the result is named `uuid_unix_time`.
#[verifier::external_body]
fn uuid_timestamp_parts(bytes: &[u8; 16]) -> (r: Option<(u64, u32)>)
    ensures
        r == uuid_unix_time(bytes@),
{
    match uuid::Uuid::from_bytes(*bytes).get_timestamp() {
        Some(t) => Some(t.to_unix()),
        None => None,
    }
}

/// What `Uuid::parse_str` gives for a text: the UUID's bytes, or the
/// display text of its error.
pub uninterp spec fn uuid_parse(s: Seq<char>) -> Result<Seq<u8>, Seq<char>>;

/// `Uuid::parse_str`, giving the parsed UUID's bytes or the error's text;
/// the result is named `uuid_parse`.
#[verifier::external_body]
fn parse_uuid_bytes(s: &str) -> (r: Result<[u8; 16], String>)
    ensures
        match uuid_parse(s@) {
            Ok(b) => r matches Ok(x) && x@ == b,
            Err(m) => r matches Err(x) && x@ == m,
        },
{
    match uuid::Uuid::parse_str(s) {
        Ok(u) => Ok(*u.as_bytes()),
        Err(e) => Err(e.to_string()),
    }
}

/// Milliseconds since the UNIX epoch that a UUID carries: its timestamp's
/// seconds times 1000 plus whole milliseconds of its nanoseconds, as `i64`;
/// without a timestamp, the first six bytes read as a big-endian number.
pub open spec fn uuid_millis(b: Seq<u8>, t: Option<(u64, u32)>) -> i64 {
    match t {
        Some((secs, nanos)) => ((secs as i64) * 1000 + (nanos as i64) / 1_000_000) as i64,
        None => (b[0] * 0x100_0000_0000 + b[1] * 0x1_0000_0000 + b[2] * 0x100_0000 + b[3] * 0x1_0000 + b[4]
            * 0x100 + b[5]) as i64,
    }
}

/// Milliseconds since the UNIX epoch for a UUID with bytes `bytes`, given
/// the Unix time its timestamp gives (if it has one).
pub fn millis_from_uuid_parts(bytes: &[u8; 16], unix: Option<(u64, u32)>) -> (r: i64)
    ensures
        r == uuid_millis(bytes@, unix),
{
    match unix {
        Some((secs, nanos)) => {
            let s: i128 = (secs as i64) as i128;
            let total: i128 = s * 1000 + (nanos as i64 / 1_000_000) as i128;
            total as i64
        },
        None => {
            let v: u64 = (bytes[0] as u64) * 0x100_0000_0000 + (bytes[1] as u64) * 0x1_0000_0000
                + (bytes[2] as u64) * 0x100_0000 + (bytes[3] as u64) * 0x1_0000 + (bytes[4] as u64) * 0x100
                + (bytes[5] as u64);
            v as i64
        },
    }
}

/// The creation time a UUID carries, in milliseconds since the UNIX epoch.
pub fn extract_timestamp_from_uuid(bytes: &[u8; 16]) -> (r: i64)
    ensures
        r == uuid_millis(bytes@, uuid_unix_time(bytes@)),
{
    let parts = uuid_timestamp_parts(bytes);
    millis_from_uuid_parts(bytes, parts)
}

/// `Uuid::now_v7`: the bytes of a fresh version 7 UUID. They depend on the
/// clock and on chance; what holds of every outcome is the version field:
/// the high four bits of byte 6 are 7.
#[verifier::external_body]
fn fresh_v7_bytes() -> (r: [u8; 16])
    ensures
        r@[6] / 16 == 7,
{
    *uuid::Uuid::now_v7().as_bytes()
}

/// The hyphenated lower-case text of a UUID: 8, 4, 4, 4 and 12 digits.
pub open spec fn uuid_text(b: Seq<u8>) -> Seq<char> {
    hex_string(b.subrange(0, 4)) + seq!['-'] + hex_string(b.subrange(4, 6)) + seq!['-'] + hex_string(
        b.subrange(6, 8),
    ) + seq!['-'] + hex_string(b.subrange(8, 10)) + seq!['-'] + hex_string(b.subrange(10, 16))
}

/// A correlation identifier: a non-nil UUID (held as its sixteen bytes)
/// and the creation time in milliseconds it carries.
#[derive(Debug, Clone, Copy, PartialEq, Eq, Hash)]
pub struct CorrelationIdentifier {
    /// The UUID's bytes
    pub id: [u8; 16],
    /// Creation time, in milliseconds since the UNIX epoch
    pub created_at: i64,
}

impl CorrelationIdentifier {
    /// A new identifier from a fresh version 7 UUID, carrying the creation
    /// time that UUID holds. Its bytes depend on the clock and on chance; it
    /// is never nil.
    pub fn new() -> (r: Self)
        ensures
            r.id@[6] / 16 == 7,
            !all_zero(r.id@),
            r.created_at == uuid_millis(r.id@, uuid_unix_time(r.id@)),
    {
        let bytes = fresh_v7_bytes();
        let created_at = extract_timestamp_from_uuid(&bytes);
        assert(bytes@[6] != 0);
        CorrelationIdentifier { id: bytes, created_at }
    }

    /// The identifier for a UUID; `None` for the nil UUID.
    pub fn from_uuid(bytes: [u8; 16]) -> (r: Option<Self>)
        ensures
            all_zero(bytes@) ==> r is None,
            !all_zero(bytes@) ==> (r matches Some(c) && c.id@ == bytes@ && c.created_at == uuid_millis(
                bytes@,
                uuid_unix_time(bytes@),
            )),
    {
        if crate::propagation::trace_context::bytes_all_zero(bytes.as_slice()) {
            return None;
        }
        let created_at = extract_timestamp_from_uuid(&bytes);
        Some(CorrelationIdentifier { id: bytes, created_at })
    }

    /// Parses the text of a UUID; refuses text that is not a UUID and the
    /// nil UUID.
    pub fn from_str(s: &str) -> (r: Result<Self, String>)
        ensures
            match uuid_parse(s@) {
                Err(m) => r matches Err(x) && x@ == "Invalid UUID format: "@ + m,
                Ok(b) => if b.len() == 16 && all_zero(b) {
                    r matches Err(x) && x@ == "Correlation identifier UUID must not be nil"@
                } else {
                    r matches Ok(c) && c.id@ == b && c.created_at == uuid_millis(b, uuid_unix_time(b))
                },
            },
    {
        let bytes = match parse_uuid_bytes(s) {
            Ok(b) => b,
            Err(e) => {
                let mut m = "Invalid UUID format: ".to_string();
                push_str(&mut m, e.as_str());
                return Err(m);
            },
        };
        match Self::from_uuid(bytes) {
            Some(c) => Ok(c),
            None => Err("Correlation identifier UUID must not be nil".to_string()),
        }
    }

    /// `true` unless the UUID is nil.
    pub fn is_valid(&self) -> (r: bool)
        ensures
            r == !all_zero(self.id@),
    {
        !crate::propagation::trace_context::bytes_all_zero(self.id.as_slice())
    }

    /// The UUID's bytes.
    pub fn id(&self) -> (r: &[u8; 16])
        ensures
            *r == self.id,
    {
        &self.id
    }

    /// The creation time, in milliseconds since the UNIX epoch.
    pub fn created_at(&self) -> (r: i64)
        ensures
            r == self.created_at,
    {
        self.created_at
    }

    /// The hyphenated lower-case text of the UUID (its `Display`).
    pub fn to_text(&self) -> (r: String)
        ensures
            r@ == uuid_text(self.id@),
    {
        let b = self.id.as_slice();
        let mut out = String::new();
        push_hex_bytes(&mut out, slice_part(b, 0, 4).as_slice());
        push_char(&mut out, '-');
        push_hex_bytes(&mut out, slice_part(b, 4, 6).as_slice());
        push_char(&mut out, '-');
        push_hex_bytes(&mut out, slice_part(b, 6, 8).as_slice());
        push_char(&mut out, '-');
        push_hex_bytes(&mut out, slice_part(b, 8, 10).as_slice());
        push_char(&mut out, '-');
        push_hex_bytes(&mut out, slice_part(b, 10, 16).as_slice());
        out
    }
}

impl Default for CorrelationIdentifier {
    /// A new identifier, as `new` makes it.
    fn default() -> (r: Self)
        ensures
            r.id@[6] / 16 == 7,
            !all_zero(r.id@),
            r.created_at == uuid_millis(r.id@, uuid_unix_time(r.id@)),
    {
        CorrelationIdentifier::new()
    }
}

fn slice_part(b: &[u8], from: usize, to: usize) -> (r: Vec<u8>)
    requires
        from <= to <= b@.len(),
    ensures
        r@ == b@.subrange(from as int, to as int),
{
    let mut out: Vec<u8> = Vec::new();
    let mut i: usize = from;
    while i < to
        invariant
            from <= i <= to,
            to <= b@.len(),
            out@ == b@.subrange(from as int, i as int),
        decreases to - i,
    {
        out.push(b[i]);
        assert(out@ =~= b@.subrange(from as int, i + 1));
        i = i + 1;
    }
    out
}

} // verus!
