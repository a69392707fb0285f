//! W3C Baggage: application context carried across service boundaries as
//! key/value entries with optional properties.

use vstd::prelude::*;
use vstd::utf8::encode_utf8;

use crate::text::str_eq;

verus! {

/// A baggage property (key-value or flag).
#[derive(Debug, Clone, PartialEq, Eq)]
pub enum BaggageProperty {
    /// Key-value property
    KeyValue { key: String, value: String },
    /// Flag property (key only)
    Flag { key: String },
}

/// A single baggage entry.
#[derive(Debug, Clone, PartialEq, Eq)]
pub struct BaggageEntry {
    /// The key of the baggage entry
    pub key: String,
    /// The value of the baggage entry (optional)
    pub value: Option<String>,
    /// Properties associated with this entry
    pub properties: Vec<BaggageProperty>,
}

impl BaggageEntry {
    /// Create a new baggage entry with key and value, without properties.
    pub fn new(key: String, value: String) -> (r: Self)
        ensures
            r == (BaggageEntry { key, value: Some(value), properties: r.properties }),
            r.properties@.len() == 0,
    {
        BaggageEntry { key, value: Some(value), properties: Vec::new() }
    }

    /// Create a new baggage entry with a key only (a flag), without properties.
    pub fn flag(key: String) -> (r: Self)
        ensures
            r == (BaggageEntry { key, value: None, properties: r.properties }),
            r.properties@.len() == 0,
    {
        BaggageEntry { key, value: None, properties: Vec::new() }
    }
}

/// Maximum number of entries in a baggage.
pub const BAGGAGE_MAX_ENTRIES: usize = 180;

/// Maximum total size of a baggage, in bytes.
pub const BAGGAGE_MAX_SIZE: usize = 65536;

/// Byte size that an entry counts toward the baggage limit: its key and,
/// if present, its value (properties are not counted).
pub open spec fn entry_size(e: BaggageEntry) -> nat {
    encode_utf8(e.key@).len() + match e.value {
        Some(v) => encode_utf8(v@).len(),
        None => 0,
    }
}

/// Total counted size of a sequence of entries.
pub open spec fn entries_size(s: Seq<BaggageEntry>) -> nat
    decreases s.len(),
{
    if s.len() == 0 {
        0
    } else {
        entries_size(s.drop_last()) + entry_size(s.last())
    }
}

/// Baggage: an ordered collection of entries, at most 180 of them and at
/// most 64 KiB counted over keys and values.
#[derive(Debug, Clone, PartialEq, Eq)]
pub struct Baggage {
    entries: Vec<BaggageEntry>,
    total_size: usize,
}

impl Baggage {
    /// Maximum number of entries allowed.
    pub const MAX_ENTRIES: usize = 180;

    /// Maximum total size in bytes.
    pub const MAX_SIZE: usize = 65536;

    /// The entries, in insertion order.
    pub closed spec fn spec_entries(&self) -> Seq<BaggageEntry> {
        self.entries@
    }

    /// Well-formed: within both limits, and the size counter equals the
    /// counted size of the entries.
    pub closed spec fn wf(&self) -> bool {
        &&& self.entries@.len() <= 180
        &&& self.total_size == entries_size(self.entries@)
        &&& self.total_size <= 65536
    }

    /// A well-formed baggage holds at most 180 entries, of at most 64 KiB
    /// counted over keys and values.
    pub proof fn lemma_within_limits(&self)
        requires
            self.wf(),
        ensures
            self.spec_entries().len() <= 180,
            entries_size(self.spec_entries()) <= 65536,
    {
    }

    /// Create a new empty baggage.
    pub fn new() -> (r: Self)
        ensures
            r.wf(),
            r.spec_entries().len() == 0,
    {
        Baggage { entries: Vec::new(), total_size: 0 }
    }

    /// Add an entry at the end. Refused when 180 entries are already held,
    /// or when the counted size would exceed 64 KiB; a refused entry leaves
    /// the baggage unchanged.
    pub fn add_entry(&mut self, entry: BaggageEntry) -> (r: Result<(), String>)
        requires
            old(self).wf(),
        ensures
            final(self).wf(),
            old(self).spec_entries().len() >= 180 ==> (r matches Err(m)
                && m@ == "Maximum number of baggage entries exceeded"@ && *final(self) == *old(self)),
            old(self).spec_entries().len() < 180 && entries_size(old(self).spec_entries()) + entry_size(
                entry,
            ) > 65536 ==> (r matches Err(m) && m@ == "Maximum baggage size exceeded"@ && *final(self)
                == *old(self)),
            old(self).spec_entries().len() < 180 && entries_size(old(self).spec_entries()) + entry_size(
                entry,
            ) <= 65536 ==> (r is Ok && final(self).spec_entries() == old(self).spec_entries().push(
                entry,
            )),
    {
        if self.entries.len() >= 180 {
            return Err("Maximum number of baggage entries exceeded".to_string());
        }
        let key_len = entry.key.as_str().as_bytes().len();
        let value_len = match &entry.value {
            Some(v) => v.as_str().as_bytes().len(),
            None => 0,
        };
        if key_len > 65536 || value_len > 65536 - key_len || self.total_size > 65536 - (key_len
            + value_len) {
            return Err("Maximum baggage size exceeded".to_string());
        }
        let ghost before = self.entries@;
        self.entries.push(entry);
        self.total_size = self.total_size + key_len + value_len;
        assert(self.entries@.drop_last() =~= before);
        Ok(())
    }

    /// Get all entries.
    pub fn entries(&self) -> (r: &[BaggageEntry])
        ensures
            r@ == self.spec_entries(),
    {
        self.entries.as_slice()
    }

    /// The first entry whose key is `key`, if any.
    pub fn get(&self, key: &str) -> (r: Option<&BaggageEntry>)
        ensures
            match r {
                Some(e) => exists|i: int|
                    0 <= i < self.spec_entries().len() && *e == self.spec_entries()[i] && e.key@ == key@
                        && forall|j: int| 0 <= j < i ==> (#[trigger] self.spec_entries()[j]).key@ != key@,
                None => forall|j: int|
                    0 <= j < self.spec_entries().len() ==> (#[trigger] self.spec_entries()[j]).key@ != key@,
            },
    {
        let mut i: usize = 0;
        while i < self.entries.len()
            invariant
                i <= self.entries@.len(),
                forall|j: int| 0 <= j < i ==> (#[trigger] self.entries@[j]).key@ != key@,
            decreases self.entries.len() - i,
        {
            if str_eq(self.entries[i].key.as_str(), key) {
                return Some(&self.entries[i]);
            }
            i = i + 1;
        }
        None
    }

    /// All entries whose key is `key`, in order.
    pub fn get_all(&self, key: &str) -> (r: Vec<&BaggageEntry>)
        ensures
            r@.map_values(|e: &BaggageEntry| *e) == self.spec_entries().filter(
                |e: BaggageEntry| e.key@ == key@,
            ),
    {
        let mut out: Vec<&BaggageEntry> = Vec::new();
        let mut i: usize = 0;
        assert(self.entries@.take(0) =~= Seq::<BaggageEntry>::empty());
        assert(out@.map_values(|e: &BaggageEntry| *e) =~= Seq::<BaggageEntry>::empty());
        while i < self.entries.len()
            invariant
                i <= self.entries@.len(),
                out@.map_values(|e: &BaggageEntry| *e) == self.entries@.take(i as int).filter(
                    |e: BaggageEntry| e.key@ == key@,
                ),
            decreases self.entries.len() - i,
        {
            let ghost before = out@;
            assert(self.entries@.take(i + 1).drop_last() =~= self.entries@.take(i as int));
            reveal(Seq::filter);
            if str_eq(self.entries[i].key.as_str(), key) {
                out.push(&self.entries[i]);
                assert(out@.map_values(|e: &BaggageEntry| *e) =~= before.map_values(
                    |e: &BaggageEntry| *e,
                ).push(self.entries@[i as int]));
            } else {
                assert(out@ == before);
            }
            i = i + 1;
        }
        assert(self.entries@.take(self.entries@.len() as int) =~= self.entries@);
        out
    }
}

impl Default for Baggage {
    fn default() -> (r: Self)
        ensures
            r.wf(),
            r.spec_entries().len() == 0,
    {
        Baggage::new()
    }
}

} // verus!
