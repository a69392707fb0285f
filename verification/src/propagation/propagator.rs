//! Propagators: inject a context into a carrier and extract it back out, in
//! the W3C `traceparent` and `baggage` header forms.

use vstd::prelude::*;
use vstd::utf8::{encode_utf8, is_ascii_chars, is_continuation_byte};

use crate::hex::id_slicing_panics;
use crate::propagation::baggage::{entries_size, entry_size, Baggage, BaggageEntry, BaggageProperty};
use crate::propagation::carrier::MapCarrier;
use crate::propagation::trace_context::{all_zero, context_valid, lemma_traceparent_roundtrip,
    lemma_traceparent_text_ascii, traceparent_outcome, traceparent_panics, traceparent_text, TraceContext};
use crate::text::{join, lemma_split_single, no_char, push_char, push_str, split_on, split_str, strs_view};

verus! {

/// Moves a context of type `C` into and out of a carrier.
pub trait Propagator<C> {
    /// Writes `context` into `carrier`.
    fn inject(&self, carrier: &mut MapCarrier, context: &C);

    /// Reads a context out of `carrier`, if one is there and well formed.
    fn extract(&self, carrier: &MapCarrier) -> Option<C>;
}

proof fn lemma_split_ascii(s: Seq<char>, sep: char)
    requires
        is_ascii_chars(s),
    ensures
        forall|i: int| 0 <= i < split_on(s, sep).len() ==> is_ascii_chars(#[trigger] split_on(s, sep)[i]),
    decreases s.len(),
{
    if s.len() > 0 {
        let s1 = s.drop_last();
        assert(is_ascii_chars(s1)) by {
            assert forall|i: int| 0 <= i < s1.len() implies '\0' <= #[trigger] s1[i] <= '\u{7f}' by {
                assert(s1[i] == s[i]);
            }
        }
        lemma_split_ascii(s1, sep);
        crate::text::lemma_split_on_nonempty(s1, sep);
        let rest = split_on(s1, sep);
        if s.last() != sep {
            let p = rest.last().push(s.last());
            assert(is_ascii_chars(p)) by {
                assert(is_ascii_chars(rest[rest.len() - 1]));
                assert forall|i: int| 0 <= i < p.len() implies '\0' <= #[trigger] p[i] <= '\u{7f}' by {
                    if i < p.len() - 1 {
                        assert(p[i] == rest.last()[i]);
                    } else {
                        assert(p[i] == s[s.len() - 1]);
                    }
                }
            }
            assert forall|i: int| 0 <= i < split_on(s, sep).len() implies is_ascii_chars(
                #[trigger] split_on(s, sep)[i],
            ) by {
                if i < rest.len() - 1 {
                    assert(split_on(s, sep)[i] == rest[i]);
                }
            }
        } else {
            assert forall|i: int| 0 <= i < split_on(s, sep).len() implies is_ascii_chars(
                #[trigger] split_on(s, sep)[i],
            ) by {
                if i < rest.len() {
                    assert(split_on(s, sep)[i] == rest[i]);
                } else {
                    assert(split_on(s, sep)[i] =~= Seq::<char>::empty());
                }
            }
        }
    }
}

proof fn lemma_ascii_no_slicing_panic(p: Seq<char>, n: nat)
    requires
        is_ascii_chars(p),
    ensures
        !id_slicing_panics(encode_utf8(p), n),
{
    vstd::utf8::is_ascii_chars_encode_utf8(p);
    let b = encode_utf8(p);
    assert forall|j: int| 0 <= j < b.len() implies !is_continuation_byte(#[trigger] b[j]) by {
        assert(b[j] == p[j] as u8);
    }
}

/// Reading an ASCII `traceparent` text never panics.
pub proof fn lemma_ascii_traceparent_no_panic(s: Seq<char>)
    requires
        is_ascii_chars(s),
    ensures
        !traceparent_panics(s),
{
    lemma_split_ascii(s, '-');
    let p = split_on(s, '-');
    if p.len() == 4 {
        assert(is_ascii_chars(p[1]));
        assert(is_ascii_chars(p[2]));
        lemma_ascii_no_slicing_panic(p[1], 16);
        lemma_ascii_no_slicing_panic(p[2], 8);
    }
}

/// What extracting a `traceparent` value gives: the context it reads as,
/// when the value is ASCII, reads without error, and has non-zero trace
/// and span identifiers.
pub open spec fn extracted_context(v: Seq<char>) -> Option<(u8, Seq<u8>, Seq<u8>, u8)> {
    if is_ascii_chars(v) {
        match traceparent_outcome(v) {
            Ok(t) => if !all_zero(t.1) && !all_zero(t.2) {
                Some(t)
            } else {
                None
            },
            Err(_) => None,
        }
    } else {
        None
    }
}

/// Propagates trace contexts in the W3C `traceparent` header.
#[derive(Debug, Clone, Copy, PartialEq, Eq)]
pub struct TraceContextPropagator;

impl TraceContextPropagator {
    /// A new propagator.
    pub fn new() -> Self {
        TraceContextPropagator
    }

    /// Stores the `traceparent` text of `context` under `traceparent`.
    pub fn inject(&self, carrier: &mut MapCarrier, context: &TraceContext)
        ensures
            final(carrier).spec_get("traceparent"@) == Some(traceparent_text(*context)),
            forall|k: Seq<char>| k != "traceparent"@ ==> #[trigger] final(carrier).spec_get(k) == old(
                carrier,
            ).spec_get(k),
    {
        let text = context.to_text();
        carrier.set("traceparent", text.as_str());
    }

    /// Reads the context stored under `traceparent`: `None` when absent,
    /// not ASCII, not a valid `traceparent` text, or with an all-zero trace
    /// or span identifier. The result has no parent span and an empty
    /// trace state.
    pub fn extract(&self, carrier: &MapCarrier) -> (r: Option<TraceContext>)
        ensures
            match carrier.spec_get("traceparent"@) {
                None => r is None,
                Some(v) => match extracted_context(v) {
                    None => r is None,
                    Some(t) => r matches Some(c) && c.version == t.0 && c.trace_id@ == t.1
                        && c.span_id@ == t.2 && c.trace_flags.bits() == t.3 && c.parent_span_id is None
                        && c.trace_state.spec_entries().len() == 0,
                },
            },
    {
        let value = match carrier.get("traceparent") {
            Some(v) => v,
            None => {
                return None;
            },
        };
        if !value.as_str().is_ascii() {
            return None;
        }
        proof {
            lemma_ascii_traceparent_no_panic(value@);
        }
        match TraceContext::from_str(value.as_str()) {
            Ok(c) => {
                if c.trace_id.is_zero() || c.span_id.is_zero() {
                    None
                } else {
                    Some(c)
                }
            },
            Err(_) => None,
        }
    }
}

impl Propagator<TraceContext> for TraceContextPropagator {
    fn inject(&self, carrier: &mut MapCarrier, context: &TraceContext)
        ensures
            final(carrier).spec_get("traceparent"@) == Some(traceparent_text(*context)),
            forall|k: Seq<char>| k != "traceparent"@ ==> #[trigger] final(carrier).spec_get(k) == old(
                carrier,
            ).spec_get(k),
    {
        TraceContextPropagator::inject(self, carrier, context)
    }

    fn extract(&self, carrier: &MapCarrier) -> (r: Option<TraceContext>)
        ensures
            match carrier.spec_get("traceparent"@) {
                None => r is None,
                Some(v) => match extracted_context(v) {
                    None => r is None,
                    Some(t) => r matches Some(c) && c.version == t.0 && c.trace_id@ == t.1
                        && c.span_id@ == t.2 && c.trace_flags.bits() == t.3 && c.parent_span_id is None
                        && c.trace_state.spec_entries().len() == 0,
                },
            },
    {
        TraceContextPropagator::extract(self, carrier)
    }
}

/// Extracting what was injected for a valid context gives back its
/// version, trace and span identifiers and flags.
pub proof fn lemma_trace_context_propagation_roundtrip(c: TraceContext)
    requires
        context_valid(c),
    ensures
        extracted_context(traceparent_text(c)) == Some((c.version, c.trace_id@, c.span_id@, c.trace_flags.bits())),
{
    lemma_traceparent_text_ascii(c);
    lemma_traceparent_roundtrip(c);
}

/// The header text of a baggage property: `key=value` or `key`.
pub open spec fn property_text(p: BaggageProperty) -> Seq<char> {
    match p {
        BaggageProperty::KeyValue { key, value } => key@ + "="@ + value@,
        BaggageProperty::Flag { key } => key@,
    }
}

/// The properties of an entry, each preceded by `;`.
pub open spec fn properties_text(ps: Seq<BaggageProperty>) -> Seq<char>
    decreases ps.len(),
{
    if ps.len() == 0 {
        seq![]
    } else {
        properties_text(ps.drop_last()) + seq![';'] + property_text(ps.last())
    }
}

/// The header text of an entry: `key`, `=value` if it has a value, then
/// its properties.
pub open spec fn entry_text(e: BaggageEntry) -> Seq<char> {
    e.key@ + match e.value {
        Some(v) => "="@ + v@,
        None => Seq::<char>::empty(),
    } + properties_text(e.properties@)
}

/// The `baggage` header text: the entries' texts joined by `,`.
pub open spec fn baggage_text(entries: Seq<BaggageEntry>) -> Seq<char> {
    join(entries.map_values(|e: BaggageEntry| entry_text(e)), seq![','])
}

/// Position of the first `c` in `s`, or the length of `s` if there is none.
pub open spec fn char_index(s: Seq<char>, c: char) -> nat
    decreases s.len(),
{
    if s.len() == 0 {
        0
    } else if s[0] == c {
        0
    } else {
        1 + char_index(s.drop_first(), c)
    }
}

/// `s` split at its first `=`: the text before it and, if there is one,
/// the text after it.
pub open spec fn split_first_eq(s: Seq<char>) -> (Seq<char>, Option<Seq<char>>) {
    let i = char_index(s, '=') as int;
    if i < s.len() {
        (s.take(i), Some(s.skip(i + 1)))
    } else {
        (s, None)
    }
}

/// Model of a property: its key and, for a key-value property, its value.
pub open spec fn property_model(p: BaggageProperty) -> (Seq<char>, Option<Seq<char>>) {
    match p {
        BaggageProperty::KeyValue { key, value } => (key@, Some(value@)),
        BaggageProperty::Flag { key } => (key@, None),
    }
}

/// Model of an entry: key, optional value and property models.
pub open spec fn entry_model(e: BaggageEntry) -> (Seq<char>, Option<Seq<char>>, Seq<(Seq<char>, Option<Seq<char>>)>) {
    (e.key@, match e.value {
        Some(v) => Some(v@),
        None => None,
    }, e.properties@.map_values(|p: BaggageProperty| property_model(p)))
}

/// The entry a list member reads as: pieces separated by `;`, the first
/// being `key` or `key=value`, the others properties `key` or `key=value`
/// (split at the first `=`).
pub open spec fn member_model(m: Seq<char>) -> (Seq<char>, Option<Seq<char>>, Seq<(Seq<char>, Option<Seq<char>>)>) {
    let pieces = split_on(m, ';');
    let head = split_first_eq(pieces[0]);
    (head.0, head.1, pieces.skip(1).map_values(|p: Seq<char>| split_first_eq(p)))
}

/// The non-empty members of a list.
pub open spec fn non_empty(ms: Seq<Seq<char>>) -> Seq<Seq<char>>
    decreases ms.len(),
{
    if ms.len() == 0 {
        seq![]
    } else if ms.last().len() == 0 {
        non_empty(ms.drop_last())
    } else {
        non_empty(ms.drop_last()).push(ms.last())
    }
}

/// The entries a `baggage` header reads as: one per non-empty member of
/// its `,`-separated list, in order.
pub open spec fn header_entries(h: Seq<char>) -> Seq<(Seq<char>, Option<Seq<char>>, Seq<(Seq<char>, Option<Seq<char>>)>)> {
    non_empty(split_on(h, ',')).map_values(|m: Seq<char>| member_model(m))
}

fn str_char_index(cs: &Vec<char>, c: char) -> (r: usize)
    ensures
        r == char_index(cs@, c),
        r <= cs@.len(),
        forall|j: int| 0 <= j < r ==> cs@[j] != c,
        r < cs@.len() ==> cs@[r as int] == c,
{
    let mut i: usize = 0;
    assert(cs@.skip(0) =~= cs@);
    while i < cs.len()
        invariant
            i <= cs@.len(),
            forall|j: int| 0 <= j < i ==> cs@[j] != c,
            char_index(cs@, c) == i + char_index(cs@.skip(i as int), c),
        decreases cs.len() - i,
    {
        assert(cs@.skip(i as int)[0] == cs@[i as int]);
        assert(cs@.skip(i as int).drop_first() =~= cs@.skip(i + 1));
        if cs[i] == c {
            return i;
        }
        i = i + 1;
    }
    assert(cs@.skip(i as int) =~= Seq::<char>::empty());
    i
}

fn split_first_eq_exec(s: &str) -> (r: (String, Option<String>))
    ensures
        r.0@ == split_first_eq(s@).0,
        match split_first_eq(s@).1 {
            Some(v) => r.1 matches Some(x) && x@ == v,
            None => r.1 is None,
        },
{
    let cs = crate::text::str_chars(s);
    let i = str_char_index(&cs, '=');
    let n = s.unicode_len();
    if i < n {
        let k = s.substring_char(0, i);
        let v = s.substring_char(i + 1, n);
        assert(s@.subrange(0, i as int) =~= s@.take(i as int));
        assert(s@.subrange(i + 1, n as int) =~= s@.skip(i + 1));
        (k.to_string(), Some(v.to_string()))
    } else {
        (s.to_string(), None)
    }
}

fn parse_member(m: &str) -> (r: BaggageEntry)
    ensures
        entry_model(r) == member_model(m@),
        r.properties@.len() == split_on(m@, ';').len() - 1,
{
    let pieces = split_str(m, ';');
    proof {
        crate::text::lemma_split_on_nonempty(m@, ';');
    }
    assert(pieces@.len() >= 1);
    assert(pieces@[0]@ == split_on(m@, ';')[0]);
    let (key, value) = split_first_eq_exec(pieces[0]);
    let mut properties: Vec<BaggageProperty> = Vec::new();
    let ghost rest = split_on(m@, ';').skip(1);
    let mut i: usize = 1;
    while i < pieces.len()
        invariant
            1 <= i <= pieces@.len(),
            strs_view(pieces@) == split_on(m@, ';'),
            rest == split_on(m@, ';').skip(1),
            properties@.len() == i - 1,
            forall|j: int| 0 <= j < i - 1 ==> #[trigger] property_model(properties@[j]) == split_first_eq(rest[j]),
        decreases pieces.len() - i,
    {
        assert(pieces@[i as int]@ == rest[i - 1]);
        let (k, v) = split_first_eq_exec(pieces[i]);
        let p = match v {
            Some(val) => BaggageProperty::KeyValue { key: k, value: val },
            None => BaggageProperty::Flag { key: k },
        };
        properties.push(p);
        i = i + 1;
    }
    let e = BaggageEntry { key, value, properties };
    assert(e.properties@.map_values(|p: BaggageProperty| property_model(p)) =~= rest.map_values(
        |p: Seq<char>| split_first_eq(p),
    ));
    e
}

/// Byte size counted for an entry model: its key and value.
pub open spec fn model_size(m: (Seq<char>, Option<Seq<char>>, Seq<(Seq<char>, Option<Seq<char>>)>)) -> nat {
    encode_utf8(m.0).len() + match m.1 {
        Some(v) => encode_utf8(v).len(),
        None => 0,
    }
}

/// Total counted size of entry models.
pub open spec fn models_size(ms: Seq<(Seq<char>, Option<Seq<char>>, Seq<(Seq<char>, Option<Seq<char>>)>)>) -> nat
    decreases ms.len(),
{
    if ms.len() == 0 {
        0
    } else {
        models_size(ms.drop_last()) + model_size(ms.last())
    }
}

/// Entry models within the baggage limits: at most 180 entries and at most
/// 64 KiB counted over keys and values.
pub open spec fn models_fit(ms: Seq<(Seq<char>, Option<Seq<char>>, Seq<(Seq<char>, Option<Seq<char>>)>)>) -> bool {
    ms.len() <= 180 && models_size(ms) <= 65536
}

proof fn lemma_non_empty_append(a: Seq<Seq<char>>, b: Seq<Seq<char>>)
    ensures
        non_empty(a + b) == non_empty(a) + non_empty(b),
    decreases b.len(),
{
    if b.len() == 0 {
        assert(a + b =~= a);
        assert(non_empty(a) + non_empty(b) =~= non_empty(a));
    } else {
        lemma_non_empty_append(a, b.drop_last());
        assert((a + b).drop_last() =~= a + b.drop_last());
        assert((a + b).last() == b.last());
        if b.last().len() == 0 {
        } else {
            assert(non_empty(a) + non_empty(b.drop_last()).push(b.last()) =~= (non_empty(a) + non_empty(
                b.drop_last(),
            )).push(b.last()));
        }
    }
}

proof fn lemma_models_size_append(
    a: Seq<(Seq<char>, Option<Seq<char>>, Seq<(Seq<char>, Option<Seq<char>>)>)>,
    b: Seq<(Seq<char>, Option<Seq<char>>, Seq<(Seq<char>, Option<Seq<char>>)>)>,
)
    ensures
        models_size(a + b) == models_size(a) + models_size(b),
    decreases b.len(),
{
    if b.len() == 0 {
        assert(a + b =~= a);
    } else {
        lemma_models_size_append(a, b.drop_last());
        assert((a + b).drop_last() =~= a + b.drop_last());
    }
}

proof fn lemma_entries_models_size(es: Seq<BaggageEntry>)
    ensures
        entries_size(es) == models_size(es.map_values(|e: BaggageEntry| entry_model(e))),
    decreases es.len(),
{
    if es.len() > 0 {
        lemma_entries_models_size(es.drop_last());
        assert(es.map_values(|e: BaggageEntry| entry_model(e)).drop_last() =~= es.drop_last().map_values(
            |e: BaggageEntry| entry_model(e),
        ));
    }
}

/// The header entries extend those of any prefix of the member list, the
/// next member (if non-empty) coming right after them.
proof fn lemma_header_split(all: Seq<Seq<char>>, i: int)
    requires
        0 <= i < all.len(),
        all[i].len() > 0,
    ensures
        non_empty(all).map_values(|m: Seq<char>| member_model(m)) == non_empty(all.take(i)).map_values(
            |m: Seq<char>| member_model(m),
        ).push(member_model(all[i])) + non_empty(all.skip(i + 1)).map_values(|m: Seq<char>| member_model(m)),
{
    let pre = all.take(i);
    let one = seq![all[i]];
    let post = all.skip(i + 1);
    assert(all =~= pre + one + post);
    lemma_non_empty_append(pre + one, post);
    lemma_non_empty_append(pre, one);
    assert(one.drop_last() =~= Seq::<Seq<char>>::empty());
    assert(one.last() == all[i]);
    assert(non_empty(one.drop_last()) =~= Seq::<Seq<char>>::empty());
    assert(non_empty(one) =~= one);
    assert((non_empty(pre) + one + non_empty(post)).map_values(|m: Seq<char>| member_model(m)) =~= non_empty(
        pre,
    ).map_values(|m: Seq<char>| member_model(m)).push(member_model(all[i])) + non_empty(post).map_values(
        |m: Seq<char>| member_model(m),
    ));
}

/// Propagates baggage in the W3C `baggage` header.
#[derive(Debug, Clone, Copy, PartialEq, Eq)]
pub struct BaggagePropagator;

fn push_entry_text(out: &mut String, e: &BaggageEntry)
    ensures
        final(out)@ == old(out)@ + entry_text(*e),
{
    proof {
        reveal_strlit("=");
    }
    push_str(out, e.key.as_str());
    if let Some(v) = &e.value {
        push_char(out, '=');
        push_str(out, v.as_str());
    }
    let ghost head = out@;
    let mut i: usize = 0;
    assert(e.properties@.take(0) =~= Seq::<BaggageProperty>::empty());
    assert(head + properties_text(e.properties@.take(0)) =~= head);
    while i < e.properties.len()
        invariant
            i <= e.properties@.len(),
            out@ == head + properties_text(e.properties@.take(i as int)),
        decreases e.properties.len() - i,
    {
        let ghost before = out@;
        push_char(out, ';');
        let p = &e.properties[i];
        match p {
            BaggageProperty::KeyValue { key, value } => {
                push_str(out, key.as_str());
                push_char(out, '=');
                push_str(out, value.as_str());
                proof {
                    reveal_strlit("=");
                }
                assert(property_text(*p) == key@ + "="@ + value@);
                assert("="@ =~= seq!['=']);
            },
            BaggageProperty::Flag { key } => {
                push_str(out, key.as_str());
            },
        }
        assert(out@ =~= before + seq![';'] + property_text(*p));
        assert(e.properties@.take(i + 1).drop_last() =~= e.properties@.take(i as int));
        assert(e.properties@.take(i + 1).last() == e.properties@[i as int]);
        assert(out@ =~= head + properties_text(e.properties@.take(i + 1)));
        i = i + 1;
    }
    assert(e.properties@.take(e.properties@.len() as int) =~= e.properties@);
    proof {
        reveal_strlit("=");
        assert("="@ =~= seq!['=']);
    }
    assert(out@ =~= old(out)@ + entry_text(*e));
}

impl BaggagePropagator {
    /// A new propagator.
    pub fn new() -> Self {
        BaggagePropagator
    }

    /// Stores the header text of `baggage` under `baggage`: the entries'
    /// texts `key[=value][;prop[=value]]...` joined by `,`.
    pub fn inject(&self, carrier: &mut MapCarrier, baggage: &Baggage)
        ensures
            final(carrier).spec_get("baggage"@) == Some(baggage_text(baggage.spec_entries())),
            forall|k: Seq<char>| k != "baggage"@ ==> #[trigger] final(carrier).spec_get(k) == old(
                carrier,
            ).spec_get(k),
    {
        let entries = baggage.entries();
        let ghost texts = entries@.map_values(|e: BaggageEntry| entry_text(e));
        let mut out = String::new();
        let mut i: usize = 0;
        assert(texts.take(0) =~= Seq::<Seq<char>>::empty());
        while i < entries.len()
            invariant
                i <= entries@.len(),
                texts == entries@.map_values(|e: BaggageEntry| entry_text(e)),
                out@ == join(texts.take(i as int), seq![',']),
            decreases entries.len() - i,
        {
            if i > 0 {
                push_char(&mut out, ',');
            }
            push_entry_text(&mut out, &entries[i]);
            assert(texts.take(i + 1).drop_last() =~= texts.take(i as int));
            assert(texts.take(i + 1).last() == entry_text(entries@[i as int]));
            if i == 0 {
                assert(texts.take(1) =~= seq![texts[0]]);
            }
            assert(out@ =~= join(texts.take(i + 1), seq![',']));
            i = i + 1;
        }
        assert(texts.take(texts.len() as int) =~= texts);
        carrier.set("baggage", out.as_str());
    }

    /// Reads the baggage stored under `baggage`: `None` when absent or when
    /// its entries exceed the baggage limits; otherwise one entry per
    /// non-empty `,`-separated member, in order. Values are taken as they
    /// are written: no whitespace trimming and no percent-decoding.
    pub fn extract(&self, carrier: &MapCarrier) -> (r: Option<Baggage>)
        ensures
            match carrier.spec_get("baggage"@) {
                None => r is None,
                Some(h) => if models_fit(header_entries(h)) {
                    r matches Some(b) && b.wf() && b.spec_entries().map_values(
                        |e: BaggageEntry| entry_model(e),
                    ) == header_entries(h)
                } else {
                    r is None
                },
            },
    {
        let header = match carrier.get("baggage") {
            Some(h) => h,
            None => {
                return None;
            },
        };
        let members = split_str(header.as_str(), ',');
        let ghost all = split_on(header@, ',');
        let mut baggage = Baggage::new();
        let mut i: usize = 0;
        assert(all.take(0) =~= Seq::<Seq<char>>::empty());
        assert(baggage.spec_entries().map_values(|e: BaggageEntry| entry_model(e)) =~= non_empty(
            all.take(0),
        ).map_values(|m: Seq<char>| member_model(m)));
        while i < members.len()
            invariant
                i <= members@.len(),
                strs_view(members@) == all,
                all == split_on(header@, ','),
                carrier.spec_get("baggage"@) == Some(header@),
                baggage.wf(),
                baggage.spec_entries().map_values(|e: BaggageEntry| entry_model(e)) == non_empty(
                    all.take(i as int),
                ).map_values(|m: Seq<char>| member_model(m)),
            decreases members.len() - i,
        {
            let m = members[i];
            assert(m@ == all[i as int]);
            assert(all.take(i + 1).drop_last() =~= all.take(i as int));
            assert(all.take(i + 1).last() == all[i as int]);
            if !m.is_empty() {
                let e = parse_member(m);
                let ghost before = baggage.spec_entries();
                let ghost b0 = baggage;
                match baggage.add_entry(e) {
                    Ok(()) => {},
                    Err(_) => {
                        proof {
                            let es = non_empty(all).map_values(|m: Seq<char>| member_model(m));
                            let pre = non_empty(all.take(i as int)).map_values(|m: Seq<char>| member_model(m));
                            let post = non_empty(all.skip(i + 1)).map_values(|m: Seq<char>| member_model(m));
                            lemma_header_split(all, i as int);
                            lemma_models_size_append(pre.push(member_model(m@)), post);
                            assert(pre.push(member_model(m@)).drop_last() =~= pre);
                            lemma_entries_models_size(before);
                            assert(entry_size(e) == model_size(member_model(m@)));
                            assert(!models_fit(es));
                        }
                        return None;
                    },
                }
                assert(baggage.spec_entries().map_values(|e: BaggageEntry| entry_model(e)) =~= before.map_values(
                    |e: BaggageEntry| entry_model(e),
                ).push(member_model(m@)));
            }
            i = i + 1;
        }
        assert(all.take(all.len() as int) =~= all);
        proof {
            lemma_entries_models_size(baggage.spec_entries());
            baggage.lemma_within_limits();
        }
        Some(baggage)
    }
}

/// `s` holds none of the characters that delimit a baggage key: `,`, `;`
/// and `=`.
pub open spec fn baggage_key_clean(s: Seq<char>) -> bool {
    no_char(s, ',') && no_char(s, ';') && no_char(s, '=')
}

/// `s` holds none of the characters that end a baggage value: `,` and `;`.
pub open spec fn baggage_value_clean(s: Seq<char>) -> bool {
    no_char(s, ',') && no_char(s, ';')
}

/// A property whose key and value read back as written.
pub open spec fn property_clean(p: BaggageProperty) -> bool {
    match p {
        BaggageProperty::KeyValue { key, value } => baggage_key_clean(key@) && baggage_value_clean(value@),
        BaggageProperty::Flag { key } => baggage_key_clean(key@),
    }
}

/// An entry that reads back as written: a non-empty key, and key, value
/// and properties free of their delimiters.
pub open spec fn entry_clean(e: BaggageEntry) -> bool {
    &&& e.key@.len() > 0
    &&& baggage_key_clean(e.key@)
    &&& (e.value matches Some(v) ==> baggage_value_clean(v@))
    &&& forall|i: int| 0 <= i < e.properties@.len() ==> #[trigger] property_clean(e.properties@[i])
}

proof fn lemma_no_char_concat(a: Seq<char>, b: Seq<char>, c: char)
    requires
        no_char(a, c),
        no_char(b, c),
    ensures
        no_char(a + b, c),
{
    assert forall|i: int| 0 <= i < (a + b).len() implies #[trigger] (a + b)[i] != c by {
        if i < a.len() {
            assert((a + b)[i] == a[i]);
        } else {
            assert((a + b)[i] == b[i - a.len()]);
        }
    }
}

proof fn lemma_char_index_absent(a: Seq<char>, c: char)
    requires
        no_char(a, c),
    ensures
        char_index(a, c) == a.len(),
    decreases a.len(),
{
    if a.len() > 0 {
        assert(a[0] != c);
        assert(no_char(a.drop_first(), c)) by {
            assert forall|i: int| 0 <= i < a.drop_first().len() implies #[trigger] a.drop_first()[i] != c by {
                assert(a.drop_first()[i] == a[i + 1]);
            }
        }
        lemma_char_index_absent(a.drop_first(), c);
    }
}

proof fn lemma_char_index_at(a: Seq<char>, b: Seq<char>, c: char)
    requires
        no_char(a, c),
    ensures
        char_index(a + seq![c] + b, c) == a.len(),
    decreases a.len(),
{
    let s = a + seq![c] + b;
    if a.len() == 0 {
        assert(s[0] == c);
    } else {
        assert(s[0] == a[0]);
        assert(a[0] != c);
        assert(s.drop_first() =~= a.drop_first() + seq![c] + b);
        assert(no_char(a.drop_first(), c)) by {
            assert forall|i: int| 0 <= i < a.drop_first().len() implies #[trigger] a.drop_first()[i] != c by {
                assert(a.drop_first()[i] == a[i + 1]);
            }
        }
        lemma_char_index_at(a.drop_first(), b, c);
    }
}

/// The text of a clean property reads back as the property.
proof fn lemma_property_roundtrip(p: BaggageProperty)
    requires
        property_clean(p),
    ensures
        split_first_eq(property_text(p)) == property_model(p),
        no_char(property_text(p), ','),
        no_char(property_text(p), ';'),
{
    reveal_strlit("=");
    assert("="@ =~= seq!['=']);
    match p {
        BaggageProperty::KeyValue { key, value } => {
            let t = key@ + seq!['='] + value@;
            assert(property_text(p) =~= t);
            lemma_char_index_at(key@, value@, '=');
            assert(t.take(key@.len() as int) =~= key@);
            assert(t.skip(key@.len() as int + 1) =~= value@);
            lemma_no_char_concat(key@, seq!['='], ',');
            lemma_no_char_concat(key@ + seq!['='], value@, ',');
            lemma_no_char_concat(key@, seq!['='], ';');
            lemma_no_char_concat(key@ + seq!['='], value@, ';');
        },
        BaggageProperty::Flag { key } => {
            lemma_char_index_absent(key@, '=');
        },
    }
}

/// The `;`-pieces of a head followed by the texts of properties: the head,
/// then each property's text.
proof fn lemma_split_properties(head: Seq<char>, ps: Seq<BaggageProperty>)
    requires
        no_char(head, ';'),
        forall|i: int| 0 <= i < ps.len() ==> #[trigger] property_clean(ps[i]),
    ensures
        split_on(head + properties_text(ps), ';') == seq![head] + ps.map_values(|p: BaggageProperty| property_text(p)),
        no_char(properties_text(ps), ','),
    decreases ps.len(),
{
    if ps.len() == 0 {
        assert(head + properties_text(ps) =~= head);
        lemma_split_single(head, ';');
        assert(seq![head] + ps.map_values(|p: BaggageProperty| property_text(p)) =~= seq![head]);
        assert(no_char(properties_text(ps), ','));
    } else {
        let dl = ps.drop_last();
        assert forall|i: int| 0 <= i < dl.len() implies #[trigger] property_clean(dl[i]) by {
            assert(dl[i] == ps[i]);
        }
        lemma_split_properties(head, dl);
        assert(property_clean(ps[ps.len() - 1]));
        lemma_property_roundtrip(ps.last());
        crate::text::lemma_split_append_piece(head + properties_text(dl), property_text(ps.last()), ';');
        assert(head + properties_text(ps) =~= (head + properties_text(dl)) + seq![';'] + property_text(ps.last()));
        assert(seq![head] + ps.map_values(|p: BaggageProperty| property_text(p)) =~= (seq![head]
            + dl.map_values(|p: BaggageProperty| property_text(p))).push(property_text(ps.last())));
        lemma_no_char_concat(properties_text(dl), seq![';'], ',');
        lemma_no_char_concat(properties_text(dl) + seq![';'], property_text(ps.last()), ',');
    }
}

/// The text of a clean entry reads back as the entry, and holds no `,`.
proof fn lemma_entry_roundtrip(e: BaggageEntry)
    requires
        entry_clean(e),
    ensures
        member_model(entry_text(e)) == entry_model(e),
        no_char(entry_text(e), ','),
        entry_text(e).len() > 0,
{
    reveal_strlit("=");
    assert("="@ =~= seq!['=']);
    let head = e.key@ + match e.value {
        Some(v) => "="@ + v@,
        None => Seq::<char>::empty(),
    };
    let ps = e.properties@;
    assert(entry_text(e) =~= head + properties_text(ps));
    match e.value {
        Some(v) => {
            assert(head =~= e.key@ + seq!['='] + v@);
            lemma_no_char_concat(e.key@, seq!['='], ';');
            lemma_no_char_concat(e.key@ + seq!['='], v@, ';');
            lemma_no_char_concat(e.key@, seq!['='], ',');
            lemma_no_char_concat(e.key@ + seq!['='], v@, ',');
            lemma_char_index_at(e.key@, v@, '=');
            assert(head.take(e.key@.len() as int) =~= e.key@);
            assert(head.skip(e.key@.len() as int + 1) =~= v@);
        },
        None => {
            assert(head =~= e.key@);
            lemma_char_index_absent(e.key@, '=');
        },
    }
    lemma_split_properties(head, ps);
    let pieces = split_on(entry_text(e), ';');
    assert(pieces[0] == head);
    assert(pieces.skip(1) =~= ps.map_values(|p: BaggageProperty| property_text(p)));
    assert forall|i: int| 0 <= i < ps.len() implies split_first_eq(#[trigger] pieces.skip(1)[i]) == property_model(
        ps[i],
    ) by {
        assert(property_clean(ps[i]));
        lemma_property_roundtrip(ps[i]);
    }
    assert(pieces.skip(1).map_values(|q: Seq<char>| split_first_eq(q)) =~= ps.map_values(
        |p: BaggageProperty| property_model(p),
    ));
    lemma_no_char_concat(head, properties_text(ps), ',');
}

proof fn lemma_split_join(texts: Seq<Seq<char>>)
    requires
        texts.len() > 0,
        forall|i: int| 0 <= i < texts.len() ==> no_char(#[trigger] texts[i], ','),
    ensures
        split_on(join(texts, seq![',']), ',') == texts,
    decreases texts.len(),
{
    if texts.len() == 1 {
        assert(no_char(texts[0], ','));
        lemma_split_single(texts[0], ',');
        assert(seq![texts[0]] =~= texts);
    } else {
        let dl = texts.drop_last();
        assert forall|i: int| 0 <= i < dl.len() implies no_char(#[trigger] dl[i], ',') by {
            assert(dl[i] == texts[i]);
        }
        lemma_split_join(dl);
        assert(no_char(texts[texts.len() - 1], ','));
        crate::text::lemma_split_append_piece(join(dl, seq![',']), texts.last(), ',');
        assert(dl.push(texts.last()) =~= texts);
    }
}

proof fn lemma_non_empty_all(ms: Seq<Seq<char>>)
    requires
        forall|i: int| 0 <= i < ms.len() ==> (#[trigger] ms[i]).len() > 0,
    ensures
        non_empty(ms) == ms,
    decreases ms.len(),
{
    if ms.len() > 0 {
        let dl = ms.drop_last();
        assert forall|i: int| 0 <= i < dl.len() implies (#[trigger] dl[i]).len() > 0 by {
            assert(dl[i] == ms[i]);
        }
        lemma_non_empty_all(dl);
        assert(ms[ms.len() - 1].len() > 0);
        assert(dl.push(ms.last()) =~= ms);
    }
}

/// Extracting what was injected for a well-formed baggage of clean
/// entries gives back every entry (key, value and properties), in order,
/// within the baggage limits.
pub proof fn lemma_baggage_propagation_roundtrip(b: Baggage)
    requires
        b.wf(),
        forall|i: int| 0 <= i < b.spec_entries().len() ==> #[trigger] entry_clean(b.spec_entries()[i]),
    ensures
        header_entries(baggage_text(b.spec_entries())) == b.spec_entries().map_values(|e: BaggageEntry| entry_model(e)),
        models_fit(header_entries(baggage_text(b.spec_entries()))),
{
    let es = b.spec_entries();
    let texts = es.map_values(|e: BaggageEntry| entry_text(e));
    assert forall|i: int| 0 <= i < es.len() implies member_model(#[trigger] texts[i]) == entry_model(es[i])
        && no_char(texts[i], ',') && texts[i].len() > 0 by {
        assert(entry_clean(es[i]));
        lemma_entry_roundtrip(es[i]);
    }
    if es.len() == 0 {
        assert(join(texts, seq![',']) =~= Seq::<char>::empty());
        assert(split_on(Seq::<char>::empty(), ',') =~= seq![Seq::<char>::empty()]);
        let one = seq![Seq::<char>::empty()];
        assert(one.drop_last() =~= Seq::<Seq<char>>::empty());
        assert(one.last().len() == 0);
        assert(non_empty(Seq::<Seq<char>>::empty()) =~= Seq::<Seq<char>>::empty());
        assert(non_empty(one) =~= Seq::<Seq<char>>::empty());
        assert(header_entries(baggage_text(es)) =~= es.map_values(|e: BaggageEntry| entry_model(e)));
    } else {
        assert forall|i: int| 0 <= i < texts.len() implies no_char(#[trigger] texts[i], ',') by {
            assert(no_char(texts[i], ','));
        }
        lemma_split_join(texts);
        assert forall|i: int| 0 <= i < texts.len() implies (#[trigger] texts[i]).len() > 0 by {
            assert(texts[i].len() > 0);
        }
        lemma_non_empty_all(texts);
        assert(texts.map_values(|m: Seq<char>| member_model(m)) =~= es.map_values(|e: BaggageEntry| entry_model(e)));
    }
    b.lemma_within_limits();
    lemma_entries_models_size(es);
}

impl Propagator<Baggage> for BaggagePropagator {
    fn inject(&self, carrier: &mut MapCarrier, context: &Baggage)
        ensures
            final(carrier).spec_get("baggage"@) == Some(baggage_text(context.spec_entries())),
            forall|k: Seq<char>| k != "baggage"@ ==> #[trigger] final(carrier).spec_get(k) == old(
                carrier,
            ).spec_get(k),
    {
        BaggagePropagator::inject(self, carrier, context)
    }

    fn extract(&self, carrier: &MapCarrier) -> (r: Option<Baggage>)
        ensures
            match carrier.spec_get("baggage"@) {
                None => r is None,
                Some(h) => if models_fit(header_entries(h)) {
                    r matches Some(b) && b.wf() && b.spec_entries().map_values(
                        |e: BaggageEntry| entry_model(e),
                    ) == header_entries(h)
                } else {
                    r is None
                },
            },
    {
        BaggagePropagator::extract(self, carrier)
    }
}

} // verus!
