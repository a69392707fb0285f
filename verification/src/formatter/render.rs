//! Pieces shared by the formatters: severity labels, the logger name of a
//! context, JSON string literals and the renderings of attribute values.

use vstd::prelude::*;

use crate::attribute::{float_bits_infinite, float_bits_nan, value_model, value_models, LogAttribute,
    LogAttributeValue, ValueModel};
use crate::context::LogContext;
use crate::formatter::error::FormatError;
use crate::formatter::time::{rfc3339_text, rfc3339_utc};
use crate::hex::byte_hex;
use crate::severity::Severity;
use crate::text::{decimal, denotes_integer, i64_to_decimal, lemma_signed_decimal_denotes, join, join_strings, push_char, push_decimal, push_str,
    signed_decimal, str_chars, str_eq, strings_view};

verus! {

/// Upper-case label of a severity.
pub open spec fn severity_label_text(s: Severity) -> Seq<char> {
    match s {
        Severity::Trace => "TRACE"@,
        Severity::Debug => "DEBUG"@,
        Severity::Info => "INFO"@,
        Severity::Warn => "WARN"@,
        Severity::Error => "ERROR"@,
        Severity::Fatal => "FATAL"@,
    }
}

/// Maps a severity to its upper-case ASCII label.
pub fn severity_label(s: &Severity) -> (r: &'static str)
    ensures
        r@ == severity_label_text(*s),
{
    match s {
        Severity::Trace => "TRACE",
        Severity::Debug => "DEBUG",
        Severity::Info => "INFO",
        Severity::Warn => "WARN",
        Severity::Error => "ERROR",
        Severity::Fatal => "FATAL",
    }
}

/// The logger name among `attrs`: the value of the first attribute named
/// `logger` whose value is a string.
pub open spec fn logger_in(attrs: Seq<LogAttribute>) -> Option<Seq<char>>
    decreases attrs.len(),
{
    if attrs.len() == 0 {
        None
    } else {
        match attrs[0].spec_value() {
            LogAttributeValue::String(s) => if attrs[0].spec_name() == "logger"@ {
                Some(s@)
            } else {
                logger_in(attrs.drop_first())
            },
            _ => logger_in(attrs.drop_first()),
        }
    }
}

/// The logger name of an optional context.
pub open spec fn logger_of(ctx: Option<LogContext>) -> Option<Seq<char>> {
    match ctx {
        Some(c) => logger_in(c.spec_attributes()),
        None => None,
    }
}

/// Extracts the logger name: the first attribute of the context named
/// `logger` whose value is a string. `None` when the context is absent or
/// holds no such attribute.
pub fn logger_name(ctx: Option<&LogContext>) -> (r: Option<&str>)
    ensures
        match logger_of(
            match ctx {
                Some(c) => Some(*c),
                None => None,
            },
        ) {
            Some(n) => r matches Some(x) && x@ == n,
            None => r is None,
        },
{
    let c = match ctx {
        Some(c) => c,
        None => {
            return None;
        },
    };
    let attrs = c.attributes();
    let mut i: usize = 0;
    assert(attrs@.skip(0) =~= attrs@);
    while i < attrs.len()
        invariant
            ctx == Some(c),
            attrs@ == c.spec_attributes(),
            i <= attrs.len(),
            logger_in(attrs@) == logger_in(attrs@.skip(i as int)),
        decreases attrs.len() - i,
    {
        let a = &attrs[i];
        assert(attrs@.skip(i as int)[0] == attrs@[i as int]);
        assert(attrs@.skip(i as int).drop_first() =~= attrs@.skip(i + 1));
        if str_eq(a.name(), "logger") {
            if let LogAttributeValue::String(s) = a.value() {
                assert(logger_in(attrs@.skip(i as int)) == Some(s@));
                return Some(s.as_str());
            }
        }
        i = i + 1;
    }
    assert(attrs@.skip(attrs@.len() as int) =~= Seq::<LogAttribute>::empty());
    None
}

/// How a character is written inside a JSON string literal: `"` and `\`
/// behind a backslash; backspace, tab, line feed, form feed and carriage
/// return as `\b`, `\t`, `\n`, `\f`, `\r`; every other character below
/// U+0020 as `\u00` and two lower-case hexadecimal digits; any other
/// character as itself.
pub open spec fn json_escape_char(c: char) -> Seq<char> {
    if c == '"' {
        seq!['\\', '"']
    } else if c == '\\' {
        seq!['\\', '\\']
    } else if c == '\u{8}' {
        seq!['\\', 'b']
    } else if c == '\t' {
        seq!['\\', 't']
    } else if c == '\n' {
        seq!['\\', 'n']
    } else if c == '\u{c}' {
        seq!['\\', 'f']
    } else if c == '\r' {
        seq!['\\', 'r']
    } else if (c as u32) < 0x20 {
        seq!['\\', 'u', '0', '0'] + byte_hex(c as u8)
    } else {
        seq![c]
    }
}

/// The characters of `s`, each written as `json_escape_char` says.
pub open spec fn json_escaped(s: Seq<char>) -> Seq<char>
    decreases s.len(),
{
    if s.len() == 0 {
        seq![]
    } else {
        json_escaped(s.drop_last()) + json_escape_char(s.last())
    }
}

/// The JSON string literal that `serde_json` writes for a string: the text
/// in double quotes, each character escaped as `json_escape_char` says.
pub open spec fn json_quoted(s: Seq<char>) -> Seq<char> {
    seq!['"'] + json_escaped(s) + seq!['"']
}

/// `serde_json::to_string` on a string slice. Serializing a string into
/// memory does not fail (the only errors of `to_string` come from the
/// writer or from a `Serialize` impl that fails, neither of which a string
/// has); the text is the string literal `json_quoted` describes, as the
/// escape table of `serde_json`'s serializer writes it.
#[verifier::external_body]
fn json_string_literal(s: &str) -> (r: Result<String, String>)
    ensures
        r is Ok,
        r->Ok_0@ == json_quoted(s@),
{
    serde_json::to_string(s).map_err(|e| e.to_string())
}

/// A JSON string literal, with serde's refusal (which a string never
/// meets) reported as a serialization error.
pub fn json_quote(s: &str) -> (r: Result<String, FormatError>)
    ensures
        r matches Ok(t) && t@ == json_quoted(s@),
{
    match json_string_literal(s) {
        Ok(t) => Ok(t),
        Err(e) => Err(FormatError::SerializationError(e)),
    }
}

/// `s` with every double quote preceded by a backslash.
pub open spec fn escape_quotes(s: Seq<char>) -> Seq<char>
    decreases s.len(),
{
    if s.len() == 0 {
        seq![]
    } else if s.last() == '"' {
        escape_quotes(s.drop_last()) + seq!['\\', '"']
    } else {
        escape_quotes(s.drop_last()).push(s.last())
    }
}

/// The logfmt token for a string: double-quoted with inner quotes escaped
/// when it holds a space, `=` or `"`; bare otherwise.
pub open spec fn logfmt_quoted(s: Seq<char>) -> Seq<char> {
    if s.contains(' ') || s.contains('=') || s.contains('"') {
        seq!['"'] + escape_quotes(s) + seq!['"']
    } else {
        s
    }
}

/// Reads back a text written by `escape_quotes`: each `\"` stands for `"`.
pub open spec fn unescape_quotes(t: Seq<char>) -> Seq<char>
    decreases t.len(),
{
    if t.len() == 0 {
        seq![]
    } else if t.len() >= 2 && t.last() == '"' && t[t.len() - 2] == '\\' {
        unescape_quotes(t.subrange(0, t.len() - 2)).push('"')
    } else {
        unescape_quotes(t.drop_last()).push(t.last())
    }
}

/// Every double quote of `t` follows a backslash.
pub open spec fn quotes_escaped(t: Seq<char>) -> bool {
    forall|i: int| 0 <= i < t.len() && #[trigger] t[i] == '"' ==> i > 0 && t[i - 1] == '\\'
}

/// Escaping quotes leaves no bare quote and can be read back.
pub proof fn lemma_escape_quotes_reads_back(s: Seq<char>)
    ensures
        unescape_quotes(escape_quotes(s)) == s,
        quotes_escaped(escape_quotes(s)),
    decreases s.len(),
{
    if s.len() > 0 {
        let p = s.drop_last();
        lemma_escape_quotes_reads_back(p);
        let ep = escape_quotes(p);
        let e = escape_quotes(s);
        if s.last() == '"' {
            assert(e =~= ep + seq!['\\', '"']);
            assert(e.subrange(0, e.len() - 2) =~= ep);
            assert forall|i: int| 0 <= i < e.len() && #[trigger] e[i] == '"' implies i > 0 && e[i - 1] == '\\' by {
                if i < ep.len() {
                    assert(e[i] == ep[i]);
                    assert(ep[i] == '"');
                    assert(e[i - 1] == ep[i - 1]);
                }
            }
        } else {
            assert(e =~= ep.push(s.last()));
            assert(e.drop_last() =~= ep);
            assert forall|i: int| 0 <= i < e.len() && #[trigger] e[i] == '"' implies i > 0 && e[i - 1] == '\\' by {
                if i < ep.len() {
                    assert(e[i] == ep[i]);
                    assert(ep[i] == '"');
                    assert(e[i - 1] == ep[i - 1]);
                }
            }
        }
        assert(p.push(s.last()) =~= s);
    }
}

/// A string holding a space, `=` or `"` becomes a quoted logfmt token: in
/// double quotes, with no bare quote inside, and reading the inside back
/// gives the string. Any other string is written as it is.
pub proof fn law_logfmt_quoting(s: Seq<char>)
    ensures
        s.contains(' ') || s.contains('=') || s.contains('"') ==> {
            let q = logfmt_quoted(s);
            let inner = q.subrange(1, q.len() - 1);
            &&& q.len() >= 2
            &&& q[0] == '"'
            &&& q[q.len() - 1] == '"'
            &&& quotes_escaped(inner)
            &&& unescape_quotes(inner) == s
        },
        !(s.contains(' ') || s.contains('=') || s.contains('"')) ==> logfmt_quoted(s) == s,
{
    lemma_escape_quotes_reads_back(s);
    if s.contains(' ') || s.contains('=') || s.contains('"') {
        let q = logfmt_quoted(s);
        assert(q.subrange(1, q.len() - 1) =~= escape_quotes(s));
    }
}

/// Returns the logfmt-quoted representation of `s`.
pub fn logfmt_quote(s: &str) -> (r: String)
    ensures
        r@ == logfmt_quoted(s@),
{
    let cs = str_chars(s);
    let mut needs = false;
    let mut i: usize = 0;
    while i < cs.len()
        invariant
            cs@ == s@,
            i <= cs.len(),
            needs == exists|j: int| 0 <= j < i && (cs@[j] == ' ' || cs@[j] == '=' || cs@[j] == '"'),
        decreases cs.len() - i,
    {
        if cs[i] == ' ' || cs[i] == '=' || cs[i] == '"' {
            needs = true;
        }
        i = i + 1;
    }
    assert(needs == (s@.contains(' ') || s@.contains('=') || s@.contains('"'))) by {
        if needs {
            let j = choose|j: int| 0 <= j < cs.len() && (cs@[j] == ' ' || cs@[j] == '=' || cs@[j] == '"');
            assert(s@[j] == cs@[j]);
        }
        if s@.contains(' ') {
            let j = choose|j: int| 0 <= j < s@.len() && s@[j] == ' ';
            assert(cs@[j] == ' ');
        }
        if s@.contains('=') {
            let j = choose|j: int| 0 <= j < s@.len() && s@[j] == '=';
            assert(cs@[j] == '=');
        }
        if s@.contains('"') {
            let j = choose|j: int| 0 <= j < s@.len() && s@[j] == '"';
            assert(cs@[j] == '"');
        }
    }
    if !needs {
        return s.to_string();
    }
    let mut out = String::new();
    push_char(&mut out, '"');
    let mut k: usize = 0;
    while k < cs.len()
        invariant
            cs@ == s@,
            k <= cs.len(),
            out@ == seq!['"'] + escape_quotes(s@.take(k as int)),
        decreases cs.len() - k,
    {
        let c = cs[k];
        assert(s@.take(k + 1).drop_last() =~= s@.take(k as int));
        assert(s@.take(k + 1).last() == c);
        if c == '"' {
            push_char(&mut out, '\\');
            push_char(&mut out, '"');
        } else {
            push_char(&mut out, c);
        }
        assert(out@ =~= seq!['"'] + escape_quotes(s@.take(k + 1)));
        k = k + 1;
    }
    push_char(&mut out, '"');
    assert(s@.take(s@.len() as int) =~= s@);
    assert(out@ =~= seq!['"'] + escape_quotes(s@) + seq!['"']);
    out
}

/// `true` or `false`.
pub open spec fn bool_text(b: bool) -> Seq<char> {
    if b {
        "true"@
    } else {
        "false"@
    }
}

fn bool_string(b: bool) -> (r: String)
    ensures
        r@ == bool_text(b),
{
    if b {
        "true".to_string()
    } else {
        "false".to_string()
    }
}

/// A compact JSON array of already rendered elements: `[a,b,c]`.
pub open spec fn json_array_text(items: Seq<Seq<char>>) -> Seq<char> {
    seq!['['] + join(items, seq![',']) + seq![']']
}

fn json_array(parts: &Vec<String>) -> (r: String)
    ensures
        r@ == json_array_text(strings_view(parts@)),
{
    let mut out = String::new();
    push_char(&mut out, '[');
    let body = join_strings(parts, ",");
    push_str(&mut out, body.as_str());
    push_char(&mut out, ']');
    proof {
        reveal_strlit(",");
        assert(","@ =~= seq![',']);
    }
    assert(out@ =~= json_array_text(strings_view(parts@)));
    out
}

/// JSON text of a value inside an inline array of the logfmt rendering:
/// strings and instants as JSON strings, NaN and infinities as the strings
/// `"NaN"` and `"Inf"`, nested arrays as arrays.
pub open spec fn logfmt_item_json(m: ValueModel) -> Seq<char>
    decreases m, 1nat,
{
    match m {
        ValueModel::Str(s) => json_quoted(s),
        ValueModel::Int(n) => signed_decimal(n as int),
        ValueModel::Float(bits, _, _, jt) => if float_bits_nan(bits) {
            json_quoted("NaN"@)
        } else if float_bits_infinite(bits) {
            json_quoted("Inf"@)
        } else {
            jt
        },
        ValueModel::Bool(b) => bool_text(b),
        ValueModel::Time(t) => json_quoted(rfc3339_text(t.secs)),
        ValueModel::List(items) => json_array_text(logfmt_items_json(items)),
    }
}

/// `logfmt_item_json` of each element.
pub open spec fn logfmt_items_json(ms: Seq<ValueModel>) -> Seq<Seq<char>>
    decreases ms, 0nat,
{
    if ms.len() == 0 {
        seq![]
    } else {
        logfmt_items_json(ms.drop_last()).push(logfmt_item_json(ms.last()))
    }
}

proof fn lemma_models_take_step(items: Seq<LogAttributeValue>, i: int)
    requires
        0 <= i < items.len(),
    ensures
        value_models(items.take(i + 1)) == value_models(items.take(i)).push(value_model(items[i])),
        value_models(items.take(i + 1)).drop_last() == value_models(items.take(i)),
        value_models(items.take(i + 1)).last() == value_model(items[i]),
        value_models(items.take(i + 1)).len() > 0,
{
    assert(items.take(i + 1).drop_last() =~= items.take(i));
    assert(items.take(i + 1).last() == items[i]);
    assert(value_models(items.take(i + 1)).drop_last() =~= value_models(items.take(i)));
}

proof fn lemma_models_index(s: Seq<LogAttributeValue>)
    ensures
        value_models(s).len() == s.len(),
        forall|k: int| 0 <= k < s.len() ==> #[trigger] value_models(s)[k] == value_model(s[k]),
    decreases s.len(),
{
    if s.len() > 0 {
        lemma_models_index(s.drop_last());
        assert forall|k: int| 0 <= k < s.len() implies #[trigger] value_models(s)[k] == value_model(s[k]) by {
            if k < s.len() - 1 {
                assert(s.drop_last()[k] == s[k]);
            }
        }
    }
}

proof fn lemma_models_take_zero(items: Seq<LogAttributeValue>)
    ensures
        value_models(items.take(0)) == Seq::<ValueModel>::empty(),
{
    assert(items.take(0) =~= Seq::<LogAttributeValue>::empty());
}

proof fn lemma_models_take_all(items: Seq<LogAttributeValue>)
    ensures
        value_models(items.take(items.len() as int)) == value_models(items),
{
    assert(items.take(items.len() as int) =~= items);
}

/// Renders an array element as inline JSON for the logfmt form.
pub fn array_item_to_json(v: &LogAttributeValue) -> (r: Result<String, FormatError>)
    ensures
        r matches Ok(t) && t@ == logfmt_item_json(v@),
    decreases v,
{
    match v {
        LogAttributeValue::String(s) => json_quote(s.as_str()),
        LogAttributeValue::Integer(n) => Ok(i64_to_decimal(*n)),
        LogAttributeValue::Float(f) => {
            if f.is_nan() {
                json_quote("NaN")
            } else if f.is_infinite() {
                json_quote("Inf")
            } else {
                Ok(f.json_text.clone())
            }
        },
        LogAttributeValue::Boolean(b) => Ok(bool_string(*b)),
        LogAttributeValue::Timestamp(t) => {
            let ts = rfc3339_utc(*t);
            json_quote(ts.as_str())
        },
        LogAttributeValue::Array(items) => {
            let mut parts: Vec<String> = Vec::new();
            let mut i: usize = 0;
            proof {
                lemma_models_take_zero(items@);
                assert(strings_view(parts@) =~= Seq::<Seq<char>>::empty());
            }
            while i < items.len()
                invariant
                    *v == LogAttributeValue::Array(*items),
                    i <= items.len(),
                    strings_view(parts@) == logfmt_items_json(value_models(items@.take(i as int))),
                decreases items.len() - i,
            {
                proof {
                    vstd::std_specs::vec::axiom_vec_decreases_to_view(*items);
                    assert(decreases_to!(*v => (*v)->Array_0));
                    assert(decreases_to!(items@ => items@[i as int]));
                    lemma_models_take_step(items@, i as int);
                }
                let t = match array_item_to_json(&items[i]) {
                    Ok(t) => t,
                    Err(e) => {
                        return Err(e);
                    },
                };
                let ghost before = parts@;
                parts.push(t);
                assert(strings_view(parts@) =~= strings_view(before).push(t@));
                i = i + 1;
            }
            proof {
                lemma_models_take_all(items@);
            }
            Ok(json_array(&parts))
        },
    }
}

/// The JSON rendering of a value in the JSON form: like the logfmt inline
/// form, except that a NaN or infinite float anywhere is refused with the
/// message `non-finite float value: <text>` (the first one met, in order).
pub open spec fn json_value(m: ValueModel) -> Result<Seq<char>, Seq<char>>
    decreases m, 1nat,
{
    match m {
        ValueModel::Float(bits, text, _, jt) => if float_bits_nan(bits) || float_bits_infinite(bits) {
            Err("non-finite float value: "@ + text)
        } else {
            Ok(jt)
        },
        ValueModel::List(items) => match json_values(items) {
            Ok(v) => Ok(json_array_text(v)),
            Err(e) => Err(e),
        },
        _ => Ok(logfmt_item_json(m)),
    }
}

/// `json_value` of each element, or the first refusal.
pub open spec fn json_values(ms: Seq<ValueModel>) -> Result<Seq<Seq<char>>, Seq<char>>
    decreases ms, 0nat,
{
    if ms.len() == 0 {
        Ok(seq![])
    } else {
        match json_values(ms.drop_last()) {
            Err(e) => Err(e),
            Ok(v) => match json_value(ms.last()) {
                Err(e) => Err(e),
                Ok(x) => Ok(v.push(x)),
            },
        }
    }
}

/// Renders a value as JSON for the JSON form.
pub fn attr_value_to_json(v: &LogAttributeValue) -> (r: Result<String, FormatError>)
    ensures
        match json_value(v@) {
            Ok(t) => r matches Ok(x) && x@ == t,
            Err(m) => r matches Err(FormatError::RenderError(x)) && x@ == m,
        },
    decreases v,
{
    match v {
        LogAttributeValue::Float(f) => {
            if f.is_nan() || f.is_infinite() {
                let mut m = "non-finite float value: ".to_string();
                push_str(&mut m, f.text.as_str());
                Err(FormatError::RenderError(m))
            } else {
                Ok(f.json_text.clone())
            }
        },
        LogAttributeValue::Array(items) => {
            let mut parts: Vec<String> = Vec::new();
            let mut i: usize = 0;
            proof {
                lemma_models_take_zero(items@);
                assert(strings_view(parts@) =~= Seq::<Seq<char>>::empty());
            }
            while i < items.len()
                invariant
                    *v == LogAttributeValue::Array(*items),
                    i <= items.len(),
                    json_values(value_models(items@.take(i as int))) == Ok::<Seq<Seq<char>>, Seq<char>>(
                        strings_view(parts@),
                    ),
                decreases items.len() - i,
            {
                proof {
                    vstd::std_specs::vec::axiom_vec_decreases_to_view(*items);
                    assert(decreases_to!(*v => (*v)->Array_0));
                    assert(decreases_to!(items@ => items@[i as int]));
                    lemma_models_take_step(items@, i as int);
                }
                let t = match attr_value_to_json(&items[i]) {
                    Ok(t) => t,
                    Err(e) => {
                        proof {
                            lemma_json_values_prefix_err(items@, i as int);
                        }
                        return Err(e);
                    },
                };
                let ghost before = parts@;
                parts.push(t);
                assert(strings_view(parts@) =~= strings_view(before).push(t@));
                i = i + 1;
            }
            proof {
                lemma_models_take_all(items@);
            }
            Ok(json_array(&parts))
        },
        _ => array_item_to_json(v),
    }
}

proof fn lemma_json_values_prefix_err(items: Seq<LogAttributeValue>, i: int)
    requires
        0 <= i < items.len(),
        json_values(value_models(items.take(i))) is Ok,
        json_value(value_model(items[i])) is Err,
    ensures
        json_values(value_models(items)) == Err::<Seq<Seq<char>>, Seq<char>>(
            json_value(value_model(items[i]))->Err_0,
        ),
    decreases items.len() - i,
{
    lemma_models_take_step(items, i);
    lemma_json_values_err_extends(items, i + 1);
    lemma_models_take_all(items);
}

proof fn lemma_json_values_err_extends(items: Seq<LogAttributeValue>, k: int)
    requires
        0 <= k <= items.len(),
        json_values(value_models(items.take(k))) is Err,
    ensures
        json_values(value_models(items.take(items.len() as int))) == json_values(value_models(items.take(k))),
    decreases items.len() - k,
{
    if k < items.len() {
        lemma_models_take_step(items, k);
        lemma_json_values_err_extends(items, k + 1);
    }
}

/// The `Debug` text of a string: quoted, with Rust's debug escapes.
pub uninterp spec fn str_debug_text(s: Seq<char>) -> Seq<char>;

/// `format!("{:?}", s)` for a string slice (`<str as Debug>::fmt`); the text
/// is named `str_debug_text`.
#[verifier::external_body]
fn str_debug(s: &str) -> (r: String)
    ensures
        r@ == str_debug_text(s@),
{
    format!("{:?}", s)
}

/// The `Debug` text of an attribute value, as its derived `Debug` prints
/// it: `String("..")`, `Integer(n)`, `Float(x)`, `Boolean(b)`,
/// `Timestamp(SystemTime { tv_sec: s, tv_nsec: n })`, `Array([..])`.
pub open spec fn value_debug(m: ValueModel) -> Seq<char>
    decreases m, 1nat,
{
    match m {
        ValueModel::Str(s) => "String("@ + str_debug_text(s) + ")"@,
        ValueModel::Int(n) => "Integer("@ + signed_decimal(n as int) + ")"@,
        ValueModel::Float(_, _, dbg, _) => "Float("@ + dbg + ")"@,
        ValueModel::Bool(b) => "Boolean("@ + bool_text(b) + ")"@,
        ValueModel::Time(t) => "Timestamp(SystemTime { tv_sec: "@ + decimal(t.secs as nat)
            + ", tv_nsec: "@ + decimal(t.nanos as nat) + " })"@,
        ValueModel::List(items) => "Array(["@ + join(values_debug(items), ", "@) + "])"@,
    }
}

/// `value_debug` of each element.
pub open spec fn values_debug(ms: Seq<ValueModel>) -> Seq<Seq<char>>
    decreases ms, 0nat,
{
    if ms.len() == 0 {
        seq![]
    } else {
        values_debug(ms.drop_last()).push(value_debug(ms.last()))
    }
}

/// The `Debug` text of an attribute value.
pub fn value_debug_string(v: &LogAttributeValue) -> (r: String)
    ensures
        r@ == value_debug(v@),
    decreases v,
{
    match v {
        LogAttributeValue::String(s) => {
            let mut out = "String(".to_string();
            let d = str_debug(s.as_str());
            push_str(&mut out, d.as_str());
            push_str(&mut out, ")");
            out
        },
        LogAttributeValue::Integer(n) => {
            let mut out = "Integer(".to_string();
            let d = i64_to_decimal(*n);
            push_str(&mut out, d.as_str());
            push_str(&mut out, ")");
            out
        },
        LogAttributeValue::Float(f) => {
            let mut out = "Float(".to_string();
            push_str(&mut out, f.debug_text.as_str());
            push_str(&mut out, ")");
            out
        },
        LogAttributeValue::Boolean(b) => {
            let mut out = "Boolean(".to_string();
            let d = bool_string(*b);
            push_str(&mut out, d.as_str());
            push_str(&mut out, ")");
            out
        },
        LogAttributeValue::Timestamp(t) => {
            let mut out = "Timestamp(SystemTime { tv_sec: ".to_string();
            push_decimal(&mut out, t.secs);
            push_str(&mut out, ", tv_nsec: ");
            push_decimal(&mut out, t.nanos as u64);
            push_str(&mut out, " })");
            out
        },
        LogAttributeValue::Array(items) => {
            let mut parts: Vec<String> = Vec::new();
            let mut i: usize = 0;
            proof {
                lemma_models_take_zero(items@);
                assert(strings_view(parts@) =~= Seq::<Seq<char>>::empty());
            }
            while i < items.len()
                invariant
                    *v == LogAttributeValue::Array(*items),
                    i <= items.len(),
                    strings_view(parts@) == values_debug(value_models(items@.take(i as int))),
                decreases items.len() - i,
            {
                proof {
                    vstd::std_specs::vec::axiom_vec_decreases_to_view(*items);
                    assert(decreases_to!(*v => (*v)->Array_0));
                    assert(decreases_to!(items@ => items@[i as int]));
                    lemma_models_take_step(items@, i as int);
                }
                let t = value_debug_string(&items[i]);
                let ghost before = parts@;
                parts.push(t);
                assert(strings_view(parts@) =~= strings_view(before).push(t@));
                i = i + 1;
            }
            proof {
                lemma_models_take_all(items@);
            }
            let mut out = "Array([".to_string();
            let body = join_strings(&parts, ", ");
            push_str(&mut out, body.as_str());
            push_str(&mut out, "])");
            out
        },
    }
}

/// JSON text of an element of an inline array in the human-readable form:
/// NaN and infinities as JSON strings of their text, nested arrays as a
/// JSON string of their `Debug` text, everything else as in the logfmt form.
pub open spec fn human_item_json(m: ValueModel) -> Seq<char> {
    match m {
        ValueModel::Float(bits, text, _, jt) => if float_bits_nan(bits) || float_bits_infinite(bits) {
            json_quoted(text)
        } else {
            jt
        },
        ValueModel::List(_) => json_quoted(value_debug(m)),
        _ => logfmt_item_json(m),
    }
}

/// The human-readable rendering of a value: strings bare, NaN as `NaN`,
/// infinities as `Inf`, instants as RFC 3339, arrays as inline JSON.
pub open spec fn human_value_text(m: ValueModel) -> Seq<char> {
    match m {
        ValueModel::Str(s) => s,
        ValueModel::Int(n) => signed_decimal(n as int),
        ValueModel::Float(bits, text, _, _) => if float_bits_nan(bits) {
            "NaN"@
        } else if float_bits_infinite(bits) {
            "Inf"@
        } else {
            text
        },
        ValueModel::Bool(b) => bool_text(b),
        ValueModel::Time(t) => rfc3339_text(t.secs),
        ValueModel::List(items) => json_array_text(items.map_values(|x: ValueModel| human_item_json(x))),
    }
}

fn human_array_item(v: &LogAttributeValue) -> (r: String)
    ensures
        r@ == human_item_json(v@),
{
    match v {
        LogAttributeValue::Float(f) => {
            if f.is_nan() || f.is_infinite() {
                json_quote(f.text.as_str()).unwrap()
            } else {
                f.json_text.clone()
            }
        },
        LogAttributeValue::Array(_) => {
            let d = value_debug_string(v);
            json_quote(d.as_str()).unwrap()
        },
        _ => array_item_to_json(v).unwrap(),
    }
}

/// Renders a value for the human-readable form.
pub fn attr_value_to_human(v: &LogAttributeValue) -> (r: String)
    ensures
        r@ == human_value_text(v@),
{
    match v {
        LogAttributeValue::String(s) => s.clone(),
        LogAttributeValue::Integer(n) => i64_to_decimal(*n),
        LogAttributeValue::Float(f) => {
            if f.is_nan() {
                "NaN".to_string()
            } else if f.is_infinite() {
                "Inf".to_string()
            } else {
                f.text.clone()
            }
        },
        LogAttributeValue::Boolean(b) => bool_string(*b),
        LogAttributeValue::Timestamp(t) => rfc3339_utc(*t),
        LogAttributeValue::Array(items) => {
            let mut parts: Vec<String> = Vec::new();
            let mut i: usize = 0;
            while i < items.len()
                invariant
                    *v == LogAttributeValue::Array(*items),
                    i <= items.len(),
                    parts@.len() == i,
                    strings_view(parts@) == value_models(items@.take(i as int)).map_values(
                        |x: ValueModel| human_item_json(x),
                    ),
                decreases items.len() - i,
            {
                proof {
                    lemma_models_take_step(items@, i as int);
                }
                let t = human_array_item(&items[i]);
                let ghost before = parts@;
                parts.push(t);
                proof {
                    lemma_models_index(items@.take(i + 1));
                    lemma_models_index(items@.take(i as int));
                    assert(items@.take(i + 1)[i as int] == items@[i as int]);
                    let want = value_models(items@.take(i + 1)).map_values(|x: ValueModel| human_item_json(x));
                    let prev = value_models(items@.take(i as int)).map_values(|x: ValueModel| human_item_json(x));
                    assert forall|k: int| 0 <= k <= i implies #[trigger] strings_view(parts@)[k] == want[k] by {
                        if k < i {
                            assert(items@.take(i + 1)[k] == items@.take(i as int)[k]);
                            assert(strings_view(before)[k] == prev[k]);
                            assert(parts@[k] == before[k]);
                        } else {
                            assert(parts@[k] == t);
                        }
                    }
                }
                assert(strings_view(parts@) =~= value_models(items@.take(i + 1)).map_values(
                    |x: ValueModel| human_item_json(x),
                ));
                i = i + 1;
            }
            proof {
                lemma_models_take_all(items@);
            }
            json_array(&parts)
        },
    }
}

/// The human-readable text of a string is the string itself; of an integer,
/// its usual decimal writing with a `-` in front of a negative one; of a
/// boolean, `true` or `false`; of a NaN float, `NaN`; of an infinite one,
/// `Inf`.
pub proof fn law_human_scalar_texts(n: i64, b: bool, bits: u64, text: Seq<char>, dt: Seq<char>, jt: Seq<char>, s: Seq<char>)
    ensures
        human_value_text(ValueModel::Str(s)) == s,
        denotes_integer(human_value_text(ValueModel::Int(n)), n as int),
        human_value_text(ValueModel::Bool(b)) == if b {
            "true"@
        } else {
            "false"@
        },
        float_bits_nan(bits) ==> human_value_text(ValueModel::Float(bits, text, dt, jt)) == "NaN"@,
        float_bits_infinite(bits) ==> human_value_text(ValueModel::Float(bits, text, dt, jt)) == "Inf"@,
        !float_bits_nan(bits) && !float_bits_infinite(bits) ==> human_value_text(ValueModel::Float(bits, text, dt, jt))
            == text,
{
    lemma_signed_decimal_denotes(n as int);
}

/// Characters that need no escape are written as they are.
proof fn lemma_json_escaped_plain(s: Seq<char>)
    requires
        forall|i: int| 0 <= i < s.len() ==> #[trigger] s[i] != '"' && s[i] != '\\' && (s[i] as u32) >= 0x20,
    ensures
        json_escaped(s) == s,
    decreases s.len(),
{
    if s.len() > 0 {
        let p = s.drop_last();
        assert forall|i: int| 0 <= i < p.len() implies #[trigger] p[i] != '"' && p[i] != '\\' && (p[i] as u32)
            >= 0x20 by {
            assert(p[i] == s[i]);
        }
        lemma_json_escaped_plain(p);
        let c = s.last();
        assert(s[s.len() - 1] == c);
        assert((c as u32) >= 0x20);
        assert(c != '\u{8}' && c != '\t' && c != '\n' && c != '\u{c}' && c != '\r') by {
            assert(('\u{8}' as u32) < 0x20);
            assert(('\t' as u32) < 0x20);
            assert(('\n' as u32) < 0x20);
            assert(('\u{c}' as u32) < 0x20);
            assert(('\r' as u32) < 0x20);
        }
        assert(json_escape_char(c) == seq![c]);
        assert(json_escaped(s) =~= p.push(c));
        assert(p.push(c) =~= s);
    } else {
        assert(json_escaped(s) =~= s);
    }
}

/// A string with no `"`, no `\\` and no character below U+0020 is written
/// inside JSON quotes unchanged.
pub proof fn law_json_quoted_plain_text(s: Seq<char>)
    requires
        forall|i: int| 0 <= i < s.len() ==> #[trigger] s[i] != '"' && s[i] != '\\' && (s[i] as u32) >= 0x20,
    ensures
        json_quoted(s) == seq!['"'] + s + seq!['"'],
{
    lemma_json_escaped_plain(s);
}

/// The JSON value of an integer is its usual decimal writing, of a boolean
/// `true` or `false`, of a string its JSON string literal; none is refused.
pub proof fn law_json_scalar_values(n: i64, b: bool, s: Seq<char>)
    ensures
        json_value(ValueModel::Int(n)) is Ok && denotes_integer(json_value(ValueModel::Int(n))->Ok_0, n as int),
        json_value(ValueModel::Bool(b)) == Ok::<Seq<char>, Seq<char>>(
            if b {
                "true"@
            } else {
                "false"@
            },
        ),
        json_value(ValueModel::Str(s)) == Ok::<Seq<char>, Seq<char>>(json_quoted(s)),
{
    lemma_signed_decimal_denotes(n as int);
}

} // verus!
