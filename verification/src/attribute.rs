//! Attribute values and named attributes of structured log records.

use vstd::prelude::*;


use crate::text::str_eq;
use crate::validation::ValidationError;

verus! {

/// A point in time, as seconds and nanoseconds since the UNIX epoch (UTC).
#[derive(Clone, Copy, Debug, PartialEq, Eq, Hash, PartialOrd, Ord)]
pub struct Timestamp {
    /// Whole seconds since 1970-01-01T00:00:00Z.
    pub secs: u64,
    /// Nanoseconds within the second.
    pub nanos: u32,
}

impl Timestamp {
    /// The UNIX epoch itself.
    pub fn unix_epoch() -> (r: Self)
        ensures
            r.secs == 0 && r.nanos == 0,
    {
        Timestamp { secs: 0, nanos: 0 }
    }

    /// The instant `secs` whole seconds after the UNIX epoch.
    pub fn from_unix_secs(secs: u64) -> (r: Self)
        ensures
            r.secs == secs && r.nanos == 0,
    {
        Timestamp { secs, nanos: 0 }
    }
}

/// A 64-bit floating point value, held as its IEEE-754 bit pattern together
/// with the decimal renderings the formatters print: the `Display` text, the
/// `Debug` text and the JSON number text.
#[derive(Clone, Debug, PartialEq, Eq, Hash)]
pub struct FloatValue {
    /// IEEE-754 binary64 bit pattern.
    pub bits: u64,
    /// `Display` rendering of the value (used by the human and logfmt forms).
    pub text: String,
    /// `Debug` rendering of the value.
    pub debug_text: String,
    /// JSON number rendering of the value (used when the value is finite).
    pub json_text: String,
}

/// The exponent field of a binary64 bit pattern is all ones (NaN or infinity).
pub open spec fn float_bits_non_finite(bits: u64) -> bool {
    (bits >> 52u64) & 0x7ffu64 == 0x7ffu64
}

/// A binary64 bit pattern encodes NaN.
pub open spec fn float_bits_nan(bits: u64) -> bool {
    float_bits_non_finite(bits) && bits & 0xf_ffff_ffff_ffffu64 != 0
}

/// A binary64 bit pattern encodes an infinity.
pub open spec fn float_bits_infinite(bits: u64) -> bool {
    float_bits_non_finite(bits) && bits & 0xf_ffff_ffff_ffffu64 == 0
}

impl FloatValue {
    /// `true` when the value is NaN.
    pub fn is_nan(&self) -> (r: bool)
        ensures
            r == float_bits_nan(self.bits),
    {
        (self.bits >> 52u64) & 0x7ffu64 == 0x7ffu64 && self.bits & 0xf_ffff_ffff_ffffu64 != 0
    }

    /// `true` when the value is positive or negative infinity.
    pub fn is_infinite(&self) -> (r: bool)
        ensures
            r == float_bits_infinite(self.bits),
    {
        (self.bits >> 52u64) & 0x7ffu64 == 0x7ffu64 && self.bits & 0xf_ffff_ffff_ffffu64 == 0
    }

    /// Copies the value.
    pub fn duplicate(&self) -> (r: Self)
        ensures
            r == *self,
    {
        FloatValue {
            bits: self.bits,
            text: self.text.clone(),
            debug_text: self.debug_text.clone(),
            json_text: self.json_text.clone(),
        }
    }
}

/// Strongly typed attribute value. Supports flat scalar types and
/// homogeneous arrays.
#[derive(Debug, PartialEq)]
pub enum LogAttributeValue {
    /// UTF-8 string value
    String(String),
    /// Signed 64-bit integer
    Integer(i64),
    /// 64-bit floating point
    Float(FloatValue),
    /// Boolean value
    Boolean(bool),
    /// Point in time (UTC)
    Timestamp(Timestamp),
    /// Homogeneous array of values
    Array(Vec<LogAttributeValue>),
}

impl Clone for LogAttributeValue {
    fn clone(&self) -> (r: Self)
        ensures
            value_model(r) == value_model(*self),
    {
        self.duplicate()
    }
}

/// Mathematical model of an attribute value: arrays become sequences of
/// models, so two values with equal models hold the same data.
pub enum ValueModel {
    Str(Seq<char>),
    Int(i64),
    /// Bit pattern, `Display` text, `Debug` text, JSON number text.
    Float(u64, Seq<char>, Seq<char>, Seq<char>),
    Bool(bool),
    Time(Timestamp),
    List(Seq<ValueModel>),
}

impl View for LogAttributeValue {
    type V = ValueModel;

    open spec fn view(&self) -> ValueModel {
        value_model(*self)
    }
}

/// The model of a value.
pub open spec fn value_model(v: LogAttributeValue) -> ValueModel
    decreases v, 1nat,
{
    match v {
        LogAttributeValue::String(s) => ValueModel::Str(s@),
        LogAttributeValue::Integer(n) => ValueModel::Int(n),
        LogAttributeValue::Float(f) => ValueModel::Float(f.bits, f.text@, f.debug_text@, f.json_text@),
        LogAttributeValue::Boolean(b) => ValueModel::Bool(b),
        LogAttributeValue::Timestamp(t) => ValueModel::Time(t),
        LogAttributeValue::Array(items) => {
            proof {
                vstd::std_specs::vec::axiom_vec_decreases_to_view(items);
            }
            ValueModel::List(value_models(items@))
        },
    }
}

/// The models of a sequence of values, element by element.
pub open spec fn value_models(s: Seq<LogAttributeValue>) -> Seq<ValueModel>
    decreases s, 0nat,
{
    if s.len() == 0 {
        seq![]
    } else {
        value_models(s.drop_last()).push(value_model(s.last()))
    }
}

/// Which variant a value is; two values have the same kind iff they are the
/// same variant.
pub open spec fn value_kind(v: LogAttributeValue) -> nat {
    match v {
        LogAttributeValue::String(_) => 0,
        LogAttributeValue::Integer(_) => 1,
        LogAttributeValue::Float(_) => 2,
        LogAttributeValue::Boolean(_) => 3,
        LogAttributeValue::Timestamp(_) => 4,
        LogAttributeValue::Array(_) => 5,
    }
}

/// All elements of `values` are the same variant.
pub open spec fn homogeneous(values: Seq<LogAttributeValue>) -> bool {
    forall|i: int| 0 <= i < values.len() ==> value_kind(#[trigger] values[i]) == value_kind(values[0])
}

impl LogAttributeValue {
    /// Creates a new String variant.
    pub fn string(value: String) -> (r: Self)
        ensures
            r == LogAttributeValue::String(value),
    {
        LogAttributeValue::String(value)
    }

    /// Creates a new Integer variant.
    pub fn integer(value: i64) -> (r: Self)
        ensures
            r == LogAttributeValue::Integer(value),
    {
        LogAttributeValue::Integer(value)
    }

    /// Creates a new Float variant.
    pub fn float(value: FloatValue) -> (r: Self)
        ensures
            r == LogAttributeValue::Float(value),
    {
        LogAttributeValue::Float(value)
    }

    /// Creates a new Boolean variant.
    pub fn boolean(value: bool) -> (r: Self)
        ensures
            r == LogAttributeValue::Boolean(value),
    {
        LogAttributeValue::Boolean(value)
    }

    /// Creates a new Timestamp variant.
    pub fn timestamp(value: Timestamp) -> (r: Self)
        ensures
            r == LogAttributeValue::Timestamp(value),
    {
        LogAttributeValue::Timestamp(value)
    }

    /// The kind of this value.
    pub fn kind(&self) -> (r: u8)
        ensures
            r == value_kind(*self),
    {
        match self {
            LogAttributeValue::String(_) => 0,
            LogAttributeValue::Integer(_) => 1,
            LogAttributeValue::Float(_) => 2,
            LogAttributeValue::Boolean(_) => 3,
            LogAttributeValue::Timestamp(_) => 4,
            LogAttributeValue::Array(_) => 5,
        }
    }

    /// Creates a new Array variant, refusing elements of mixed variants.
    pub fn array(values: Vec<LogAttributeValue>) -> (r: Result<Self, ValidationError>)
        ensures
            homogeneous(values@) ==> r == Ok::<Self, ValidationError>(LogAttributeValue::Array(values)),
            !homogeneous(values@) ==> (r matches Err(ValidationError::InvalidAttributeValue(m))
                && m@ == "Array elements must be of the same type"@),
    {
        if values.len() == 0 {
            return Ok(LogAttributeValue::Array(values));
        }
        let first = values[0].kind();
        let mut i: usize = 0;
        while i < values.len()
            invariant
                0 < values.len(),
                first == value_kind(values@[0]),
                i <= values.len(),
                forall|j: int| 0 <= j < i ==> value_kind(#[trigger] values@[j]) == value_kind(values@[0]),
            decreases values.len() - i,
        {
            if values[i].kind() != first {
                return Err(ValidationError::InvalidAttributeValue(
                    "Array elements must be of the same type".to_string(),
                ));
            }
            i = i + 1;
        }
        Ok(LogAttributeValue::Array(values))
    }

    /// Copies the value, element by element for arrays.
    pub fn duplicate(&self) -> (r: Self)
        ensures
            value_model(r) == value_model(*self),
        decreases self,
    {
        match self {
            LogAttributeValue::String(s) => {
                let c = s.clone();
                assert(c == *s);
                assert(*self == LogAttributeValue::String(*s));
                LogAttributeValue::String(c)
            },
            LogAttributeValue::Integer(n) => LogAttributeValue::Integer(*n),
            LogAttributeValue::Float(f) => LogAttributeValue::Float(f.duplicate()),
            LogAttributeValue::Boolean(b) => LogAttributeValue::Boolean(*b),
            LogAttributeValue::Timestamp(t) => LogAttributeValue::Timestamp(*t),
            LogAttributeValue::Array(items) => {
                let mut out: Vec<LogAttributeValue> = Vec::new();
                let mut i: usize = 0;
                while i < items.len()
                    invariant
                        i <= items.len(),
                        out@.len() == i,
                        value_models(out@) == value_models(items@.take(i as int)),
                        *self == LogAttributeValue::Array(*items),
                    decreases items.len() - i,
                {
                    proof {
                        vstd::std_specs::vec::axiom_vec_decreases_to_view(*items);
                        assert(decreases_to!(*self => (*self)->Array_0));
                        assert(decreases_to!(*items => items@));
                        assert(decreases_to!(items@ => items@[i as int]));
                        assert(decreases_to!(*self => items@[i as int]));
                    }
                    let v = items[i].duplicate();
                    let ghost before = out@;
                    out.push(v);
                    proof {
                        assert(out@.drop_last() =~= before);
                        assert(items@.take(i + 1).drop_last() =~= items@.take(i as int));
                    }
                    i = i + 1;
                }
                assert(items@.take(items@.len() as int) =~= items@);
                LogAttributeValue::Array(out)
            },
        }
    }
}

/// A lowercase ASCII letter: the only characters an attribute name may start with.
pub open spec fn is_name_start(c: char) -> bool {
    'a' <= c && c <= 'z'
}

/// Characters allowed anywhere in an attribute name.
pub open spec fn is_name_char(c: char) -> bool {
    ('a' <= c && c <= 'z') || ('0' <= c && c <= '9') || c == '.' || c == '_'
}

/// Names reserved for the fixed fields of a record.
pub open spec fn is_reserved_name(s: Seq<char>) -> bool {
    s == "timestamp"@ || s == "severity"@ || s == "message"@ || s == "attributes"@
}

/// Why an attribute name is refused, checked in this order: empty, longer
/// than 64 bytes, bad first character, bad character anywhere, reserved.
/// `None` when the name is valid.
pub open spec fn attribute_name_problem(name: Seq<char>) -> Option<Seq<char>> {
    if name.len() == 0 {
        Some("Name cannot be empty"@)
    } else if vstd::utf8::encode_utf8(name).len() > 64 {
        Some("Name exceeds 64 characters"@)
    } else if !is_name_start(name[0]) {
        Some("Name must start with lowercase letter"@)
    } else if exists|i: int| 0 <= i < name.len() && !is_name_char(#[trigger] name[i]) {
        Some("Name contains invalid characters"@)
    } else if is_reserved_name(name) {
        Some("Name is reserved"@)
    } else {
        None
    }
}

/// A valid attribute name: `^[a-z][a-z0-9._]{0,63}$` and not reserved.
pub open spec fn valid_attribute_name(name: Seq<char>) -> bool {
    &&& 0 < name.len() <= 64
    &&& is_name_start(name[0])
    &&& forall|i: int| 0 <= i < name.len() ==> is_name_char(#[trigger] name[i])
    &&& !is_reserved_name(name)
}

/// An attribute name is accepted exactly when it matches
/// `^[a-z][a-z0-9._]{0,63}$` and is not reserved.
pub proof fn lemma_attribute_name_rule(name: Seq<char>)
    ensures
        attribute_name_problem(name) is None <==> valid_attribute_name(name),
{
    if forall|i: int| 0 <= i < name.len() ==> is_name_char(#[trigger] name[i]) {
        assert(vstd::utf8::is_ascii_chars(name)) by {
            assert forall|i: int| 0 <= i < name.len() implies '\0' <= #[trigger] name[i] <= '\u{7f}' by {
                assert(is_name_char(name[i]));
            }
        }
        vstd::utf8::is_ascii_chars_encode_utf8(name);
    }
}

/// Validates an attribute name against the naming constraints.
pub fn validate_attribute_name(name: &str) -> (r: Result<(), ValidationError>)
    ensures
        match attribute_name_problem(name@) {
            None => r is Ok,
            Some(msg) => r matches Err(ValidationError::InvalidAttributeName(m)) && m@ == msg,
        },
{
    if name.is_empty() {
        return Err(ValidationError::InvalidAttributeName("Name cannot be empty".to_string()));
    }
    if name.as_bytes().len() > 64 {
        return Err(ValidationError::InvalidAttributeName("Name exceeds 64 characters".to_string()));
    }
    let n = name.unicode_len();
    let c0 = name.get_char(0);
    if !('a' <= c0 && c0 <= 'z') {
        return Err(ValidationError::InvalidAttributeName(
            "Name must start with lowercase letter".to_string(),
        ));
    }
    let mut i: usize = 0;
    while i < n
        invariant
            n == name@.len(),
            0 < n,
            is_name_start(name@[0]),
            vstd::utf8::encode_utf8(name@).len() <= 64,
            i <= n,
            forall|j: int| 0 <= j < i ==> is_name_char(#[trigger] name@[j]),
        decreases n - i,
    {
        let c = name.get_char(i);
        if !(('a' <= c && c <= 'z') || ('0' <= c && c <= '9') || c == '.' || c == '_') {
            assert(!is_name_char(name@[i as int]));
            return Err(ValidationError::InvalidAttributeName(
                "Name contains invalid characters".to_string(),
            ));
        }
        i = i + 1;
    }
    if str_eq(name, "timestamp") || str_eq(name, "severity") || str_eq(name, "message")
        || str_eq(name, "attributes") {
        return Err(ValidationError::InvalidAttributeName("Name is reserved".to_string()));
    }
    Ok(())
}

/// A named key-value pair of structured data.
#[derive(Clone, Debug, PartialEq)]
pub struct LogAttribute {
    name: String,
    value: LogAttributeValue,
}

impl LogAttribute {
    /// The attribute's name.
    pub closed spec fn spec_name(&self) -> Seq<char> {
        self.name@
    }

    /// The attribute's value.
    pub closed spec fn spec_value(&self) -> LogAttributeValue {
        self.value
    }

    /// Creates a new log attribute, refusing invalid names.
    pub fn new(name: String, value: LogAttributeValue) -> (r: Result<Self, ValidationError>)
        ensures
            match attribute_name_problem(name@) {
                None => r matches Ok(a) && a.spec_name() == name@ && a.spec_value() == value,
                Some(msg) => r matches Err(ValidationError::InvalidAttributeName(m)) && m@ == msg,
            },
    {
        match validate_attribute_name(name.as_str()) {
            Ok(()) => Ok(LogAttribute { name, value }),
            Err(e) => Err(e),
        }
    }

    /// Returns the attribute name.
    pub fn name(&self) -> (r: &str)
        ensures
            r@ == self.spec_name(),
    {
        self.name.as_str()
    }

    /// Returns the attribute value.
    pub fn value(&self) -> (r: &LogAttributeValue)
        ensures
            *r == self.spec_value(),
    {
        &self.value
    }

    /// Copies the attribute.
    pub fn duplicate(&self) -> (r: Self)
        ensures
            r.spec_name() == self.spec_name(),
            value_model(r.spec_value()) == value_model(self.spec_value()),
    {
        LogAttribute { name: self.name.clone(), value: self.value.duplicate() }
    }

    /// A copy of this attribute, under the same name, holding `value`.
    pub fn with_value(&self, value: LogAttributeValue) -> (r: Self)
        ensures
            r.spec_name() == self.spec_name(),
            r.spec_value() == value,
    {
        LogAttribute { name: self.name.clone(), value }
    }
}

} // verus!
