//! Structured documents: the values that the metadata record is made of.
//!
//! Reading text as a document is the work of the `json` crate. What it reads
//! is brought into [`JsonDoc`], a type of plain values, and everything the
//! library decides about a document it decides on that type.

use json::JsonValue;
use vstd::prelude::*;
use vstd::string::StringSliceAdditionalSpecFns;
use vstd::utf8::encode_utf8;

verus! {

#[verifier::external_type_specification]
#[verifier::external_body]
pub struct ExJsonValue(json::JsonValue);

#[verifier::external_type_specification]
#[verifier::external_body]
pub struct ExJsonError(json::Error);

/// A number as it is written: `mantissa` times ten to the power `exponent`,
/// negated unless `positive`.
#[derive(Clone, Copy, Debug, PartialEq, Eq)]
pub struct JsonNumber {
    pub positive: bool,
    pub mantissa: u64,
    pub exponent: i16,
}

/// A structured document.
#[derive(Debug, PartialEq, Eq)]
pub enum JsonDoc {
    Null,
    Text(String),
    Number(JsonNumber),
    Flag(bool),
    /// Named members, in the order in which they were written.
    Record(Vec<(String, JsonDoc)>),
    List(Vec<JsonDoc>),
}

/// The value of the first of `entries` that is named `key`.
pub open spec fn lookup(entries: Seq<(String, JsonDoc)>, key: Seq<char>) -> Option<JsonDoc>
    decreases entries.len(),
{
    if entries.len() == 0 {
        None
    } else if entries[0].0@ == key {
        Some(entries[0].1)
    } else {
        lookup(entries.drop_first(), key)
    }
}

impl JsonNumber {
    /// The integer that the number denotes, where it is written without an
    /// exponent and fits in 64 bits.
    pub open spec fn integer(self) -> Option<i64> {
        if self.exponent != 0 {
            None
        } else if self.positive {
            if self.mantissa <= 0x7FFF_FFFF_FFFF_FFFF {
                Some(self.mantissa as i64)
            } else {
                None
            }
        } else {
            if self.mantissa <= 0x8000_0000_0000_0000 {
                Some((-(self.mantissa as int)) as i64)
            } else {
                None
            }
        }
    }

    /// The integer that the number denotes, if it denotes one.
    pub fn as_integer(&self) -> (r: Option<i64>)
        ensures
            r == self.integer(),
    {
        if self.exponent != 0 {
            None
        } else if self.positive {
            if self.mantissa <= 0x7FFF_FFFF_FFFF_FFFF {
                Some(self.mantissa as i64)
            } else {
                None
            }
        } else {
            if self.mantissa <= 0x7FFF_FFFF_FFFF_FFFF {
                Some(-(self.mantissa as i64))
            } else if self.mantissa == 0x8000_0000_0000_0000 {
                Some(i64::MIN)
            } else {
                None
            }
        }
    }
}

impl JsonDoc {
    /// The text of the document, where it is a text.
    pub open spec fn text(self) -> Option<Seq<char>> {
        match self {
            JsonDoc::Text(s) => Some(s@),
            _ => None,
        }
    }

    /// The integer of the document, where it is a number that denotes one.
    pub open spec fn integer(self) -> Option<i64> {
        match self {
            JsonDoc::Number(n) => n.integer(),
            _ => None,
        }
    }

    /// The member named `key`, where the document is a record that has one.
    pub open spec fn member(self, key: Seq<char>) -> Option<JsonDoc> {
        match self {
            JsonDoc::Record(entries) => lookup(entries@, key),
            _ => None,
        }
    }

    /// The item at `index`, where the document is a list that has one.
    pub open spec fn item(self, index: int) -> Option<JsonDoc> {
        match self {
            JsonDoc::List(items) => if 0 <= index < items@.len() {
                Some(items@[index])
            } else {
                None
            },
            _ => None,
        }
    }

    /// The text of the document, if it is a text.
    pub fn as_text(&self) -> (r: Option<&String>)
        ensures
            match r {
                Some(s) => self.text() == Some(s@),
                None => self.text() is None,
            },
    {
        match self {
            JsonDoc::Text(s) => Some(s),
            _ => None,
        }
    }

    /// The integer of the document, if it is a number that denotes one.
    pub fn as_integer(&self) -> (r: Option<i64>)
        ensures
            r == self.integer(),
    {
        match self {
            JsonDoc::Number(n) => n.as_integer(),
            _ => None,
        }
    }

    /// The member named `key`, if the document is a record that has one.
    pub fn get_member(&self, key: &str) -> (r: Option<&JsonDoc>)
        ensures
            match r {
                Some(found) => self.member(key@) == Some(*found),
                None => self.member(key@) is None,
            },
    {
        match self {
            JsonDoc::Record(entries) => {
                let wanted: String = key.to_owned();
                let mut i: usize = 0;
                assert(entries@.skip(0) =~= entries@);
                while i < entries.len()
                    invariant
                        i <= entries@.len(),
                        wanted@ == key@,
                        self.member(key@) == lookup(entries@, key@),
                        lookup(entries@, key@) == lookup(entries@.skip(i as int), key@),
                    decreases entries@.len() - i,
                {
                    let ghost rest = entries@.skip(i as int);
                    assert(rest[0] == entries@[i as int]);
                    assert(rest.drop_first() =~= entries@.skip(i + 1));
                    let entry: &(String, JsonDoc) = &entries[i];
                    if entry.0 == wanted {
                        assert(lookup(rest, key@) == Some(rest[0].1));
                        return Some(&entry.1);
                    }
                    assert(lookup(rest, key@) == lookup(rest.drop_first(), key@));
                    i += 1;
                }
                None
            },
            _ => None,
        }
    }

    /// The item at `index`, if the document is a list that has one.
    pub fn get_item(&self, index: usize) -> (r: Option<&JsonDoc>)
        ensures
            match r {
                Some(found) => self.item(index as int) == Some(*found),
                None => self.item(index as int) is None,
            },
    {
        match self {
            JsonDoc::List(items) => if index < items.len() {
                Some(&items[index])
            } else {
                None
            },
            _ => None,
        }
    }
}

/// The most digits that may stand in a row in a text that is read as a
/// document.
pub const MAX_DIGIT_RUN: usize = 32767;

/// `byte` is an ASCII digit.
pub open spec fn is_digit(byte: u8) -> bool {
    0x30 <= byte <= 0x39
}

/// Every byte of `bytes` from `start` up to `end` is a digit.
pub open spec fn all_digits(bytes: Seq<u8>, start: int, end: int) -> bool {
    forall|k: int| start <= k < end ==> is_digit(#[trigger] bytes[k])
}

/// No more than 32767 digits stand in a row in `bytes`: of any 32768 bytes in
/// a row, one is no digit.
pub open spec fn digits_fit(bytes: Seq<u8>) -> bool {
    forall|start: int|
        0 <= start && start + 32768 <= bytes.len() ==> !#[trigger] all_digits(
            bytes,
            start,
            start + 32768,
        )
}

/// The document that the `json` crate reads `text` as, where it reads it as
/// one.
pub uninterp spec fn json_parsed(text: Seq<char>) -> Option<JsonDoc>;

/// The document that a value of the `json` crate holds.
pub uninterp spec fn json_value_doc(value: JsonValue) -> JsonDoc;

/// The document that `text` is read as. A text with more than 32767 digits in
/// a row is not read as one: the exponent of a number is counted in 16 bits,
/// one for each digit of its fraction.
pub open spec fn parsed_document(text: Seq<char>) -> Option<JsonDoc> {
    if digits_fit(encode_utf8(text)) {
        json_parsed(text)
    } else {
        None
    }
}

/// Calls `json::parse`.
///
/// Trusted: whether the call succeeds and the document it yields depend on
/// the text alone. The call counts the digits of a fraction in an `i16` and
/// can overflow on a fraction of more than 32768 digits, which `requires`
/// leaves out, with every other text that has so many digits in a row.
#[verifier::external_body]
fn json_parse(text: &str) -> (r: Result<JsonValue, json::Error>)
    requires
        digits_fit(encode_utf8(text@)),
    ensures
        r is Ok <==> json_parsed(text@) is Some,
        r matches Ok(value) ==> json_parsed(text@) == Some(json_value_doc(value)),
{
    json::parse(text)
}

/// Brings a value of the `json` crate into the library's own type, variant by
/// variant: a text keeps its characters, a number the three parts that
/// `json::number::Number::as_parts` gives, a record its members in the order
/// of `json::object::Object::iter`, a list its items in order.
///
/// Trusted: the result is the document that the value holds.
#[verifier::external_body]
fn document_of(value: &JsonValue) -> (doc: JsonDoc)
    ensures
        doc == json_value_doc(*value),
{
    match value {
        JsonValue::Null => JsonDoc::Null,
        JsonValue::Short(s) => JsonDoc::Text(s.as_str().to_owned()),
        JsonValue::String(s) => JsonDoc::Text(s.clone()),
        JsonValue::Number(n) => {
            let (positive, mantissa, exponent) = n.as_parts();
            JsonDoc::Number(JsonNumber { positive, mantissa, exponent })
        },
        JsonValue::Boolean(b) => JsonDoc::Flag(*b),
        JsonValue::Object(o) => JsonDoc::Record(o.iter().map(|(k, v)| (k.to_owned(), document_of(v))).collect()),
        JsonValue::Array(a) => JsonDoc::List(a.iter().map(document_of).collect()),
    }
}

/// Tells whether no more than 32767 digits stand in a row in `bytes`.
pub fn check_digit_runs(bytes: &[u8]) -> (ok: bool)
    ensures
        ok == digits_fit(bytes@),
{
    let len: usize = bytes.len();
    let mut run: usize = 0;
    let mut i: usize = 0;
    while i < len
        invariant
            i <= len,
            len == bytes@.len(),
            run <= MAX_DIGIT_RUN,
            run <= i,
            all_digits(bytes@, i - run, i as int),
            run < i ==> !is_digit(bytes@[i - run - 1]),
            forall|start: int|
                0 <= start && start + 32768 <= i ==> !#[trigger] all_digits(
                    bytes@,
                    start,
                    start + 32768,
                ),
        decreases len - i,
    {
        let byte: u8 = bytes[i];
        if 0x30 <= byte && byte <= 0x39 {
            if run == MAX_DIGIT_RUN {
                proof {
                    let start = i + 1 - 32768;
                    assert(all_digits(bytes@, start, start + 32768));
                }
                return false;
            }
            run += 1;
        } else {
            run = 0;
        }
        proof {
            let start = i + 1 - 32768;
            if 0 <= start {
                let gap = i - run;
                assert(start <= gap <= i);
                assert(!is_digit(bytes@[gap]));
                assert(!all_digits(bytes@, start, start + 32768));
            }
        }
        i += 1;
    }
    true
}

/// Reads `text` as a document.
pub fn parse_document(text: &str) -> (r: Option<JsonDoc>)
    ensures
        r == parsed_document(text@),
{
    if !check_digit_runs(text.as_bytes()) {
        return None;
    }
    match json_parse(text) {
        Ok(value) => Some(document_of(&value)),
        Err(_) => None,
    }
}

} // verus!
