//! The mapping between Avro's data model and the universal value.
use crate::error::{Error, Result};
use crate::text::{decimal, integer_text, push_char};
use crate::value::Value;
use vstd::prelude::*;
use vstd::std_specs::vec::axiom_vec_index_decreases;
use vstd::string::StringExecFns;

verus! {

/// One Avro datum, as the Avro library decodes or encodes it.
///
/// Floats are held by their bit patterns. A duration is held as the bit
/// pattern of its length in seconds as a 64-bit float; a decimal is only
/// recognised, its digits are not carried.
#[derive(Debug, PartialEq)]
pub enum AvroValue {
    Null,
    Boolean(bool),
    Int(i32),
    Long(i64),
    Float(u32),
    Double(u64),
    Bytes(Vec<u8>),
    String(String),
    Fixed(usize, Vec<u8>),
    Enum(i32, String),
    Union(Box<AvroValue>),
    Array(Vec<AvroValue>),
    Mapping(Vec<(String, AvroValue)>),
    Record(Vec<(String, AvroValue)>),
    Date(i32),
    Decimal,
    TimeMillis(i32),
    TimeMicros(i64),
    TimestampMillis(i64),
    TimestampMicros(i64),
    Duration(u64),
    Uuid(Vec<u8>),
}

/// Whether `a` holds no construct that decoding rejects (a date or a decimal).
pub open spec fn avro_decodable(a: AvroValue) -> bool
    decreases a,
{
    match a {
        AvroValue::Date(_) => false,
        AvroValue::Decimal => false,
        AvroValue::Union(inner) => avro_decodable(*inner),
        AvroValue::Array(xs) => all_decodable(xs@),
        AvroValue::Mapping(ps) => entries_decodable(ps@),
        AvroValue::Record(ps) => entries_decodable(ps@),
        _ => true,
    }
}

/// Whether every item of `s` is decodable.
pub open spec fn all_decodable(s: Seq<AvroValue>) -> bool
    decreases s,
{
    if s.len() == 0 {
        true
    } else {
        all_decodable(s.subrange(0, s.len() - 1)) && avro_decodable(s[s.len() - 1])
    }
}

/// Whether the value of every entry of `s` is decodable.
pub open spec fn entries_decodable(s: Seq<(String, AvroValue)>) -> bool
    decreases s,
{
    if s.len() == 0 {
        true
    } else {
        entries_decodable(s.subrange(0, s.len() - 1)) && avro_decodable(s[s.len() - 1].1)
    }
}

/// Whether `v` is what `a` decodes to.
///
/// A union yields its branch's value and loses which branch it was; an enum
/// yields its symbol; maps and records yield their entries in order, keyed by
/// strings; times and timestamps yield their integers.
pub open spec fn avro_decodes(a: AvroValue, v: Value) -> bool
    decreases a,
{
    match a {
        AvroValue::Null => v == Value::Unit,
        AvroValue::Boolean(b) => v == Value::Bool(b),
        AvroValue::Int(i) => v == Value::I32(i),
        AvroValue::Long(i) => v == Value::I64(i),
        AvroValue::Float(bits) => v == Value::F32(bits),
        AvroValue::Double(bits) => v == Value::F64(bits),
        AvroValue::Bytes(b) => v is Bytes && v->Bytes_0@ == b@,
        AvroValue::Fixed(_, b) => v is Bytes && v->Bytes_0@ == b@,
        AvroValue::String(s) => v == Value::String(s),
        AvroValue::Enum(_, s) => v == Value::String(s),
        AvroValue::Union(inner) => avro_decodes(*inner, v),
        AvroValue::Array(xs) => v is Sequence && all_decode(xs@, v->Sequence_0@),
        AvroValue::Mapping(ps) => v is Mapping && entries_decode(ps@, v->Mapping_0@),
        AvroValue::Record(ps) => v is Mapping && entries_decode(ps@, v->Mapping_0@),
        AvroValue::Date(_) => false,
        AvroValue::Decimal => false,
        AvroValue::TimeMillis(i) => v == Value::I32(i),
        AvroValue::TimeMicros(i) => v == Value::I64(i),
        AvroValue::TimestampMillis(i) => v == Value::I64(i),
        AvroValue::TimestampMicros(i) => v == Value::I64(i),
        AvroValue::Duration(bits) => v == Value::F64(bits),
        AvroValue::Uuid(b) => v is Bytes && v->Bytes_0@ == b@,
    }
}

/// Whether `ys` is, item by item, what `xs` decodes to.
pub open spec fn all_decode(xs: Seq<AvroValue>, ys: Seq<Value>) -> bool
    decreases xs,
{
    if xs.len() != ys.len() {
        false
    } else if xs.len() == 0 {
        true
    } else {
        all_decode(xs.subrange(0, xs.len() - 1), ys.subrange(0, ys.len() - 1))
            && avro_decodes(xs[xs.len() - 1], ys[ys.len() - 1])
    }
}

/// Whether `q` is what the entry `p` decodes to: its key as a string, and
/// its decoded value.
pub open spec fn entry_decodes(p: (String, AvroValue), q: (Value, Value)) -> bool
    decreases p,
{
    q.0 == Value::String(p.0) && avro_decodes(p.1, q.1)
}

/// Whether `qs` is, entry by entry, what `ps` decodes to: the same keys as
/// strings, and the decoded values.
pub open spec fn entries_decode(ps: Seq<(String, AvroValue)>, qs: Seq<(Value, Value)>) -> bool
    decreases ps,
{
    if ps.len() != qs.len() {
        false
    } else if ps.len() == 0 {
        true
    } else {
        entries_decode(ps.subrange(0, ps.len() - 1), qs.subrange(0, qs.len() - 1))
            && entry_decodes(ps[ps.len() - 1], qs[qs.len() - 1])
    }
}

proof fn lemma_all_decodable(s: Seq<AvroValue>)
    ensures
        all_decodable(s) <==> forall|i: int| 0 <= i < s.len() ==> #[trigger] avro_decodable(s[i]),
    decreases s.len(),
{
    if s.len() == 0 {
        assert(all_decodable(s));
    }
    if s.len() > 0 {
        let t = s.subrange(0, s.len() - 1);
        assert(decreases_to!(s => s[s.len() - 1]));
        assert(decreases_to!(s => t));
        assert(all_decodable(s) == (all_decodable(t) && avro_decodable(s[s.len() - 1])));
        lemma_all_decodable(t);
        assert(forall|i: int| 0 <= i < t.len() ==> t[i] == s[i]);
    }
}

proof fn lemma_entries_decodable(s: Seq<(String, AvroValue)>)
    ensures
        entries_decodable(s) <==> forall|i: int| 0 <= i < s.len() ==> #[trigger] avro_decodable(s[i].1),
    decreases s.len(),
{
    if s.len() == 0 {
        assert(entries_decodable(s));
    }
    if s.len() > 0 {
        let t = s.subrange(0, s.len() - 1);
        assert(decreases_to!(s => s[s.len() - 1]));
        assert(decreases_to!(s[s.len() - 1] => s[s.len() - 1].1));
        assert(decreases_to!(s => t));
        assert(entries_decodable(s) == (entries_decodable(t) && avro_decodable(s[s.len() - 1].1)));
        lemma_entries_decodable(t);
        assert(forall|i: int| 0 <= i < t.len() ==> t[i] == s[i]);
    }
}

proof fn lemma_all_decode(xs: Seq<AvroValue>, ys: Seq<Value>)
    ensures
        all_decode(xs, ys) <==> xs.len() == ys.len() && forall|i: int|
            0 <= i < xs.len() ==> #[trigger] avro_decodes(xs[i], ys[i]),
    decreases xs.len(),
{
    if xs.len() != ys.len() {
        assert(!all_decode(xs, ys));
    } else if xs.len() == 0 {
        assert(all_decode(xs, ys));
    } else {
        let t = xs.subrange(0, xs.len() - 1);
        let u = ys.subrange(0, ys.len() - 1);
        assert(decreases_to!(xs => xs[xs.len() - 1]));
        assert(decreases_to!(xs => t));
        assert(all_decode(xs, ys) == (all_decode(t, u) && avro_decodes(xs[xs.len() - 1], ys[ys.len() - 1])));
        lemma_all_decode(t, u);
        assert(forall|i: int| 0 <= i < t.len() ==> t[i] == xs[i] && u[i] == ys[i]);
    }
}

proof fn lemma_entries_decode(ps: Seq<(String, AvroValue)>, qs: Seq<(Value, Value)>)
    ensures
        entries_decode(ps, qs) <==> ps.len() == qs.len() && forall|i: int|
            0 <= i < ps.len() ==> #[trigger] entry_decodes(ps[i], qs[i]),
    decreases ps.len(),
{
    if ps.len() != qs.len() {
        assert(!entries_decode(ps, qs));
    } else if ps.len() == 0 {
        assert(entries_decode(ps, qs));
    } else {
        let t = ps.subrange(0, ps.len() - 1);
        let u = qs.subrange(0, qs.len() - 1);
        assert(decreases_to!(ps => ps[ps.len() - 1]));
        assert(decreases_to!(ps => t));
        assert(decreases_to!(ps[ps.len() - 1] => ps[ps.len() - 1].1));
        assert(entries_decode(ps, qs) == (entries_decode(t, u) && entry_decodes(ps[ps.len() - 1], qs[qs.len() - 1])));
        lemma_entries_decode(t, u);
        assert(forall|i: int| 0 <= i < t.len() ==> t[i] == ps[i] && u[i] == qs[i]);
    }
}

fn copy_bytes(b: &Vec<u8>) -> (r: Vec<u8>)
    ensures
        r@ == b@,
{
    let mut r: Vec<u8> = Vec::new();
    let mut i: usize = 0;
    while i < b.len()
        invariant
            i <= b.len(),
            r@ == b@.subrange(0, i as int),
        decreases b.len() - i,
    {
        r.push(b[i]);
        i = i + 1;
    }
    assert(r@ =~= b@);
    r
}

/// Decodes one Avro datum into a value.
///
/// Fails with `Unimplemented` exactly when a date or a decimal occurs in it.
pub fn value_from_avro(a: &AvroValue) -> (r: Result<Value>)
    ensures
        r is Ok <==> avro_decodable(*a),
        r matches Ok(v) ==> avro_decodes(*a, v),
        r matches Err(e) ==> e is Unimplemented,
    decreases a,
{
    match a {
        AvroValue::Null => Ok(Value::Unit),
        AvroValue::Boolean(b) => Ok(Value::Bool(*b)),
        AvroValue::Int(i) => Ok(Value::I32(*i)),
        AvroValue::Long(i) => Ok(Value::I64(*i)),
        AvroValue::Float(bits) => Ok(Value::from_f32_bits(*bits)),
        AvroValue::Double(bits) => Ok(Value::from_f64_bits(*bits)),
        AvroValue::Bytes(b) => Ok(Value::Bytes(copy_bytes(b))),
        AvroValue::Fixed(_, b) => Ok(Value::Bytes(copy_bytes(b))),
        AvroValue::String(s) => Ok(Value::String(s.clone())),
        AvroValue::Enum(_, s) => Ok(Value::String(s.clone())),
        AvroValue::Union(inner) => value_from_avro(inner),
        AvroValue::Array(xs) => {
            let mut ys: Vec<Value> = Vec::new();
            let mut i: usize = 0;
            while i < xs.len()
                invariant
                    *a == AvroValue::Array(*xs),
                    i <= xs.len(),
                    ys.len() == i,
                    forall|j: int| 0 <= j < i ==> avro_decodable(#[trigger] xs@[j]),
                    forall|j: int| 0 <= j < i ==> #[trigger] avro_decodes(xs@[j], ys@[j]),
                decreases xs.len() - i,
            {
                proof {
                    axiom_vec_index_decreases(*xs, i as int);
                    assert(decreases_to!(*a => (*a)->Array_0));
                }
                match value_from_avro(&xs[i]) {
                    Ok(y) => {
                        let ghost prev = ys@;
                        ys.push(y);
                        assert(forall|j: int| 0 <= j < i ==> ys@[j] == prev[j]);
                    },
                    Err(e) => {
                        proof {
                            lemma_all_decodable(xs@);
                        }
                        return Err(e);
                    },
                }
                i = i + 1;
            }
            proof {
                lemma_all_decodable(xs@);
                lemma_all_decode(xs@, ys@);
            }
            Ok(Value::Sequence(ys))
        },
        AvroValue::Mapping(ps) | AvroValue::Record(ps) => {
            let mut qs: Vec<(Value, Value)> = Vec::new();
            let mut i: usize = 0;
            while i < ps.len()
                invariant
                    *a == AvroValue::Mapping(*ps) || *a == AvroValue::Record(*ps),
                    i <= ps.len(),
                    qs.len() == i,
                    forall|j: int| 0 <= j < i ==> avro_decodable(#[trigger] ps@[j].1),
                    forall|j: int| 0 <= j < i ==> #[trigger] entry_decodes(ps@[j], qs@[j]),
                decreases ps.len() - i,
            {
                proof {
                    axiom_vec_index_decreases(*ps, i as int);
                    if *a is Mapping {
                        assert(decreases_to!(*a => (*a)->Mapping_0));
                    } else {
                        assert(decreases_to!(*a => (*a)->Record_0));
                    }
                    assert(decreases_to!(ps[i as int] => ps[i as int].1));
                }
                match value_from_avro(&ps[i].1) {
                    Ok(v) => {
                        let k = Value::String(ps[i].0.clone());
                        let ghost prev = qs@;
                        qs.push((k, v));
                        assert(forall|j: int| 0 <= j < i ==> qs@[j] == prev[j]);
                        assert(entry_decodes(ps@[i as int], qs@[i as int]));
                    },
                    Err(e) => {
                        proof {
                            lemma_entries_decodable(ps@);
                        }
                        return Err(e);
                    },
                }
                i = i + 1;
            }
            proof {
                lemma_entries_decodable(ps@);
                lemma_entries_decode(ps@, qs@);
            }
            Ok(Value::Mapping(qs))
        },
        AvroValue::Date(_) => Err(Error::unimplemented(String::from_str("Avro date values"))),
        AvroValue::Decimal => Err(Error::unimplemented(String::from_str("Avro decimal values"))),
        AvroValue::TimeMillis(i) => Ok(Value::I32(*i)),
        AvroValue::TimeMicros(i) => Ok(Value::I64(*i)),
        AvroValue::TimestampMillis(i) => Ok(Value::I64(*i)),
        AvroValue::TimestampMicros(i) => Ok(Value::I64(*i)),
        AvroValue::Duration(bits) => Ok(Value::from_f64_bits(*bits)),
        AvroValue::Uuid(b) => Ok(Value::Bytes(copy_bytes(b))),
    }
}

/// Whether `k` can stand as an Avro record field name.
pub open spec fn is_string_key(k: Value) -> bool {
    k is Char || k is String
}

/// The text of a string-like key.
pub open spec fn key_text(k: Value) -> Seq<char> {
    match k {
        Value::Char(c) => seq![c],
        Value::String(s) => s@,
        _ => Seq::empty(),
    }
}

/// How a value is named in an error message: its variant and its content,
/// as `I32(1)`, `F64(4612811918334230528)` (a float by its bits),
/// `Bytes([1, 2])` or `Mapping([(String("k"), Unit)])`.
pub open spec fn described(v: Value) -> Seq<char>
    decreases v,
{
    match v {
        Value::Unit => "Unit"@,
        Value::Bool(b) => if b {
            "Bool(true)"@
        } else {
            "Bool(false)"@
        },
        Value::I8(i) => "I8("@ + decimal(i as int) + ")"@,
        Value::I16(i) => "I16("@ + decimal(i as int) + ")"@,
        Value::I32(i) => "I32("@ + decimal(i as int) + ")"@,
        Value::I64(i) => "I64("@ + decimal(i as int) + ")"@,
        Value::U8(i) => "U8("@ + decimal(i as int) + ")"@,
        Value::U16(i) => "U16("@ + decimal(i as int) + ")"@,
        Value::U32(i) => "U32("@ + decimal(i as int) + ")"@,
        Value::U64(i) => "U64("@ + decimal(i as int) + ")"@,
        Value::F32(bits) => "F32("@ + decimal(bits as int) + ")"@,
        Value::F64(bits) => "F64("@ + decimal(bits as int) + ")"@,
        Value::Char(c) => "Char('"@ + seq![c] + "')"@,
        Value::String(s) => "String(\""@ + s@ + "\")"@,
        Value::Bytes(b) => "Bytes(["@ + bytes_described(b@) + "])"@,
        Value::Sequence(xs) => "Sequence(["@ + items_described(xs@) + "])"@,
        Value::Mapping(ps) => "Mapping(["@ + entries_described(ps@) + "])"@,
    }
}

/// The bytes of `s` in decimal, separated by `, `.
pub open spec fn bytes_described(s: Seq<u8>) -> Seq<char>
    decreases s.len(),
{
    if s.len() == 0 {
        Seq::empty()
    } else if s.len() == 1 {
        decimal(s[0] as int)
    } else {
        bytes_described(s.subrange(0, s.len() - 1)) + ", "@ + decimal(s[s.len() - 1] as int)
    }
}

/// The items of `s` described, separated by `, `.
pub open spec fn items_described(s: Seq<Value>) -> Seq<char>
    decreases s,
{
    if s.len() == 0 {
        Seq::empty()
    } else if s.len() == 1 {
        described(s[0])
    } else {
        items_described(s.subrange(0, s.len() - 1)) + ", "@ + described(s[s.len() - 1])
    }
}

/// An entry described as a pair: `(key, value)`.
pub open spec fn entry_described(p: (Value, Value)) -> Seq<char>
    decreases p,
{
    "("@ + described(p.0) + ", "@ + described(p.1) + ")"@
}

/// The entries of `s` described, separated by `, `.
pub open spec fn entries_described(s: Seq<(Value, Value)>) -> Seq<char>
    decreases s,
{
    if s.len() == 0 {
        Seq::empty()
    } else if s.len() == 1 {
        entry_described(s[0])
    } else {
        entries_described(s.subrange(0, s.len() - 1)) + ", "@ + entry_described(s[s.len() - 1])
    }
}

proof fn lemma_items_described_step(s: Seq<Value>)
    requires
        s.len() > 0,
    ensures
        items_described(s) == if s.len() == 1 {
            described(s[0])
        } else {
            items_described(s.subrange(0, s.len() - 1)) + ", "@ + described(s[s.len() - 1])
        },
{
    assert(decreases_to!(s => s[0]));
    assert(decreases_to!(s => s[s.len() - 1]));
    assert(decreases_to!(s => s.subrange(0, s.len() - 1)));
}

proof fn lemma_entries_described_step(s: Seq<(Value, Value)>)
    requires
        s.len() > 0,
    ensures
        entries_described(s) == if s.len() == 1 {
            entry_described(s[0])
        } else {
            entries_described(s.subrange(0, s.len() - 1)) + ", "@ + entry_described(s[s.len() - 1])
        },
{
    assert(decreases_to!(s => s[0]));
    assert(decreases_to!(s => s[s.len() - 1]));
    assert(decreases_to!(s => s.subrange(0, s.len() - 1)));
}

/// Whether `v` can be written as Avro: every unsigned 64-bit integer in it
/// fits a signed one, and every map key in it is a string or a character.
pub open spec fn avro_encodable(v: Value) -> bool
    decreases v,
{
    match v {
        Value::U64(n) => n <= i64::MAX,
        Value::Sequence(xs) => all_encodable(xs@),
        Value::Mapping(ps) => entries_encodable(ps@),
        _ => true,
    }
}

/// Whether every item of `s` can be written as Avro.
pub open spec fn all_encodable(s: Seq<Value>) -> bool
    decreases s,
{
    if s.len() == 0 {
        true
    } else {
        all_encodable(s.subrange(0, s.len() - 1)) && avro_encodable(s[s.len() - 1])
    }
}

/// Whether the entry `p` can be written as an Avro record field.
pub open spec fn entry_encodable(p: (Value, Value)) -> bool
    decreases p,
{
    is_string_key(p.0) && avro_encodable(p.1)
}

/// Whether every entry of `s` can be written as an Avro record field.
pub open spec fn entries_encodable(s: Seq<(Value, Value)>) -> bool
    decreases s,
{
    if s.len() == 0 {
        true
    } else {
        entries_encodable(s.subrange(0, s.len() - 1)) && entry_encodable(s[s.len() - 1])
    }
}

/// The message for an unsigned 64-bit integer that Avro cannot hold.
pub open spec fn unsigned_message(n: u64) -> Seq<char> {
    "Avro output does not support unsigned 64 bit integer: "@ + decimal(n as int)
}

/// The message for a map key that is neither a string nor a character.
pub open spec fn key_message(k: Value) -> Seq<char> {
    "Avro can only output string keys, got: "@ + described(k)
}

/// The message of the first thing in `v`, in order, that Avro cannot hold;
/// for an entry, its key is looked at before its value.
pub open spec fn encode_error(v: Value) -> Seq<char>
    decreases v,
{
    match v {
        Value::U64(n) => if n > i64::MAX {
            unsigned_message(n)
        } else {
            Seq::empty()
        },
        Value::Sequence(xs) => items_error(xs@),
        Value::Mapping(ps) => entries_error(ps@),
        _ => Seq::empty(),
    }
}

/// The message of the first item of `s` that cannot be written.
pub open spec fn items_error(s: Seq<Value>) -> Seq<char>
    decreases s,
{
    if s.len() == 0 {
        Seq::empty()
    } else if all_encodable(s.subrange(0, s.len() - 1)) {
        encode_error(s[s.len() - 1])
    } else {
        items_error(s.subrange(0, s.len() - 1))
    }
}

/// The message for an entry that cannot be written: its key's, else its
/// value's.
pub open spec fn entry_error(p: (Value, Value)) -> Seq<char>
    decreases p,
{
    if !is_string_key(p.0) {
        key_message(p.0)
    } else {
        encode_error(p.1)
    }
}

/// The message of the first entry of `s` that cannot be written.
pub open spec fn entries_error(s: Seq<(Value, Value)>) -> Seq<char>
    decreases s,
{
    if s.len() == 0 {
        Seq::empty()
    } else if entries_encodable(s.subrange(0, s.len() - 1)) {
        entry_error(s[s.len() - 1])
    } else {
        entries_error(s.subrange(0, s.len() - 1))
    }
}

/// Whether `a` is what `v` encodes to.
///
/// Integers widen to Avro's `int` or `long`; characters become strings;
/// sequences become arrays; maps become records, in order.
pub open spec fn avro_encodes(v: Value, a: AvroValue) -> bool
    decreases v,
{
    match v {
        Value::Unit => a == AvroValue::Null,
        Value::Bool(b) => a == AvroValue::Boolean(b),
        Value::I8(i) => a == AvroValue::Int(i as i32),
        Value::I16(i) => a == AvroValue::Int(i as i32),
        Value::I32(i) => a == AvroValue::Int(i),
        Value::I64(i) => a == AvroValue::Long(i),
        Value::U8(i) => a == AvroValue::Int(i as i32),
        Value::U16(i) => a == AvroValue::Int(i as i32),
        Value::U32(i) => a == AvroValue::Long(i as i64),
        Value::U64(i) => a == AvroValue::Long(i as i64),
        Value::F32(bits) => a == AvroValue::Float(bits),
        Value::F64(bits) => a == AvroValue::Double(bits),
        Value::Char(c) => a is String && a->String_0@ == seq![c],
        Value::String(s) => a == AvroValue::String(s),
        Value::Bytes(b) => a is Bytes && a->Bytes_0@ == b@,
        Value::Sequence(xs) => a is Array && all_encode(xs@, a->Array_0@),
        Value::Mapping(ps) => a is Record && entries_encode(ps@, a->Record_0@),
    }
}

/// Whether `ys` is, item by item, what `xs` encodes to.
pub open spec fn all_encode(xs: Seq<Value>, ys: Seq<AvroValue>) -> bool
    decreases xs,
{
    if xs.len() != ys.len() {
        false
    } else if xs.len() == 0 {
        true
    } else {
        all_encode(xs.subrange(0, xs.len() - 1), ys.subrange(0, ys.len() - 1))
            && avro_encodes(xs[xs.len() - 1], ys[ys.len() - 1])
    }
}

/// Whether the record field `q` is what the entry `p` encodes to.
pub open spec fn entry_encodes(p: (Value, Value), q: (String, AvroValue)) -> bool
    decreases p,
{
    q.0@ == key_text(p.0) && avro_encodes(p.1, q.1)
}

/// Whether `qs` is, entry by entry, what `ps` encodes to.
pub open spec fn entries_encode(ps: Seq<(Value, Value)>, qs: Seq<(String, AvroValue)>) -> bool
    decreases ps,
{
    if ps.len() != qs.len() {
        false
    } else if ps.len() == 0 {
        true
    } else {
        entries_encode(ps.subrange(0, ps.len() - 1), qs.subrange(0, qs.len() - 1))
            && entry_encodes(ps[ps.len() - 1], qs[qs.len() - 1])
    }
}

proof fn lemma_all_encodable(s: Seq<Value>)
    ensures
        all_encodable(s) <==> forall|i: int| 0 <= i < s.len() ==> #[trigger] avro_encodable(s[i]),
    decreases s.len(),
{
    if s.len() == 0 {
        assert(all_encodable(s));
    } else {
        let t = s.subrange(0, s.len() - 1);
        assert(decreases_to!(s => s[s.len() - 1]));
        assert(decreases_to!(s => t));
        assert(all_encodable(s) == (all_encodable(t) && avro_encodable(s[s.len() - 1])));
        lemma_all_encodable(t);
        assert(forall|i: int| 0 <= i < t.len() ==> t[i] == s[i]);
    }
}

proof fn lemma_entries_encodable(s: Seq<(Value, Value)>)
    ensures
        entries_encodable(s) <==> forall|i: int| 0 <= i < s.len() ==> #[trigger] entry_encodable(s[i]),
    decreases s.len(),
{
    if s.len() == 0 {
        assert(entries_encodable(s));
    } else {
        let t = s.subrange(0, s.len() - 1);
        assert(decreases_to!(s => s[s.len() - 1]));
        assert(decreases_to!(s => t));
        assert(entries_encodable(s) == (entries_encodable(t) && entry_encodable(s[s.len() - 1])));
        lemma_entries_encodable(t);
        assert(forall|i: int| 0 <= i < t.len() ==> t[i] == s[i]);
    }
}

proof fn lemma_all_encode(xs: Seq<Value>, ys: Seq<AvroValue>)
    ensures
        all_encode(xs, ys) <==> xs.len() == ys.len() && forall|i: int|
            0 <= i < xs.len() ==> #[trigger] avro_encodes(xs[i], ys[i]),
    decreases xs.len(),
{
    if xs.len() != ys.len() {
        assert(!all_encode(xs, ys));
    } else if xs.len() == 0 {
        assert(all_encode(xs, ys));
    } else {
        let t = xs.subrange(0, xs.len() - 1);
        let u = ys.subrange(0, ys.len() - 1);
        assert(decreases_to!(xs => xs[xs.len() - 1]));
        assert(decreases_to!(xs => t));
        assert(all_encode(xs, ys) == (all_encode(t, u) && avro_encodes(xs[xs.len() - 1], ys[ys.len() - 1])));
        lemma_all_encode(t, u);
        assert(forall|i: int| 0 <= i < t.len() ==> t[i] == xs[i] && u[i] == ys[i]);
    }
}

proof fn lemma_entries_encode(ps: Seq<(Value, Value)>, qs: Seq<(String, AvroValue)>)
    ensures
        entries_encode(ps, qs) <==> ps.len() == qs.len() && forall|i: int|
            0 <= i < ps.len() ==> #[trigger] entry_encodes(ps[i], qs[i]),
    decreases ps.len(),
{
    if ps.len() != qs.len() {
        assert(!entries_encode(ps, qs));
    } else if ps.len() == 0 {
        assert(entries_encode(ps, qs));
    } else {
        let t = ps.subrange(0, ps.len() - 1);
        let u = qs.subrange(0, qs.len() - 1);
        assert(decreases_to!(ps => ps[ps.len() - 1]));
        assert(decreases_to!(ps => t));
        assert(entries_encode(ps, qs) == (entries_encode(t, u) && entry_encodes(ps[ps.len() - 1], qs[qs.len() - 1])));
        lemma_entries_encode(t, u);
        assert(forall|i: int| 0 <= i < t.len() ==> t[i] == ps[i] && u[i] == qs[i]);
    }
}

proof fn lemma_items_error(s: Seq<Value>, i: int)
    requires
        0 <= i < s.len(),
        forall|j: int| 0 <= j < i ==> #[trigger] avro_encodable(s[j]),
        !avro_encodable(s[i]),
    ensures
        items_error(s) == encode_error(s[i]),
    decreases s.len(),
{
    let t = s.subrange(0, s.len() - 1);
    assert(decreases_to!(s => s[s.len() - 1]));
    assert(decreases_to!(s => t));
    assert(items_error(s) == if all_encodable(t) {
        encode_error(s[s.len() - 1])
    } else {
        items_error(t)
    });
    lemma_all_encodable(t);
    assert(forall|j: int| 0 <= j < t.len() ==> t[j] == s[j]);
    if i < s.len() - 1 {
        assert(!avro_encodable(t[i]));
        lemma_items_error(t, i);
    }
}

proof fn lemma_entries_error(s: Seq<(Value, Value)>, i: int)
    requires
        0 <= i < s.len(),
        forall|j: int| 0 <= j < i ==> #[trigger] entry_encodable(s[j]),
        !entry_encodable(s[i]),
    ensures
        entries_error(s) == entry_error(s[i]),
    decreases s.len(),
{
    let t = s.subrange(0, s.len() - 1);
    assert(decreases_to!(s => s[s.len() - 1]));
    assert(decreases_to!(s => t));
    assert(entries_error(s) == if entries_encodable(t) {
        entry_error(s[s.len() - 1])
    } else {
        entries_error(t)
    });
    lemma_entries_encodable(t);
    assert(forall|j: int| 0 <= j < t.len() ==> t[j] == s[j]);
    if i < s.len() - 1 {
        assert(!entry_encodable(t[i]));
        lemma_entries_error(t, i);
    }
}

/// `prefix`, the decimal text of `n`, and a closing parenthesis.
fn with_number(prefix: &str, n: i128) -> (r: String)
    ensures
        r@ == prefix@ + decimal(n as int) + ")"@,
{
    let mut r = String::from_str(prefix);
    let digits = integer_text(n);
    r.append(digits.as_str());
    r.append(")");
    r
}

/// The bytes of `b` in decimal, separated by `, `.
fn describe_bytes(b: &Vec<u8>) -> (r: String)
    ensures
        r@ == bytes_described(b@),
{
    let mut out = String::new();
    let mut i: usize = 0;
    while i < b.len()
        invariant
            i <= b.len(),
            out@ == bytes_described(b@.subrange(0, i as int)),
        decreases b.len() - i,
    {
        if i > 0 {
            out.append(", ");
        }
        let digits = integer_text(b[i] as i128);
        out.append(digits.as_str());
        proof {
            let t = b@.subrange(0, i + 1);
            assert(t.subrange(0, i as int) =~= b@.subrange(0, i as int));
            assert(out@ =~= bytes_described(t));
        }
        i = i + 1;
    }
    assert(b@.subrange(0, b.len() as int) =~= b@);
    out
}

/// Names a value for an error message, with its content.
pub fn describe(v: &Value) -> (r: String)
    ensures
        r@ == described(*v),
    decreases v,
{
    match v {
        Value::Unit => String::from_str("Unit"),
        Value::Bool(b) => if *b {
            String::from_str("Bool(true)")
        } else {
            String::from_str("Bool(false)")
        },
        Value::I8(i) => with_number("I8(", *i as i128),
        Value::I16(i) => with_number("I16(", *i as i128),
        Value::I32(i) => with_number("I32(", *i as i128),
        Value::I64(i) => with_number("I64(", *i as i128),
        Value::U8(i) => with_number("U8(", *i as i128),
        Value::U16(i) => with_number("U16(", *i as i128),
        Value::U32(i) => with_number("U32(", *i as i128),
        Value::U64(i) => with_number("U64(", *i as i128),
        Value::F32(bits) => with_number("F32(", *bits as i128),
        Value::F64(bits) => with_number("F64(", *bits as i128),
        Value::Char(c) => {
            let mut out = String::from_str("Char('");
            push_char(&mut out, *c);
            out.append("')");
            out
        },
        Value::String(s) => {
            let mut out = String::from_str("String(\"");
            out.append(s.as_str());
            out.append("\")");
            out
        },
        Value::Bytes(b) => {
            let mut out = String::from_str("Bytes([");
            let inner = describe_bytes(b);
            out.append(inner.as_str());
            out.append("])");
            out
        },
        Value::Sequence(xs) => {
            let mut out = String::from_str("Sequence([");
            let mut i: usize = 0;
            while i < xs.len()
                invariant
                    *v == Value::Sequence(*xs),
                    i <= xs.len(),
                    out@ == "Sequence(["@ + items_described(xs@.subrange(0, i as int)),
                decreases xs.len() - i,
            {
                proof {
                    axiom_vec_index_decreases(*xs, i as int);
                    assert(decreases_to!(*v => (*v)->Sequence_0));
                }
                if i > 0 {
                    out.append(", ");
                }
                let item = describe(&xs[i]);
                out.append(item.as_str());
                proof {
                    let t = xs@.subrange(0, i + 1);
                    assert(t.subrange(0, i as int) =~= xs@.subrange(0, i as int));
                    lemma_items_described_step(t);
                    assert(out@ =~= "Sequence(["@ + items_described(t));
                }
                i = i + 1;
            }
            assert(xs@.subrange(0, xs.len() as int) =~= xs@);
            out.append("])");
            out
        },
        Value::Mapping(ps) => {
            let mut out = String::from_str("Mapping([");
            let mut i: usize = 0;
            while i < ps.len()
                invariant
                    *v == Value::Mapping(*ps),
                    i <= ps.len(),
                    out@ == "Mapping(["@ + entries_described(ps@.subrange(0, i as int)),
                decreases ps.len() - i,
            {
                proof {
                    axiom_vec_index_decreases(*ps, i as int);
                    assert(decreases_to!(*v => (*v)->Mapping_0));
                    assert(decreases_to!(ps[i as int] => ps[i as int].0));
                    assert(decreases_to!(ps[i as int] => ps[i as int].1));
                }
                if i > 0 {
                    out.append(", ");
                }
                out.append("(");
                let key = describe(&ps[i].0);
                out.append(key.as_str());
                out.append(", ");
                let item = describe(&ps[i].1);
                out.append(item.as_str());
                out.append(")");
                proof {
                    let t = ps@.subrange(0, i + 1);
                    assert(t.subrange(0, i as int) =~= ps@.subrange(0, i as int));
                    lemma_entries_described_step(t);
                    assert(out@ =~= "Mapping(["@ + entries_described(t));
                }
                i = i + 1;
            }
            assert(ps@.subrange(0, ps.len() as int) =~= ps@);
            out.append("])");
            out
        },
    }
}

/// The text of a map key, which Avro needs as a string.
///
/// Fails with a `Format` error that names the key when it is neither a
/// string nor a character.
pub fn value_to_string(k: &Value) -> (r: Result<String>)
    ensures
        r is Ok <==> is_string_key(*k),
        r matches Ok(s) ==> s@ == key_text(*k),
        r matches Err(e) ==> e is Format && e->Format_msg@ == key_message(*k),
{
    match k {
        Value::Char(c) => {
            let mut s = String::new();
            push_char(&mut s, *c);
            Ok(s)
        },
        Value::String(s) => Ok(s.clone()),
        _ => {
            let mut msg = String::from_str("Avro can only output string keys, got: ");
            let name = describe(k);
            msg.append(name.as_str());
            Err(Error::Format { msg })
        },
    }
}

/// Encodes a value as an Avro datum.
///
/// Fails with a `Format` error exactly when the value holds an unsigned
/// 64-bit integer above `i64::MAX` or a map key that is not string-like; the
/// error is that of the first such thing, in order, and names it.
pub fn value_to_avro(v: &Value) -> (r: Result<AvroValue>)
    ensures
        r is Ok <==> avro_encodable(*v),
        r matches Ok(a) ==> avro_encodes(*v, a),
        r matches Err(e) ==> e is Format && e->Format_msg@ == encode_error(*v),
    decreases v,
{
    match v {
        Value::Unit => Ok(AvroValue::Null),
        Value::Bool(b) => Ok(AvroValue::Boolean(*b)),
        Value::I8(i) => Ok(AvroValue::Int(*i as i32)),
        Value::I16(i) => Ok(AvroValue::Int(*i as i32)),
        Value::I32(i) => Ok(AvroValue::Int(*i)),
        Value::I64(i) => Ok(AvroValue::Long(*i)),
        Value::U8(i) => Ok(AvroValue::Int(*i as i32)),
        Value::U16(i) => Ok(AvroValue::Int(*i as i32)),
        Value::U32(i) => Ok(AvroValue::Long(*i as i64)),
        Value::U64(n) => {
            if *n <= i64::MAX as u64 {
                Ok(AvroValue::Long(*n as i64))
            } else {
                let mut msg = String::from_str("Avro output does not support unsigned 64 bit integer: ");
                let digits = integer_text(*n as i128);
                msg.append(digits.as_str());
                Err(Error::Format { msg })
            }
        },
        Value::F32(bits) => Ok(AvroValue::Float(*bits)),
        Value::F64(bits) => Ok(AvroValue::Double(*bits)),
        Value::Char(c) => {
            let mut s = String::new();
            push_char(&mut s, *c);
            Ok(AvroValue::String(s))
        },
        Value::String(s) => Ok(AvroValue::String(s.clone())),
        Value::Bytes(b) => Ok(AvroValue::Bytes(copy_bytes(b))),
        Value::Sequence(xs) => {
            let mut ys: Vec<AvroValue> = Vec::new();
            let mut i: usize = 0;
            while i < xs.len()
                invariant
                    *v == Value::Sequence(*xs),
                    i <= xs.len(),
                    ys.len() == i,
                    forall|j: int| 0 <= j < i ==> avro_encodable(#[trigger] xs@[j]),
                    forall|j: int| 0 <= j < i ==> #[trigger] avro_encodes(xs@[j], ys@[j]),
                decreases xs.len() - i,
            {
                proof {
                    axiom_vec_index_decreases(*xs, i as int);
                    assert(decreases_to!(*v => (*v)->Sequence_0));
                }
                match value_to_avro(&xs[i]) {
                    Ok(y) => {
                        let ghost prev = ys@;
                        ys.push(y);
                        assert(forall|j: int| 0 <= j < i ==> ys@[j] == prev[j]);
                    },
                    Err(e) => {
                        proof {
                            lemma_all_encodable(xs@);
                            lemma_items_error(xs@, i as int);
                        }
                        return Err(e);
                    },
                }
                i = i + 1;
            }
            proof {
                lemma_all_encodable(xs@);
                lemma_all_encode(xs@, ys@);
            }
            Ok(AvroValue::Array(ys))
        },
        Value::Mapping(ps) => {
            let mut qs: Vec<(String, AvroValue)> = Vec::new();
            let mut i: usize = 0;
            while i < ps.len()
                invariant
                    *v == Value::Mapping(*ps),
                    i <= ps.len(),
                    qs.len() == i,
                    forall|j: int| 0 <= j < i ==> #[trigger] entry_encodable(ps@[j]),
                    forall|j: int| 0 <= j < i ==> #[trigger] entry_encodes(ps@[j], qs@[j]),
                decreases ps.len() - i,
            {
                proof {
                    axiom_vec_index_decreases(*ps, i as int);
                    assert(decreases_to!(*v => (*v)->Mapping_0));
                    assert(decreases_to!(ps[i as int] => ps[i as int].1));
                }
                let k = match value_to_string(&ps[i].0) {
                    Ok(k) => k,
                    Err(e) => {
                        proof {
                            assert(!entry_encodable(ps@[i as int]));
                            lemma_entries_encodable(ps@);
                            lemma_entries_error(ps@, i as int);
                        }
                        return Err(e);
                    },
                };
                match value_to_avro(&ps[i].1) {
                    Ok(a) => {
                        let ghost prev = qs@;
                        qs.push((k, a));
                        assert(forall|j: int| 0 <= j < i ==> qs@[j] == prev[j]);
                        assert(entry_encodes(ps@[i as int], qs@[i as int]));
                    },
                    Err(e) => {
                        proof {
                            assert(!entry_encodable(ps@[i as int]));
                            lemma_entries_encodable(ps@);
                            lemma_entries_error(ps@, i as int);
                        }
                        return Err(e);
                    },
                }
                i = i + 1;
            }
            proof {
                lemma_entries_encodable(ps@);
                lemma_entries_encode(ps@, qs@);
            }
            Ok(AvroValue::Record(qs))
        },
    }
}

/// A boolean, a 32- or 64-bit signed integer, a 64-bit float, a string or a
/// byte string can always be written as Avro, and reading back what was
/// written gives the value again.
pub proof fn lemma_primitive_round_trip(v: Value, a: AvroValue, w: Value)
    requires
        v is Bool || v is I32 || v is I64 || v is F64 || v is String || v is Bytes,
        avro_encodes(v, a),
        avro_decodes(a, w),
    ensures
        avro_encodable(v),
        v is Bytes ==> w is Bytes && w->Bytes_0@ == v->Bytes_0@,
        !(v is Bytes) ==> w == v,
{
}

/// An Avro boolean, `int`, `long`, `double`, string or byte string read
/// into a value, written back and read again gives the same value.
pub proof fn lemma_decoded_primitive_round_trip(a: AvroValue, v: Value, b: AvroValue, w: Value)
    requires
        a is Boolean || a is Int || a is Long || a is Double || a is String || a is Bytes,
        avro_decodes(a, v),
        avro_encodes(v, b),
        avro_decodes(b, w),
    ensures
        avro_decodable(a),
        avro_encodable(v),
        a is Bytes ==> w is Bytes && w->Bytes_0@ == v->Bytes_0@,
        !(a is Bytes) ==> w == v,
{
}

/// An unsigned 64-bit integer that fits a signed one is written as an Avro
/// `long`, and so reads back as a signed 64-bit integer: the signedness is
/// lost.
pub proof fn lemma_unsigned_reads_back_signed(n: u64, a: AvroValue, w: Value)
    requires
        n <= i64::MAX,
        avro_encodes(Value::U64(n), a),
        avro_decodes(a, w),
    ensures
        avro_encodable(Value::U64(n)),
        w == Value::I64(n as i64),
{
}

/// An unsigned 64-bit integer above `i64::MAX` cannot be written as Avro.
pub proof fn lemma_large_unsigned_rejected(n: u64)
    requires
        n > i64::MAX,
    ensures
        !avro_encodable(Value::U64(n)),
{
}

/// A map with a key that is neither a string nor a character cannot be
/// written as Avro.
pub proof fn lemma_non_string_key_rejected(ps: Vec<(Value, Value)>, i: int)
    requires
        0 <= i < ps.len(),
        !is_string_key(ps@[i].0),
    ensures
        !avro_encodable(Value::Mapping(ps)),
{
    lemma_entries_encodable(ps@);
    assert(!entry_encodable(ps@[i]));
}

/// When the first entry of a map that cannot be written has a key that is
/// neither a string nor a character, the error names that key, whatever its
/// value; an unsigned integer too large for Avro is named by its digits.
pub proof fn lemma_first_bad_key_named(ps: Vec<(Value, Value)>, i: int, n: u64)
    requires
        0 <= i < ps.len(),
        forall|j: int| 0 <= j < i ==> #[trigger] entry_encodable(ps@[j]),
        !is_string_key(ps@[i].0),
    ensures
        encode_error(Value::Mapping(ps)) == key_message(ps@[i].0),
        n > i64::MAX ==> encode_error(Value::U64(n)) == unsigned_message(n),
{
    lemma_entries_error(ps@, i);
}

/// Decoding a union gives exactly what decoding its branch gives: which
/// branch was taken cannot be told from the result.
pub proof fn lemma_union_is_transparent(inner: Box<AvroValue>, w: Value)
    ensures
        avro_decodable(AvroValue::Union(inner)) == avro_decodable(*inner),
        avro_decodes(AvroValue::Union(inner), w) == avro_decodes(*inner, w),
{
}

} // verus!
