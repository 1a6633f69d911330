//! Decoded values and dynamic messages.
use vstd::prelude::*;
use crate::descriptor::{ExtensionDescriptor, FieldDescriptor, MessageDescriptor};
use crate::unknown::{field_model, fields_weight, FieldModel, UnknownField};

verus! {

/// A decoded field value.
#[derive(Debug)]
pub enum Value {
    Bool(bool),
    I32(i32),
    I64(i64),
    U32(u32),
    U64(u64),
    /// A 32-bit floating-point number, held as its decimal text: the shortest
    /// numeral that reads back as the same number.
    F32(String),
    /// A 64-bit floating-point number, held as its decimal text.
    F64(String),
    String(String),
    Bytes(Vec<u8>),
    EnumNumber(i32),
    Message(DynamicMessage),
    /// The elements of a repeated field, in order.
    List(Vec<Value>),
    /// The entries of a map field, in the order in which they are rendered.
    /// No key occurs twice.
    Mapping(Vec<(MapKey, Value)>),
}

/// The key of a map entry.
#[derive(Debug)]
pub enum MapKey {
    Bool(bool),
    I32(i32),
    I64(i64),
    U32(u32),
    U64(u64),
    String(String),
}

impl PartialEq for MapKey {
    /// Two keys are equal where they are of the same variant and hold the
    /// same value.
    fn eq(&self, other: &Self) -> (r: bool) {
        match (self, other) {
            (MapKey::Bool(a), MapKey::Bool(b)) => *a == *b,
            (MapKey::I32(a), MapKey::I32(b)) => *a == *b,
            (MapKey::I64(a), MapKey::I64(b)) => *a == *b,
            (MapKey::U32(a), MapKey::U32(b)) => *a == *b,
            (MapKey::U64(a), MapKey::U64(b)) => *a == *b,
            (MapKey::String(a), MapKey::String(b)) => *a == *b,
            _ => false,
        }
    }
}

impl vstd::std_specs::cmp::PartialEqSpecImpl for MapKey {
    open spec fn obeys_eq_spec() -> bool {
        true
    }

    open spec fn eq_spec(&self, other: &Self) -> bool {
        same_key(self, other)
    }
}

/// Whether two keys are the same: of the same variant, with the same value.
pub open spec fn same_key(a: &MapKey, b: &MapKey) -> bool {
    match (a, b) {
        (MapKey::Bool(x), MapKey::Bool(y)) => x == y,
        (MapKey::I32(x), MapKey::I32(y)) => x == y,
        (MapKey::I64(x), MapKey::I64(y)) => x == y,
        (MapKey::U32(x), MapKey::U32(y)) => x == y,
        (MapKey::U64(x), MapKey::U64(y)) => x == y,
        (MapKey::String(x), MapKey::String(y)) => x@ == y@,
        _ => false,
    }
}

/// Whether no key occurs twice among the entries.
pub open spec fn distinct_keys(entries: Seq<(MapKey, Value)>) -> bool {
    forall|i: int, j: int|
        0 <= i < j < entries.len() ==> !same_key(
            &(#[trigger] entries[i]).0,
            &(#[trigger] entries[j]).0,
        )
}

/// The index of the entry with the key `key` at or behind index `from`.
pub open spec fn position_of(entries: Seq<(MapKey, Value)>, key: &MapKey, from: int) -> Option<int>
    decreases entries.len() - from,
{
    if from < 0 || from >= entries.len() {
        None
    } else if same_key(&entries[from].0, key) {
        Some(from)
    } else {
        position_of(entries, key, from + 1)
    }
}

/// Where `position_of` finds nothing, no entry at or behind `from` has the key.
pub proof fn lemma_position_none(entries: Seq<(MapKey, Value)>, key: &MapKey, from: int, i: int)
    requires
        0 <= from <= i < entries.len(),
        position_of(entries, key, from) is None,
    ensures
        !same_key(&entries[i].0, key),
    decreases entries.len() - from,
{
    if from < i {
        lemma_position_none(entries, key, from + 1, i);
    }
}

/// The index of the entry with the key `key`, if the entries hold one.
pub fn map_position(entries: &Vec<(MapKey, Value)>, key: &MapKey) -> (r: Option<usize>)
    ensures
        match position_of(entries@, key, 0) {
            Some(i) => r == Some(i as usize) && i < entries@.len(),
            None => r is None,
        },
{
    let mut i: usize = 0;
    while i < entries.len()
        invariant
            i <= entries@.len(),
            position_of(entries@, key, 0) == position_of(entries@, key, i as int),
        decreases entries@.len() - i,
    {
        if entries[i].0 == *key {
            return Some(i);
        }
        i += 1;
    }
    None
}

/// Sets the entry for `key` among entries with distinct keys: the value
/// of the entry that has the key is replaced, and where there is none a new
/// entry is added at the end. The keys stay distinct and the other entries
/// stay as they are.
pub fn map_insert(entries: &mut Vec<(MapKey, Value)>, key: MapKey, value: Value)
    requires
        distinct_keys(old(entries)@),
    ensures
        distinct_keys(final(entries)@),
        match position_of(old(entries)@, &key, 0) {
            Some(i) => final(entries)@ == old(entries)@.update(i, (key, value)),
            None => final(entries)@ == old(entries)@.push((key, value)),
        },
{
    let ghost before = entries@;
    match map_position(entries, &key) {
        Some(i) => {
            proof {
                lemma_position_found(before, &key, 0);
            }
            entries.set(i, (key, value));
            assert forall|a: int, b: int| 0 <= a < b < entries@.len() implies !same_key(
                &(#[trigger] entries@[a]).0,
                &(#[trigger] entries@[b]).0,
            ) by {
                lemma_same_key_is_equivalence(&before[i as int].0, &key, &before[a].0);
                lemma_same_key_is_equivalence(&before[i as int].0, &key, &before[b].0);
                assert(!same_key(&before[a].0, &before[b].0));
            }
        },
        None => {
            entries.push((key, value));
            assert forall|a: int, b: int| 0 <= a < b < entries@.len() implies !same_key(
                &(#[trigger] entries@[a]).0,
                &(#[trigger] entries@[b]).0,
            ) by {
                if b == before.len() {
                    lemma_position_none(before, &key, 0, a);
                } else {
                    assert(!same_key(&before[a].0, &before[b].0));
                }
            }
        },
    }
}

/// What `position_of` finds is an entry with the key.
pub proof fn lemma_position_found(entries: Seq<(MapKey, Value)>, key: &MapKey, from: int)
    ensures
        position_of(entries, key, from) matches Some(i) ==> from <= i < entries.len()
            && same_key(&entries[i].0, key),
    decreases entries.len() - from,
{
    if 0 <= from < entries.len() && !same_key(&entries[from].0, key) {
        lemma_position_found(entries, key, from + 1);
    }
}

/// Equality of keys is symmetric and transitive: a key that equals `a`
/// equals what `a` equals.
pub proof fn lemma_same_key_is_equivalence(a: &MapKey, b: &MapKey, c: &MapKey)
    ensures
        same_key(a, b) == same_key(b, a),
        same_key(a, b) ==> same_key(a, c) == same_key(b, c),
        same_key(a, b) ==> same_key(c, a) == same_key(c, b),
{
}

/// Whether a value is well formed: no map in it holds a key twice.
pub open spec fn valid_value(value: &Value) -> bool
    decreases value,
{
    match value {
        Value::Message(message) => valid_message(message),
        Value::List(list) => forall|i: int| 0 <= i < list@.len() ==> valid_value(&#[trigger] list@[i]),
        Value::Mapping(entries) => distinct_keys(entries@) && forall|i: int|
            0 <= i < entries@.len() ==> valid_value(&(#[trigger] entries@[i]).1),
        _ => true,
    }
}

/// Whether a message is well formed: its values and the message it embeds are.
pub open spec fn valid_message(message: &DynamicMessage) -> bool
    decreases message,
{
    &&& forall|i: int|
        0 <= i < message.fields@.len() ==> match #[trigger] message.fields@[i] {
            ValueAndDescriptor::Field(value, _) => valid_value(&value),
            ValueAndDescriptor::Extension(value, _) => valid_value(&value),
            ValueAndDescriptor::Unknown(_, _) => true,
        }
    &&& match &message.embedded {
        Some(body) => valid_message(body),
        None => true,
    }
}

/// One present field of a message, with what describes it.
#[derive(Debug)]
pub enum ValueAndDescriptor {
    /// A declared field and its value.
    Field(Value, FieldDescriptor),
    /// An extension and its value.
    Extension(Value, ExtensionDescriptor),
    /// The raw values read under a field number that the schema does not know.
    Unknown(u32, Vec<UnknownField>),
}

/// A message whose type is known at run time only.
#[derive(Debug)]
pub struct DynamicMessage {
    /// The type of the message.
    pub desc: MessageDescriptor,
    /// The present fields, in the order in which they were set or read.
    pub fields: Vec<ValueAndDescriptor>,
    /// For a `google.protobuf.Any` wrapper: the message that its payload
    /// holds, where the type that its URL names is known and the payload
    /// decodes as that type. Decoding against a schema is not the renderer's
    /// work: whoever builds the wrapper attaches the result.
    pub embedded: Option<Box<DynamicMessage>>,
}

/// The fields `values` as numbered fields, each under `number`.
pub open spec fn numbered(number: u32, values: Seq<UnknownField>) -> Seq<(u32, FieldModel)> {
    Seq::new(values.len(), |i: int| (number, field_model(values[i])))
}

/// The size of a value: one, and the sizes of what it holds.
pub open spec fn value_weight(value: &Value) -> nat
    decreases value,
{
    match value {
        Value::Message(message) => 1 + message_weight(message),
        Value::List(list) => 1 + values_weight(list@),
        Value::Mapping(entries) => 1 + entries_weight(entries@),
        _ => 1,
    }
}

/// The sizes of the values, added up.
pub open spec fn values_weight(values: Seq<Value>) -> nat
    decreases values,
{
    if values.len() == 0 {
        0
    } else {
        values_weight(values.drop_last()) + value_weight(&values.last())
    }
}

/// The sizes of the values of the entries, added up.
pub open spec fn entries_weight(entries: Seq<(MapKey, Value)>) -> nat
    decreases entries,
{
    if entries.len() == 0 {
        0
    } else {
        entries_weight(entries.drop_last()) + value_weight(&entries.last().1)
    }
}

/// The size of a present field: one, and the size of what it holds.
pub open spec fn present_weight(field: &ValueAndDescriptor) -> nat
    decreases field,
{
    match field {
        ValueAndDescriptor::Field(value, _) => 1 + value_weight(value),
        ValueAndDescriptor::Extension(value, _) => 1 + value_weight(value),
        ValueAndDescriptor::Unknown(number, values) => 1 + fields_weight(
            numbered(*number, values@),
        ),
    }
}

/// The sizes of the present fields, added up.
pub open spec fn presents_weight(fields: Seq<ValueAndDescriptor>) -> nat
    decreases fields,
{
    if fields.len() == 0 {
        0
    } else {
        presents_weight(fields.drop_last()) + present_weight(&fields.last())
    }
}

/// The size of a message: one, the sizes of its fields and that of the
/// message it embeds.
pub open spec fn message_weight(message: &DynamicMessage) -> nat
    decreases message,
{
    1 + presents_weight(message.fields@) + match &message.embedded {
        Some(body) => message_weight(body),
        None => 0,
    }
}

/// No value weighs more than the values it stands among.
pub proof fn lemma_value_weight_within(values: Seq<Value>, i: int)
    requires
        0 <= i < values.len(),
    ensures
        value_weight(&values[i]) <= values_weight(values),
    decreases values.len(),
{
    if i < values.len() - 1 {
        lemma_value_weight_within(values.drop_last(), i);
    }
}

/// No value of an entry weighs more than the entries it stands among.
pub proof fn lemma_entry_weight_within(entries: Seq<(MapKey, Value)>, i: int)
    requires
        0 <= i < entries.len(),
    ensures
        value_weight(&entries[i].1) <= entries_weight(entries),
    decreases entries.len(),
{
    if i < entries.len() - 1 {
        lemma_entry_weight_within(entries.drop_last(), i);
    }
}

/// No present field weighs more than the fields it stands among.
pub proof fn lemma_present_weight_within(fields: Seq<ValueAndDescriptor>, i: int)
    requires
        0 <= i < fields.len(),
    ensures
        present_weight(&fields[i]) <= presents_weight(fields),
    decreases fields.len(),
{
    if i < fields.len() - 1 {
        lemma_present_weight_within(fields.drop_last(), i);
    }
}

} // verus!
