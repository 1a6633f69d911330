//! Unknown fields: wire data kept as it was read, and its decoding from bytes.
use vstd::prelude::*;
use vstd::slice::{slice_subrange, slice_to_vec};
use crate::wire::{key, read_key, read_varint, varint, lemma_varint_bounds, WireType};

verus! {

/// One raw wire value.
#[derive(Debug)]
pub enum UnknownField {
    /// A varint.
    Varint(u64),
    /// Four bytes, a little-endian 32-bit value.
    ThirtyTwoBit([u8; 4]),
    /// Eight bytes, a little-endian 64-bit value.
    SixtyFourBit([u8; 8]),
    /// A length-delimited byte string.
    LengthDelimited(Vec<u8>),
    /// A group: the fields between its start and end keys.
    Group(UnknownFieldSet),
}

/// Raw fields in the order in which they were read, each with its field number.
#[derive(Debug)]
pub struct UnknownFieldSet {
    pub fields: Vec<(u32, UnknownField)>,
}

/// The mathematical value of an [`UnknownField`].
pub enum FieldModel {
    Varint(u64),
    ThirtyTwoBit(Seq<u8>),
    SixtyFourBit(Seq<u8>),
    LengthDelimited(Seq<u8>),
    Group(Seq<(u32, FieldModel)>),
}

/// Why bytes could not be read as a set of fields.
#[derive(Clone, Copy, Debug, PartialEq, Eq, Structural)]
pub enum WireError {
    /// No well-formed field key where one must stand.
    InvalidKey,
    /// No well-formed varint where one must stand.
    InvalidVarint,
    /// A value runs past the end of the input.
    BufferUnderflow,
    /// A group end key outside a group, or with another number than its start.
    UnexpectedEndGroup,
    /// Groups nested deeper than [`RECURSION_LIMIT`].
    RecursionLimitReached,
}

/// How deep groups may nest inside one decoded set.
pub const RECURSION_LIMIT: u32 = 100;

/// The model of one field.
pub open spec fn field_model(field: UnknownField) -> FieldModel
    decreases field,
{
    match field {
        UnknownField::Varint(value) => FieldModel::Varint(value),
        UnknownField::ThirtyTwoBit(bytes) => FieldModel::ThirtyTwoBit(bytes@),
        UnknownField::SixtyFourBit(bytes) => FieldModel::SixtyFourBit(bytes@),
        UnknownField::LengthDelimited(bytes) => FieldModel::LengthDelimited(bytes@),
        UnknownField::Group(set) => FieldModel::Group(fields_model(set.fields@)),
    }
}

/// The models of numbered fields, in order.
pub open spec fn fields_model(fields: Seq<(u32, UnknownField)>) -> Seq<(u32, FieldModel)>
    decreases fields,
{
    Seq::new(
        fields.len(),
        |i: int|
            if 0 <= i < fields.len() {
                (fields[i].0, field_model(fields[i].1))
            } else {
                (0u32, FieldModel::Varint(0))
            },
    )
}

impl View for UnknownField {
    type V = FieldModel;

    open spec fn view(&self) -> FieldModel {
        field_model(*self)
    }
}

impl View for UnknownFieldSet {
    type V = Seq<(u32, FieldModel)>;

    open spec fn view(&self) -> Seq<(u32, FieldModel)> {
        fields_model(self.fields@)
    }
}

/// Reads the value of a field whose key gave `number` and `wire_type`, from
/// the front of `bytes`: the field and the bytes behind it. Groups may nest
/// `depth` deep from here.
pub open spec fn parse_value(number: u32, wire_type: WireType, bytes: Seq<u8>, depth: nat) -> Result<
    (FieldModel, Seq<u8>),
    WireError,
>
    decreases bytes.len(), 1nat,
{
    match wire_type {
        WireType::Varint => match varint(bytes) {
            Some((value, n)) => Ok((FieldModel::Varint(value), bytes.skip(n as int))),
            None => Err(WireError::InvalidVarint),
        },
        WireType::ThirtyTwoBit => if bytes.len() < 4 {
            Err(WireError::BufferUnderflow)
        } else {
            Ok((FieldModel::ThirtyTwoBit(bytes.take(4)), bytes.skip(4)))
        },
        WireType::SixtyFourBit => if bytes.len() < 8 {
            Err(WireError::BufferUnderflow)
        } else {
            Ok((FieldModel::SixtyFourBit(bytes.take(8)), bytes.skip(8)))
        },
        WireType::LengthDelimited => match varint(bytes) {
            Some((len, n)) => if len > bytes.len() - n {
                Err(WireError::BufferUnderflow)
            } else {
                Ok(
                    (
                        FieldModel::LengthDelimited(bytes.subrange(n as int, n + len)),
                        bytes.skip(n + len),
                    ),
                )
            },
            None => Err(WireError::InvalidVarint),
        },
        WireType::StartGroup => if depth == 0 {
            Err(WireError::RecursionLimitReached)
        } else {
            match parse_group(number, bytes, (depth - 1) as nat) {
                Ok((fields, rest)) => Ok((FieldModel::Group(fields), rest)),
                Err(e) => Err(e),
            }
        },
        WireType::EndGroup => Err(WireError::UnexpectedEndGroup),
    }
}

/// `fields` in front of what was read after them.
pub open spec fn after(
    fields: Seq<(u32, FieldModel)>,
    then: Result<(Seq<(u32, FieldModel)>, Seq<u8>), WireError>,
) -> Result<(Seq<(u32, FieldModel)>, Seq<u8>), WireError> {
    match then {
        Ok((more, rest)) => Ok((fields + more, rest)),
        Err(e) => Err(e),
    }
}

/// Reads the fields of the group `number` up to and with its end key: the
/// fields and the bytes behind the end key. Every field takes at least the
/// byte of its key, so what is left to read gets shorter.
pub open spec fn parse_group(number: u32, bytes: Seq<u8>, depth: nat) -> Result<
    (Seq<(u32, FieldModel)>, Seq<u8>),
    WireError,
>
    decreases bytes.len(), 0nat,
{
    match key(bytes) {
        None => Err(WireError::InvalidKey),
        Some((field_number, wire_type, n)) => if wire_type == WireType::EndGroup {
            if field_number != number {
                Err(WireError::UnexpectedEndGroup)
            } else {
                Ok((Seq::empty(), bytes.skip(n as int)))
            }
        } else {
            proof {
                lemma_varint_bounds(bytes);
            }
            match parse_value(field_number, wire_type, bytes.skip(n as int), depth) {
                Ok((field, rest)) => if rest.len() < bytes.len() {
                    after(seq![(field_number, field)], parse_group(number, rest, depth))
                } else {
                    Err(WireError::BufferUnderflow)
                },
                Err(e) => Err(e),
            }
        },
    }
}

/// Reads `bytes` to their end as a sequence of fields.
pub open spec fn parse_fields(bytes: Seq<u8>) -> Result<
    (Seq<(u32, FieldModel)>, Seq<u8>),
    WireError,
>
    decreases bytes.len(),
{
    if bytes.len() == 0 {
        Ok((Seq::empty(), bytes))
    } else {
        match key(bytes) {
            None => Err(WireError::InvalidKey),
            Some((number, wire_type, n)) => {
                match parse_value(number, wire_type, bytes.skip(n as int), RECURSION_LIMIT as nat) {
                    Ok((field, rest)) => if rest.len() < bytes.len() {
                        after(seq![(number, field)], parse_fields(rest))
                    } else {
                        Err(WireError::BufferUnderflow)
                    },
                    Err(e) => Err(e),
                }
            },
        }
    }
}

/// The set of fields that `bytes` encode, or why they encode none.
pub open spec fn parse_set(bytes: Seq<u8>) -> Result<Seq<(u32, FieldModel)>, WireError> {
    match parse_fields(bytes) {
        Ok((fields, _)) => Ok(fields),
        Err(e) => Err(e),
    }
}


/// The size of a field: one, and what it holds. What a field holds is smaller
/// than the field, and the fields read from a byte string weigh no more
/// than the byte string is long.
pub open spec fn field_weight(field: FieldModel) -> nat
    decreases field,
{
    match field {
        FieldModel::LengthDelimited(bytes) => 1 + bytes.len(),
        FieldModel::Group(fields) => 1 + fields_weight(fields),
        _ => 1,
    }
}

/// The sizes of the fields, added up.
pub open spec fn fields_weight(fields: Seq<(u32, FieldModel)>) -> nat
    decreases fields,
{
    if fields.len() == 0 {
        0
    } else {
        fields_weight(fields.drop_last()) + field_weight(fields.last().1)
    }
}

/// The weight of two runs of fields is the sum of their weights.
pub proof fn lemma_fields_weight_concat(a: Seq<(u32, FieldModel)>, b: Seq<(u32, FieldModel)>)
    ensures
        fields_weight(a + b) == fields_weight(a) + fields_weight(b),
    decreases b.len(),
{
    if b.len() == 0 {
        assert(a + b =~= a);
    } else {
        assert((a + b).drop_last() =~= a + b.drop_last());
        assert((a + b).last() == b.last());
        lemma_fields_weight_concat(a, b.drop_last());
    }
}

/// A field in front of others adds its weight to theirs.
pub proof fn lemma_fields_weight_cons(number: u32, field: FieldModel, more: Seq<(u32, FieldModel)>)
    ensures
        fields_weight(seq![(number, field)] + more) == field_weight(field) + fields_weight(more),
{
    let one = seq![(number, field)];
    assert(one.drop_last() =~= Seq::empty());
    assert(fields_weight(one.drop_last()) == 0);
    assert(fields_weight(one) == field_weight(field));
    lemma_fields_weight_concat(one, more);
}

/// No field weighs more than the fields it stands among.
pub proof fn lemma_field_weight_within(fields: Seq<(u32, FieldModel)>, i: int)
    requires
        0 <= i < fields.len(),
    ensures
        field_weight(fields[i].1) <= fields_weight(fields),
    decreases fields.len(),
{
    if i < fields.len() - 1 {
        lemma_field_weight_within(fields.drop_last(), i);
    }
}

/// A value that was read weighs no more than the bytes it took.
pub proof fn lemma_parse_value_weight(number: u32, wire_type: WireType, bytes: Seq<u8>, depth: nat)
    ensures
        parse_value(number, wire_type, bytes, depth) matches Ok((field, rest)) ==> field_weight(
            field,
        ) + rest.len() <= bytes.len(),
    decreases bytes.len(), 1nat,
{
    lemma_varint_bounds(bytes);
    if wire_type == WireType::StartGroup && depth > 0 {
        lemma_parse_group_weight(number, bytes, (depth - 1) as nat);
    }
}

/// The fields of a group weigh less than the bytes that the group took.
pub proof fn lemma_parse_group_weight(number: u32, bytes: Seq<u8>, depth: nat)
    ensures
        parse_group(number, bytes, depth) matches Ok((fields, rest)) ==> fields_weight(fields)
            + rest.len() < bytes.len(),
    decreases bytes.len(), 0nat,
{
    lemma_varint_bounds(bytes);
    match key(bytes) {
        Some((field_number, wire_type, n)) => {
            if wire_type != WireType::EndGroup {
                lemma_parse_value_weight(field_number, wire_type, bytes.skip(n as int), depth);
                match parse_value(field_number, wire_type, bytes.skip(n as int), depth) {
                    Ok((field, rest)) => {
                        lemma_parse_group_weight(number, rest, depth);
                        match parse_group(number, rest, depth) {
                            Ok((more, _)) => {
                                lemma_fields_weight_cons(field_number, field, more);
                            },
                            Err(_) => {},
                        }
                    },
                    Err(_) => {},
                }
            }
        },
        None => {},
    }
}

/// The fields read from a byte string weigh no more than it is long.
pub proof fn lemma_parse_fields_weight(bytes: Seq<u8>)
    ensures
        parse_fields(bytes) matches Ok((fields, rest)) ==> fields_weight(fields) + rest.len()
            <= bytes.len() && rest.len() == 0,
        parse_set(bytes) matches Ok(fields) ==> fields_weight(fields) <= bytes.len(),
    decreases bytes.len(),
{
    lemma_varint_bounds(bytes);
    if bytes.len() > 0 {
        match key(bytes) {
            Some((number, wire_type, n)) => {
                lemma_parse_value_weight(
                    number,
                    wire_type,
                    bytes.skip(n as int),
                    RECURSION_LIMIT as nat,
                );
                match parse_value(number, wire_type, bytes.skip(n as int), RECURSION_LIMIT as nat) {
                    Ok((field, rest)) => {
                        lemma_parse_fields_weight(rest);
                        match parse_fields(rest) {
                            Ok((more, _)) => {
                                lemma_fields_weight_cons(number, field, more);
                            },
                            Err(_) => {},
                        }
                    },
                    Err(_) => {},
                }
            },
            None => {},
        }
    }
}

/// Reads the value behind a key, as [`parse_value`] describes it.
#[verifier::rlimit(50)]
pub fn decode_value<'a>(number: u32, wire_type: WireType, buf: &'a [u8], depth: u32) -> (r: Result<
    (UnknownField, &'a [u8]),
    WireError,
>)
    ensures
        match parse_value(number, wire_type, buf@, depth as nat) {
            Ok((field, rest)) => r matches Ok((f, rs)) && f@ == field && rs@ == rest,
            Err(e) => r matches Err(re) && re == e,
        },
    decreases buf@.len(), 1nat,
{
    match wire_type {
        WireType::Varint => match read_varint(buf) {
            Ok((value, rest)) => Ok((UnknownField::Varint(value), rest)),
            Err(_) => Err(WireError::InvalidVarint),
        },
        WireType::ThirtyTwoBit => {
            if buf.len() < 4 {
                Err(WireError::BufferUnderflow)
            } else {
                let bytes: [u8; 4] = [buf[0], buf[1], buf[2], buf[3]];
                assert(bytes@ =~= buf@.take(4));
                let rest = slice_subrange(buf, 4, buf.len());
                Ok((UnknownField::ThirtyTwoBit(bytes), rest))
            }
        },
        WireType::SixtyFourBit => {
            if buf.len() < 8 {
                Err(WireError::BufferUnderflow)
            } else {
                let bytes: [u8; 8] = [
                    buf[0],
                    buf[1],
                    buf[2],
                    buf[3],
                    buf[4],
                    buf[5],
                    buf[6],
                    buf[7],
                ];
                assert(bytes@ =~= buf@.take(8));
                let rest = slice_subrange(buf, 8, buf.len());
                Ok((UnknownField::SixtyFourBit(bytes), rest))
            }
        },
        WireType::LengthDelimited => match read_varint(buf) {
            Ok((len, rest)) => {
                proof {
                    lemma_varint_bounds(buf@);
                }
                if len > rest.len() as u64 {
                    Err(WireError::BufferUnderflow)
                } else {
                    let n: usize = len as usize;
                    let payload = slice_to_vec(slice_subrange(rest, 0, n));
                    let after_payload = slice_subrange(rest, n, rest.len());
                    assert(payload@ =~= buf@.subrange(
                        buf@.len() - rest@.len(),
                        buf@.len() - rest@.len() + len,
                    ));
                    assert(after_payload@ =~= buf@.skip(buf@.len() - rest@.len() + len));
                    Ok((UnknownField::LengthDelimited(payload), after_payload))
                }
            },
            Err(_) => Err(WireError::InvalidVarint),
        },
        WireType::StartGroup => {
            if depth == 0 {
                Err(WireError::RecursionLimitReached)
            } else {
                match decode_group(number, buf, depth - 1) {
                    Ok((set, rest)) => Ok((UnknownField::Group(set), rest)),
                    Err(e) => Err(e),
                }
            }
        },
        WireType::EndGroup => Err(WireError::UnexpectedEndGroup),
    }
}

/// Reads the fields of a group up to and with its end key, as [`parse_group`]
/// describes it.
#[verifier::rlimit(50)]
pub fn decode_group<'a>(number: u32, buf: &'a [u8], depth: u32) -> (r: Result<
    (UnknownFieldSet, &'a [u8]),
    WireError,
>)
    ensures
        match parse_group(number, buf@, depth as nat) {
            Ok((fields, rest)) => r matches Ok((set, rs)) && set@ == fields && rs@ == rest,
            Err(e) => r matches Err(re) && re == e,
        },
    decreases buf@.len(), 0nat,
{
    let mut fields: Vec<(u32, UnknownField)> = Vec::new();
    let mut rest = buf;
    assert(fields_model(fields@) + Seq::empty() =~= Seq::empty());
    loop
        invariant
            rest@.len() <= buf@.len(),
            parse_group(number, buf@, depth as nat) == after(
                fields_model(fields@),
                parse_group(number, rest@, depth as nat),
            ),
        decreases rest@.len(),
    {
        proof {
            lemma_varint_bounds(rest@);
        }
        let (field_number, wire_type, after_key) = match read_key(rest) {
            Ok(k) => k,
            Err(_) => {
                return Err(WireError::InvalidKey);
            },
        };
        if wire_type == WireType::EndGroup {
            if field_number != number {
                return Err(WireError::UnexpectedEndGroup);
            }
            assert(fields_model(fields@) + Seq::empty() =~= fields_model(fields@));
            return Ok((UnknownFieldSet { fields }, after_key));
        }
        let (field, after_value) = match decode_value(field_number, wire_type, after_key, depth) {
            Ok(v) => v,
            Err(e) => {
                return Err(e);
            },
        };
        proof {
            lemma_parse_value_weight(field_number, wire_type, after_key@, depth as nat);
            let ghost before = fields_model(fields@);
            let ghost one = seq![(field_number, field@)];
            assert(fields_model(fields@.push((field_number, field))) =~= before + one);
            match parse_group(number, after_value@, depth as nat) {
                Ok((more, _)) => {
                    assert(before + (one + more) =~= (before + one) + more);
                },
                Err(_) => {},
            }
        }
        fields.push((field_number, field));
        rest = after_value;
    }
}

impl UnknownFieldSet {
    /// Reads a byte string as a set of fields: field after field to the end of
    /// the input, as [`parse_set`] describes it.
    #[verifier::rlimit(50)]
    pub fn decode(buf: &[u8]) -> (r: Result<UnknownFieldSet, WireError>)
        ensures
            match parse_set(buf@) {
                Ok(fields) => r matches Ok(set) && set@ == fields,
                Err(e) => r matches Err(re) && re == e,
            },
    {
        let mut fields: Vec<(u32, UnknownField)> = Vec::new();
        let mut rest = buf;
        assert(fields_model(fields@) + Seq::empty() =~= Seq::empty());
        while rest.len() > 0
            invariant
                rest@.len() <= buf@.len(),
                parse_fields(buf@) == after(fields_model(fields@), parse_fields(rest@)),
            decreases rest@.len(),
        {
            proof {
                lemma_varint_bounds(rest@);
            }
            let (number, wire_type, after_key) = match read_key(rest) {
                Ok(k) => k,
                Err(_) => {
                    return Err(WireError::InvalidKey);
                },
            };
            let (field, after_value) = match decode_value(
                number,
                wire_type,
                after_key,
                RECURSION_LIMIT,
            ) {
                Ok(v) => v,
                Err(e) => {
                    return Err(e);
                },
            };
            proof {
                lemma_parse_value_weight(number, wire_type, after_key@, RECURSION_LIMIT as nat);
                let ghost before = fields_model(fields@);
                let ghost one = seq![(number, field@)];
                assert(fields_model(fields@.push((number, field))) =~= before + one);
                match parse_fields(after_value@) {
                    Ok((more, _)) => {
                        assert(before + (one + more) =~= (before + one) + more);
                    },
                    Err(_) => {},
                }
            }
            fields.push((number, field));
            rest = after_value;
        }
        assert(fields_model(fields@) + Seq::empty() =~= fields_model(fields@));
        Ok(UnknownFieldSet { fields })
    }

    /// Whether the set holds no field.
    pub fn is_empty(&self) -> (r: bool)
        ensures
            r == (self@.len() == 0),
    {
        self.fields.len() == 0
    }
}

} // verus!
