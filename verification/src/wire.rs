//! The primitives of the protobuf wire format: base-128 varints and field keys.
use vstd::prelude::*;

verus! {

/// How the value that follows a field key is laid out.
#[derive(Clone, Copy, Debug, PartialEq, Eq, Structural)]
pub enum WireType {
    Varint,
    SixtyFourBit,
    LengthDelimited,
    StartGroup,
    EndGroup,
    ThirtyTwoBit,
}

/// The error of `prost`'s decoding functions.
#[verifier::external_type_specification]
#[verifier::external_body]
pub struct ExDecodeError(prost::DecodeError);

/// The number of bytes of the varint at the front of `bytes`, looking from
/// index `i` on: one more than the index of the first byte below `0x80`
/// among the first ten. `None` where there is no such byte.
pub open spec fn varint_end(bytes: Seq<u8>, i: nat) -> Option<nat>
    decreases 10 - i,
{
    if i >= 10 || i >= bytes.len() {
        None
    } else if bytes[i as int] < 0x80 {
        Some(i + 1)
    } else {
        varint_end(bytes, i + 1)
    }
}

/// The number that the low seven bits of the first `n` bytes spell, the least
/// significant group first.
pub open spec fn varint_value(bytes: Seq<u8>, n: nat) -> nat
    decreases n,
{
    if n == 0 || bytes.len() == 0 {
        0
    } else {
        (bytes[0] % 128) as nat + 128 * varint_value(bytes.skip(1), (n - 1) as nat)
    }
}

/// The varint at the front of `bytes`: its value and the number of bytes it
/// takes. `None` where the first ten bytes hold no byte below `0x80`, or where
/// the tenth byte would carry the value past 64 bits.
pub open spec fn varint(bytes: Seq<u8>) -> Option<(u64, nat)> {
    match varint_end(bytes, 0) {
        Some(n) => if n == 10 && bytes[9] >= 2 {
            None
        } else {
            Some((varint_value(bytes, n) as u64, n))
        },
        None => None,
    }
}

/// The wire type that the low three bits of a key name.
pub open spec fn wire_type_of(code: nat) -> Option<WireType> {
    if code == 0 {
        Some(WireType::Varint)
    } else if code == 1 {
        Some(WireType::SixtyFourBit)
    } else if code == 2 {
        Some(WireType::LengthDelimited)
    } else if code == 3 {
        Some(WireType::StartGroup)
    } else if code == 4 {
        Some(WireType::EndGroup)
    } else if code == 5 {
        Some(WireType::ThirtyTwoBit)
    } else {
        None
    }
}

/// The field key at the front of `bytes`: field number, wire type and the
/// number of bytes it takes. A key is a varint that fits 32 bits, whose low
/// three bits name a wire type and whose other bits are a field number of at
/// least one.
pub open spec fn key(bytes: Seq<u8>) -> Option<(u32, WireType, nat)> {
    match varint(bytes) {
        Some((k, n)) => match wire_type_of((k % 8) as nat) {
            Some(wire_type) => if k > u32::MAX || k / 8 == 0 {
                None
            } else {
                Some(((k / 8) as u32, wire_type, n))
            },
            None => None,
        },
        None => None,
    }
}

/// Calls `prost::encoding::decode_varint` on a byte slice. `prost` reads the
/// varint at the front of the slice and moves the slice past it; the contract
/// states the value and the rest as [`varint`] gives them, and an error on
/// exactly the inputs where [`varint`] is `None`.
#[verifier::external_body]
pub(crate) fn read_varint<'a>(buf: &'a [u8]) -> (r: Result<(u64, &'a [u8]), prost::DecodeError>)
    ensures
        match varint(buf@) {
            Some((value, n)) => r matches Ok((v, rest)) && v == value && rest@ == buf@.skip(
                n as int,
            ),
            None => r is Err,
        },
{
    let mut rest = buf;
    let value = prost::encoding::decode_varint(&mut rest)?;
    Ok((value, rest))
}

/// Calls `prost::encoding::decode_key` on a byte slice. `prost` reads a varint,
/// rejects one above 32 bits, one whose low three bits are no wire type and
/// one whose field number is zero; the contract states the key and the rest
/// as [`key`] gives them, and an error on exactly the inputs where [`key`] is
/// `None`.
#[verifier::external_body]
pub(crate) fn read_key<'a>(buf: &'a [u8]) -> (r: Result<
    (u32, WireType, &'a [u8]),
    prost::DecodeError,
>)
    ensures
        match key(buf@) {
            Some((number, wire_type, n)) => r matches Ok((t, w, rest)) && t == number && w
                == wire_type && rest@ == buf@.skip(n as int),
            None => r is Err,
        },
{
    let mut rest = buf;
    let (number, wire_type) = prost::encoding::decode_key(&mut rest)?;
    let wire_type = match wire_type {
        prost::encoding::WireType::Varint => WireType::Varint,
        prost::encoding::WireType::SixtyFourBit => WireType::SixtyFourBit,
        prost::encoding::WireType::LengthDelimited => WireType::LengthDelimited,
        prost::encoding::WireType::StartGroup => WireType::StartGroup,
        prost::encoding::WireType::EndGroup => WireType::EndGroup,
        prost::encoding::WireType::ThirtyTwoBit => WireType::ThirtyTwoBit,
    };
    Ok((number, wire_type, rest))
}

/// A varint takes at least one byte and at most ten, none of them past the end.
pub proof fn lemma_varint_end_bounds(bytes: Seq<u8>, i: nat)
    ensures
        varint_end(bytes, i) matches Some(n) ==> i < n <= 10 && n <= bytes.len(),
    decreases 10 - i,
{
    if i < 10 && i < bytes.len() && bytes[i as int] >= 0x80 {
        lemma_varint_end_bounds(bytes, i + 1);
    }
}

/// A varint takes at least one byte of its input and no more than there are.
pub proof fn lemma_varint_bounds(bytes: Seq<u8>)
    ensures
        varint(bytes) matches Some((_, n)) ==> 1 <= n <= bytes.len(),
        key(bytes) matches Some((_, _, n)) ==> 1 <= n <= bytes.len(),
{
    lemma_varint_end_bounds(bytes, 0);
}

} // verus!
