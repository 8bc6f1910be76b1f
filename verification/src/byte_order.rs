//! Numbers as they lie in memory: fixed-width integers and their bytes,
//! in either byte order and in the order of the machine.

use vstd::prelude::*;

verus! {

/// The order in which the bytes of a number follow each other in memory.
#[derive(Debug, Clone, Copy, PartialEq, Eq, Structural)]
pub enum ByteOrder {
    /// The least significant byte comes first.
    Little,
    /// The most significant byte comes first.
    Big,
}

/// The 16-bit number that two bytes stand for.
pub open spec fn u16_of_bytes(order: ByteOrder, bytes: Seq<u8>) -> u16
    recommends
        bytes.len() == 2,
{
    match order {
        ByteOrder::Little => (bytes[0] + 0x100 * bytes[1]) as u16,
        ByteOrder::Big => (0x100 * bytes[0] + bytes[1]) as u16,
    }
}

/// The two bytes that stand for a 16-bit number.
pub open spec fn bytes_of_u16(order: ByteOrder, value: u16) -> Seq<u8> {
    match order {
        ByteOrder::Little => seq![(value % 0x100) as u8, (value / 0x100) as u8],
        ByteOrder::Big => seq![(value / 0x100) as u8, (value % 0x100) as u8],
    }
}

/// The 32-bit number that four bytes stand for.
pub open spec fn u32_of_bytes(order: ByteOrder, bytes: Seq<u8>) -> u32
    recommends
        bytes.len() == 4,
{
    match order {
        ByteOrder::Little => (bytes[0] + 0x100 * bytes[1] + 0x1_0000 * bytes[2] + 0x100_0000
            * bytes[3]) as u32,
        ByteOrder::Big => (0x100_0000 * bytes[0] + 0x1_0000 * bytes[1] + 0x100 * bytes[2]
            + bytes[3]) as u32,
    }
}

/// The four bytes that stand for a 32-bit number.
pub open spec fn bytes_of_u32(order: ByteOrder, value: u32) -> Seq<u8> {
    match order {
        ByteOrder::Little => seq![
            (value % 0x100) as u8,
            (value / 0x100 % 0x100) as u8,
            (value / 0x1_0000 % 0x100) as u8,
            (value / 0x100_0000) as u8,
        ],
        ByteOrder::Big => seq![
            (value / 0x100_0000) as u8,
            (value / 0x1_0000 % 0x100) as u8,
            (value / 0x100 % 0x100) as u8,
            (value % 0x100) as u8,
        ],
    }
}

/// The signed number with the same 32 bits as an unsigned one, in two's
/// complement.
pub open spec fn signed_of(bits: u32) -> i32 {
    if bits < 0x8000_0000 {
        bits as i32
    } else {
        (bits - 0x1_0000_0000) as i32
    }
}

/// The unsigned number with the same 32 bits as a signed one, in two's
/// complement.
pub open spec fn unsigned_of(value: i32) -> u32 {
    if value >= 0 {
        value as u32
    } else {
        (value + 0x1_0000_0000) as u32
    }
}

/// The signed 32-bit number that four bytes stand for.
pub open spec fn i32_of_bytes(order: ByteOrder, bytes: Seq<u8>) -> i32
    recommends
        bytes.len() == 4,
{
    signed_of(u32_of_bytes(order, bytes))
}

/// The four bytes that stand for a signed 32-bit number.
pub open spec fn bytes_of_i32(order: ByteOrder, value: i32) -> Seq<u8> {
    bytes_of_u32(order, unsigned_of(value))
}

/// The truth value that a byte stands for: zero is false, all else true.
pub open spec fn bool_of_byte(byte: u8) -> bool {
    byte != 0
}

/// The byte that stands for a truth value.
pub open spec fn byte_of_bool(value: bool) -> u8 {
    if value {
        1
    } else {
        0
    }
}

/// Calls `u16::from_ne_bytes`, which reads two bytes as a number in the
/// byte order of the machine.  Which order that is depends on the
/// machine: the contract says only that it is one of the two.
#[verifier::external_body]
fn u16_from_ne_bytes(bytes: [u8; 2]) -> (value: u16)
    ensures
        value == u16_of_bytes(ByteOrder::Little, bytes@) || value == u16_of_bytes(
            ByteOrder::Big,
            bytes@,
        ),
{
    u16::from_ne_bytes(bytes)
}

/// The order in which a machine that reads the bytes one and zero as
/// the given number keeps its numbers.
pub open spec fn order_of_probe(probe: u16) -> ByteOrder {
    if probe == 1 {
        ByteOrder::Little
    } else {
        ByteOrder::Big
    }
}

impl ByteOrder {
    /// The byte order of the machine that runs the code.  Nothing is
    /// promised of it but that it is one of the two: the machine is
    /// asked as which number it reads the bytes one and zero, and
    /// `from_probe` tells the order by the answer.
    pub fn native() -> ByteOrder {
        let probe: u16 = u16_from_ne_bytes([1u8, 0u8]);
        Self::from_probe(probe)
    }

    /// The byte order of a machine, told by the number as which it reads
    /// the bytes one and zero: one on a machine that puts the low byte
    /// first.
    pub fn from_probe(probe: u16) -> (order: ByteOrder)
        ensures
            order == order_of_probe(probe),
    {
        if probe == 1 {
            ByteOrder::Little
        } else {
            ByteOrder::Big
        }
    }
}

/// Reads two bytes as a 16-bit number.
pub fn u16_from_bytes(order: ByteOrder, bytes: [u8; 2]) -> (value: u16)
    ensures
        value == u16_of_bytes(order, bytes@),
{
    let first: u16 = bytes[0] as u16;
    let second: u16 = bytes[1] as u16;
    match order {
        ByteOrder::Little => first + 0x100 * second,
        ByteOrder::Big => 0x100 * first + second,
    }
}

/// Lays a 16-bit number out in two bytes.
pub fn u16_to_bytes(order: ByteOrder, value: u16) -> (bytes: [u8; 2])
    ensures
        bytes@ == bytes_of_u16(order, value),
{
    let low: u8 = (value % 0x100) as u8;
    let high: u8 = (value / 0x100) as u8;
    let bytes = match order {
        ByteOrder::Little => [low, high],
        ByteOrder::Big => [high, low],
    };
    assert(bytes@ =~= bytes_of_u16(order, value));
    bytes
}

/// Reads four bytes as a 32-bit number.
pub fn u32_from_bytes(order: ByteOrder, bytes: [u8; 4]) -> (value: u32)
    ensures
        value == u32_of_bytes(order, bytes@),
{
    let b0: u32 = bytes[0] as u32;
    let b1: u32 = bytes[1] as u32;
    let b2: u32 = bytes[2] as u32;
    let b3: u32 = bytes[3] as u32;
    match order {
        ByteOrder::Little => b0 + 0x100 * b1 + 0x1_0000 * b2 + 0x100_0000 * b3,
        ByteOrder::Big => 0x100_0000 * b0 + 0x1_0000 * b1 + 0x100 * b2 + b3,
    }
}

/// Lays a 32-bit number out in four bytes.
pub fn u32_to_bytes(order: ByteOrder, value: u32) -> (bytes: [u8; 4])
    ensures
        bytes@ == bytes_of_u32(order, value),
{
    let b0: u8 = (value % 0x100) as u8;
    let b1: u8 = (value / 0x100 % 0x100) as u8;
    let b2: u8 = (value / 0x1_0000 % 0x100) as u8;
    let b3: u8 = (value / 0x100_0000) as u8;
    let bytes = match order {
        ByteOrder::Little => [b0, b1, b2, b3],
        ByteOrder::Big => [b3, b2, b1, b0],
    };
    assert(bytes@ =~= bytes_of_u32(order, value));
    bytes
}

/// Reads four bytes as a signed 32-bit number.
pub fn i32_from_bytes(order: ByteOrder, bytes: [u8; 4]) -> (value: i32)
    ensures
        value == i32_of_bytes(order, bytes@),
{
    let bits: u32 = u32_from_bytes(order, bytes);
    if bits < 0x8000_0000 {
        bits as i32
    } else {
        ((bits - 0x8000_0000) as i32) + i32::MIN
    }
}

/// Lays a signed 32-bit number out in four bytes.
pub fn i32_to_bytes(order: ByteOrder, value: i32) -> (bytes: [u8; 4])
    ensures
        bytes@ == bytes_of_i32(order, value),
{
    let bits: u32 = if value >= 0 {
        value as u32
    } else {
        ((value - i32::MIN) as u32) + 0x8000_0000
    };
    u32_to_bytes(order, bits)
}

/// Reads a byte as a truth value: any byte but zero is true.
pub fn bool_from_byte(byte: u8) -> (value: bool)
    ensures
        value == bool_of_byte(byte),
{
    byte != 0
}

/// The byte that is written for a truth value: one for true, zero for
/// false.
pub fn bool_to_byte(value: bool) -> (byte: u8)
    ensures
        byte == byte_of_bool(value),
{
    if value {
        0x01
    } else {
        0x00
    }
}

/// A 16-bit number that was laid out in bytes is read back unchanged.
pub proof fn lemma_u16_written_then_read(order: ByteOrder, value: u16)
    ensures
        bytes_of_u16(order, value).len() == 2,
        u16_of_bytes(order, bytes_of_u16(order, value)) == value,
{
}

/// Two bytes that were read as a 16-bit number are laid out again
/// unchanged.
pub proof fn lemma_u16_read_then_written(order: ByteOrder, bytes: Seq<u8>)
    requires
        bytes.len() == 2,
    ensures
        bytes_of_u16(order, u16_of_bytes(order, bytes)) == bytes,
{
    assert(bytes_of_u16(order, u16_of_bytes(order, bytes)) =~= bytes);
}

/// A 32-bit number that was laid out in bytes is read back unchanged.
pub proof fn lemma_u32_written_then_read(order: ByteOrder, value: u32)
    ensures
        bytes_of_u32(order, value).len() == 4,
        u32_of_bytes(order, bytes_of_u32(order, value)) == value,
{
    assert(value % 0x100 + 0x100 * (value / 0x100 % 0x100) + 0x1_0000 * (value / 0x1_0000 % 0x100)
        + 0x100_0000 * (value / 0x100_0000) == value) by (bit_vector);
    assert(value / 0x100_0000 < 0x100) by (bit_vector);
}

/// Four bytes that were read as a 32-bit number are laid out again
/// unchanged.
pub proof fn lemma_u32_read_then_written(order: ByteOrder, bytes: Seq<u8>)
    requires
        bytes.len() == 4,
    ensures
        bytes_of_u32(order, u32_of_bytes(order, bytes)) == bytes,
{
    let (b0, b1, b2, b3): (u32, u32, u32, u32) = match order {
        ByteOrder::Little => (bytes[0] as u32, bytes[1] as u32, bytes[2] as u32, bytes[3] as u32),
        ByteOrder::Big => (bytes[3] as u32, bytes[2] as u32, bytes[1] as u32, bytes[0] as u32),
    };
    let value: u32 = (b0 + 0x100 * b1 + 0x1_0000 * b2 + 0x100_0000 * b3) as u32;
    assert(value == u32_of_bytes(order, bytes));
    lemma_digits_of_sum(b0, b1, b2, b3);
    assert(bytes_of_u32(order, value) =~= bytes);
}

/// Four digits below 256 are found again in the number that they make
/// up in base 256.
proof fn lemma_digits_of_sum(b0: u32, b1: u32, b2: u32, b3: u32)
    requires
        b0 < 0x100,
        b1 < 0x100,
        b2 < 0x100,
        b3 < 0x100,
    ensures
        (b0 + 0x100 * b1 + 0x1_0000 * b2 + 0x100_0000 * b3) % 0x100 == b0,
        (b0 + 0x100 * b1 + 0x1_0000 * b2 + 0x100_0000 * b3) / 0x100 % 0x100 == b1,
        (b0 + 0x100 * b1 + 0x1_0000 * b2 + 0x100_0000 * b3) / 0x1_0000 % 0x100 == b2,
        (b0 + 0x100 * b1 + 0x1_0000 * b2 + 0x100_0000 * b3) / 0x100_0000 == b3,
{
    let rest: int = b1 + 0x100 * b2 + 0x1_0000 * b3;
    let sum: int = b0 + 0x100 * rest;
    assert(sum / 0x100 == rest && sum % 0x100 == b0);
    let rest2: int = b2 + 0x100 * b3;
    assert(rest == b1 + 0x100 * rest2);
    assert(rest / 0x100 == rest2 && rest % 0x100 == b1);
    assert(rest2 / 0x100 == b3 && rest2 % 0x100 == b2);
    assert(sum / 0x1_0000 == rest2);
    assert(sum / 0x100_0000 == b3);
}

/// Reading a 32-bit number, writing it back and reading it again gives
/// the number that was read first.
pub proof fn lemma_u32_read_written_read(order: ByteOrder, bytes: Seq<u8>)
    requires
        bytes.len() == 4,
    ensures
        u32_of_bytes(order, bytes_of_u32(order, u32_of_bytes(order, bytes))) == u32_of_bytes(
            order,
            bytes,
        ),
{
    lemma_u32_read_then_written(order, bytes);
}

/// A signed 32-bit number that was laid out in bytes is read back
/// unchanged.
pub proof fn lemma_i32_written_then_read(order: ByteOrder, value: i32)
    ensures
        bytes_of_i32(order, value).len() == 4,
        i32_of_bytes(order, bytes_of_i32(order, value)) == value,
{
    lemma_u32_written_then_read(order, unsigned_of(value));
}

/// Four bytes that were read as a signed 32-bit number are laid out again
/// unchanged.
pub proof fn lemma_i32_read_then_written(order: ByteOrder, bytes: Seq<u8>)
    requires
        bytes.len() == 4,
    ensures
        bytes_of_i32(order, i32_of_bytes(order, bytes)) == bytes,
{
    lemma_u32_read_then_written(order, bytes);
}

/// A truth value that was written as a byte is read back unchanged.
pub proof fn lemma_bool_written_then_read(value: bool)
    ensures
        bool_of_byte(byte_of_bool(value)) == value,
{
}

} // verus!
