use vstd::prelude::*;
use byteorder::{ByteOrder, LittleEndian};

verus! {

/// The eight bytes of `u`, least significant first.
pub open spec fn le_bytes_u64(u: u64) -> Seq<u8> {
    seq![
        u as u8,
        (u >> 8u64) as u8,
        (u >> 16u64) as u8,
        (u >> 24u64) as u8,
        (u >> 32u64) as u8,
        (u >> 40u64) as u8,
        (u >> 48u64) as u8,
        (u >> 56u64) as u8,
    ]
}

/// The number whose eight bytes, least significant first, open `b`.
pub open spec fn le_u64(b: Seq<u8>) -> u64 {
    (b[0] as u64) | ((b[1] as u64) << 8u64) | ((b[2] as u64) << 16u64) | ((b[3] as u64) << 24u64)
        | ((b[4] as u64) << 32u64) | ((b[5] as u64) << 40u64) | ((b[6] as u64) << 48u64) | ((
    b[7] as u64) << 56u64)
}

/// The four bytes of `u`, least significant first.
pub open spec fn le_bytes_u32(u: u32) -> Seq<u8> {
    seq![u as u8, (u >> 8u32) as u8, (u >> 16u32) as u8, (u >> 24u32) as u8]
}

/// The number whose four bytes, least significant first, open `b`.
pub open spec fn le_u32(b: Seq<u8>) -> u32 {
    (b[0] as u32) | ((b[1] as u32) << 8u32) | ((b[2] as u32) << 16u32) | ((b[3] as u32) << 24u32)
}

/// Relies on byteorder's `LittleEndian::read_i64`: the first eight bytes of
/// `buf`, least significant first, as a two's complement number.
#[verifier::external_body]
fn read_le_i64(buf: &[u8]) -> (r: i64)
    requires
        buf@.len() >= 8,
    ensures
        r == le_u64(buf@) as i64,
{
    LittleEndian::read_i64(buf)
}

/// Relies on byteorder's `LittleEndian::write_i64`: it stores the two's
/// complement of `v` in the first eight bytes, least significant first.
#[verifier::external_body]
fn write_le_i64(v: i64) -> (r: [u8; 8])
    ensures
        r@ == le_bytes_u64(v as u64),
{
    let mut buf = [0u8; 8];
    LittleEndian::write_i64(&mut buf, v);
    buf
}

/// Relies on byteorder's `LittleEndian::read_u32`: the first four bytes of
/// `buf`, least significant first.
#[verifier::external_body]
fn read_le_u32(buf: &[u8]) -> (r: u32)
    requires
        buf@.len() >= 4,
    ensures
        r == le_u32(buf@),
{
    LittleEndian::read_u32(buf)
}

/// Relies on byteorder's `LittleEndian::write_u32`: it stores `v` in the first
/// four bytes, least significant first.
#[verifier::external_body]
fn write_le_u32(v: u32) -> (r: [u8; 4])
    ensures
        r@ == le_bytes_u32(v),
{
    let mut buf = [0u8; 4];
    LittleEndian::write_u32(&mut buf, v);
    buf
}

/// Appends `bytes` to `out`, one at a time.
pub(crate) fn append_bytes(out: &mut Vec<u8>, bytes: &[u8])
    ensures
        final(out)@ == old(out)@ + bytes@,
{
    let mut i: usize = 0;
    while i < bytes.len()
        invariant
            i <= bytes@.len(),
            out@ == old(out)@ + bytes@.subrange(0, i as int),
        decreases bytes@.len() - i,
    {
        out.push(bytes[i]);
        i = i + 1;
        assert(bytes@.subrange(0, i as int) == bytes@.subrange(0, i - 1 as int).push(bytes@[i - 1]));
    }
    assert(bytes@.subrange(0, bytes@.len() as int) == bytes@);
}

/// A record type that can be stored in a record file: it has a fixed on-disk
/// size, a way to write itself into a buffer, and a way to read itself back.
pub trait BinaryEntry: Sized {
    /// The number of bytes one entry occupies on disk.
    spec fn spec_size() -> nat;

    /// The bytes that `v` is written as.
    spec fn spec_encode(v: Self) -> Seq<u8>;

    /// The entry that `spec_size()` bytes are read as.
    spec fn spec_decode(bytes: Seq<u8>) -> Self;

    /// An entry occupies at least one byte.
    proof fn lemma_size_positive()
        ensures
            Self::spec_size() > 0,
    ;

    /// Writes an entry at the end of a reusable output buffer.
    fn entry_write(data_in: Self, buffer_out: &mut Vec<u8>)
        ensures
            final(buffer_out)@ == old(buffer_out)@ + Self::spec_encode(data_in),
    ;

    /// Reads an entry from the start of `source`; there is none where fewer
    /// than `entry_size()` bytes are left.
    fn entry_read(source: &[u8]) -> (r: Option<Self>)
        ensures
            r is Some <==> source@.len() >= Self::spec_size(),
            r matches Some(v) ==> v == Self::spec_decode(
                source@.subrange(0, Self::spec_size() as int),
            ),
    ;

    /// The size of an entry, declared by the type rather than taken from its
    /// layout in memory.
    fn entry_size() -> (r: u64)
        ensures
            r as nat == Self::spec_size(),
            r > 0,
    ;
}

/// A signed 64-bit integer: eight bytes, two's complement, least significant
/// first.
impl BinaryEntry for i64 {
    open spec fn spec_size() -> nat {
        8
    }

    open spec fn spec_encode(v: i64) -> Seq<u8> {
        le_bytes_u64(v as u64)
    }

    open spec fn spec_decode(bytes: Seq<u8>) -> i64 {
        le_u64(bytes) as i64
    }

    proof fn lemma_size_positive() {
    }

    fn entry_write(data_in: i64, buffer_out: &mut Vec<u8>) {
        let bytes = write_le_i64(data_in);
        append_bytes(buffer_out, &bytes);
    }

    fn entry_read(source: &[u8]) -> (r: Option<i64>) {
        if source.len() < 8 {
            None
        } else {
            let v = read_le_i64(source);
            assert(le_u64(source@) == le_u64(source@.subrange(0, 8)));
            Some(v)
        }
    }

    fn entry_size() -> (r: u64) {
        8
    }
}

/// A 32-bit float, held by its IEEE 754 bit pattern: four bytes, least
/// significant first.
impl BinaryEntry for u32 {
    open spec fn spec_size() -> nat {
        4
    }

    open spec fn spec_encode(v: u32) -> Seq<u8> {
        le_bytes_u32(v)
    }

    open spec fn spec_decode(bytes: Seq<u8>) -> u32 {
        le_u32(bytes)
    }

    proof fn lemma_size_positive() {
    }

    fn entry_write(data_in: u32, buffer_out: &mut Vec<u8>) {
        let bytes = write_le_u32(data_in);
        append_bytes(buffer_out, &bytes);
    }

    fn entry_read(source: &[u8]) -> (r: Option<u32>) {
        if source.len() < 4 {
            None
        } else {
            let v = read_le_u32(source);
            assert(le_u32(source@) == le_u32(source@.subrange(0, 4)));
            Some(v)
        }
    }

    fn entry_size() -> (r: u64) {
        4
    }
}

/// Writing a 64-bit integer and reading its bytes back gives the same
/// integer, and the bytes fill exactly one entry.
pub proof fn lemma_i64_round_trip(v: i64)
    ensures
        <i64 as BinaryEntry>::spec_encode(v).len() == <i64 as BinaryEntry>::spec_size(),
        <i64 as BinaryEntry>::spec_decode(<i64 as BinaryEntry>::spec_encode(v)) == v,
{
    let u = v as u64;
    let b = le_bytes_u64(u);
    assert(le_u64(b) == (u as u8 as u64) | (((u >> 8u64) as u8 as u64) << 8u64) | (((u
        >> 16u64) as u8 as u64) << 16u64) | (((u >> 24u64) as u8 as u64) << 24u64) | (((u
        >> 32u64) as u8 as u64) << 32u64) | (((u >> 40u64) as u8 as u64) << 40u64) | (((u
        >> 48u64) as u8 as u64) << 48u64) | (((u >> 56u64) as u8 as u64) << 56u64));
    assert((u as u8 as u64) | (((u >> 8u64) as u8 as u64) << 8u64) | (((u >> 16u64) as u8
        as u64) << 16u64) | (((u >> 24u64) as u8 as u64) << 24u64) | (((u >> 32u64) as u8
        as u64) << 32u64) | (((u >> 40u64) as u8 as u64) << 40u64) | (((u >> 48u64) as u8
        as u64) << 48u64) | (((u >> 56u64) as u8 as u64) << 56u64) == u) by (bit_vector);
    assert((v as u64) as i64 == v) by (bit_vector);
}

/// Writing the bit pattern of a 32-bit float and reading its bytes back gives
/// the same pattern, and the bytes fill exactly one entry.
pub proof fn lemma_u32_round_trip(v: u32)
    ensures
        <u32 as BinaryEntry>::spec_encode(v).len() == <u32 as BinaryEntry>::spec_size(),
        <u32 as BinaryEntry>::spec_decode(<u32 as BinaryEntry>::spec_encode(v)) == v,
{
    let b = le_bytes_u32(v);
    assert(le_u32(b) == (v as u8 as u32) | (((v >> 8u32) as u8 as u32) << 8u32) | (((v
        >> 16u32) as u8 as u32) << 16u32) | (((v >> 24u32) as u8 as u32) << 24u32));
    assert((v as u8 as u32) | (((v >> 8u32) as u8 as u32) << 8u32) | (((v >> 16u32) as u8
        as u32) << 16u32) | (((v >> 24u32) as u8 as u32) << 24u32) == v) by (bit_vector);
}

} // verus!
