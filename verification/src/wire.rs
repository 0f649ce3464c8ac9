//! Big-endian numbers: what a run of bytes denotes, and the bytes that
//! denote a number.

use crate::writer::BufWriter;
use vstd::prelude::*;

verus! {

/// The number of values that `width` bytes can denote: 256 to the `width`.
pub open spec fn radix(width: nat) -> nat
    decreases width,
{
    if width == 0 {
        1
    } else {
        256 * radix((width - 1) as nat)
    }
}

/// The number that `bytes` denote, most significant byte first.
pub open spec fn be_value(bytes: Seq<u8>) -> nat
    decreases bytes.len(),
{
    if bytes.len() == 0 {
        0
    } else {
        256 * be_value(bytes.drop_last()) + bytes.last() as nat
    }
}

/// The `width` bytes that denote `value`, most significant byte first. Where
/// `value` needs more than `width` bytes, these are its low-order ones.
pub open spec fn be_bytes(value: nat, width: nat) -> Seq<u8>
    decreases width,
{
    if width == 0 {
        Seq::empty()
    } else {
        be_bytes(value / 256, (width - 1) as nat).push((value % 256) as u8)
    }
}

/// The signed number that the unsigned `raw` stands for in two's complement
/// on `width` bytes.
pub open spec fn to_signed(raw: nat, width: nat) -> int {
    if 2 * raw >= radix(width) {
        raw - radix(width)
    } else {
        raw as int
    }
}

/// The unsigned number that stands for `value` in two's complement on
/// `width` bytes.
pub open spec fn to_unsigned(value: int, width: nat) -> nat {
    if value < 0 {
        (value + radix(width)) as nat
    } else {
        value as nat
    }
}

/// The radix of each width up to four bytes.
pub proof fn lemma_radix_values()
    ensures
        radix(0) == 1,
        radix(1) == 0x100,
        radix(2) == 0x1_0000,
        radix(3) == 0x100_0000,
        radix(4) == 0x1_0000_0000,
{
    reveal_with_fuel(radix, 5);
}

/// No radix is zero.
pub proof fn lemma_radix_positive(width: nat)
    ensures
        radix(width) > 0,
    decreases width,
{
    if width > 0 {
        lemma_radix_positive((width - 1) as nat);
    }
}

/// `be_bytes` yields exactly `width` bytes.
pub proof fn lemma_be_bytes_len(value: nat, width: nat)
    ensures
        be_bytes(value, width).len() == width,
    decreases width,
{
    if width > 0 {
        lemma_be_bytes_len(value / 256, (width - 1) as nat);
    }
}

/// What bytes denote is below the radix of their number.
pub proof fn lemma_be_value_bound(bytes: Seq<u8>)
    ensures
        be_value(bytes) < radix(bytes.len()),
    decreases bytes.len(),
{
    if bytes.len() > 0 {
        lemma_be_value_bound(bytes.drop_last());
    }
}

/// Reading back the bytes of a number gives the number, reduced to what
/// `width` bytes can hold.
pub proof fn lemma_be_value_of_bytes(value: nat, width: nat)
    ensures
        be_value(be_bytes(value, width)) == value % radix(width),
    decreases width,
{
    if width > 0 {
        let rest = (width - 1) as nat;
        let high = be_bytes(value / 256, rest);
        lemma_be_value_of_bytes(value / 256, rest);
        assert(be_bytes(value, width).drop_last() =~= high);
        lemma_radix_positive(rest);
        lemma_split_mod(value, radix(rest));
    }
}

/// Writing out what bytes denote, on as many bytes, gives the bytes back.
pub proof fn lemma_be_bytes_of_value(bytes: Seq<u8>)
    ensures
        be_bytes(be_value(bytes), bytes.len()) == bytes,
    decreases bytes.len(),
{
    if bytes.len() > 0 {
        lemma_be_bytes_of_value(bytes.drop_last());
    }
}

/// The bytes of a number are the bytes of what `width` bytes can hold of it.
pub proof fn lemma_be_bytes_mod(value: nat, width: nat)
    ensures
        be_bytes(value % radix(width), width) == be_bytes(value, width),
{
    let bytes = be_bytes(value, width);
    lemma_be_bytes_len(value, width);
    lemma_be_value_of_bytes(value, width);
    lemma_be_bytes_of_value(bytes);
}

/// The bytes of a number on fewer bytes are the tail of its bytes on more.
pub proof fn lemma_be_bytes_tail(value: nat, width: nat, more: nat)
    requires
        width <= more,
    ensures
        be_bytes(value, more).subrange(more - width, more as int) == be_bytes(value, width),
    decreases width,
{
    lemma_be_bytes_len(value, more);
    if width > 0 {
        lemma_be_bytes_tail(value / 256, (width - 1) as nat, (more - 1) as nat);
        lemma_be_bytes_len(value / 256, (more - 1) as nat);
    }
}

/// Two's complement loses nothing: each signed value in range has one
/// unsigned stand-in, and comes back from it.
pub proof fn lemma_signed_unsigned(value: int, width: nat)
    requires
        width > 0,
        -(radix(width) as int) <= 2 * value < radix(width),
    ensures
        to_unsigned(value, width) < radix(width),
        to_signed(to_unsigned(value, width), width) == value,
{
}

/// Each unsigned value below the radix stands for one signed value in range,
/// and is its stand-in.
pub proof fn lemma_unsigned_signed(raw: nat, width: nat)
    requires
        raw < radix(width),
    ensures
        -(radix(width) as int) <= 2 * to_signed(raw, width) < radix(width),
        to_unsigned(to_signed(raw, width), width) == raw,
{
}

/// `value % (256 * m)` in terms of the last digit and the rest.
proof fn lemma_split_mod(value: nat, m: nat)
    requires
        m > 0,
    ensures
        256 * ((value / 256) % m) + value % 256 == value % (256 * m),
{
    let q = value / 256;
    let r = value % 256;
    let qq = q / m;
    let qr = q % m;
    assert(q == m * qq + qr) by {
        vstd::arithmetic::div_mod::lemma_fundamental_div_mod(q as int, m as int);
    }
    assert(value == (256 * m) * qq + (256 * qr + r)) by (nonlinear_arith)
        requires
            value == 256 * q + r,
            q == m * qq + qr,
    ;
    assert(0 <= 256 * qr + r < 256 * m) by (nonlinear_arith)
        requires
            0 <= qr < m,
            0 <= r < 256,
    ;
    vstd::arithmetic::div_mod::lemma_fundamental_div_mod_converse(
        value as int,
        (256 * m) as int,
        qq as int,
        (256 * qr + r) as int,
    );
}

/// Reads the first `width` bytes of `buf` as an unsigned big-endian number.
pub fn read_be(buf: &[u8], width: usize) -> (value: u32)
    requires
        width <= 4,
        width <= buf@.len(),
    ensures
        value == be_value(buf@.subrange(0, width as int)),
{
    let mut value: u32 = 0;
    let mut i: usize = 0;
    while i < width
        invariant
            i <= width <= 4,
            width <= buf@.len(),
            value == be_value(buf@.subrange(0, i as int)),
        decreases width - i,
    {
        proof {
            let seen = buf@.subrange(0, i as int);
            let next = buf@.subrange(0, i + 1);
            assert(next.drop_last() =~= seen);
            lemma_be_value_bound(seen);
            lemma_radix_values();
        }
        value = value * 256 + buf[i] as u32;
        i += 1;
    }
    value
}

/// The number that the low-order four bytes of `value` denote.
pub fn low_bytes(value: usize) -> (raw: u32)
    ensures
        raw == value as nat % radix(4),
        be_bytes(raw as nat, 4) == be_bytes(value as nat, 4),
{
    proof {
        lemma_radix_values();
        lemma_be_bytes_mod(value as nat, 4);
    }
    (value as u64 % 0x1_0000_0000) as u32
}

/// The four bytes of `value`, most significant first.
pub fn be_array(value: u32) -> (bytes: [u8; 4])
    ensures
        bytes@ == be_bytes(value as nat, 4),
{
    let bytes = [
        (value / 0x100_0000) as u8,
        ((value / 0x1_0000) % 256) as u8,
        ((value / 0x100) % 256) as u8,
        (value % 256) as u8,
    ];
    proof {
        reveal_with_fuel(be_bytes, 5);
    }
    bytes
}

/// Appends the low-order `width` bytes of `value`, most significant first,
/// in one request.
pub fn write_be(buf: &mut BufWriter, value: u32, width: usize)
    requires
        width <= 4,
    ensures
        final(buf)@ == old(buf)@.write(be_bytes(value as nat, width as nat)),
{
    let bytes = be_array(value);
    proof {
        lemma_be_bytes_tail(value as nat, width as nat, 4);
    }
    buf.write(&bytes[4 - width..4]);
}

/// Overwrites `width` bytes at `offset` with the low-order `width` bytes of
/// `value`, most significant first.
pub fn rewind_be(buf: &mut BufWriter, offset: usize, value: u32, width: usize)
    requires
        width <= 4,
        old(buf)@.failed || old(buf)@.covers(offset as int, width as int),
    ensures
        final(buf)@ == old(buf)@.patch(offset as int, be_bytes(value as nat, width as nat)),
{
    let bytes = be_array(value);
    proof {
        lemma_be_bytes_tail(value as nat, width as nat, 4);
    }
    buf.write_rewind(offset, &bytes[4 - width..4]);
}

} // verus!
