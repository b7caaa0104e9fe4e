//! Little-endian encoding of unsigned integers.

use vstd::prelude::*;

verus! {

/// `x` in `width` bytes, lowest first; what does not fit is cut off.
pub open spec fn le_bytes(x: nat, width: nat) -> Seq<u8>
    decreases width,
{
    if width == 0 {
        Seq::empty()
    } else {
        seq![(x % 256) as u8] + le_bytes(x / 256, (width - 1) as nat)
    }
}

/// The number that `s` spells, lowest byte first.
pub open spec fn from_le_bytes(s: Seq<u8>) -> nat
    decreases s.len(),
{
    if s.len() == 0 {
        0
    } else {
        s[0] as nat + 256 * from_le_bytes(s.skip(1))
    }
}

/// One more than the largest number that fits `width` bytes.
pub open spec fn byte_range(width: nat) -> nat
    decreases width,
{
    if width == 0 {
        1
    } else {
        256 * byte_range((width - 1) as nat)
    }
}

/// `width` bytes are written, and reading them gives the number back.
pub proof fn le_bytes_round_trip(x: nat, width: nat)
    requires
        x < byte_range(width),
    ensures
        le_bytes(x, width).len() == width,
        from_le_bytes(le_bytes(x, width)) == x,
    decreases width,
{
    if width > 0 {
        let rest = (width - 1) as nat;
        assert(x / 256 < byte_range(rest)) by (nonlinear_arith)
            requires
                x < 256 * byte_range(rest),
        ;
        le_bytes_round_trip(x / 256, rest);
        assert(le_bytes(x, width).skip(1) =~= le_bytes(x / 256, rest));
    }
}

/// `width` bytes are written whatever `x` is.
pub proof fn le_bytes_len(x: nat, width: nat)
    ensures
        le_bytes(x, width).len() == width,
    decreases width,
{
    if width > 0 {
        le_bytes_len(x / 256, (width - 1) as nat);
    }
}

/// The sizes of the integer types.
pub proof fn byte_ranges()
    ensures
        byte_range(2) == 0x1_0000,
        byte_range(4) == 0x1_0000_0000,
        byte_range(8) == 0x1_0000_0000_0000_0000,
{
    reveal_with_fuel(byte_range, 9);
}

/// The two's complement bits of `x`.
pub open spec fn twos_complement_bits(x: i64) -> nat {
    if x >= 0 {
        x as nat
    } else {
        (x + 0x1_0000_0000_0000_0000) as nat
    }
}

/// The two's complement bits of `x`.
pub fn twos_complement(x: i64) -> (u: u64)
    ensures
        u as nat == twos_complement_bits(x),
{
    if x >= 0 {
        x as u64
    } else {
        (x - i64::MIN) as u64 + 0x8000_0000_0000_0000
    }
}

/// Appends `x` in `width` bytes to `out`.
pub fn push_le(out: &mut Vec<u8>, x: u64, width: usize)
    ensures
        final(out)@ == old(out)@ + le_bytes(x as nat, width as nat),
{
    let mut rest: u64 = x;
    let mut left: usize = width;
    assert(out@ + le_bytes(x as nat, width as nat) == old(out)@ + le_bytes(
        x as nat,
        width as nat,
    ));
    while left > 0
        invariant
            out@ + le_bytes(rest as nat, left as nat) == old(out)@ + le_bytes(
                x as nat,
                width as nat,
            ),
        decreases left,
    {
        let ghost before = out@;
        out.push((rest % 256) as u8);
        assert(before + le_bytes(rest as nat, left as nat) =~= out@ + le_bytes(
            (rest / 256) as nat,
            (left - 1) as nat,
        ));
        rest = rest / 256;
        left -= 1;
    }
    assert(out@ + le_bytes(rest as nat, 0) =~= out@);
}

/// `values` one after the other, each in `width` bytes, lowest byte first.
pub open spec fn packed(values: Seq<nat>, width: nat) -> Seq<u8>
    decreases values.len(),
{
    if values.len() == 0 {
        Seq::empty()
    } else {
        packed(values.drop_last(), width) + le_bytes(values.last(), width)
    }
}

/// Packing takes `width` bytes for each value.
pub proof fn packed_len(values: Seq<nat>, width: nat)
    ensures
        packed(values, width).len() == values.len() * width,
    decreases values.len(),
{
    if values.len() > 0 {
        packed_len(values.drop_last(), width);
        le_bytes_len(values.last(), width);
        assert(values.len() * width == (values.len() - 1) * width + width) by (nonlinear_arith)
            requires
                values.len() > 0,
        ;
    }
}

/// Packing two lists one after the other is packing them as one.
pub proof fn packed_concat(a: Seq<nat>, b: Seq<nat>, width: nat)
    ensures
        packed(a + b, width) == packed(a, width) + packed(b, width),
    decreases b.len(),
{
    if b.len() == 0 {
        assert(a + b =~= a);
        assert(packed(a, width) + packed(b, width) =~= packed(a, width));
    } else {
        packed_concat(a, b.drop_last(), width);
        assert((a + b).drop_last() =~= a + b.drop_last());
        assert(packed(a + b, width) =~= packed(a, width) + packed(b, width));
    }
}

/// The bit patterns of 16-bit numbers.
pub open spec fn patterns16(v: Seq<u16>) -> Seq<nat> {
    v.map_values(|x: u16| x as nat)
}

/// The bit patterns of 32-bit numbers.
pub open spec fn patterns32(v: Seq<u32>) -> Seq<nat> {
    v.map_values(|x: u32| x as nat)
}

/// The bit patterns of signed 64-bit numbers.
pub open spec fn patterns64(v: Seq<i64>) -> Seq<nat> {
    v.map_values(|x: i64| twos_complement_bits(x))
}

/// Appends `v` to `out`, two bytes each.
pub fn pack16(out: &mut Vec<u8>, v: &Vec<u16>)
    ensures
        final(out)@ == old(out)@ + packed(patterns16(v@), 2),
{
    let mut i: usize = 0;
    assert(out@ =~= old(out)@ + packed(patterns16(v@.take(0)), 2));
    while i < v.len()
        invariant
            i <= v@.len(),
            out@ == old(out)@ + packed(patterns16(v@.take(i as int)), 2),
        decreases v@.len() - i,
    {
        push_le(out, v[i] as u64, 2);
        let ghost next = patterns16(v@.take(i + 1));
        assert(next.drop_last() =~= patterns16(v@.take(i as int)));
        assert(out@ =~= old(out)@ + packed(next, 2));
        i += 1;
    }
    assert(v@.take(v@.len() as int) =~= v@);
}

/// Appends `v` to `out`, four bytes each.
pub fn pack32(out: &mut Vec<u8>, v: &Vec<u32>)
    ensures
        final(out)@ == old(out)@ + packed(patterns32(v@), 4),
{
    let mut i: usize = 0;
    assert(out@ =~= old(out)@ + packed(patterns32(v@.take(0)), 4));
    while i < v.len()
        invariant
            i <= v@.len(),
            out@ == old(out)@ + packed(patterns32(v@.take(i as int)), 4),
        decreases v@.len() - i,
    {
        push_le(out, v[i] as u64, 4);
        let ghost next = patterns32(v@.take(i + 1));
        assert(next.drop_last() =~= patterns32(v@.take(i as int)));
        assert(out@ =~= old(out)@ + packed(next, 4));
        i += 1;
    }
    assert(v@.take(v@.len() as int) =~= v@);
}

/// Appends `v` to `out`, eight bytes each.
pub fn pack64(out: &mut Vec<u8>, v: &Vec<i64>)
    ensures
        final(out)@ == old(out)@ + packed(patterns64(v@), 8),
{
    let mut i: usize = 0;
    assert(out@ =~= old(out)@ + packed(patterns64(v@.take(0)), 8));
    while i < v.len()
        invariant
            i <= v@.len(),
            out@ == old(out)@ + packed(patterns64(v@.take(i as int)), 8),
        decreases v@.len() - i,
    {
        push_le(out, twos_complement(v[i]), 8);
        let ghost next = patterns64(v@.take(i + 1));
        assert(next.drop_last() =~= patterns64(v@.take(i as int)));
        assert(out@ =~= old(out)@ + packed(next, 8));
        i += 1;
    }
    assert(v@.take(v@.len() as int) =~= v@);
}

/// Value `k` of a packed list stands behind the `k` values before it, in as many
/// bytes.
pub proof fn packed_values(values: Seq<nat>, width: nat, k: int)
    requires
        0 <= k < values.len(),
    ensures
        0 <= k * width <= (k + 1) * width <= packed(values, width).len(),
        packed(values, width).subrange(k * width, (k + 1) * width) == le_bytes(values[k], width),
    decreases values.len(),
{
    let front = values.drop_last();
    packed_len(values, width);
    packed_len(front, width);
    le_bytes_len(values.last(), width);
    assert(0 <= k * width && (k + 1) * width == k * width + width && (k + 1) * width
        <= values.len() * width) by (nonlinear_arith)
        requires
            0 <= k < values.len(),
            0 <= width,
    ;
    if k < front.len() {
        packed_values(front, width, k);
        assert(packed(values, width).subrange(k * width, (k + 1) * width) =~= packed(
            front,
            width,
        ).subrange(k * width, (k + 1) * width));
    } else {
        assert(packed(values, width).subrange(k * width, (k + 1) * width) =~= le_bytes(
            values[k],
            width,
        ));
    }
}

/// The lowest byte comes first: the bytes of a number, weighed by powers of 256,
/// are the number.
pub proof fn lowest_byte_first(x: nat)
    ensures
        x < 0x1_0000 ==> {
            let b = le_bytes(x, 2);
            b.len() == 2 && b[0] + 0x100 * b[1] == x
        },
        x < 0x1_0000_0000 ==> {
            let b = le_bytes(x, 4);
            b.len() == 4 && b[0] + 0x100 * b[1] + 0x1_0000 * b[2] + 0x100_0000 * b[3] == x
        },
        x < 0x1_0000_0000_0000_0000 ==> {
            let b = le_bytes(x, 8);
            b.len() == 8 && b[0] + 0x100 * b[1] + 0x1_0000 * b[2] + 0x100_0000 * b[3]
                + 0x1_0000_0000 * b[4] + 0x100_0000_0000 * b[5] + 0x1_0000_0000_0000 * b[6]
                + 0x100_0000_0000_0000 * b[7] == x
        },
{
    reveal_with_fuel(le_bytes, 9);
}

/// Bit patterns keep their order, their number and their values; a negative number's
/// is that of its two's complement.
pub proof fn patterns_keep_values(a: Seq<u16>, b: Seq<u32>, c: Seq<i64>, k: int)
    ensures
        patterns16(a).len() == a.len(),
        0 <= k < a.len() ==> patterns16(a)[k] == a[k],
        patterns32(b).len() == b.len(),
        0 <= k < b.len() ==> patterns32(b)[k] == b[k],
        patterns64(c).len() == c.len(),
        0 <= k < c.len() && c[k] >= 0 ==> patterns64(c)[k] == c[k],
        0 <= k < c.len() && c[k] < 0 ==> patterns64(c)[k] == c[k] + 0x1_0000_0000_0000_0000,
{
}

} // verus!
