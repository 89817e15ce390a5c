//! Byte strings and the numbers they encode.
//!
//! Every fixed-width integer of the wire formats in this crate is stored
//! little-endian. Big-endian strings only occur where a number crosses to
//! or from OpenSSL.

use vstd::prelude::*;

verus! {

/// `256` to the power `n`.
pub open spec fn pow256(n: nat) -> nat
    decreases n,
{
    if n == 0 {
        1
    } else {
        256 * pow256((n - 1) as nat)
    }
}

/// The little-endian encoding of `value` in exactly `width` bytes.
///
/// Digits of `value` beyond `width` bytes are dropped.
pub open spec fn le_bytes(value: nat, width: nat) -> Seq<u8>
    decreases width,
{
    if width == 0 {
        Seq::<u8>::empty()
    } else {
        seq![(value % 256) as u8] + le_bytes(value / 256, (width - 1) as nat)
    }
}

/// The number that `bytes` encodes when read little-endian.
pub open spec fn le_value(bytes: Seq<u8>) -> nat
    decreases bytes.len(),
{
    if bytes.len() == 0 {
        0
    } else {
        bytes[0] as nat + 256 * le_value(bytes.drop_first())
    }
}

/// The little-endian encoding of each word of `words` in turn, four bytes a
/// word.
pub open spec fn words_le(words: Seq<u32>) -> Seq<u8>
    decreases words.len(),
{
    if words.len() == 0 {
        Seq::<u8>::empty()
    } else {
        words_le(words.drop_last()) + le_bytes(words.last() as nat, 4)
    }
}

/// The number that `bytes` encodes when read big-endian.
pub open spec fn be_value(bytes: Seq<u8>) -> nat
    decreases bytes.len(),
{
    if bytes.len() == 0 {
        0
    } else {
        256 * be_value(bytes.drop_last()) + bytes.last() as nat
    }
}

/// The shortest big-endian encoding of `value`: no leading zero byte, and
/// no byte at all for zero.
pub open spec fn be_bytes(value: nat) -> Seq<u8>
    decreases value,
{
    if value == 0 {
        Seq::<u8>::empty()
    } else {
        be_bytes(value / 256).push((value % 256) as u8)
    }
}

/// `n` zero bytes.
pub open spec fn zeros(n: nat) -> Seq<u8> {
    Seq::new(n, |i: int| 0u8)
}

/// `256` to any power is positive.
pub proof fn lemma_pow256_positive(n: nat)
    ensures
        pow256(n) > 0,
    decreases n,
{
    if n > 0 {
        lemma_pow256_positive((n - 1) as nat);
    }
}

/// `256` to a power grows with the power.
pub proof fn lemma_pow256_monotonic(a: nat, b: nat)
    requires
        a <= b,
    ensures
        pow256(a) <= pow256(b),
    decreases b,
{
    if a < b {
        lemma_pow256_monotonic(a, (b - 1) as nat);
    }
}

/// `256` to a sum of powers is the product of the powers.
pub proof fn lemma_pow256_adds(a: nat, b: nat)
    ensures
        pow256(a + b) == pow256(a) * pow256(b),
    decreases a,
{
    if a == 0 {
        assert(pow256(a + b) == 1 * pow256(b));
    } else {
        lemma_pow256_adds((a - 1) as nat, b);
        assert(256 * (pow256((a - 1) as nat) * pow256(b)) == (256 * pow256((a - 1) as nat))
            * pow256(b)) by (nonlinear_arith);
    }
}

/// The values of `256` to the powers that integer widths use.
pub proof fn lemma_pow256_widths()
    ensures
        pow256(1) == 0x100,
        pow256(2) == 0x1_0000,
        pow256(4) == 0x1_0000_0000,
        pow256(8) == 0x1_0000_0000_0000_0000,
        pow256(16) == 0x1_0000_0000_0000_0000_0000_0000_0000_0000,
{
    reveal_with_fuel(pow256, 17);
}

/// `256` to a power of at most 15 leaves room for one more byte in a `u128`.
proof fn lemma_pow256_bound(n: nat)
    requires
        n <= 15,
    ensures
        pow256(n) <= 0x0100_0000_0000_0000_0000_0000_0000_0000,
        pow256(n) * 256 == pow256(n + 1),
{
    reveal_with_fuel(pow256, 17);
}

/// An encoding has the width it was asked for.
pub proof fn lemma_le_bytes_len(value: nat, width: nat)
    ensures
        le_bytes(value, width).len() == width,
    decreases width,
{
    if width > 0 {
        lemma_le_bytes_len(value / 256, (width - 1) as nat);
    }
}

/// Decoding an encoding gives the number back, as long as it fits.
pub proof fn lemma_le_value_of_le_bytes(value: nat, width: nat)
    requires
        value < pow256(width),
    ensures
        le_value(le_bytes(value, width)) == value,
    decreases width,
{
    if width > 0 {
        lemma_le_value_of_le_bytes(value / 256, (width - 1) as nat);
        assert(le_bytes(value, width).drop_first() =~= le_bytes(
            value / 256,
            (width - 1) as nat,
        ));
    }
}

/// Encoding what a string decodes to, in the string's own length, gives the
/// string back.
pub proof fn lemma_le_bytes_of_le_value(bytes: Seq<u8>)
    ensures
        le_bytes(le_value(bytes), bytes.len()) == bytes,
        le_value(bytes) < pow256(bytes.len()),
    decreases bytes.len(),
{
    if bytes.len() > 0 {
        lemma_le_bytes_of_le_value(bytes.drop_first());
        assert(le_value(bytes) % 256 == bytes[0] as nat);
        assert(le_bytes(le_value(bytes), bytes.len()) =~= bytes);
    }
}

/// Two numbers that fit in `width` bytes and encode alike are the same.
pub proof fn lemma_le_bytes_injective(a: nat, b: nat, width: nat)
    requires
        a < pow256(width),
        b < pow256(width),
        le_bytes(a, width) == le_bytes(b, width),
    ensures
        a == b,
{
    lemma_le_value_of_le_bytes(a, width);
    lemma_le_value_of_le_bytes(b, width);
}

/// A zero byte more at the high end changes nothing.
pub proof fn lemma_le_value_push_zero(bytes: Seq<u8>)
    ensures
        le_value(bytes.push(0u8)) == le_value(bytes),
    decreases bytes.len(),
{
    let longer = bytes.push(0u8);
    if bytes.len() == 0 {
        assert(le_value(longer) == longer[0] as nat + 256 * le_value(longer.drop_first()));
    } else {
        lemma_le_value_push_zero(bytes.drop_first());
        assert(longer.drop_first() =~= bytes.drop_first().push(0u8));
    }
}

/// Padding with zero bytes at the high end changes nothing.
pub proof fn lemma_le_value_zero_padded(bytes: Seq<u8>, n: nat)
    ensures
        le_value(bytes + zeros(n)) == le_value(bytes),
    decreases n,
{
    if n == 0 {
        assert(bytes + zeros(0) =~= bytes);
    } else {
        lemma_le_value_zero_padded(bytes, (n - 1) as nat);
        lemma_le_value_push_zero(bytes + zeros((n - 1) as nat));
        assert(bytes + zeros(n) =~= (bytes + zeros((n - 1) as nat)).push(0u8));
    }
}

/// A byte more at the low end of a little-endian string.
proof fn lemma_le_value_prepend(byte: u8, bytes: Seq<u8>)
    ensures
        le_value(seq![byte] + bytes) == byte as nat + 256 * le_value(bytes),
{
    assert((seq![byte] + bytes).drop_first() =~= bytes);
}

/// Words take four bytes each.
pub proof fn lemma_words_le_len(words: Seq<u32>)
    ensures
        words_le(words).len() == 4 * words.len(),
    decreases words.len(),
{
    if words.len() > 0 {
        lemma_words_le_len(words.drop_last());
        lemma_le_bytes_len(words.last() as nat, 4);
    }
}

/// Zero words encode as zero bytes.
pub proof fn lemma_words_le_zero(words: Seq<u32>)
    requires
        forall|i: int| 0 <= i < words.len() ==> words[i] == 0,
    ensures
        words_le(words) == zeros(4 * words.len()),
    decreases words.len(),
{
    if words.len() > 0 {
        lemma_words_le_zero(words.drop_last());
        reveal_with_fuel(le_bytes, 5);
    }
}

/// Strings of equal length that stay equal when something is appended to
/// each are equal, and so is what was appended.
pub proof fn lemma_concat_injective(a: Seq<u8>, b: Seq<u8>, c: Seq<u8>, d: Seq<u8>)
    requires
        a.len() == c.len(),
        a + b == c + d,
    ensures
        a == c,
        b == d,
{
    assert(c =~= (c + d).subrange(0, c.len() as int));
    assert(d =~= (c + d).subrange(c.len() as int, (c + d).len() as int));
}

/// Word strings of equal length that encode alike are equal.
pub proof fn lemma_words_le_injective(a: Seq<u32>, b: Seq<u32>)
    requires
        a.len() == b.len(),
        words_le(a) == words_le(b),
    ensures
        a == b,
    decreases a.len(),
{
    if a.len() > 0 {
        lemma_words_le_len(a.drop_last());
        lemma_words_le_len(b.drop_last());
        lemma_concat_injective(
            words_le(a.drop_last()),
            le_bytes(a.last() as nat, 4),
            words_le(b.drop_last()),
            le_bytes(b.last() as nat, 4),
        );
        lemma_words_le_injective(a.drop_last(), b.drop_last());
        lemma_pow256_widths();
        lemma_le_bytes_injective(a.last() as nat, b.last() as nat, 4);
        assert(b =~= b.drop_last().push(b.last()));
    }
}

/// A string read big-endian is its reverse read little-endian.
pub proof fn lemma_be_value_is_reversed_le_value(bytes: Seq<u8>)
    ensures
        be_value(bytes) == le_value(bytes.reverse()),
    decreases bytes.len(),
{
    if bytes.len() > 0 {
        let init = bytes.drop_last();
        lemma_be_value_is_reversed_le_value(init);
        assert(bytes.reverse() =~= seq![bytes.last()] + init.reverse());
        lemma_le_value_prepend(bytes.last(), init.reverse());
    }
}

/// A big-endian string decodes below `256` to the power of its length.
pub proof fn lemma_be_value_bound(bytes: Seq<u8>)
    ensures
        be_value(bytes) < pow256(bytes.len()),
{
    lemma_be_value_is_reversed_le_value(bytes);
    lemma_le_bytes_of_le_value(bytes.reverse());
}

/// A zero byte in front of a big-endian string changes nothing.
pub proof fn lemma_be_value_leading_zero(bytes: Seq<u8>)
    ensures
        be_value(seq![0u8] + bytes) == be_value(bytes),
    decreases bytes.len(),
{
    let longer = seq![0u8] + bytes;
    if bytes.len() == 0 {
        assert(be_value(longer) == 256 * be_value(longer.drop_last()) + longer.last() as nat);
    } else {
        lemma_be_value_leading_zero(bytes.drop_last());
        assert(longer.drop_last() =~= seq![0u8] + bytes.drop_last());
    }
}

/// The shortest encoding of a number decodes to the number.
pub proof fn lemma_be_value_of_be_bytes(value: nat)
    ensures
        be_value(be_bytes(value)) == value,
    decreases value,
{
    if value > 0 {
        lemma_be_value_of_be_bytes(value / 256);
        assert(be_bytes(value).drop_last() =~= be_bytes(value / 256));
    }
}

/// A big-endian string that does not start with a zero byte is the
/// shortest encoding of its number.
pub proof fn lemma_be_bytes_of_be_value(bytes: Seq<u8>)
    requires
        bytes.len() > 0 ==> bytes[0] != 0,
    ensures
        be_bytes(be_value(bytes)) == bytes,
        bytes.len() > 0 ==> be_value(bytes) > 0,
    decreases bytes.len(),
{
    let value = be_value(bytes);
    if bytes.len() == 1 {
        assert(value == 256 * be_value(bytes.drop_last()) + bytes.last() as nat);
        assert(value == bytes[0] as nat);
        assert(be_bytes(value / 256) =~= Seq::<u8>::empty());
        assert(be_bytes(value) =~= bytes);
    } else if bytes.len() > 1 {
        lemma_be_bytes_of_be_value(bytes.drop_last());
        assert(value % 256 == bytes.last() as nat);
        assert(be_bytes(value) =~= bytes);
    }
}

/// The shortest encoding of a number below `256` to the power `n` has at
/// most `n` bytes, and that of any other number has more.
pub proof fn lemma_be_bytes_len(value: nat, n: nat)
    ensures
        be_bytes(value).len() <= n <==> value < pow256(n),
    decreases value,
{
    if value == 0 {
        lemma_pow256_positive(n);
    } else if n > 0 {
        lemma_be_bytes_len(value / 256, (n - 1) as nat);
    }
}

/// Appends the little-endian encoding of `value` in `width` bytes to `buf`.
pub fn put_le(buf: &mut Vec<u8>, value: u128, width: usize)
    requires
        width <= 16,
    ensures
        final(buf)@ == old(buf)@ + le_bytes(value as nat, width as nat),
{
    let ghost start = buf@;
    let mut rest: u128 = value;
    let mut done: usize = 0;
    while done < width
        invariant
            done <= width <= 16,
            buf@ + le_bytes(rest as nat, (width - done) as nat) == start + le_bytes(
                value as nat,
                width as nat,
            ),
        decreases width - done,
    {
        buf.push((rest % 256) as u8);
        rest = rest / 256;
        done = done + 1;
    }
}

/// Reads the `width` bytes of `bytes` that start at `at` as one
/// little-endian number.
///
/// The result is the one number below `256` to the power `width` whose
/// encoding those bytes are.
pub fn get_le(bytes: &[u8], at: usize, width: usize) -> (value: u128)
    requires
        width <= 16,
        at + width <= bytes.len(),
    ensures
        le_bytes(value as nat, width as nat) == bytes@.subrange(at as int, at + width),
        value < pow256(width as nat),
{
    let mut value: u128 = 0;
    let mut done: usize = 0;
    assert(le_bytes(0, 0) =~= bytes@.subrange(at + width, at + width));
    while done < width
        invariant
            done <= width <= 16,
            at + width <= bytes.len(),
            value < pow256(done as nat),
            le_bytes(value as nat, done as nat) == bytes@.subrange(
                at + width - done,
                at + width,
            ),
        decreases width - done,
    {
        let byte: u8 = bytes[at + width - done - 1];
        proof {
            lemma_pow256_bound(done as nat);
        }
        let next: u128 = value * 256 + byte as u128;
        proof {
            assert(next % 256 == byte);
            assert(le_bytes(next as nat, (done + 1) as nat) =~= bytes@.subrange(
                at + width - done - 1,
                at + width,
            ));
        }
        value = next;
        done = done + 1;
    }
    value
}

/// Appends `n` zero bytes to `buf`.
pub fn put_zeros(buf: &mut Vec<u8>, n: usize)
    ensures
        final(buf)@ == old(buf)@ + zeros(n as nat),
{
    let ghost start = buf@;
    let mut done: usize = 0;
    while done < n
        invariant
            done <= n,
            buf@ == start + zeros(done as nat),
        decreases n - done,
    {
        buf.push(0u8);
        done = done + 1;
    }
}

/// Appends a copy of `bytes` to `buf`.
pub fn put_bytes(buf: &mut Vec<u8>, bytes: &[u8])
    ensures
        final(buf)@ == old(buf)@ + bytes@,
{
    let ghost start = buf@;
    let mut done: usize = 0;
    assert(buf@ =~= start + bytes@.subrange(0, 0));
    while done < bytes.len()
        invariant
            done <= bytes.len(),
            buf@ == start + bytes@.subrange(0, done as int),
        decreases bytes.len() - done,
    {
        buf.push(bytes[done]);
        done = done + 1;
        assert(buf@ =~= start + bytes@.subrange(0, done as int));
    }
    assert(bytes@.subrange(0, done as int) =~= bytes@);
}

/// Copies the `N` bytes of `bytes` that start at `at`.
pub fn get_array<const N: usize>(bytes: &[u8], at: usize) -> (array: [u8; N])
    requires
        at + N <= bytes.len(),
    ensures
        array@ == bytes@.subrange(at as int, at + N),
{
    let mut array = [0u8;N];
    let mut done: usize = 0;
    while done < N
        invariant
            done <= N,
            at + N <= bytes.len(),
            array@.len() == N,
            forall|i: int| 0 <= i < done ==> array@[i] == bytes@[at + i],
        decreases N - done,
    {
        array[done] = bytes[at + done];
        done = done + 1;
    }
    assert(array@ =~= bytes@.subrange(at as int, at + N));
    array
}

/// The shortest big-endian encoding of the number that `be` holds
/// big-endian: `be` without its leading zero bytes.
pub fn shortest(be: &[u8]) -> (r: Vec<u8>)
    ensures
        r@ == be_bytes(be_value(be@)),
{
    let mut start: usize = 0;
    assert(be@.subrange(0, be@.len() as int) =~= be@);
    while start < be.len() && be[start] == 0
        invariant
            start <= be.len(),
            be_value(be@.subrange(start as int, be@.len() as int)) == be_value(be@),
        decreases be.len() - start,
    {
        proof {
            let rest = be@.subrange(start + 1, be@.len() as int);
            assert(be@.subrange(start as int, be@.len() as int) =~= seq![0u8] + rest);
            lemma_be_value_leading_zero(rest);
        }
        start = start + 1;
    }
    let mut r = Vec::new();
    put_bytes(&mut r, vstd::slice::slice_subrange(be, start, be.len()));
    proof {
        lemma_be_bytes_of_be_value(r@);
    }
    r
}

} // verus!
