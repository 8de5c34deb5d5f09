//! The Internet checksum of IPv4, TCP and ICMP.
use vstd::prelude::*;

verus! {

/// The 16-bit number that stands at `i`, most significant byte first.
pub open spec fn be16(s: Seq<u8>, i: int) -> nat {
    (s[i] * 256 + s[i + 1]) as nat
}

/// The 32-bit number that stands at `i`, most significant byte first.
pub open spec fn be32(s: Seq<u8>, i: int) -> nat {
    be16(s, i) * 65536 + be16(s, i + 2)
}

/// The sum of the 16-bit words of `s`; an odd last byte counts as a word's first byte.
pub open spec fn word_sum(s: Seq<u8>) -> nat
    decreases s.len(),
{
    if s.len() == 0 {
        0
    } else if s.len() == 1 {
        (s[0] * 256) as nat
    } else {
        be16(s, 0) + word_sum(s.skip(2))
    }
}

/// `n` in 16 bits, each carry added in again.
pub open spec fn folded(n: nat) -> nat {
    if n == 0 {
        0
    } else {
        ((n - 1) % 65535 + 1) as nat
    }
}

/// The ones' complement of the folded sum `n`.
pub open spec fn checksum_of(n: nat) -> nat {
    (65535 - folded(n)) as nat
}

/// The sum that a TCP checksum over IPv4 is taken of: pseudo header, then segment.
pub open spec fn tcp_sum(src: u32, dst: u32, segment: Seq<u8>) -> nat {
    (src / 65536 + src % 65536 + dst / 65536 + dst % 65536 + 6 + segment.len() + word_sum(
        segment,
    )) as nat
}

/// `s` with the two bytes at `i` replaced by the 16-bit number `n`.
pub open spec fn put16(s: Seq<u8>, i: int, n: nat) -> Seq<u8> {
    s.update(i, (n / 256) as u8).update(i + 1, (n % 256) as u8)
}

/// The checksum of a TCP segment between two IPv4 addresses. The field that
/// holds it counts as zero.
pub open spec fn tcp_checksum(src: u32, dst: u32, segment: Seq<u8>) -> nat {
    checksum_of(tcp_sum(src, dst, put16(segment, 16, 0)))
}

pub proof fn lemma_folded(n: nat)
    ensures
        folded(n) <= 65535,
        n > 0 ==> folded(n) > 0,
        n % 65535 == folded(n) % 65535,
{
    if n > 0 {
        let k = (n - 1) as nat;
        assert(n == (k / 65535) * 65535 + folded(n));
        assert(n % 65535 == folded(n) % 65535) by (nonlinear_arith)
            requires
                n == (k / 65535) * 65535 + folded(n),
        ;
    }
}

pub proof fn lemma_word_sum_bound(s: Seq<u8>)
    ensures
        word_sum(s) <= 65535 * s.len(),
    decreases s.len(),
{
    if s.len() >= 2 {
        lemma_word_sum_bound(s.skip(2));
    }
}

/// Replacing the word at an even position changes the sum by the difference.
pub proof fn lemma_word_sum_put(s: Seq<u8>, i: int, n: nat)
    requires
        0 <= i,
        i + 2 <= s.len(),
        i % 2 == 0,
        n <= 65535,
    ensures
        word_sum(put16(s, i, n)) + be16(s, i) == word_sum(s) + n,
    decreases s.len(),
{
    let t = put16(s, i, n);
    if i == 0 {
        assert(t.skip(2) =~= s.skip(2));
    } else {
        lemma_word_sum_put(s.skip(2), i - 2, n);
        assert(t.skip(2) =~= put16(s.skip(2), i - 2, n));
    }
}

/// What a receiver finds: with the checksum in place, the folded sum of the
/// segment is all ones.
pub proof fn law_checksum_verifies(src: u32, dst: u32, segment: Seq<u8>)
    requires
        segment.len() >= 20,
    ensures
        folded(tcp_sum(src, dst, put16(segment, 16, tcp_checksum(src, dst, segment)))) == 65535,
{
    let zero = put16(segment, 16, 0);
    let z = tcp_sum(src, dst, zero);
    let c = checksum_of(z);
    lemma_folded(z);
    let full = put16(segment, 16, c);
    assert(full =~= put16(zero, 16, c));
    lemma_word_sum_put(zero, 16, c);
    assert(be16(zero, 16) == 0);
    assert(tcp_sum(src, dst, full) == z + c);
    lemma_folded(z + c);
    assert((z + c) % 65535 == 0) by (nonlinear_arith)
        requires
            z % 65535 == folded(z) % 65535,
            c == 65535 - folded(z),
    ;
}

/// The sum of the 16-bit words of the bytes from `from` to `to`.
pub fn sum_words(s: &[u8], from: usize, to: usize) -> (r: u64)
    requires
        from <= to <= s@.len(),
        to - from <= 65535,
    ensures
        r == word_sum(s@.subrange(from as int, to as int)),
        r <= 65535 * (to - from),
{
    let ghost part = s@.subrange(from as int, to as int);
    let mut i: usize = from;
    let mut acc: u64 = 0;
    assert(part.skip(0) =~= part);
    while to - i >= 2
        invariant
            from <= i <= to <= s@.len(),
            to - from <= 65535,
            part == s@.subrange(from as int, to as int),
            acc + word_sum(part.skip(i - from)) == word_sum(part),
            acc <= 65535 * (i - from),
        decreases to - i,
    {
        assert(part.skip(i - from).skip(2) =~= part.skip(i + 2 - from));
        acc = acc + (s[i] as u64 * 256 + s[i + 1] as u64);
        i = i + 2;
    }
    if i < to {
        assert(part.skip(i - from).len() == 1);
        acc = acc + s[i] as u64 * 256;
    }
    acc
}

/// The ones' complement of the folded sum `n`.
pub fn complement(n: u64) -> (r: u16)
    ensures
        r == checksum_of(n as nat),
{
    if n == 0 {
        65535
    } else {
        (65535 - ((n - 1) % 65535 + 1)) as u16
    }
}

/// Writes a 16-bit number at `i`, most significant byte first.
pub fn write16(s: &mut [u8], i: usize, n: u16)
    requires
        i + 2 <= old(s)@.len(),
    ensures
        final(s)@ == put16(old(s)@, i as int, n as nat),
{
    s[i] = (n / 256) as u8;
    s[i + 1] = (n % 256) as u8;
}

/// The 16-bit number at `i`, most significant byte first.
pub fn read16(s: &[u8], i: usize) -> (r: u16)
    requires
        i + 2 <= s.len(),
    ensures
        r == be16(s@, i as int),
{
    s[i] as u16 * 256 + s[i + 1] as u16
}

/// The 32-bit number at `i`, most significant byte first.
pub fn read32(s: &[u8], i: usize) -> (r: u32)
    requires
        i + 4 <= s.len(),
    ensures
        r == be32(s@, i as int),
{
    read16(s, i) as u32 * 65536 + read16(s, i + 2) as u32
}

/// The checksum of the TCP segment that stands in the bytes from `from` to `to`.
pub fn tcp_segment_checksum(s: &[u8], from: usize, to: usize, src: u32, dst: u32) -> (r: u16)
    requires
        from <= to <= s@.len(),
        20 <= to - from <= 65535,
    ensures
        r == tcp_checksum(src, dst, s@.subrange(from as int, to as int)),
{
    let ghost seg = s@.subrange(from as int, to as int);
    let words = sum_words(s, from, to);
    let field = read16(s, from + 16) as u64;
    proof {
        lemma_word_sum_put(seg, 16, 0);
        assert(be16(seg, 16) == be16(s@, from + 16));
    }
    let n = (src / 65536) as u64 + (src % 65536) as u64 + (dst / 65536) as u64 + (dst
        % 65536) as u64 + 6 + (to - from) as u64 + (words - field);
    complement(n)
}

} // verus!
