//! Little-endian integers and byte-sequence helpers shared by the codecs.

use vstd::prelude::*;

verus! {

/// The value of two bytes read as a little-endian `u16`.
pub open spec fn le_u16(s: Seq<u8>) -> u16 {
    ((s[0] as u16) | ((s[1] as u16) << 8u16)) as u16
}

/// The value of four bytes read as a little-endian `u32`.
pub open spec fn le_u32(s: Seq<u8>) -> u32
    recommends
        s.len() == 4,
{
    (s[0] as u32) | ((s[1] as u32) << 8u32) | ((s[2] as u32) << 16u32) | ((s[3] as u32) << 24u32)
}

/// The four little-endian bytes of a `u32`.
pub open spec fn le_bytes_u32(x: u32) -> Seq<u8> {
    seq![
        (x & 0xffu32) as u8,
        ((x >> 8u32) & 0xffu32) as u8,
        ((x >> 16u32) & 0xffu32) as u8,
        ((x >> 24u32) & 0xffu32) as u8,
    ]
}

/// The value of eight bytes read as a little-endian `u64`.
pub open spec fn le_u64(s: Seq<u8>) -> u64
    recommends
        s.len() == 8,
{
    (s[0] as u64) | ((s[1] as u64) << 8u64) | ((s[2] as u64) << 16u64) | ((s[3] as u64) << 24u64)
        | ((s[4] as u64) << 32u64) | ((s[5] as u64) << 40u64) | ((s[6] as u64) << 48u64) | ((
    s[7] as u64) << 56u64)
}

/// The eight little-endian bytes of a `u64`.
pub open spec fn le_bytes_u64(x: u64) -> Seq<u8> {
    seq![
        (x & 0xffu64) as u8,
        ((x >> 8u64) & 0xffu64) as u8,
        ((x >> 16u64) & 0xffu64) as u8,
        ((x >> 24u64) & 0xffu64) as u8,
        ((x >> 32u64) & 0xffu64) as u8,
        ((x >> 40u64) & 0xffu64) as u8,
        ((x >> 48u64) & 0xffu64) as u8,
        ((x >> 56u64) & 0xffu64) as u8,
    ]
}

/// Reading back the bytes of a `u32` gives the `u32`.
pub proof fn lemma_le_u32_round_trip(x: u32)
    ensures
        le_bytes_u32(x).len() == 4,
        le_u32(le_bytes_u32(x)) == x,
{
    let b0 = (x & 0xffu32) as u8;
    let b1 = ((x >> 8u32) & 0xffu32) as u8;
    let b2 = ((x >> 16u32) & 0xffu32) as u8;
    let b3 = ((x >> 24u32) & 0xffu32) as u8;
    assert((b0 as u32) | ((b1 as u32) << 8u32) | ((b2 as u32) << 16u32) | ((b3 as u32) << 24u32)
        == x) by (bit_vector)
        requires
            b0 == (x & 0xffu32) as u8,
            b1 == ((x >> 8u32) & 0xffu32) as u8,
            b2 == ((x >> 16u32) & 0xffu32) as u8,
            b3 == ((x >> 24u32) & 0xffu32) as u8,
    ;
}

/// Writing out the value of four bytes gives the bytes.
pub proof fn lemma_le_bytes_u32_round_trip(s: Seq<u8>)
    requires
        s.len() == 4,
    ensures
        le_bytes_u32(le_u32(s)) == s,
{
    let (b0, b1, b2, b3) = (s[0], s[1], s[2], s[3]);
    let x = le_u32(s);
    assert((x & 0xffu32) as u8 == b0 && ((x >> 8u32) & 0xffu32) as u8 == b1 && ((x >> 16u32)
        & 0xffu32) as u8 == b2 && ((x >> 24u32) & 0xffu32) as u8 == b3) by (bit_vector)
        requires
            x == (b0 as u32) | ((b1 as u32) << 8u32) | ((b2 as u32) << 16u32) | ((b3 as u32)
                << 24u32),
    ;
    assert(le_bytes_u32(x) =~= s);
}

/// Reading back the bytes of a `u64` gives the `u64`.
pub proof fn lemma_le_u64_round_trip(x: u64)
    ensures
        le_bytes_u64(x).len() == 8,
        le_u64(le_bytes_u64(x)) == x,
{
    let b0 = (x & 0xffu64) as u8;
    let b1 = ((x >> 8u64) & 0xffu64) as u8;
    let b2 = ((x >> 16u64) & 0xffu64) as u8;
    let b3 = ((x >> 24u64) & 0xffu64) as u8;
    let b4 = ((x >> 32u64) & 0xffu64) as u8;
    let b5 = ((x >> 40u64) & 0xffu64) as u8;
    let b6 = ((x >> 48u64) & 0xffu64) as u8;
    let b7 = ((x >> 56u64) & 0xffu64) as u8;
    assert((b0 as u64) | ((b1 as u64) << 8u64) | ((b2 as u64) << 16u64) | ((b3 as u64) << 24u64)
        | ((b4 as u64) << 32u64) | ((b5 as u64) << 40u64) | ((b6 as u64) << 48u64) | ((
    b7 as u64) << 56u64) == x) by (bit_vector)
        requires
            b0 == (x & 0xffu64) as u8,
            b1 == ((x >> 8u64) & 0xffu64) as u8,
            b2 == ((x >> 16u64) & 0xffu64) as u8,
            b3 == ((x >> 24u64) & 0xffu64) as u8,
            b4 == ((x >> 32u64) & 0xffu64) as u8,
            b5 == ((x >> 40u64) & 0xffu64) as u8,
            b6 == ((x >> 48u64) & 0xffu64) as u8,
            b7 == ((x >> 56u64) & 0xffu64) as u8,
    ;
}

/// Writing out the value of eight bytes gives the bytes.
pub proof fn lemma_le_bytes_u64_round_trip(s: Seq<u8>)
    requires
        s.len() == 8,
    ensures
        le_bytes_u64(le_u64(s)) == s,
{
    let (b0, b1, b2, b3, b4, b5, b6, b7) = (s[0], s[1], s[2], s[3], s[4], s[5], s[6], s[7]);
    let x = le_u64(s);
    assert((x & 0xffu64) as u8 == b0 && ((x >> 8u64) & 0xffu64) as u8 == b1 && ((x >> 16u64)
        & 0xffu64) as u8 == b2 && ((x >> 24u64) & 0xffu64) as u8 == b3 && ((x >> 32u64)
        & 0xffu64) as u8 == b4 && ((x >> 40u64) & 0xffu64) as u8 == b5 && ((x >> 48u64)
        & 0xffu64) as u8 == b6 && ((x >> 56u64) & 0xffu64) as u8 == b7) by (bit_vector)
        requires
            x == (b0 as u64) | ((b1 as u64) << 8u64) | ((b2 as u64) << 16u64) | ((b3 as u64)
                << 24u64) | ((b4 as u64) << 32u64) | ((b5 as u64) << 40u64) | ((b6 as u64)
                << 48u64) | ((b7 as u64) << 56u64),
    ;
    assert(le_bytes_u64(x) =~= s);
}

/// Reads four bytes as a little-endian `u32`.
pub fn read_le_u32(b: [u8; 4]) -> (r: u32)
    ensures
        r == le_u32(b@),
{
    (b[0] as u32) | ((b[1] as u32) << 8u32) | ((b[2] as u32) << 16u32) | ((b[3] as u32) << 24u32)
}

/// Writes a `u32` as four little-endian bytes.
pub fn write_le_u32(x: u32) -> (r: Vec<u8>)
    ensures
        r@ == le_bytes_u32(x),
{
    let r = vec![
        (x & 0xffu32) as u8,
        ((x >> 8u32) & 0xffu32) as u8,
        ((x >> 16u32) & 0xffu32) as u8,
        ((x >> 24u32) & 0xffu32) as u8,
    ];
    assert(r@ =~= le_bytes_u32(x));
    r
}

/// Reads the eight bytes of `s` from `start` as a little-endian `u64`.
pub fn read_le_u64(s: &[u8], start: usize) -> (r: u64)
    requires
        start + 8 <= s@.len(),
    ensures
        r == le_u64(s@.subrange(start as int, start + 8)),
{
    let ghost w = s@.subrange(start as int, start + 8);
    assert(w[0] == s@[start as int] && w[7] == s@[start + 7]);
    (s[start] as u64) | ((s[start + 1] as u64) << 8u64) | ((s[start + 2] as u64) << 16u64) | ((
    s[start + 3] as u64) << 24u64) | ((s[start + 4] as u64) << 32u64) | ((s[start + 5] as u64)
        << 40u64) | ((s[start + 6] as u64) << 48u64) | ((s[start + 7] as u64) << 56u64)
}

/// Appends the eight little-endian bytes of a `u64`.
pub fn push_le_u64(out: &mut Vec<u8>, x: u64)
    ensures
        final(out)@ == old(out)@ + le_bytes_u64(x),
{
    out.push((x & 0xffu64) as u8);
    out.push(((x >> 8u64) & 0xffu64) as u8);
    out.push(((x >> 16u64) & 0xffu64) as u8);
    out.push(((x >> 24u64) & 0xffu64) as u8);
    out.push(((x >> 32u64) & 0xffu64) as u8);
    out.push(((x >> 40u64) & 0xffu64) as u8);
    out.push(((x >> 48u64) & 0xffu64) as u8);
    out.push(((x >> 56u64) & 0xffu64) as u8);
    assert(out@ =~= old(out)@ + le_bytes_u64(x));
}

/// True when `a` and `b` hold the same bytes.
pub fn bytes_equal(a: &[u8], b: &[u8]) -> (r: bool)
    ensures
        r == (a@ == b@),
{
    if a.len() != b.len() {
        return false;
    }
    let mut i: usize = 0;
    while i < a.len()
        invariant
            a@.len() == b@.len(),
            0 <= i <= a@.len(),
            forall|j: int| 0 <= j < i ==> a@[j] == b@[j],
        decreases a@.len() - i,
    {
        if a[i] != b[i] {
            return false;
        }
        i = i + 1;
    }
    assert(a@ =~= b@);
    true
}

/// The bytes of `s` in reverse order.
pub open spec fn reversed(s: Seq<u8>) -> Seq<u8> {
    Seq::new(s.len(), |i: int| s[s.len() - 1 - i])
}

/// Reversing twice gives the original bytes.
pub proof fn lemma_reversed_twice(s: Seq<u8>)
    ensures
        reversed(reversed(s)) == s,
{
    assert(reversed(reversed(s)) =~= s);
}

/// Appends the bytes of `a` in reverse order.
pub fn push_reversed(out: &mut Vec<u8>, a: &[u8])
    ensures
        final(out)@ == old(out)@ + reversed(a@),
{
    let mut i: usize = a.len();
    while i > 0
        invariant
            i <= a@.len(),
            out@ == old(out)@ + reversed(a@).subrange(0, a@.len() - i),
        decreases i,
    {
        i = i - 1;
        out.push(a[i]);
        assert(out@ =~= old(out)@ + reversed(a@).subrange(0, a@.len() - i));
    }
    assert(reversed(a@).subrange(0, a@.len() as int) =~= reversed(a@));
}

/// The leading 32 bytes of `s` in reverse order, as an array.
pub fn reversed_array_32(s: &[u8]) -> (r: [u8; 32])
    requires
        s@.len() >= 32,
    ensures
        r@ == reversed(s@.subrange(0, 32)),
{
    let mut r: [u8; 32] = [0u8; 32];
    let mut i: usize = 0;
    while i < 32
        invariant
            s@.len() >= 32,
            0 <= i <= 32,
            forall|j: int| 0 <= j < i ==> r@[j] == s@[31 - j],
        decreases 32 - i,
    {
        r[i] = s[31 - i];
        i = i + 1;
    }
    assert(r@ =~= reversed(s@.subrange(0, 32)));
    r
}

/// Appends the bytes of `a`.
pub fn push_all(out: &mut Vec<u8>, a: &[u8])
    ensures
        final(out)@ == old(out)@ + a@,
{
    let mut i: usize = 0;
    while i < a.len()
        invariant
            i <= a@.len(),
            out@ == old(out)@ + a@.subrange(0, i as int),
        decreases a@.len() - i,
    {
        out.push(a[i]);
        i = i + 1;
        assert(out@ =~= old(out)@ + a@.subrange(0, i as int));
    }
    assert(a@.subrange(0, a@.len() as int) =~= a@);
}

/// Appends `n` zero bytes.
pub fn push_zeros(out: &mut Vec<u8>, n: usize)
    ensures
        final(out)@ == old(out)@ + Seq::new(n as nat, |i: int| 0u8),
{
    let mut i: usize = 0;
    while i < n
        invariant
            i <= n,
            out@ == old(out)@ + Seq::new(i as nat, |j: int| 0u8),
        decreases n - i,
    {
        out.push(0u8);
        i = i + 1;
        assert(out@ =~= old(out)@ + Seq::new(i as nat, |j: int| 0u8));
    }
}

/// `s` without its trailing zero bytes.
pub open spec fn trim_trailing_zeros(s: Seq<u8>) -> Seq<u8>
    decreases s.len(),
{
    if s.len() > 0 && s.last() == 0 {
        trim_trailing_zeros(s.drop_last())
    } else {
        s
    }
}

/// Zero bytes appended to `s` are trimmed away again.
pub proof fn lemma_trim_zero_padding(s: Seq<u8>, n: nat)
    ensures
        trim_trailing_zeros(s + Seq::new(n, |i: int| 0u8)) == trim_trailing_zeros(s),
    decreases n,
{
    if n > 0 {
        let t = s + Seq::new(n, |i: int| 0u8);
        assert(t.drop_last() =~= s + Seq::new((n - 1) as nat, |i: int| 0u8));
        lemma_trim_zero_padding(s, (n - 1) as nat);
    } else {
        assert(s + Seq::new(n, |i: int| 0u8) =~= s);
    }
}

/// The length of `s` once its trailing zero bytes are dropped.
pub fn trimmed_len(s: &[u8]) -> (r: usize)
    ensures
        r <= s@.len(),
        s@.subrange(0, r as int) == trim_trailing_zeros(s@),
{
    let mut end: usize = s.len();
    assert(s@.subrange(0, s@.len() as int) =~= s@);
    while end > 0 && s[end - 1] == 0
        invariant
            end <= s@.len(),
            trim_trailing_zeros(s@.subrange(0, end as int)) == trim_trailing_zeros(s@),
        decreases end,
    {
        assert(s@.subrange(0, end as int).drop_last() =~= s@.subrange(0, end - 1));
        end = end - 1;
    }
    assert(trim_trailing_zeros(s@.subrange(0, end as int)) == s@.subrange(0, end as int));
    end
}

} // verus!
