use vstd::prelude::*;

verus! {

/// `256` to the power `n`.
pub open spec fn pow256(n: nat) -> nat
    decreases n,
{
    if n == 0 {
        1
    } else {
        256 * pow256((n - 1) as nat)
    }
}

/// The unsigned big-endian integer held by the `n` bytes of `s` that start at `off`.
pub open spec fn be_value(s: Seq<u8>, off: int, n: nat) -> nat
    decreases n,
{
    if n == 0 {
        0
    } else {
        be_value(s, off, (n - 1) as nat) * 256 + s[off + n - 1] as nat
    }
}

/// The `n` bytes that hold `v` in big-endian order (the low bytes of `v` when it
/// does not fit).
pub open spec fn be_bytes(v: nat, n: nat) -> Seq<u8>
    decreases n,
{
    if n == 0 {
        Seq::empty()
    } else {
        be_bytes(v / 256, (n - 1) as nat).push((v % 256) as u8)
    }
}

pub proof fn lemma_pow256_values()
    ensures
        pow256(2) == 0x1_0000,
        pow256(4) == 0x1_0000_0000,
        pow256(8) == 0x1_0000_0000_0000_0000,
{
    reveal_with_fuel(pow256, 9);
}

pub proof fn lemma_pow256_monotonic(a: nat, b: nat)
    requires
        a <= b,
    ensures
        pow256(a) <= pow256(b),
    decreases b,
{
    if a < b {
        lemma_pow256_monotonic(a, (b - 1) as nat);
    }
}

pub proof fn lemma_be_value_bound(s: Seq<u8>, off: int, n: nat)
    ensures
        be_value(s, off, n) < pow256(n),
    decreases n,
{
    if n > 0 {
        let m = (n - 1) as nat;
        lemma_be_value_bound(s, off, m);
        let p = be_value(s, off, m);
        let b = s[off + n - 1] as nat;
        let q = pow256(m);
        assert(p * 256 + b < 256 * q) by (nonlinear_arith)
            requires
                p < q,
                b < 256,
        ;
    }
}

/// A bound on a field of at most four bytes, so that it fits in a `u32`.
pub proof fn lemma_be_value_u32(s: Seq<u8>, off: int, n: nat)
    requires
        n <= 4,
    ensures
        be_value(s, off, n) < 0x1_0000_0000,
{
    lemma_be_value_bound(s, off, n);
    lemma_pow256_monotonic(n, 4);
    lemma_pow256_values();
}

/// A bound on a field of at most eight bytes, so that it fits in a `u64`.
pub proof fn lemma_be_value_u64(s: Seq<u8>, off: int, n: nat)
    requires
        n <= 8,
    ensures
        be_value(s, off, n) < 0x1_0000_0000_0000_0000,
{
    lemma_be_value_bound(s, off, n);
    lemma_pow256_monotonic(n, 8);
    lemma_pow256_values();
}

/// The value of a field only depends on the bytes that it covers.
pub proof fn lemma_be_value_concat(s: Seq<u8>, t: Seq<u8>, off: int, n: nat)
    requires
        0 <= off,
    ensures
        off + n <= s.len() ==> be_value(s + t, off, n) == be_value(s, off, n),
        off >= s.len() && off + n <= s.len() + t.len() ==> be_value(s + t, off, n) == be_value(
            t,
            off - s.len(),
            n,
        ),
    decreases n,
{
    if n > 0 {
        lemma_be_value_concat(s, t, off, (n - 1) as nat);
    }
}

pub proof fn lemma_be_bytes_len(v: nat, n: nat)
    ensures
        be_bytes(v, n).len() == n,
    decreases n,
{
    if n > 0 {
        lemma_be_bytes_len(v / 256, (n - 1) as nat);
    }
}

/// Reading back the bytes written for a value that fits gives the value.
pub proof fn lemma_be_bytes_value(v: nat, n: nat)
    requires
        v < pow256(n),
    ensures
        be_value(be_bytes(v, n), 0, n) == v,
    decreases n,
{
    if n > 0 {
        let m = (n - 1) as nat;
        let q = pow256(m);
        assert(v / 256 < q) by (nonlinear_arith)
            requires
                v < 256 * q,
        ;
        lemma_be_bytes_value(v / 256, m);
        lemma_be_bytes_len(v / 256, m);
        let head = be_bytes(v / 256, m);
        let last = seq![(v % 256) as u8];
        assert(be_bytes(v, n) =~= head + last);
        lemma_be_value_concat(head, last, 0, m);
    }
}

/// How fields read out of concatenated bytes and out of written values.
pub proof fn lemma_be_facts()
    ensures
        forall|s: Seq<u8>, t: Seq<u8>, off: int, n: nat|
            0 <= off ==> {
                &&& off + n <= s.len() ==> #[trigger] be_value(s + t, off, n) == be_value(s, off, n)
                &&& off >= s.len() && off + n <= s.len() + t.len() ==> be_value(s + t, off, n)
                    == be_value(t, off - s.len(), n)
            },
        forall|v: nat, n: nat| #[trigger] be_bytes(v, n).len() == n,
        forall|v: nat, n: nat| v < pow256(n) ==> be_value(#[trigger] be_bytes(v, n), 0, n) == v,
{
    assert forall|s: Seq<u8>, t: Seq<u8>, off: int, n: nat| 0 <= off implies {
        &&& off + n <= s.len() ==> #[trigger] be_value(s + t, off, n) == be_value(s, off, n)
        &&& off >= s.len() && off + n <= s.len() + t.len() ==> be_value(s + t, off, n) == be_value(
            t,
            off - s.len(),
            n,
        )
    } by {
        lemma_be_value_concat(s, t, off, n);
    }
    assert forall|v: nat, n: nat| #[trigger] be_bytes(v, n).len() == n by {
        lemma_be_bytes_len(v, n);
    }
    assert forall|v: nat, n: nat| v < pow256(n) implies be_value(#[trigger] be_bytes(v, n), 0, n)
        == v by {
        lemma_be_bytes_value(v, n);
    }
}

/// Decodes the unsigned big-endian integer held by `bytes[off..off + n]`.
pub fn read_be(bytes: &[u8], off: usize, n: usize) -> (r: u64)
    requires
        n <= 8,
        off + n <= bytes@.len(),
    ensures
        r == be_value(bytes@, off as int, n as nat),
{
    let len = bytes.len();
    let mut acc: u64 = 0;
    let mut i: usize = 0;
    while i < n
        invariant
            i <= n <= 8,
            off + n <= bytes@.len(),
            len == bytes@.len(),
            acc == be_value(bytes@, off as int, i as nat),
        decreases n - i,
    {
        proof {
            lemma_be_value_u64(bytes@, off as int, (i + 1) as nat);
        }
        acc = acc * 256 + bytes[off + i] as u64;
        i = i + 1;
    }
    acc
}

} // verus!

verus! {

/// Relies on `String::from_utf8`: it accepts exactly the well-formed UTF-8
/// byte strings, and then holds the characters that they encode.
#[verifier::external_body]
pub(crate) fn utf8_string(b: Vec<u8>) -> (r: Option<String>)
    ensures
        r is Some <==> vstd::utf8::valid_utf8(b@),
        r matches Some(s) ==> s@ == vstd::utf8::decode_utf8(b@),
{
    String::from_utf8(b).ok()
}

} // verus!

verus! {

/// Appends the `n` big-endian bytes of `x`.
pub fn put_be(out: &mut Vec<u8>, x: u64, n: usize)
    ensures
        final(out)@ == old(out)@ + be_bytes(x as nat, n as nat),
    decreases n,
{
    if n > 0 {
        put_be(out, x / 256, n - 1);
        out.push((x % 256) as u8);
        assert(out@ =~= old(out)@ + be_bytes(x as nat, n as nat));
    } else {
        assert(out@ =~= old(out)@ + be_bytes(x as nat, n as nat));
    }
}

/// Appends the bytes of `data`.
pub fn put_bytes(out: &mut Vec<u8>, data: &[u8])
    ensures
        final(out)@ == old(out)@ + data@,
{
    let ghost start = out@;
    let mut i: usize = 0;
    while i < data.len()
        invariant
            i <= data@.len(),
            out@ == start + data@.subrange(0, i as int),
        decreases data@.len() - i,
    {
        out.push(data[i]);
        i = i + 1;
        assert(out@ =~= start + data@.subrange(0, i as int));
    }
    assert(data@.subrange(0, data@.len() as int) =~= data@);
}

} // verus!
