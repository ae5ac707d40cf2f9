//! Big-endian integer encoding and byte-range copies.
use vstd::prelude::*;

verus! {

/// The unsigned integer that a byte sequence spells in big-endian order.
pub open spec fn be_value(s: Seq<u8>) -> nat
    decreases s.len(),
{
    if s.len() == 0 {
        0
    } else {
        be_value(s.drop_last()) * 256 + s.last() as nat
    }
}

/// Errors of [`u64_from_bytes`].
#[derive(Debug, Clone, Copy, PartialEq, Eq, Structural)]
pub enum BytesError {
    /// The buffer does not hold exactly eight bytes.
    WrongLength,
}

/// `256` to the power `n`.
pub open spec fn pow256(n: nat) -> nat
    decreases n,
{
    if n == 0 { 1 } else { 256 * pow256((n - 1) as nat) }
}

proof fn lemma_be_value_bound(s: Seq<u8>)
    ensures
        be_value(s) < pow256(s.len()),
    decreases s.len(),
{
    if s.len() > 0 {
        let p = s.drop_last();
        lemma_be_value_bound(p);
        let a = be_value(p);
        let b = pow256(p.len());
        let c = s.last() as nat;
        assert(a * 256 + c < b * 256) by (nonlinear_arith)
            requires a < b, c < 256;
    }
}

proof fn lemma_be_value_prepend(c: u8, t: Seq<u8>)
    ensures
        be_value(seq![c] + t) == c as nat * pow256(t.len()) + be_value(t),
    decreases t.len(),
{
    let s = seq![c] + t;
    if t.len() == 0 {
        assert(s.drop_last() =~= Seq::<u8>::empty());
        assert(be_value(Seq::<u8>::empty()) == 0);
        assert(pow256(0) == 1);
        assert(s.last() == c);
    } else {
        assert(s.drop_last() =~= seq![c] + t.drop_last());
        assert(s.last() == t.last());
        lemma_be_value_prepend(c, t.drop_last());
        let p = pow256((t.len() - 1) as nat);
        assert(pow256(t.len()) == 256 * p);
        assert(be_value(s) == be_value(seq![c] + t.drop_last()) * 256 + t.last() as nat);
        assert(be_value(t) == be_value(t.drop_last()) * 256 + t.last() as nat);
        assert((c as nat * p + be_value(t.drop_last())) * 256 + t.last() as nat
            == c as nat * (256 * p) + (be_value(t.drop_last()) * 256 + t.last() as nat)) by (nonlinear_arith);
    }
}

proof fn lemma_pow256_8()
    ensures
        pow256(8) == u64::MAX as nat + 1,
{
    reveal_with_fuel(pow256, 9);
}

/// Reads a big-endian `u64` from a buffer that must hold exactly eight bytes.
pub fn u64_from_bytes(arr: &[u8]) -> (r: Result<u64, BytesError>)
    ensures
        arr@.len() == 8 <==> r.is_ok(),
        r matches Ok(v) ==> v as nat == be_value(arr@),
        r matches Err(e) ==> e == BytesError::WrongLength,
{
    if arr.len() != 8 {
        return Err(BytesError::WrongLength);
    }
    let mut acc: u64 = 0;
    let mut i: usize = 0;
    while i < 8
        invariant
            i <= 8,
            arr@.len() == 8,
            acc as nat == be_value(arr@.subrange(0, i as int)),
        decreases 8 - i,
    {
        proof {
            let next = arr@.subrange(0, i as int + 1);
            assert(next.drop_last() =~= arr@.subrange(0, i as int));
            lemma_be_value_bound(next);
            reveal_with_fuel(pow256, 9);
            assert(pow256(next.len()) <= pow256(8));
            lemma_pow256_8();
        }
        acc = acc * 256 + arr[i] as u64;
        i = i + 1;
    }
    assert(arr@.subrange(0, 8) =~= arr@);
    Ok(acc)
}

/// Writes `v` as eight big-endian bytes.
pub fn u64_to_bytes(v: u64) -> (r: Vec<u8>)
    ensures
        r@.len() == 8,
        be_value(r@) == v as nat,
{
    let mut out: Vec<u8> = Vec::new();
    let mut x: u64 = v;
    let mut j: usize = 0;
    proof {
        lemma_pow256_8();
        reveal_with_fuel(pow256, 9);
        assert(out@ =~= Seq::<u8>::empty());
        assert(be_value(out@) == 0);
        assert(pow256(0) == 1);
        assert(x as nat * pow256(0) == x as nat);
    }
    while j < 8
        invariant
            j <= 8,
            out@.len() == j,
            v as nat == x as nat * pow256(j as nat) + be_value(out@),
            (x as nat) < pow256((8 - j) as nat),
        decreases 8 - j,
    {
        let c: u8 = (x % 256) as u8;
        let ghost t = out@;
        let ghost x0 = x as nat;
        out.insert(0, c);
        x = x / 256;
        proof {
            assert(out@ =~= seq![c] + t);
            lemma_be_value_prepend(c, t);
            let p = pow256(j as nat);
            assert(pow256((j + 1) as nat) == 256 * p);
            assert(x0 == x as nat * 256 + c as nat);
            assert(x0 * p == x as nat * (256 * p) + c as nat * p) by (nonlinear_arith)
                requires x0 == x as nat * 256 + c as nat;
            let q = pow256((8 - j - 1) as nat);
            assert(pow256((8 - j) as nat) == 256 * q);
            assert((x as nat) < q) by (nonlinear_arith)
                requires x0 == x as nat * 256 + c as nat, x0 < 256 * q;
        }
        j = j + 1;
    }
    assert(pow256(0) == 1);
    out
}

/// Copies `b[lo..hi]` into a new vector.
pub fn copy_range(b: &[u8], lo: usize, hi: usize) -> (r: Vec<u8>)
    requires
        lo <= hi <= b@.len(),
    ensures
        r@ == b@.subrange(lo as int, hi as int),
{
    let mut r: Vec<u8> = Vec::new();
    let mut i: usize = lo;
    while i < hi
        invariant
            lo <= i <= hi <= b@.len(),
            r@ == b@.subrange(lo as int, i as int),
        decreases hi - i,
    {
        r.push(b[i]);
        i = i + 1;
        assert(r@ =~= b@.subrange(lo as int, i as int));
    }
    r
}

/// Appends all of `src` to `dst`.
pub fn append_bytes(dst: &mut Vec<u8>, src: &[u8])
    ensures
        final(dst)@ == old(dst)@ + src@,
{
    let mut i: usize = 0;
    while i < src.len()
        invariant
            i <= src@.len(),
            dst@ == old(dst)@ + src@.subrange(0, i as int),
        decreases src@.len() - i,
    {
        dst.push(src[i]);
        i = i + 1;
        assert(dst@ =~= old(dst)@ + src@.subrange(0, i as int));
    }
    assert(src@.subrange(0, src@.len() as int) =~= src@);
}

} // verus!
