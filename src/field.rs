use vstd::prelude::*;

verus! {

/// Bytes in the big-endian encoding of one scalar-field element.
pub const BYTES_PER_FIELD_ELEMENT: usize = 32;

/// The big-endian value of a byte string.
pub open spec fn be_value(s: Seq<u8>) -> nat
    decreases s.len(),
{
    if s.len() == 0 {
        0
    } else {
        s[0] as nat * pow256((s.len() - 1) as nat) + be_value(s.drop_first())
    }
}

/// 256 to the power `n`.
pub open spec fn pow256(n: nat) -> nat
    decreases n,
{
    if n == 0 {
        1
    } else {
        256 * pow256((n - 1) as nat)
    }
}

/// The big-endian bytes of the BLS12-381 scalar-field modulus
/// `0x73eda753299d7d483339d80809a1d80553bda402fffe5bfeffffffff00000001`.
pub open spec fn modulus_bytes() -> Seq<u8> {
    seq![
        0x73u8, 0xed, 0xa7, 0x53, 0x29, 0x9d, 0x7d, 0x48,
        0x33, 0x39, 0xd8, 0x08, 0x09, 0xa1, 0xd8, 0x05,
        0x53, 0xbd, 0xa4, 0x02, 0xff, 0xfe, 0x5b, 0xfe,
        0xff, 0xff, 0xff, 0xff, 0x00, 0x00, 0x00, 0x01,
    ]
}

/// A 32-byte big-endian encoding of a value below the modulus.
pub open spec fn is_canonical(fe: Seq<u8>) -> bool {
    fe.len() == BYTES_PER_FIELD_ELEMENT && be_value(fe) < be_value(modulus_bytes())
}

/// Byte-wise comparison from the most significant byte down.
pub open spec fn be_less(a: Seq<u8>, b: Seq<u8>) -> bool
    decreases a.len(),
{
    if a.len() == 0 || b.len() == 0 {
        false
    } else if a[0] != b[0] {
        a[0] < b[0]
    } else {
        be_less(a.drop_first(), b.drop_first())
    }
}

proof fn lemma_be_value_bound(s: Seq<u8>)
    ensures
        be_value(s) < pow256(s.len()),
    decreases s.len(),
{
    if s.len() > 0 {
        let p = pow256((s.len() - 1) as nat);
        lemma_be_value_bound(s.drop_first());
        assert(s[0] as nat * p + p <= 256 * p) by (nonlinear_arith)
            requires
                s[0] < 256,
        ;
    }
}

/// For strings of one length, comparing bytes from the front orders them as
/// their big-endian values.
pub proof fn lemma_be_less(a: Seq<u8>, b: Seq<u8>)
    requires
        a.len() == b.len(),
    ensures
        be_less(a, b) <==> be_value(a) < be_value(b),
    decreases a.len(),
{
    if a.len() > 0 {
        let p = pow256((a.len() - 1) as nat);
        let ra = be_value(a.drop_first());
        let rb = be_value(b.drop_first());
        lemma_be_less(a.drop_first(), b.drop_first());
        lemma_be_value_bound(a.drop_first());
        lemma_be_value_bound(b.drop_first());
        let x = a[0] as nat;
        let y = b[0] as nat;
        if x < y {
            assert(x * p + ra < y * p + rb) by (nonlinear_arith)
                requires
                    x < y,
                    ra < p,
            ;
        } else if x > y {
            assert(y * p + rb < x * p + ra) by (nonlinear_arith)
                requires
                    y < x,
                    rb < p,
            ;
        }
    }
}

/// Whether the 32 bytes at `off` in `bytes` are a canonical field element.
pub fn is_canonical_at(bytes: &[u8], off: usize) -> (r: bool)
    requires
        off + BYTES_PER_FIELD_ELEMENT <= bytes.len(),
    ensures
        r == is_canonical(bytes@.subrange(off as int, off + BYTES_PER_FIELD_ELEMENT)),
{
    let m: [u8; 32] = [
        0x73, 0xed, 0xa7, 0x53, 0x29, 0x9d, 0x7d, 0x48,
        0x33, 0x39, 0xd8, 0x08, 0x09, 0xa1, 0xd8, 0x05,
        0x53, 0xbd, 0xa4, 0x02, 0xff, 0xfe, 0x5b, 0xfe,
        0xff, 0xff, 0xff, 0xff, 0x00, 0x00, 0x00, 0x01,
    ];
    let ghost fe = bytes@.subrange(off as int, off + BYTES_PER_FIELD_ELEMENT);
    assert(m@ =~= modulus_bytes());
    proof {
        lemma_be_less(fe, modulus_bytes());
        assert(fe.subrange(0, 32) =~= fe);
        assert(modulus_bytes().subrange(0, 32) =~= modulus_bytes());
    }
    let mut i: usize = 0;
    while i < BYTES_PER_FIELD_ELEMENT
        invariant
            i <= BYTES_PER_FIELD_ELEMENT,
            off + BYTES_PER_FIELD_ELEMENT <= bytes.len(),
            be_less(fe, modulus_bytes()) <==> be_value(fe) < be_value(modulus_bytes()),
            fe == bytes@.subrange(off as int, off + BYTES_PER_FIELD_ELEMENT),
            m@ == modulus_bytes(),
            be_less(fe, modulus_bytes()) == be_less(
                fe.subrange(i as int, 32),
                modulus_bytes().subrange(i as int, 32),
            ),
        decreases BYTES_PER_FIELD_ELEMENT - i,
    {
        let ghost fs = fe.subrange(i as int, 32);
        let ghost ms = modulus_bytes().subrange(i as int, 32);
        assert(fs.drop_first() =~= fe.subrange(i + 1, 32));
        assert(ms.drop_first() =~= modulus_bytes().subrange(i + 1, 32));
        assert(fs[0] == bytes@[off + i]);
        let x = bytes[off + i];
        if x != m[i] {
            return x < m[i];
        }
        i = i + 1;
    }
    false
}

} // verus!
