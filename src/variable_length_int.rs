//! Base-128 varints: seven bits per byte, least significant group first, the
//! high bit of each byte set on every byte but the last.
use vstd::prelude::*;
use crate::error::Error;

verus! {

/// The longest varint that a `u64` needs.
pub const MAX_VAR_INT_LEN_64: usize = 10;

/// The value of the varint that starts at index `i` of `b` and runs to its
/// first byte without the high bit. `None` where `b` ends first, or where a
/// tenth byte would carry more than the last bit of a `u64`.
pub open spec fn varint_from(b: Seq<u8>, i: int) -> Option<int>
    decreases b.len() - i,
{
    if i < 0 || i >= b.len() {
        None
    } else if b[i] < 0x80 {
        if i == 9 && b[i] > 1 {
            None
        } else {
            Some(b[i] as int)
        }
    } else {
        match varint_from(b, i + 1) {
            Some(v) => Some((b[i] - 0x80) + 0x80 * v),
            None => None,
        }
    }
}

/// The value of the varint at the front of `b`; `None` for a malformed one
/// and for a slice longer than any varint of a `u64`.
pub open spec fn varint_value(b: Seq<u8>) -> Option<int> {
    if b.len() > 10 {
        None
    } else {
        varint_from(b, 0)
    }
}

/// The varint that encodes `v`.
pub open spec fn varint_encode(v: nat) -> Seq<u8>
    decreases v,
{
    if v < 0x80 {
        seq![v as u8]
    } else {
        seq![(v % 0x80 + 0x80) as u8] + varint_encode(v / 0x80)
    }
}

/// `128` to the power `n`.
pub open spec fn pow128(n: nat) -> nat
    decreases n,
{
    if n == 0 {
        1
    } else {
        128 * pow128((n - 1) as nat)
    }
}

proof fn lemma_pow128_mono(a: nat, b: nat)
    requires
        a <= b,
    ensures
        1 <= pow128(a) <= pow128(b),
    decreases b,
{
    if b > 0 {
        if a == b {
            lemma_pow128_mono((b - 1) as nat, (b - 1) as nat);
        } else {
            lemma_pow128_mono(a, (b - 1) as nat);
        }
    }
}

proof fn lemma_pow128_values()
    ensures
        pow128(8) == 0x100_0000_0000_0000,
        pow128(9) == 0x8000_0000_0000_0000,
{
    reveal_with_fuel(pow128, 10);
}

/// Decoding from `i` on gives back `v` where the rest of `b` is exactly the
/// encoding of `v`, as long as `v` still fits at that position.
proof fn lemma_decode_encoded(b: Seq<u8>, i: int, v: nat)
    requires
        0 <= i <= 9,
        b.len() == i + varint_encode(v).len(),
        b.subrange(i, b.len() as int) == varint_encode(v),
        v * pow128(i as nat) < 0x1_0000_0000_0000_0000,
    ensures
        varint_from(b, i) == Some(v as int),
    decreases v,
{
    lemma_pow128_values();
    assert(b[i] == b.subrange(i, b.len() as int)[0]);
    if v < 0x80 {
        if i == 9 {
            assert(v <= 1) by (nonlinear_arith)
                requires
                    v * 0x8000_0000_0000_0000 < 0x1_0000_0000_0000_0000,
            ;
        }
    } else {
        if i == 9 {
            assert(false) by (nonlinear_arith)
                requires
                    v >= 0x80,
                    v * 0x8000_0000_0000_0000 < 0x1_0000_0000_0000_0000,
            ;
        }
        let w = v / 0x80;
        assert(b.subrange(i + 1, b.len() as int) == varint_encode(w)) by {
            assert(b.subrange(i + 1, b.len() as int) =~= b.subrange(i, b.len() as int).subrange(
                1,
                b.len() - i,
            ));
            assert(varint_encode(v) == seq![(v % 0x80 + 0x80) as u8] + varint_encode(w));
            assert(varint_encode(v).subrange(1, varint_encode(v).len() as int) =~= varint_encode(
                w,
            ));
        }
        assert(pow128((i + 1) as nat) == 128 * pow128(i as nat));
        assert(w * pow128((i + 1) as nat) <= v * pow128(i as nat)) by (nonlinear_arith)
            requires
                w == v / 0x80,
                pow128((i + 1) as nat) == 128 * pow128(i as nat),
        ;
        lemma_decode_encoded(b, i + 1, w);
    }
}

/// Decoding the encoding of any value below `2^63` gives the value back.
pub proof fn varint_round_trip(v: u64)
    requires
        v < 0x8000_0000_0000_0000,
    ensures
        varint_value(varint_encode(v as nat)) == Some(v as int),
{
    let b = varint_encode(v as nat);
    lemma_pow128_values();
    assert(pow128(0) == 1);
    assert(v as nat * pow128(0) == v);
    assert(b.subrange(0, b.len() as int) =~= b);
    lemma_decode_encoded(b, 0, v as nat);
    lemma_encode_len(v as nat, 9);
}

proof fn lemma_encode_len(v: nat, n: nat)
    requires
        n >= 1,
        v < pow128(n),
    ensures
        varint_encode(v).len() <= n,
    decreases n,
{
    lemma_pow128_values();
    if v >= 0x80 {
        assert(v / 0x80 < pow128((n - 1) as nat)) by (nonlinear_arith)
            requires
                v < pow128(n),
                pow128(n) == 128 * pow128((n - 1) as nat),
                v >= 0x80,
        ;
        if n == 1 {
            assert(pow128(1) == 128) by {
                reveal_with_fuel(pow128, 2);
            }
        } else {
            lemma_encode_len(v / 0x80, (n - 1) as nat);
        }
    }
}

/// The same value with every decoded group shifted up by `pow` and `low`
/// added below it.
pub open spec fn lifted(o: Option<int>, low: int, pow: int) -> Option<int> {
    match o {
        Some(v) => Some(low + pow * v),
        None => None,
    }
}

/// Decodes the varint at the front of `bytes`.
pub fn uvarint64(bytes: &[u8]) -> (r: Result<u64, Error>)
    ensures
        r is Ok <==> varint_value(bytes@) is Some,
        r matches Ok(x) ==> varint_value(bytes@) == Some(x as int),
        r matches Err(e) ==> e == Error::MalformedVarint,
{
    if bytes.len() > MAX_VAR_INT_LEN_64 {
        return Err(Error::MalformedVarint);
    }
    proof {
        lemma_pow128_values();
    }
    let mut x: u64 = 0;
    let mut pow: u64 = 1;
    let mut i: usize = 0;
    while i < bytes.len()
        invariant
            bytes@.len() <= 10,
            i <= bytes@.len(),
            i <= 9,
            pow == pow128(i as nat),
            x < pow,
            varint_from(bytes@, 0) == lifted(varint_from(bytes@, i as int), x as int, pow as int),
        decreases bytes@.len() - i,
    {
        let byte = bytes[i];
        proof {
            lemma_pow128_values();
            lemma_pow128_mono(i as nat, 9);
        }
        if byte < 0x80 {
            if i == MAX_VAR_INT_LEN_64 - 1 && byte > 1 {
                return Err(Error::MalformedVarint);
            }
            proof {
                if i <= 8 {
                    lemma_pow128_mono(i as nat, 8);
                    assert(byte * pow <= 127 * pow) by (nonlinear_arith)
                        requires
                            byte < 0x80,
                    ;
                } else {
                    assert(byte * pow <= pow) by (nonlinear_arith)
                        requires
                            byte <= 1,
                    ;
                }
                assert(pow * byte == byte * pow) by (nonlinear_arith);
            }
            return Ok(x + (byte as u64) * pow);
        }
        if i == MAX_VAR_INT_LEN_64 - 1 {
            return Err(Error::MalformedVarint);
        }
        proof {
            lemma_pow128_mono(i as nat, 8);
            let c = byte - 0x80;
            assert(x + c * pow < 128 * pow) by (nonlinear_arith)
                requires
                    x < pow,
                    0 <= c < 0x80,
            ;
            assert forall|o: Option<int>|
                #![trigger lifted(o, x + c * pow, 128 * pow)]
                lifted(lifted(o, c, 128), x as int, pow as int) == lifted(o, x + c * pow, 128 * pow) by {
                if let Some(v) = o {
                    assert(x + pow * (c + 128 * v) == x + c * pow + 128 * pow * v) by (nonlinear_arith);
                }
            }
        }
        x = x + ((byte - 0x80) as u64) * pow;
        pow = pow * 128;
        i = i + 1;
    }
    Err(Error::MalformedVarint)
}

} // verus!
