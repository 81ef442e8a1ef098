//! Destination-chain payload helpers for the RLP-encoded network: minimal
//! big-endian length bytes and the RLP string-encoding rule.

use vstd::prelude::*;

verus! {

/// The minimal big-endian byte rendering of `v` (empty for zero).
pub open spec fn min_be_bytes(v: nat) -> Seq<u8>
    decreases v,
{
    if v == 0 {
        Seq::<u8>::empty()
    } else {
        min_be_bytes(v / 256).push((v % 256) as u8)
    }
}

/// What `to_min_bytes` returns: the minimal big-endian bytes, with a single
/// zero byte for zero.
pub open spec fn min_bytes_spec(v: nat) -> Seq<u8> {
    if v == 0 {
        seq![0u8]
    } else {
        min_be_bytes(v)
    }
}

/// `256^k`.
pub open spec fn pow256(k: nat) -> nat
    decreases k,
{
    if k == 0 {
        1
    } else {
        256 * pow256((k - 1) as nat)
    }
}

proof fn lemma_min_be_bytes_len(v: nat, k: nat)
    requires
        v < pow256(k),
    ensures
        min_be_bytes(v).len() <= k,
    decreases k,
{
    if v > 0 {
        assert(k > 0);
        assert(v / 256 < pow256((k - 1) as nat)) by {
            assert(pow256(k) == 256 * pow256((k - 1) as nat));
        }
        lemma_min_be_bytes_len(v / 256, (k - 1) as nat);
    }
}

/// The minimal big-endian bytes of a machine word fit in eight bytes.
pub proof fn lemma_min_bytes_short(v: nat)
    requires
        v < 0x1_0000_0000_0000_0000,
    ensures
        1 <= min_bytes_spec(v).len() <= 8,
{
    assert(pow256(0) == 1);
    assert(pow256(1) == 0x100);
    assert(pow256(2) == 0x1_0000);
    assert(pow256(3) == 0x100_0000);
    assert(pow256(4) == 0x1_0000_0000);
    assert(pow256(5) == 0x100_0000_0000);
    assert(pow256(6) == 0x1_0000_0000_0000);
    assert(pow256(7) == 0x100_0000_0000_0000);
    assert(pow256(8) == 0x1_0000_0000_0000_0000);
    lemma_min_be_bytes_len(v, 8);
    if v > 0 {
        assert(min_be_bytes(v).len() >= 1);
    }
}

/// The RLP encoding of a byte string: a single byte below `0x80` stands
/// for itself; up to 55 bytes get a one-byte length prefix; longer strings
/// get a length-of-length prefix followed by the minimal big-endian length.
pub open spec fn rlp_encode_spec(s: Seq<u8>) -> Seq<u8> {
    if s.len() == 1 && s[0] < 0x80 {
        s
    } else if s.len() <= 55 {
        seq![(0x80 + s.len()) as u8] + s
    } else {
        seq![(0xb7 + min_bytes_spec(s.len()).len()) as u8] + min_bytes_spec(s.len()) + s
    }
}

/// The minimal big-endian byte rendering of `val`, with a single zero byte
/// for zero.
pub fn to_min_bytes(val: usize) -> (r: Vec<u8>)
    ensures
        r@ == min_bytes_spec(val as nat),
{
    let mut bytes: Vec<u8> = Vec::new();
    let mut v: usize = val;
    while v > 0
        invariant
            min_be_bytes(val as nat) == min_be_bytes(v as nat) + bytes@,
        decreases v,
    {
        bytes.insert(0, (v % 256) as u8);
        proof {
            assert(min_be_bytes(v as nat)
                =~= min_be_bytes((v / 256) as nat).push((v % 256) as u8));
            assert(min_be_bytes((v / 256) as nat).push((v % 256) as u8)
                + bytes@.drop_first() =~= min_be_bytes((v / 256) as nat) + bytes@);
        }
        v = v / 256;
    }
    proof {
        assert(min_be_bytes(0) =~= Seq::<u8>::empty());
        assert(min_be_bytes(val as nat) =~= bytes@);
    }
    if bytes.len() == 0 {
        bytes.push(0);
        proof {
            assert(bytes@ =~= seq![0u8]);
            assert(min_be_bytes(val as nat).len() == 0 ==> val == 0) by {
                if val > 0 {
                    assert(min_be_bytes(val as nat).len() >= 1);
                }
            }
        }
    }
    bytes
}

/// RLP-encodes a byte string.
pub fn rlp_encode(input: &[u8]) -> (r: Vec<u8>)
    ensures
        r@ == rlp_encode_spec(input@),
{
    let n = input.len();
    if n == 1 && input[0] < 0x80 {
        let mut result: Vec<u8> = Vec::new();
        result.push(input[0]);
        proof {
            assert(result@ =~= input@);
        }
        result
    } else if n <= 55 {
        let mut result: Vec<u8> = Vec::new();
        result.push(0x80 + n as u8);
        result.extend_from_slice(input);
        proof {
            assert(result@ =~= seq![(0x80 + input@.len()) as u8] + input@);
        }
        result
    } else {
        let len_bytes = to_min_bytes(n);
        proof {
            lemma_min_bytes_short(n as nat);
        }
        let mut result: Vec<u8> = Vec::new();
        result.push(0xb7 + len_bytes.len() as u8);
        result.extend_from_slice(len_bytes.as_slice());
        result.extend_from_slice(input);
        proof {
            assert(result@ =~= seq![(0xb7 + min_bytes_spec(input@.len()).len()) as u8]
                + min_bytes_spec(input@.len()) + input@);
        }
        result
    }
}

/// A 256-bit quantity as raw big-endian bytes.
#[derive(Clone, Copy, Debug)]
pub struct U256(pub [u8; 32]);

/// A legacy transaction for the RLP-encoded destination network.
#[derive(Clone, Debug)]
pub struct EthTransaction {
    pub nonce: U256,
    pub gas_price: U256,
    pub gas_limit: U256,
    pub to: Option<String>,
    pub value: U256,
    pub data: Vec<u8>,
    pub v: u64,
    pub r: U256,
    pub s: U256,
}

/// Encoding of the full transaction structure is not implemented: the
/// settlement channel builds its own payload, so this returns an empty
/// byte string.
pub fn encode_transaction(tx: &EthTransaction) -> (r: Vec<u8>)
    ensures
        r@ == Seq::<u8>::empty(),
{
    let r: Vec<u8> = Vec::new();
    proof {
        assert(r@ =~= Seq::<u8>::empty());
    }
    r
}

} // verus!
