//! Raw transaction layout for the UTXO destination network: a simplified
//! serializer (single-byte counts) used when composing settlement payloads.

use vstd::prelude::*;
use vstd::string::StringSliceAdditionalSpecFns;
use vstd::bytes::{spec_u32_to_le_bytes, spec_u64_to_le_bytes, u32_to_le_bytes,
    u64_to_le_bytes};

verus! {

/// An unspent output reference.
#[derive(Clone, Debug)]
pub struct Utxo {
    pub txid: String,
    pub vout: u32,
    pub value: u64,
}

/// A transaction for the UTXO destination network.
#[derive(Clone, Debug)]
pub struct BitcoinTransaction {
    pub version: i32,
    pub inputs: Vec<BitcoinInput>,
    pub outputs: Vec<BitcoinOutput>,
    pub locktime: u32,
}

/// One transaction input.
#[derive(Clone, Debug)]
pub struct BitcoinInput {
    pub txid: String,
    pub vout: u32,
    pub script_sig: Vec<u8>,
    pub sequence: u32,
}

/// One transaction output.
#[derive(Clone, Debug)]
pub struct BitcoinOutput {
    pub value: u64,
    pub script_pubkey: Vec<u8>,
}

/// `b` is the code of an ASCII hexadecimal digit.
pub open spec fn is_hex_digit(b: u8) -> bool {
    (0x30 <= b && b <= 0x39) || (0x41 <= b && b <= 0x46) || (0x61 <= b && b <= 0x66)
}

/// The value of an ASCII hexadecimal digit code.
pub open spec fn hex_val(b: u8) -> u8 {
    if 0x30 <= b && b <= 0x39 {
        (b - 0x30) as u8
    } else if 0x41 <= b && b <= 0x46 {
        (b - 0x41 + 10) as u8
    } else {
        (b - 0x61 + 10) as u8
    }
}

/// `bs` is a well-formed hexadecimal byte string: even length, hexadecimal
/// digits only.
pub open spec fn hex_valid(bs: Seq<u8>) -> bool {
    bs.len() % 2 == 0 && forall|i: int| 0 <= i < bs.len() ==> is_hex_digit(#[trigger] bs[i])
}

/// The bytes a well-formed hexadecimal byte string denotes, two digits per
/// byte, high digit first.
pub open spec fn hex_decoded(bs: Seq<u8>) -> Seq<u8>
    decreases bs.len(),
{
    if bs.len() < 2 {
        Seq::<u8>::empty()
    } else {
        seq![(hex_val(bs[0]) * 16 + hex_val(bs[1])) as u8]
            + hex_decoded(bs.subrange(2, bs.len() as int))
    }
}

/// Decodes a hexadecimal string into raw bytes.
///
/// Relies on `hex::decode`: it reads the string's UTF-8 bytes, rejects an
/// odd length or a non-digit byte, and otherwise turns each digit pair into
/// one byte, high digit first; upper and lower case are both accepted.
#[verifier::external_body]
fn decode_hex_str(s: &str) -> (r: Option<Vec<u8>>)
    ensures
        r is Some <==> hex_valid(s.spec_bytes()),
        r matches Some(v) ==> v@ == hex_decoded(s.spec_bytes()),
{
    match hex::decode(s) {
        Ok(v) => Some(v),
        Err(_) => None,
    }
}

/// `s` reversed.
pub open spec fn rev_bytes(s: Seq<u8>) -> Seq<u8> {
    Seq::new(s.len(), |i: int| s[s.len() - 1 - i])
}

/// Reverses a byte vector.
fn reverse_bytes(v: &Vec<u8>) -> (r: Vec<u8>)
    ensures
        r@ == rev_bytes(v@),
{
    let n = v.len();
    let mut out: Vec<u8> = Vec::new();
    let mut i: usize = n;
    while i > 0
        invariant
            0 <= i <= n,
            n == v@.len(),
            out@.len() == n - i,
            forall|k: int| 0 <= k < out@.len() ==> #[trigger] out@[k] == v@[n - 1 - k],
        decreases i,
    {
        i = i - 1;
        out.push(v[i]);
    }
    proof {
        assert(out@ =~= rev_bytes(v@));
    }
    out
}

/// The unsigned 32-bit pattern of `v` (two's complement).
pub open spec fn u32_of_i32(v: i32) -> u32 {
    if v >= 0 {
        v as u32
    } else {
        (v + 0x1_0000_0000) as u32
    }
}

/// The serialized form of one input: the transaction id decoded from hex
/// and byte-reversed (32 zero bytes when the id is not valid hex), the
/// output index, the script with a single-byte length, and the sequence.
pub open spec fn ser_input(i: BitcoinInput) -> Seq<u8> {
    let raw = if hex_valid(vstd::utf8::encode_utf8(i.txid@)) {
        hex_decoded(vstd::utf8::encode_utf8(i.txid@))
    } else {
        Seq::<u8>::new(32, |k: int| 0u8)
    };
    rev_bytes(raw) + spec_u32_to_le_bytes(i.vout)
        + seq![(i.script_sig@.len() % 256) as u8] + i.script_sig@
        + spec_u32_to_le_bytes(i.sequence)
}

/// The serialized form of all inputs, in order.
pub open spec fn ser_inputs(s: Seq<BitcoinInput>) -> Seq<u8>
    decreases s.len(),
{
    if s.len() == 0 {
        Seq::<u8>::empty()
    } else {
        ser_inputs(s.drop_last()) + ser_input(s.last())
    }
}

/// The serialized form of one output: the value and the script with a
/// single-byte length.
pub open spec fn ser_output(o: BitcoinOutput) -> Seq<u8> {
    spec_u64_to_le_bytes(o.value) + seq![(o.script_pubkey@.len() % 256) as u8]
        + o.script_pubkey@
}

/// The serialized form of all outputs, in order.
pub open spec fn ser_outputs(s: Seq<BitcoinOutput>) -> Seq<u8>
    decreases s.len(),
{
    if s.len() == 0 {
        Seq::<u8>::empty()
    } else {
        ser_outputs(s.drop_last()) + ser_output(s.last())
    }
}

/// The full serialized transaction: version, single-byte input count, the
/// inputs, single-byte output count, the outputs, and the locktime.
pub open spec fn ser_tx(tx: BitcoinTransaction) -> Seq<u8> {
    spec_u32_to_le_bytes(u32_of_i32(tx.version))
        + seq![(tx.inputs@.len() % 256) as u8] + ser_inputs(tx.inputs@)
        + seq![(tx.outputs@.len() % 256) as u8] + ser_outputs(tx.outputs@)
        + spec_u32_to_le_bytes(tx.locktime)
}

/// Serializes a transaction into its raw byte layout.
pub fn serialize_transaction(tx: &BitcoinTransaction) -> (r: Vec<u8>)
    ensures
        r@ == ser_tx(*tx),
{
    let mut data: Vec<u8> = Vec::new();
    let version_bits: u32 = if tx.version >= 0 {
        tx.version as u32
    } else {
        let wide: i64 = tx.version as i64;
        (wide + 0x1_0000_0000) as u32
    };
    proof {
        assert(version_bits == u32_of_i32(tx.version));
    }
    let mut version_bytes = u32_to_le_bytes(version_bits);
    data.append(&mut version_bytes);

    let ni = tx.inputs.len();
    data.push((ni % 256) as u8);
    proof {
        assert(data@ =~= spec_u32_to_le_bytes(u32_of_i32(tx.version))
            + seq![(tx.inputs@.len() % 256) as u8]);
    }
    let ghost header = data@;
    let mut i: usize = 0;
    while i < ni
        invariant
            0 <= i <= ni,
            ni == tx.inputs@.len(),
            data@ == header + ser_inputs(tx.inputs@.subrange(0, i as int)),
        decreases ni - i,
    {
        let input = &tx.inputs[i];
        let txid_raw = match decode_hex_str(input.txid.as_str()) {
            Some(v) => v,
            None => {
                let mut zeroes: Vec<u8> = Vec::new();
                let mut z: usize = 0;
                while z < 32
                    invariant
                        0 <= z <= 32,
                        zeroes@.len() == z,
                        forall|k: int| 0 <= k < z ==> #[trigger] zeroes@[k] == 0u8,
                    decreases 32 - z,
                {
                    zeroes.push(0);
                    z = z + 1;
                }
                proof {
                    assert(zeroes@ =~= Seq::<u8>::new(32, |k: int| 0u8));
                }
                zeroes
            },
        };
        let mut txid_le = reverse_bytes(&txid_raw);
        data.append(&mut txid_le);
        let mut vout_bytes = u32_to_le_bytes(input.vout);
        data.append(&mut vout_bytes);
        let ns = input.script_sig.len();
        data.push((ns % 256) as u8);
        data.extend_from_slice(input.script_sig.as_slice());
        let mut seq_bytes = u32_to_le_bytes(input.sequence);
        data.append(&mut seq_bytes);
        proof {
            let sub = tx.inputs@.subrange(0, i + 1);
            assert(sub.drop_last() =~= tx.inputs@.subrange(0, i as int));
            assert(sub.last() == tx.inputs@[i as int]);
            assert(data@ =~= header + ser_inputs(tx.inputs@.subrange(0, i + 1)));
        }
        i = i + 1;
    }
    proof {
        assert(tx.inputs@.subrange(0, ni as int) =~= tx.inputs@);
    }

    let no = tx.outputs.len();
    data.push((no % 256) as u8);
    let ghost header2 = data@;
    proof {
        assert(header2 =~= header + ser_inputs(tx.inputs@)
            + seq![(tx.outputs@.len() % 256) as u8]);
    }
    let mut o: usize = 0;
    while o < no
        invariant
            0 <= o <= no,
            no == tx.outputs@.len(),
            data@ == header2 + ser_outputs(tx.outputs@.subrange(0, o as int)),
        decreases no - o,
    {
        let output = &tx.outputs[o];
        let mut value_bytes = u64_to_le_bytes(output.value);
        data.append(&mut value_bytes);
        let ns = output.script_pubkey.len();
        data.push((ns % 256) as u8);
        data.extend_from_slice(output.script_pubkey.as_slice());
        proof {
            let sub = tx.outputs@.subrange(0, o + 1);
            assert(sub.drop_last() =~= tx.outputs@.subrange(0, o as int));
            assert(sub.last() == tx.outputs@[o as int]);
            assert(data@ =~= header2 + ser_outputs(tx.outputs@.subrange(0, o + 1)));
        }
        o = o + 1;
    }
    proof {
        assert(tx.outputs@.subrange(0, no as int) =~= tx.outputs@);
    }

    let mut locktime_bytes = u32_to_le_bytes(tx.locktime);
    data.append(&mut locktime_bytes);
    proof {
        assert(data@ =~= ser_tx(*tx));
    }
    data
}

} // verus!
