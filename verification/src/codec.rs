//! The boundary codecs: hex text to and from bytes, and the consensus
//! decoding of a mainchain transaction. The byte-level work is done by the
//! `hex` and `bitcoin` crates; each call stands behind a single trusted
//! function whose contract states what the call returns.

use vstd::prelude::*;

use crate::types::Txid;

verus! {

/// A hex digit: `0-9`, `a-f` or `A-F`, as `hex::decode` accepts them.
pub open spec fn is_hex_char(c: char) -> bool {
    ('0' <= c && c <= '9') || ('a' <= c && c <= 'f') || ('A' <= c && c <= 'F')
}

/// The value of one hex digit.
pub open spec fn hex_char_value(c: char) -> int {
    if '0' <= c && c <= '9' {
        c as int - '0' as int
    } else if 'a' <= c && c <= 'f' {
        c as int - 'a' as int + 10
    } else {
        c as int - 'A' as int + 10
    }
}

/// Text that `hex::decode` accepts: an even number of hex digits.
pub open spec fn is_hex(s: Seq<char>) -> bool {
    s.len() % 2 == 0 && forall|i: int| 0 <= i < s.len() ==> is_hex_char(#[trigger] s[i])
}

/// The bytes that a string of hex digit pairs denotes, high nibble first.
pub open spec fn hex_bytes(s: Seq<char>) -> Seq<u8>
    decreases s.len(),
{
    if s.len() < 2 {
        Seq::empty()
    } else {
        seq![(hex_char_value(s[0]) * 16 + hex_char_value(s[1])) as u8] + hex_bytes(s.skip(2))
    }
}

/// The hex digit for a value below 16, in lower case as `hex::encode`
/// produces it.
pub open spec fn hex_char_of(v: int) -> char {
    if v < 10 {
        ('0' as u8 + v) as char
    } else {
        ('a' as u8 + v - 10) as char
    }
}

/// The lower-case hex text of a byte sequence, two digits per byte, high
/// nibble first.
pub open spec fn to_hex(b: Seq<u8>) -> Seq<char>
    decreases b.len(),
{
    if b.len() == 0 {
        Seq::empty()
    } else {
        to_hex(b.drop_last()) + seq![
            hex_char_of(b.last() as int / 16),
            hex_char_of(b.last() as int % 16),
        ]
    }
}

/// Relies on `hex::decode`: it returns the bytes of the digit pairs, high
/// nibble first, and rejects exactly the inputs of odd length or with a
/// character outside `0-9`, `a-f`, `A-F`.
#[verifier::external_body]
pub(crate) fn hex_decode(s: &str) -> (r: Option<Vec<u8>>)
    ensures
        r is Some <==> is_hex(s@),
        r matches Some(v) ==> v@ == hex_bytes(s@),
{
    hex::decode(s).ok()
}

/// Relies on `hex::encode`: it returns two lower-case hex digits per byte,
/// high nibble first.
#[verifier::external_body]
pub(crate) fn hex_encode(b: &Vec<u8>) -> (r: String)
    ensures
        r@ == to_hex(b@),
{
    hex::encode(b)
}

/// Whether the mainchain's consensus codec reads a transaction from these
/// bytes, and the value in satoshis of each of that transaction's outputs,
/// in output order. A function of the bytes alone.
pub uninterp spec fn tx_output_values(bytes: Seq<u8>) -> Option<Seq<u64>>;

/// The id of the transaction read from these bytes; meaningful only where
/// `tx_output_values` is `Some`. A function of the bytes alone.
pub uninterp spec fn tx_computed_txid(bytes: Seq<u8>) -> Txid;

/// Relies on the `bitcoin` crate: `Transaction`'s consensus decoding (which
/// reads one transaction from the front of the byte stream) and
/// `Transaction::compute_txid`. Both depend on the bytes alone. The decoded
/// transaction is reduced to what the reconciliation reads of it: its output
/// values in satoshis and its id.
#[verifier::external_body]
pub(crate) fn decode_transaction(bytes: &Vec<u8>) -> (r: Option<(Vec<u64>, Txid)>)
    ensures
        r is Some <==> tx_output_values(bytes@) is Some,
        r matches Some(d) ==> Some(d.0@) == tx_output_values(bytes@) && d.1
            == tx_computed_txid(bytes@),
{
    let mut cursor = std::io::Cursor::new(bytes);
    let tx: bitcoin::Transaction = bitcoin::consensus::Decodable::consensus_decode(
        &mut cursor,
    ).ok()?;
    let values = tx.output.iter().map(|o| o.value.to_sat()).collect();
    let digest: [u8; 32] = *bitcoin::hashes::Hash::as_byte_array(&tx.compute_txid());
    let hi = u128::from_be_bytes(digest[0..16].try_into().unwrap());
    let lo = u128::from_be_bytes(digest[16..32].try_into().unwrap());
    Some((values, Txid { hi, lo }))
}

} // verus!
