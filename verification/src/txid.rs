//! Transaction identifiers: the text form that the remote fetch accepts.

use crate::outcome::FailureReason;
use bdk_electrum::bdk_core::bitcoin::hex::HexToArrayError;
use bdk_electrum::bdk_core::bitcoin::Txid;
use std::str::FromStr;
use vstd::prelude::*;

verus! {

/// The number of hexadecimal digits in the text of a transaction identifier.
pub const TXID_TEXT_LEN: usize = 64;

/// Whether `c` is a hexadecimal digit, in either case.
pub open spec fn is_hex_digit(c: char) -> bool {
    ||| '0' <= c <= '9'
    ||| 'a' <= c <= 'f'
    ||| 'A' <= c <= 'F'
}

/// Whether `text` is the text of a transaction identifier: exactly 64
/// hexadecimal digits.
pub open spec fn is_txid_text(text: Seq<char>) -> bool {
    &&& text.len() == TXID_TEXT_LEN
    &&& forall|i: int| 0 <= i < text.len() ==> is_hex_digit(#[trigger] text[i])
}

#[verifier::external_type_specification]
#[verifier::external_body]
pub struct ExTxid(Txid);

#[verifier::external_type_specification]
#[verifier::external_body]
pub struct ExHexToArrayError(HexToArrayError);

/// The identifier that `Txid::from_str` decodes from `text`, where `text` is
/// the text of an identifier. The decoding reads nothing but the text.
pub uninterp spec fn txid_of(text: Seq<char>) -> Txid;

/// `Txid::from_str` decodes the 32 bytes of an identifier from hexadecimal
/// text. It accepts a text of exactly 64 bytes of which each is a hexadecimal
/// digit in either case, and rejects every other text with an error of
/// length or of character. The identifier decoded depends on the text alone
/// and goes by the name `txid_of`; nothing more is claimed of it.
#[verifier::external_body]
fn txid_from_str(text: &str) -> (parsed: Result<Txid, HexToArrayError>)
    ensures
        parsed is Ok <==> is_txid_text(text@),
        parsed matches Ok(txid) ==> txid == txid_of(text@),
{
    Txid::from_str(text)
}

/// Reads a transaction identifier from its text: the identifier decoded from
/// 64 hexadecimal digits. Any other text is an invalid identifier.
pub fn parse_txid(text: &str) -> (parsed: Result<Txid, FailureReason>)
    ensures
        parsed is Ok <==> is_txid_text(text@),
        parsed matches Ok(txid) ==> txid == txid_of(text@),
        parsed matches Err(reason) ==> reason == FailureReason::InvalidIdentifier,
{
    match txid_from_str(text) {
        Ok(txid) => Ok(txid),
        Err(_) => Err(FailureReason::InvalidIdentifier),
    }
}

} // verus!
