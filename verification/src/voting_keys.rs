//! Voting-key bookkeeping: derivation path text and chain-code storage.
use vstd::prelude::*;
use crate::codec::{hex_decode, hex_encode, hex_decode_spec, hex_encode_spec};
use crate::error::GovernanceError;
use crate::strings::{i64_to_decimal, int_decimal, nat_digits, u64_to_decimal};

verus! {

/// The hardened child number for index `n`.
pub const HARDENED: u32 = 0x8000_0000;

/// Voting key derivation path text: "m/0'/<pr_id>'/<signal_index>'".
pub fn get_voting_key_path(pr_id: i32, signal_index: u32) -> (res: String)
    ensures
        res@ == "m/0'/"@ + int_decimal(pr_id as int) + "'/"@ + nat_digits(signal_index as nat) + "'"@,
{
    let mut p = String::from_str("m/0'/");
    p.append(i64_to_decimal(pr_id as i64).as_str());
    p.append("'/");
    p.append(u64_to_decimal(signal_index as u64).as_str());
    p.append("'");
    p
}

/// The three hardened child numbers of the voting key path
/// m/0'/pr_id'/signal_index': the PR id is taken as its 32-bit unsigned
/// pattern, and an index that does not fit beside the hardened bit is an error.
pub fn voting_key_child_numbers(pr_id: i32, signal_index: u32) -> (res: Result<[u32; 3], GovernanceError>)
    ensures
        res is Ok <==> HARDENED + (pr_id as u32) <= u32::MAX && HARDENED + signal_index <= u32::MAX,
        res matches Ok(c) ==> c@ == seq![HARDENED, (HARDENED + (pr_id as u32)) as u32, (HARDENED + signal_index) as u32],
        res matches Err(e) ==> e is CryptoError && e.message() == if HARDENED + (pr_id as u32) > u32::MAX {
            "PR ID overflow"@
        } else {
            "Signal index overflow"@
        },
{
    let pr = match HARDENED.checked_add(pr_id as u32) {
        Some(v) => v,
        None => {
            return Err(GovernanceError::CryptoError(String::from_str("PR ID overflow")));
        },
    };
    let sig = match HARDENED.checked_add(signal_index) {
        Some(v) => v,
        None => {
            return Err(GovernanceError::CryptoError(String::from_str("Signal index overflow")));
        },
    };
    let c = [HARDENED, pr, sig];
    assert(c@ =~= seq![HARDENED, (HARDENED + (pr_id as u32)) as u32, (HARDENED + signal_index) as u32]);
    Ok(c)
}

/// Parse a 32-byte chain code from its hex text.
pub fn chain_code_from_hex(hex: &str) -> (res: Result<[u8; 32], GovernanceError>)
    ensures
        res matches Ok(code) <==> (hex_decode_spec(hex@) matches Some(b) && b.len() == 32),
        res matches Ok(code) ==> code@ == hex_decode_spec(hex@).unwrap(),
        res matches Err(e) ==> e is CryptoError,
{
    let bytes = match hex_decode(hex) {
        Ok(b) => b,
        Err(msg) => {
            let m = String::from_str("Invalid hex: ").concat(msg.as_str());
            return Err(GovernanceError::CryptoError(m));
        }
    };
    if bytes.len() != 32 {
        return Err(GovernanceError::CryptoError(String::from_str("Chain code must be 32 bytes")));
    }
    let mut code = [0u8; 32];
    let mut i: usize = 0;
    while i < 32
        invariant
            i <= 32,
            bytes@.len() == 32,
            forall|j: int| 0 <= j < i ==> code@[j] == bytes@[j],
        decreases 32 - i,
    {
        code[i] = bytes[i];
        i = i + 1;
    }
    assert(code@ =~= bytes@);
    Ok(code)
}

/// Hex text of a chain code, for storage.
pub fn chain_code_to_hex(chain_code: &[u8; 32]) -> (text: String)
    ensures
        text@ == hex_encode_spec(chain_code@),
{
    hex_encode(chain_code)
}

} // verus!
