use vstd::prelude::*;

use sha2::{Digest, Sha256};

use crate::state::Coin;

verus! {

/// The SHA-256 digest of a byte string. The digest depends on the bytes
/// alone, so it gets a name here; nothing else is assumed of its value
/// beyond its length.
pub uninterp spec fn sha256_of(bytes: Seq<u8>) -> Seq<u8>;

/// Relies on sha2's `Sha256` through the `Digest` interface: the digest is a
/// pure function of the input bytes and is 32 bytes long.
#[verifier::external_body]
pub(crate) fn sha256_digest(bytes: &Vec<u8>) -> (r: Vec<u8>)
    ensures
        r@ == sha256_of(bytes@),
        r@.len() == 32,
{
    let mut hasher = Sha256::new();
    hasher.update(bytes.as_slice());
    hasher.finalize().to_vec()
}

/// Relies on cw_utils::must_pay: it returns the attached amount exactly when
/// the attached funds are one single coin of the asked denomination with a
/// non-zero amount, and an error otherwise.
#[verifier::external_body]
pub(crate) fn must_pay_native(funds: &Vec<Coin>, denom: &String) -> (r: Result<u128, ()>)
    ensures
        r is Ok <==> (funds.deep_view().len() == 1 && funds.deep_view()[0].amount != 0
            && funds.deep_view()[0].denom == denom@),
        r matches Ok(a) ==> a == funds.deep_view()[0].amount,
{
    let mut fs: Vec<cosmwasm_std::Coin> = Vec::new();
    for c in funds.iter() {
        fs.push(cosmwasm_std::Coin { denom: c.denom.clone(), amount: c.amount.into() });
    }
    let info = cosmwasm_std::MessageInfo { sender: cosmwasm_std::Addr::unchecked(""), funds: fs };
    match cw_utils::must_pay(&info, denom.as_str()) {
        Ok(a) => Ok(a.u128()),
        Err(_) => Err(()),
    }
}

} // verus!
