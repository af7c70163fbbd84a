//! The identifier of a transaction, as the `bitcoin` crate computes it.

use vstd::prelude::*;

verus! {

/// The error with which the `bitcoin` crate refuses bytes that it cannot
/// decode.
#[verifier::external_type_specification]
#[verifier::external_body]
pub struct ExDecodeError(bitcoin::consensus::encode::Error);

/// The identifier of the transaction that `raw` starts with, as the `bitcoin`
/// crate computes it: `None` where the crate does not decode a transaction
/// from the start of `raw`, else the 32 bytes of the identifier that it gives
/// the decoded transaction, in the order in which it holds them.
pub uninterp spec fn transaction_id(raw: Seq<u8>) -> Option<[u8; 32]>;

/// Decodes the transaction at the start of `raw` with
/// `bitcoin::consensus::deserialize_partial` and hashes it with
/// `bitcoin::Transaction::compute_txid`. Nothing is proved of either: the
/// contract only gives their combined result its name, which rests on both
/// being functions of the bytes alone.
#[verifier::external_body]
fn compute_transaction_id(raw: &[u8]) -> (decoded: Result<
    [u8; 32],
    bitcoin::consensus::encode::Error,
>)
    ensures
        match decoded {
            Ok(id) => transaction_id(raw@) == Some(id),
            Err(_) => transaction_id(raw@).is_none(),
        },
{
    let (transaction, _) = bitcoin::consensus::deserialize_partial::<bitcoin::Transaction>(raw)?;
    Ok(bitcoin::hashes::Hash::to_byte_array(transaction.compute_txid()))
}

/// The identifier of the transaction that `raw` starts with, if it starts with
/// one.
pub fn decode_transaction_id(raw: &[u8]) -> (id: Option<[u8; 32]>)
    ensures
        id == transaction_id(raw@),
{
    match compute_transaction_id(raw) {
        Ok(bytes) => Some(bytes),
        Err(_) => None,
    }
}

} // verus!
