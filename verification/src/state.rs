//! The token's state as a mathematical map from paths to values: where each
//! value is kept, what each call reads, when it is refused and what it leaves.

use vstd::prelude::*;
use vstd::bytes::{
    lemma_auto_spec_u128_to_from_le_bytes, spec_u128_from_le_bytes, spec_u128_to_le_bytes,
};
use crate::error::TokenError;
use crate::pointer::{index_segment, keyword, lemma_ascii_keyword, lemma_select_value_injective};
use crate::redeem_info::RedeemInfo;
use crate::storage::{read, StorageMap};
use crate::support::{AlkaneId, AlkaneTransfer};

verus! {

/// Where the mark of a completed initialization is kept.
pub open spec fn initialized_path() -> Seq<u8> {
    keyword("/initialized")
}

/// Where the token's name is kept.
pub open spec fn name_path() -> Seq<u8> {
    keyword("/name")
}

/// Where the token's symbol is kept.
pub open spec fn symbol_path() -> Seq<u8> {
    keyword("/symbol")
}

/// Where the metadata blob is kept.
pub open spec fn data_path() -> Seq<u8> {
    keyword("/data")
}

/// Where the total supply is kept.
pub open spec fn total_supply_path() -> Seq<u8> {
    keyword("/totalsupply")
}

/// Where the number of redemption records is kept.
pub open spec fn redeem_count_path() -> Seq<u8> {
    keyword("/redeem_count")
}

/// Where the redemption record with the given index is kept.
pub open spec fn redeem_path(index: u128) -> Seq<u8> {
    keyword("/redeem/") + index_segment(index)
}

/// The value written as the mark of a completed initialization.
pub open spec fn initialized_mark() -> Seq<u8> {
    seq![1u8]
}

/// The number that a counter's slot stands for: zero while nothing was
/// written, else the 16 little-endian bytes read as a number.
pub open spec fn counter(slot: Seq<u8>) -> u128 {
    if slot.len() == 0 {
        0
    } else {
        spec_u128_from_le_bytes(slot)
    }
}

/// The bytes written for a counter.
pub open spec fn counter_bytes(value: u128) -> Seq<u8> {
    spec_u128_to_le_bytes(value)
}

/// Whether a slot holds what a counter can be read from.
pub open spec fn counter_slot(slot: Seq<u8>) -> bool {
    slot.len() == 0 || slot.len() == 16
}

/// Whether both counters of a state can be read.
pub open spec fn counters_readable(m: StorageMap) -> bool {
    &&& counter_slot(read(m, total_supply_path()))
    &&& counter_slot(read(m, redeem_count_path()))
}

pub open spec fn is_initialized(m: StorageMap) -> bool {
    read(m, initialized_path()).len() > 0
}

pub open spec fn name(m: StorageMap) -> Seq<u8> {
    read(m, name_path())
}

pub open spec fn symbol(m: StorageMap) -> Seq<u8> {
    read(m, symbol_path())
}

pub open spec fn data(m: StorageMap) -> Seq<u8> {
    read(m, data_path())
}

pub open spec fn total_supply(m: StorageMap) -> u128 {
    counter(read(m, total_supply_path()))
}

pub open spec fn redeem_count(m: StorageMap) -> u128 {
    counter(read(m, redeem_count_path()))
}

/// The serialized record with the given index, empty if there is none.
pub open spec fn redeem_info(m: StorageMap, index: u128) -> Seq<u8> {
    read(m, redeem_path(index))
}

/// Why an initialization is refused in state `m`, if it is.
pub open spec fn initialize_refusal(m: StorageMap, token_units: u128) -> Option<TokenError> {
    if is_initialized(m) {
        Some(TokenError::AlreadyInitialized)
    } else if total_supply(m) + token_units > u128::MAX {
        Some(TokenError::Overflow)
    } else {
        None
    }
}

/// The state after an initialization that was not refused.
pub open spec fn initialized(
    m: StorageMap,
    name: Seq<u8>,
    symbol: Seq<u8>,
    data: Seq<u8>,
    token_units: u128,
) -> StorageMap {
    m.insert(initialized_path(), initialized_mark()).insert(name_path(), name).insert(
        symbol_path(),
        symbol,
    ).insert(data_path(), data).insert(
        total_supply_path(),
        counter_bytes((total_supply(m) + token_units) as u128),
    ).insert(redeem_count_path(), counter_bytes(0))
}

/// Why a mint is refused in state `m`, if it is. The owner's capability is
/// tested first, then the room left in the supply. A mint that passes both is
/// still refused while the token is not initialized.
pub open spec fn mint_refusal(m: StorageMap, authorized: bool, token_units: u128) -> Option<
    TokenError,
> {
    if !authorized {
        Some(TokenError::Unauthorized)
    } else if total_supply(m) + token_units > u128::MAX {
        Some(TokenError::Overflow)
    } else if !is_initialized(m) {
        Some(TokenError::NotInitialized)
    } else {
        None
    }
}

/// The state after a mint that was not refused.
pub open spec fn minted(m: StorageMap, token_units: u128) -> StorageMap {
    m.insert(total_supply_path(), counter_bytes((total_supply(m) + token_units) as u128))
}

/// Why a redemption is refused in state `m`, if it is: `myself` is the
/// token's own identity, `incoming` what came with the call, `txid` the
/// identifier of the enclosing transaction where its bytes decoded. The
/// tests come in this order: the number of transfers, their asset, the supply,
/// the transaction, the room left in the log. A redemption that passes them
/// all is still refused while the token is not initialized.
pub open spec fn redeem_refusal(
    m: StorageMap,
    myself: AlkaneId,
    incoming: Seq<AlkaneTransfer>,
    txid: Option<[u8; 32]>,
) -> Option<TokenError> {
    if incoming.len() != 1 {
        Some(TokenError::InvalidInputCount)
    } else if incoming[0].id != myself {
        Some(TokenError::WrongAsset)
    } else if incoming[0].value > total_supply(m) {
        Some(TokenError::Underflow)
    } else if txid.is_none() {
        Some(TokenError::InvalidTransaction)
    } else if redeem_count(m) == u128::MAX {
        Some(TokenError::Overflow)
    } else if !is_initialized(m) {
        Some(TokenError::NotInitialized)
    } else {
        None
    }
}

/// The state after a redemption that was not refused: the amount has left the
/// supply, the record stands at the index that the count gave, and the count
/// is one higher.
pub open spec fn redeemed(m: StorageMap, info: RedeemInfo) -> StorageMap {
    m.insert(total_supply_path(), counter_bytes((total_supply(m) - info.amount) as u128)).insert(
        redeem_path(redeem_count(m)),
        info.spec_bytes(),
    ).insert(redeem_count_path(), counter_bytes((redeem_count(m) + 1) as u128))
}

/// One call on the token, with what decides its outcome.
pub ghost enum Call {
    Initialize { name: Seq<u8>, symbol: Seq<u8>, data: Seq<u8>, token_units: u128 },
    Mint { authorized: bool, token_units: u128 },
    Redeem {
        myself: AlkaneId,
        incoming: Seq<AlkaneTransfer>,
        txid: Option<[u8; 32]>,
        token_id: u128,
        destination_chain_id: u128,
        destination_address_h1: u128,
        destination_address_h2: u128,
    },
}

/// Why `call` is refused in state `m`, if it is.
pub open spec fn refusal(m: StorageMap, call: Call) -> Option<TokenError> {
    match call {
        Call::Initialize { token_units, .. } => initialize_refusal(m, token_units),
        Call::Mint { authorized, token_units } => mint_refusal(m, authorized, token_units),
        Call::Redeem { myself, incoming, txid, .. } => redeem_refusal(m, myself, incoming, txid),
    }
}

/// The record that a redemption appends when it is accepted: the value of
/// the transfer that came with it, the caller's four fields and the
/// identifier of the enclosing transaction.
pub open spec fn record_of(call: Call) -> RedeemInfo
    recommends
        call is Redeem,
{
    RedeemInfo {
        amount: call->incoming[0].value,
        token_id: call->token_id,
        destination_chain_id: call->destination_chain_id,
        destination_address_h1: call->destination_address_h1,
        destination_address_h2: call->destination_address_h2,
        txid: call->txid.unwrap(),
    }
}

/// The state that `call` leaves when made in state `m`: `m` itself where the
/// call is refused.
pub open spec fn after_call(m: StorageMap, call: Call) -> StorageMap {
    if refusal(m, call).is_some() {
        m
    } else {
        match call {
            Call::Initialize { name, symbol, data, token_units } => initialized(
                m,
                name,
                symbol,
                data,
                token_units,
            ),
            Call::Mint { token_units, .. } => minted(m, token_units),
            Call::Redeem { .. } => redeemed(m, record_of(call)),
        }
    }
}

/// By how much `call` changes the supply when made in state `m`.
pub open spec fn supply_change(m: StorageMap, call: Call) -> int {
    if refusal(m, call).is_some() {
        0
    } else {
        match call {
            Call::Initialize { token_units, .. } => token_units as int,
            Call::Mint { token_units, .. } => token_units as int,
            Call::Redeem { incoming, .. } => -(incoming[0].value as int),
        }
    }
}

/// Whether `call` is a redemption that is accepted in state `m`.
pub open spec fn appends(m: StorageMap, call: Call) -> bool {
    call is Redeem && refusal(m, call).is_none()
}

/// Whether `path` is one of the six paths that hold a single value.
pub open spec fn is_single_path(path: Seq<u8>) -> bool {
    ||| path == initialized_path()
    ||| path == name_path()
    ||| path == symbol_path()
    ||| path == data_path()
    ||| path == total_supply_path()
    ||| path == redeem_count_path()
}

/// No two values of the token share a path: the six single paths differ from
/// each other, no record lies at one of them, and records with different
/// indices lie at different paths.
pub proof fn lemma_paths_distinct()
    ensures
        initialized_path() != name_path(),
        initialized_path() != symbol_path(),
        initialized_path() != data_path(),
        initialized_path() != total_supply_path(),
        initialized_path() != redeem_count_path(),
        name_path() != symbol_path(),
        name_path() != data_path(),
        name_path() != total_supply_path(),
        name_path() != redeem_count_path(),
        symbol_path() != data_path(),
        symbol_path() != total_supply_path(),
        symbol_path() != redeem_count_path(),
        data_path() != total_supply_path(),
        data_path() != redeem_count_path(),
        total_supply_path() != redeem_count_path(),
        forall|i: u128| !is_single_path(#[trigger] redeem_path(i)),
        forall|i: u128, j: u128| #[trigger] redeem_path(i) == #[trigger] redeem_path(j) ==> i == j,
{
    reveal_strlit("/initialized");
    reveal_strlit("/name");
    reveal_strlit("/symbol");
    reveal_strlit("/data");
    reveal_strlit("/totalsupply");
    reveal_strlit("/redeem_count");
    reveal_strlit("/redeem/");
    lemma_ascii_keyword("/initialized");
    lemma_ascii_keyword("/name");
    lemma_ascii_keyword("/symbol");
    lemma_ascii_keyword("/data");
    lemma_ascii_keyword("/totalsupply");
    lemma_ascii_keyword("/redeem_count");
    lemma_ascii_keyword("/redeem/");
    assert(initialized_path().len() == 12 && initialized_path()[1] == 'i' as u8);
    assert(name_path().len() == 5 && name_path()[1] == 'n' as u8);
    assert(symbol_path().len() == 7);
    assert(data_path().len() == 5 && data_path()[1] == 'd' as u8);
    assert(total_supply_path().len() == 12 && total_supply_path()[1] == 't' as u8);
    assert(redeem_count_path().len() == 13);
    assert forall|i: u128| !is_single_path(#[trigger] redeem_path(i)) by {
        lemma_select_value_injective(keyword("/redeem/"), i, i);
        assert(redeem_path(i).len() == 24);
    }
    assert forall|i: u128, j: u128| #[trigger] redeem_path(i) == #[trigger] redeem_path(j) implies i
        == j by {
        lemma_select_value_injective(keyword("/redeem/"), i, j);
    }
}

/// A counter is read back as it was written.
pub proof fn lemma_counter_round_trip(value: u128)
    ensures
        counter_slot(counter_bytes(value)),
        counter(counter_bytes(value)) == value,
{
    lemma_auto_spec_u128_to_from_le_bytes();
}

} // verus!
