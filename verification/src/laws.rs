//! What holds of the token in every state and over every sequence of calls,
//! proved from the model of its calls.

use vstd::prelude::*;
use crate::error::TokenError;
use crate::redeem_info::RedeemInfo;
use crate::state::{
    after_call, appends, counters_readable, data, initialize_refusal, initialized,
    initialized_path, is_initialized, is_single_path, lemma_counter_round_trip,
    lemma_paths_distinct, mint_refusal, minted, name, record_of, redeem_count, redeem_count_path,
    redeem_info, redeem_path, redeemed, refusal, supply_change, symbol, total_supply,
    total_supply_path, Call,
};
use crate::redeem_info::field_at;
use crate::storage::{read, StorageMap};

verus! {

/// An accepted initialization marks the token as initialized, stores its
/// name, symbol and metadata, adds the minted units to the supply and sets
/// the number of records to zero. It touches no record.
pub proof fn lemma_initialized(
    m: StorageMap,
    name_bytes: Seq<u8>,
    symbol_bytes: Seq<u8>,
    data_bytes: Seq<u8>,
    token_units: u128,
)
    requires
        initialize_refusal(m, token_units).is_none(),
    ensures
        is_initialized(initialized(m, name_bytes, symbol_bytes, data_bytes, token_units)),
        name(initialized(m, name_bytes, symbol_bytes, data_bytes, token_units)) == name_bytes,
        symbol(initialized(m, name_bytes, symbol_bytes, data_bytes, token_units)) == symbol_bytes,
        data(initialized(m, name_bytes, symbol_bytes, data_bytes, token_units)) == data_bytes,
        total_supply(initialized(m, name_bytes, symbol_bytes, data_bytes, token_units))
            == total_supply(m) + token_units,
        redeem_count(initialized(m, name_bytes, symbol_bytes, data_bytes, token_units)) == 0,
        counters_readable(initialized(m, name_bytes, symbol_bytes, data_bytes, token_units)),
        forall|i: u128|
            #[trigger] redeem_info(
                initialized(m, name_bytes, symbol_bytes, data_bytes, token_units),
                i,
            ) == redeem_info(m, i),
{
    lemma_paths_distinct();
    lemma_counter_round_trip((total_supply(m) + token_units) as u128);
    lemma_counter_round_trip(0);
    let after = initialized(m, name_bytes, symbol_bytes, data_bytes, token_units);
    assert forall|i: u128| #[trigger] redeem_info(after, i) == redeem_info(m, i) by {
        assert(!is_single_path(redeem_path(i)));
    }
}

/// An accepted mint adds the minted units to the supply and changes nothing
/// else.
pub proof fn lemma_minted(m: StorageMap, token_units: u128)
    requires
        total_supply(m) + token_units <= u128::MAX,
    ensures
        total_supply(minted(m, token_units)) == total_supply(m) + token_units,
        total_supply(minted(m, token_units)) >= total_supply(m),
        redeem_count(minted(m, token_units)) == redeem_count(m),
        is_initialized(minted(m, token_units)) == is_initialized(m),
        name(minted(m, token_units)) == name(m),
        symbol(minted(m, token_units)) == symbol(m),
        data(minted(m, token_units)) == data(m),
        counters_readable(m) ==> counters_readable(minted(m, token_units)),
        forall|i: u128| #[trigger] redeem_info(minted(m, token_units), i) == redeem_info(m, i),
{
    lemma_paths_distinct();
    lemma_counter_round_trip((total_supply(m) + token_units) as u128);
    let after = minted(m, token_units);
    assert forall|i: u128| #[trigger] redeem_info(after, i) == redeem_info(m, i) by {
        assert(!is_single_path(redeem_path(i)));
    }
}

/// An accepted redemption takes the amount from the supply and raises the
/// number of records by exactly one. The new record stands at the index that
/// the number of records gave before the call, and reads back as the bytes
/// that were written. No other record changes, nor anything else.
pub proof fn lemma_redeemed(m: StorageMap, info: RedeemInfo)
    requires
        info.amount <= total_supply(m),
        redeem_count(m) < u128::MAX,
    ensures
        total_supply(redeemed(m, info)) == total_supply(m) - info.amount,
        redeem_count(redeemed(m, info)) == redeem_count(m) + 1,
        redeem_info(redeemed(m, info), redeem_count(m)) == info.spec_bytes(),
        forall|i: u128|
            i != redeem_count(m) ==> #[trigger] redeem_info(redeemed(m, info), i) == redeem_info(
                m,
                i,
            ),
        is_initialized(redeemed(m, info)) == is_initialized(m),
        name(redeemed(m, info)) == name(m),
        symbol(redeemed(m, info)) == symbol(m),
        data(redeemed(m, info)) == data(m),
        counters_readable(redeemed(m, info)),
{
    lemma_paths_distinct();
    lemma_counter_round_trip((total_supply(m) - info.amount) as u128);
    lemma_counter_round_trip((redeem_count(m) + 1) as u128);
    let after = redeemed(m, info);
    assert(!is_single_path(redeem_path(redeem_count(m))));
    assert forall|i: u128| i != redeem_count(m) implies #[trigger] redeem_info(after, i)
        == redeem_info(m, i) by {
        assert(!is_single_path(redeem_path(i)));
    }
}

/// A record that was written at an index is the record read at that index:
/// all 112 bytes, with each field at its fixed offset.
pub proof fn lemma_record_round_trip(m: StorageMap, index: u128, info: RedeemInfo)
    ensures
        redeem_info(m.insert(redeem_path(index), info.spec_bytes()), index) == info.spec_bytes(),
        redeem_info(m.insert(redeem_path(index), info.spec_bytes()), index).len() == 112,
        field_at(
            redeem_info(m.insert(redeem_path(index), info.spec_bytes()), index),
            0,
        ) == info.amount,
        field_at(
            redeem_info(m.insert(redeem_path(index), info.spec_bytes()), index),
            16,
        ) == info.token_id,
        field_at(
            redeem_info(m.insert(redeem_path(index), info.spec_bytes()), index),
            32,
        ) == info.destination_chain_id,
        field_at(
            redeem_info(m.insert(redeem_path(index), info.spec_bytes()), index),
            48,
        ) == info.destination_address_h1,
        field_at(
            redeem_info(m.insert(redeem_path(index), info.spec_bytes()), index),
            64,
        ) == info.destination_address_h2,
        redeem_info(m.insert(redeem_path(index), info.spec_bytes()), index).subrange(80, 112)
            == info.txid@,
{
    info.lemma_layout();
}

/// A token is initialized once: after an accepted initialization, every
/// further one is refused as `AlreadyInitialized`.
pub proof fn lemma_initialize_once(
    m: StorageMap,
    name_bytes: Seq<u8>,
    symbol_bytes: Seq<u8>,
    data_bytes: Seq<u8>,
    token_units: u128,
    again: u128,
)
    requires
        initialize_refusal(m, token_units).is_none(),
    ensures
        initialize_refusal(
            initialized(m, name_bytes, symbol_bytes, data_bytes, token_units),
            again,
        ) == Some(TokenError::AlreadyInitialized),
{
    lemma_initialized(m, name_bytes, symbol_bytes, data_bytes, token_units);
}

/// The sum of a sequence of amounts.
pub open spec fn sum(amounts: Seq<u128>) -> nat
    decreases amounts.len(),
{
    if amounts.len() == 0 {
        0
    } else {
        sum(amounts.drop_last()) + amounts.last() as nat
    }
}

/// The state after minting each of `amounts` in turn.
pub open spec fn minted_all(m: StorageMap, amounts: Seq<u128>) -> StorageMap
    decreases amounts.len(),
{
    if amounts.len() == 0 {
        m
    } else {
        minted(minted_all(m, amounts.drop_last()), amounts.last())
    }
}

/// Whether each mint of `amounts`, made in turn by the owner from state `m`,
/// is accepted.
pub open spec fn all_accepted(m: StorageMap, amounts: Seq<u128>) -> bool
    decreases amounts.len(),
{
    if amounts.len() == 0 {
        true
    } else {
        &&& all_accepted(m, amounts.drop_last())
        &&& mint_refusal(minted_all(m, amounts.drop_last()), true, amounts.last()).is_none()
    }
}

/// After a sequence of accepted mints the supply is what it was plus the sum
/// of the amounts. No mint lowers the supply.
pub proof fn lemma_mints_add_up(m: StorageMap, amounts: Seq<u128>)
    requires
        all_accepted(m, amounts),
    ensures
        total_supply(minted_all(m, amounts)) == total_supply(m) + sum(amounts),
        total_supply(minted_all(m, amounts)) >= total_supply(m),
    decreases amounts.len(),
{
    if amounts.len() > 0 {
        lemma_mints_add_up(m, amounts.drop_last());
        lemma_minted(minted_all(m, amounts.drop_last()), amounts.last());
    }
}

/// A redemption that does not come with exactly one transfer is refused as
/// `InvalidInputCount`, whatever else holds, and changes nothing.
pub proof fn lemma_input_count_is_checked(m: StorageMap, call: Call)
    requires
        call matches Call::Redeem { incoming, .. } && incoming.len() != 1,
    ensures
        refusal(m, call) == Some(TokenError::InvalidInputCount),
        after_call(m, call) == m,
{
}

/// A redemption that comes with one transfer of another asset than the
/// token's own is refused as `WrongAsset`, whatever else holds, and changes
/// nothing.
pub proof fn lemma_asset_is_checked(m: StorageMap, call: Call)
    requires
        call matches Call::Redeem { myself, incoming, .. } && incoming.len() == 1 && incoming[0].id
            != myself,
    ensures
        refusal(m, call) == Some(TokenError::WrongAsset),
        after_call(m, call) == m,
{
}

/// A redemption that comes with one transfer of the token's own asset, of a
/// value above the supply, is refused as `Underflow`, whether the token is
/// initialized or not, and changes nothing: the supply never falls below
/// zero.
pub proof fn lemma_supply_is_checked(m: StorageMap, call: Call)
    requires
        call matches Call::Redeem { myself, incoming, .. } && incoming.len() == 1 && incoming[0].id
            == myself && incoming[0].value > total_supply(m),
    ensures
        refusal(m, call) == Some(TokenError::Underflow),
        after_call(m, call) == m,
{
}

/// Before the token is initialized no mint and no redemption is accepted.
pub proof fn lemma_initialization_comes_first(m: StorageMap, call: Call)
    requires
        !is_initialized(m),
        !(call is Initialize),
    ensures
        refusal(m, call).is_some(),
        after_call(m, call) == m,
{
}

/// Once the token is initialized, no call changes its name, its symbol or
/// its metadata, and it stays initialized.
pub proof fn lemma_identity_is_permanent(m: StorageMap, call: Call)
    requires
        is_initialized(m),
    ensures
        is_initialized(after_call(m, call)),
        name(after_call(m, call)) == name(m),
        symbol(after_call(m, call)) == symbol(m),
        data(after_call(m, call)) == data(m),
{
    if refusal(m, call).is_none() {
        match call {
            Call::Initialize { .. } => {},
            Call::Mint { token_units, .. } => {
                lemma_minted(m, token_units);
            },
            Call::Redeem { .. } => {
                lemma_redeemed(m, record_of(call));
            },
        }
    }
}

/// The supply changes by what a call mints or redeems, and by nothing else:
/// an accepted initialization or mint adds its units, an accepted redemption
/// takes the value of its transfer, a refused call leaves the supply.
pub proof fn lemma_supply_is_accounted(m: StorageMap, call: Call)
    ensures
        total_supply(after_call(m, call)) == total_supply(m) + supply_change(m, call),
{
    if refusal(m, call).is_none() {
        match call {
            Call::Initialize { name, symbol, data, token_units } => {
                lemma_initialized(m, name, symbol, data, token_units);
            },
            Call::Mint { token_units, .. } => {
                lemma_minted(m, token_units);
            },
            Call::Redeem { .. } => {
                lemma_redeemed(m, record_of(call));
            },
        }
    }
}

/// The state after each of `calls` was made in turn.
pub open spec fn after_calls(m: StorageMap, calls: Seq<Call>) -> StorageMap
    decreases calls.len(),
{
    if calls.len() == 0 {
        m
    } else {
        after_call(after_calls(m, calls.drop_last()), calls.last())
    }
}

/// By how much the calls of `calls`, made in turn from state `m`, change the
/// supply.
pub open spec fn net_supply_change(m: StorageMap, calls: Seq<Call>) -> int
    decreases calls.len(),
{
    if calls.len() == 0 {
        0
    } else {
        net_supply_change(m, calls.drop_last()) + supply_change(
            after_calls(m, calls.drop_last()),
            calls.last(),
        )
    }
}

/// After any calls the supply is what it was, plus what was minted, minus
/// what was redeemed.
pub proof fn lemma_supply_over_calls(m: StorageMap, calls: Seq<Call>)
    ensures
        total_supply(after_calls(m, calls)) == total_supply(m) + net_supply_change(m, calls),
    decreases calls.len(),
{
    if calls.len() > 0 {
        lemma_supply_over_calls(m, calls.drop_last());
        lemma_supply_is_accounted(after_calls(m, calls.drop_last()), calls.last());
    }
}

/// No call leaves a counter that cannot be read.
pub proof fn lemma_call_keeps_counters(m: StorageMap, call: Call)
    requires
        counters_readable(m),
    ensures
        counters_readable(after_call(m, call)),
{
    if refusal(m, call).is_none() {
        match call {
            Call::Initialize { name, symbol, data, token_units } => {
                lemma_initialized(m, name, symbol, data, token_units);
            },
            Call::Mint { token_units, .. } => {
                lemma_minted(m, token_units);
            },
            Call::Redeem { .. } => {
                lemma_redeemed(m, record_of(call));
            },
        }
    }
}

/// Whether the log of redemptions is dense: at each index below the number
/// of records there is a record of 112 bytes, at every other index there is
/// none, and a token that was never initialized has no record.
pub open spec fn log_dense(m: StorageMap) -> bool {
    &&& forall|i: u128|
        (#[trigger] redeem_info(m, i)).len() == if i < redeem_count(m) {
            112int
        } else {
            0int
        }
    &&& !is_initialized(m) ==> redeem_count(m) == 0
}

/// The log of an empty store is dense, and its counters can be read.
pub proof fn lemma_empty_log()
    ensures
        log_dense(StorageMap::empty()),
        counters_readable(StorageMap::empty()),
        !is_initialized(StorageMap::empty()),
        total_supply(StorageMap::empty()) == 0,
        redeem_count(StorageMap::empty()) == 0,
{
}

/// No call breaks the log: it stays dense, the number of records never
/// falls, and every record that was there stays as it was. An accepted
/// redemption adds the record at the index that the number of records gave,
/// and raises that number by one; every other call leaves it.
pub proof fn lemma_call_keeps_log(m: StorageMap, call: Call)
    requires
        log_dense(m),
    ensures
        log_dense(after_call(m, call)),
        redeem_count(after_call(m, call)) == redeem_count(m) + if appends(m, call) {
            1int
        } else {
            0int
        },
        forall|i: u128|
            i < redeem_count(m) ==> #[trigger] redeem_info(after_call(m, call), i) == redeem_info(
                m,
                i,
            ),
        is_initialized(m) ==> is_initialized(after_call(m, call)),
{
    let after = after_call(m, call);
    if refusal(m, call).is_none() {
        match call {
            Call::Initialize { name, symbol, data, token_units } => {
                lemma_initialized(m, name, symbol, data, token_units);
                assert forall|i: u128|
                    (#[trigger] redeem_info(after, i)).len() == if i < redeem_count(after) {
                        112int
                    } else {
                        0int
                    } by {
                    assert(redeem_info(after, i) == redeem_info(m, i));
                }
            },
            Call::Mint { token_units, .. } => {
                lemma_minted(m, token_units);
                assert forall|i: u128|
                    (#[trigger] redeem_info(after, i)).len() == if i < redeem_count(after) {
                        112int
                    } else {
                        0int
                    } by {
                    assert(redeem_info(after, i) == redeem_info(m, i));
                }
            },
            Call::Redeem { .. } => {
                let info = record_of(call);
                lemma_redeemed(m, info);
                info.lemma_layout();
                assert forall|i: u128|
                    (#[trigger] redeem_info(after, i)).len() == if i < redeem_count(after) {
                        112int
                    } else {
                        0int
                    } by {
                    if i != redeem_count(m) {
                        assert(redeem_info(after, i) == redeem_info(m, i));
                    }
                }
            },
        }
    }
}

/// Whatever calls are made, in whatever order, the log stays dense: the
/// indices in use are exactly those below the number of records, with no gap.
/// The number of records never falls and no record is ever changed.
pub proof fn lemma_calls_keep_log(m: StorageMap, calls: Seq<Call>)
    requires
        log_dense(m),
    ensures
        log_dense(after_calls(m, calls)),
        redeem_count(after_calls(m, calls)) >= redeem_count(m),
        forall|i: u128|
            i < redeem_count(m) ==> #[trigger] redeem_info(after_calls(m, calls), i) == redeem_info(
                m,
                i,
            ),
    decreases calls.len(),
{
    if calls.len() > 0 {
        let before = after_calls(m, calls.drop_last());
        lemma_calls_keep_log(m, calls.drop_last());
        lemma_call_keeps_log(before, calls.last());
        assert forall|i: u128| i < redeem_count(m) implies #[trigger] redeem_info(
            after_calls(m, calls),
            i,
        ) == redeem_info(m, i) by {
            assert(redeem_info(before, i) == redeem_info(m, i));
        }
    }
}

/// No index is given out twice: where a redemption is accepted, then any
/// calls are made, and then another redemption is accepted, the second gets
/// a higher index than the first, and the first record is still in place.
pub proof fn lemma_indices_differ(m: StorageMap, first: Call, between: Seq<Call>, second: Call)
    requires
        log_dense(m),
        appends(m, first),
        appends(after_calls(after_call(m, first), between), second),
    ensures
        redeem_count(after_calls(after_call(m, first), between)) > redeem_count(m),
        redeem_info(
            after_call(after_calls(after_call(m, first), between), second),
            redeem_count(m),
        ) == redeem_info(after_call(m, first), redeem_count(m)),
{
    let one = after_call(m, first);
    let more = after_calls(one, between);
    lemma_call_keeps_log(m, first);
    lemma_calls_keep_log(one, between);
    lemma_call_keeps_log(more, second);
    assert(redeem_info(more, redeem_count(m)) == redeem_info(one, redeem_count(m)));
}

/// In every state that calls can reach from an empty store, both counters
/// can be read and the log is dense: its records are exactly those with the
/// indices 0, 1, 2 and so on below the number of records. So what is read at
/// an index is a record of 112 bytes or nothing.
pub proof fn lemma_reachable_states(calls: Seq<Call>)
    ensures
        counters_readable(after_calls(StorageMap::empty(), calls)),
        log_dense(after_calls(StorageMap::empty(), calls)),
        forall|i: u128|
            {
                let record = #[trigger] redeem_info(after_calls(StorageMap::empty(), calls), i);
                record.len() == 112 || record.len() == 0
            },
    decreases calls.len(),
{
    lemma_empty_log();
    lemma_calls_keep_log(StorageMap::empty(), calls);
    if calls.len() > 0 {
        lemma_reachable_states(calls.drop_last());
        lemma_call_keeps_counters(
            after_calls(StorageMap::empty(), calls.drop_last()),
            calls.last(),
        );
    }
}

/// Whether two states hold the same single values: the same mark of
/// initialization, name, symbol, metadata, supply and number of records.
pub open spec fn same_single_values(a: StorageMap, b: StorageMap) -> bool {
    forall|path: Seq<u8>| is_single_path(path) ==> read(a, path) == read(b, path)
}

/// Whether `call`, made in state `m`, writes at `path`. A refused call writes
/// nowhere; an initialization writes the six single values; a mint writes
/// the supply; a redemption writes the supply, the number of records and the
/// record at the index that this number gave.
pub open spec fn writes_at(m: StorageMap, call: Call, path: Seq<u8>) -> bool {
    refusal(m, call).is_none() && match call {
        Call::Initialize { .. } => is_single_path(path),
        Call::Mint { .. } => path == total_supply_path(),
        Call::Redeem { .. } => path == total_supply_path() || path == redeem_count_path() || path
            == redeem_path(redeem_count(m)),
    }
}

/// A call changes nothing but what it writes.
pub proof fn lemma_call_touches_only_what_it_writes(m: StorageMap, call: Call, path: Seq<u8>)
    requires
        !writes_at(m, call, path),
    ensures
        read(after_call(m, call), path) == read(m, path),
        after_call(m, call).contains_key(path) == m.contains_key(path),
{
}

/// A call reads nothing but the token's single values. Made in two states
/// that hold the same single values, it is refused in both or in neither,
/// for the same reason, and it writes the same values at the same paths:
/// whatever else the states hold is not read.
pub proof fn lemma_call_reads_single_values(
    a: StorageMap,
    b: StorageMap,
    call: Call,
    path: Seq<u8>,
)
    requires
        same_single_values(a, b),
    ensures
        refusal(a, call) == refusal(b, call),
        writes_at(a, call, path) == writes_at(b, call, path),
        writes_at(a, call, path) ==> read(after_call(a, call), path) == read(
            after_call(b, call),
            path,
        ),
{
    lemma_paths_distinct();
    assert(is_single_path(initialized_path()));
    assert(is_single_path(total_supply_path()));
    assert(is_single_path(redeem_count_path()));
    assert(total_supply(a) == total_supply(b));
    assert(redeem_count(a) == redeem_count(b));
    assert(is_initialized(a) == is_initialized(b));
}

} // verus!
