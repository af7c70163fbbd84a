//! The token: its supply ledger, its log of redemptions, the calls that
//! change them and the queries that read them.

use vstd::prelude::*;
use vstd::bytes::{u128_from_le_bytes, u128_to_le_bytes};
use vstd::string::StrSliceExecFns;
use vstd::utf8::encode_utf8;
use crate::error::TokenError;
use crate::pointer::StoragePointer;
use crate::redeem_info::RedeemInfo;
use crate::state;
use crate::state::{
    after_call, counter, counter_bytes, counter_slot, counters_readable, lemma_counter_round_trip,
    lemma_paths_distinct, minted, refusal, Call,
};
use crate::storage::{Storage, StorageMap};
use crate::support::{AlkaneTransfer, CallResponse, Context, ResponseView};
use crate::txid::{decode_transaction_id, transaction_id};

verus! {

/// The number under which the token's code is deployed.
pub const BUSD_DEPLOYMENT_ID: u128 = 0xb05d;

/// The name and the symbol that a token gets where none is given.
pub const DEFAULT_NAME: &'static str = "bUSD";

/// The token: its supply, its name and data, and the log of redemptions, all
/// held in the store that it was made from. Its view is what that store holds.
#[allow(non_camel_case_types)]
#[derive(Debug)]
pub struct bUSD {
    storage: Storage,
}

impl View for bUSD {
    type V = StorageMap;

    closed spec fn view(&self) -> StorageMap {
        self.storage@
    }
}

impl Default for bUSD {
    /// A token over an empty store: not initialized, with no supply and no
    /// record.
    fn default() -> (token: bUSD)
        ensures
            token@ == StorageMap::empty(),
    {
        bUSD { storage: Storage::new() }
    }
}

/// The number that a counter's slot stands for.
fn read_counter(slot: &Vec<u8>) -> (value: u128)
    requires
        counter_slot(slot@),
    ensures
        value == counter(slot@),
{
    if slot.len() == 0 {
        0
    } else {
        u128_from_le_bytes(slot.as_slice())
    }
}

impl bUSD {
    #[verifier::type_invariant]
    spec fn counters_can_be_read(&self) -> bool {
        counters_readable(self.storage@)
    }

    /// The token that lives in `storage`, unless one of its counters holds
    /// what no counter can be read from.
    pub fn from_storage(storage: Storage) -> (token: Option<bUSD>)
        ensures
            match token {
                Some(t) => t@ == storage@ && counters_readable(storage@),
                None => !counters_readable(storage@),
            },
    {
        let supply = storage.get(&StoragePointer::from_keyword("/totalsupply"));
        let count = storage.get(&StoragePointer::from_keyword("/redeem_count"));
        if (supply.len() == 0 || supply.len() == 16) && (count.len() == 0 || count.len() == 16) {
            Some(bUSD { storage })
        } else {
            None
        }
    }

    /// The store that the token lives in.
    pub fn into_storage(self) -> (storage: Storage)
        ensures
            storage@ == self@,
    {
        self.storage
    }

    /// The only way in which the token changes its store.
    fn write(&mut self, ptr: &StoragePointer, value: Vec<u8>)
        requires
            ptr@ == state::total_supply_path() || ptr@ == state::redeem_count_path()
                ==> counter_slot(value@),
        ensures
            final(self)@ == old(self)@.insert(ptr@, value@),
    {
        proof {
            use_type_invariant(&*self);
            lemma_paths_distinct();
        }
        let mut storage = Storage::new();
        core::mem::swap(&mut self.storage, &mut storage);
        storage.set(ptr, value);
        core::mem::swap(&mut self.storage, &mut storage);
    }

    /// The paths of the token's single values, which every call may read:
    /// the mark of initialization, the name, the symbol, the metadata, the
    /// supply and the number of records, in this order.
    pub fn state_pointers() -> (ptrs: Vec<StoragePointer>)
        ensures
            ptrs@.map_values(|ptr: StoragePointer| ptr@) == seq![
                state::initialized_path(),
                state::name_path(),
                state::symbol_path(),
                state::data_path(),
                state::total_supply_path(),
                state::redeem_count_path(),
            ],
    {
        let mut ptrs: Vec<StoragePointer> = Vec::new();
        ptrs.push(StoragePointer::from_keyword("/initialized"));
        ptrs.push(StoragePointer::from_keyword("/name"));
        ptrs.push(StoragePointer::from_keyword("/symbol"));
        ptrs.push(StoragePointer::from_keyword("/data"));
        ptrs.push(StoragePointer::from_keyword("/totalsupply"));
        ptrs.push(StoragePointer::from_keyword("/redeem_count"));
        assert(ptrs@.map_values(|ptr: StoragePointer| ptr@) =~= seq![
            state::initialized_path(),
            state::name_path(),
            state::symbol_path(),
            state::data_path(),
            state::total_supply_path(),
            state::redeem_count_path(),
        ]);
        ptrs
    }

    /// Where the record with the given index is kept.
    pub fn redeem_ptr(&self, index: u128) -> (ptr: StoragePointer)
        ensures
            ptr@ == state::redeem_path(index),
    {
        StoragePointer::from_keyword("/redeem/").select_value(index)
    }

    /// Writes a record at the given index.
    pub fn set_redeem_info(&mut self, index: u128, redeem_info: RedeemInfo)
        ensures
            final(self)@ == old(self)@.insert(state::redeem_path(index), redeem_info.spec_bytes()),
            state::redeem_info(final(self)@, index) == redeem_info.spec_bytes(),
    {
        proof {
            lemma_paths_distinct();
        }
        let ptr = self.redeem_ptr(index);
        self.write(&ptr, redeem_info.try_to_vec());
    }

    /// The serialized record with the given index, empty where there is none.
    pub fn get_redeem_info(&self, index: u128) -> (bytes: Vec<u8>)
        ensures
            bytes@ == state::redeem_info(self@, index),
    {
        self.storage.get(&self.redeem_ptr(index))
    }

    /// Where the number of records is kept.
    pub fn redeem_count_ptr(&self) -> (ptr: StoragePointer)
        ensures
            ptr@ == state::redeem_count_path(),
    {
        StoragePointer::from_keyword("/redeem_count")
    }

    /// The number of records appended so far.
    pub fn get_redeem_count(&self) -> (count: u128)
        ensures
            count == state::redeem_count(self@),
    {
        proof {
            use_type_invariant(self);
        }
        let slot = self.storage.get(&self.redeem_count_ptr());
        read_counter(&slot)
    }

    /// Sets the number of records.
    pub fn set_redeem_count(&mut self, v: u128)
        ensures
            final(self)@ == old(self)@.insert(state::redeem_count_path(), counter_bytes(v)),
            state::redeem_count(final(self)@) == v,
    {
        proof {
            lemma_counter_round_trip(v);
        }
        let ptr = self.redeem_count_ptr();
        self.write(&ptr, u128_to_le_bytes(v));
    }

    /// Counts one more record.
    pub fn increment_redeem_count(&mut self)
        requires
            state::redeem_count(old(self)@) < u128::MAX,
        ensures
            final(self)@ == old(self)@.insert(
                state::redeem_count_path(),
                counter_bytes((state::redeem_count(old(self)@) + 1) as u128),
            ),
            state::redeem_count(final(self)@) == state::redeem_count(old(self)@) + 1,
    {
        let current = self.get_redeem_count();
        self.set_redeem_count(current + 1);
    }

    /// Appends a record to the log and returns the index it got: the number
    /// of records before the call.
    pub fn append_redeem_info(&mut self, redeem_info: RedeemInfo) -> (index: u128)
        requires
            state::redeem_count(old(self)@) < u128::MAX,
        ensures
            index == state::redeem_count(old(self)@),
            final(self)@ == old(self)@.insert(
                state::redeem_path(index),
                redeem_info.spec_bytes(),
            ).insert(state::redeem_count_path(), counter_bytes((index + 1) as u128)),
            state::redeem_count(final(self)@) == index + 1,
            state::redeem_info(final(self)@, index) == redeem_info.spec_bytes(),
    {
        proof {
            lemma_paths_distinct();
        }
        let index = self.get_redeem_count();
        self.set_redeem_info(index, redeem_info);
        self.increment_redeem_count();
        index
    }

    /// Where the total supply is kept.
    pub fn total_supply_ptr(&self) -> (ptr: StoragePointer)
        ensures
            ptr@ == state::total_supply_path(),
    {
        StoragePointer::from_keyword("/totalsupply")
    }

    /// The total supply: what was minted and not redeemed.
    pub fn total_supply(&self) -> (supply: u128)
        ensures
            supply == state::total_supply(self@),
    {
        proof {
            use_type_invariant(self);
        }
        let slot = self.storage.get(&self.total_supply_ptr());
        read_counter(&slot)
    }

    /// Sets the total supply.
    pub fn set_total_supply(&mut self, v: u128)
        ensures
            final(self)@ == old(self)@.insert(state::total_supply_path(), counter_bytes(v)),
            state::total_supply(final(self)@) == v,
    {
        proof {
            lemma_counter_round_trip(v);
        }
        let ptr = self.total_supply_ptr();
        self.write(&ptr, u128_to_le_bytes(v));
    }

    /// Adds `v` to the total supply, unless the sum is more than the supply
    /// can hold.
    pub fn increase_total_supply(&mut self, v: u128) -> (result: Result<(), TokenError>)
        ensures
            state::total_supply(old(self)@) + v <= u128::MAX ==> result is Ok && final(self)@
                == minted(old(self)@, v) && state::total_supply(final(self)@)
                == state::total_supply(old(self)@) + v,
            state::total_supply(old(self)@) + v > u128::MAX ==> result == Err::<(), TokenError>(
                TokenError::Overflow,
            ) && final(self)@ == old(self)@,
    {
        match self.total_supply().checked_add(v) {
            Some(sum) => {
                self.set_total_supply(sum);
                Ok(())
            },
            None => Err(TokenError::Overflow),
        }
    }

    /// Takes `v` from the total supply, unless it holds less.
    pub fn decrease_total_supply(&mut self, v: u128) -> (result: Result<(), TokenError>)
        ensures
            v <= state::total_supply(old(self)@) ==> result is Ok && final(self)@ == old(
                self,
            )@.insert(
                state::total_supply_path(),
                counter_bytes((state::total_supply(old(self)@) - v) as u128),
            ) && state::total_supply(final(self)@) == state::total_supply(old(self)@) - v,
            v > state::total_supply(old(self)@) ==> result == Err::<(), TokenError>(
                TokenError::Underflow,
            ) && final(self)@ == old(self)@,
    {
        match self.total_supply().checked_sub(v) {
            Some(rest) => {
                self.set_total_supply(rest);
                Ok(())
            },
            None => Err(TokenError::Underflow),
        }
    }

    /// Whether the token was initialized.
    pub fn is_initialized(&self) -> (done: bool)
        ensures
            done == state::is_initialized(self@),
    {
        self.storage.get(&StoragePointer::from_keyword("/initialized")).len() > 0
    }

    /// Marks the token as initialized, unless it carries the mark already.
    pub fn observe_initialization(&mut self) -> (result: Result<(), TokenError>)
        ensures
            !state::is_initialized(old(self)@) ==> result is Ok && final(self)@ == old(
                self,
            )@.insert(state::initialized_path(), state::initialized_mark()),
            state::is_initialized(old(self)@) ==> result == Err::<(), TokenError>(
                TokenError::AlreadyInitialized,
            ) && final(self)@ == old(self)@,
    {
        if self.is_initialized() {
            return Err(TokenError::AlreadyInitialized);
        }
        proof {
            lemma_paths_distinct();
        }
        let mut mark: Vec<u8> = Vec::new();
        mark.push(1u8);
        assert(mark@ == state::initialized_mark());
        self.write(&StoragePointer::from_keyword("/initialized"), mark);
        Ok(())
    }

    /// The token's name as it was stored.
    pub fn name(&self) -> (bytes: Vec<u8>)
        ensures
            bytes@ == state::name(self@),
    {
        self.storage.get(&StoragePointer::from_keyword("/name"))
    }

    /// The token's symbol as it was stored.
    pub fn symbol(&self) -> (bytes: Vec<u8>)
        ensures
            bytes@ == state::symbol(self@),
    {
        self.storage.get(&StoragePointer::from_keyword("/symbol"))
    }

    /// The metadata blob.
    pub fn data(&self) -> (bytes: Vec<u8>)
        ensures
            bytes@ == state::data(self@),
    {
        self.storage.get(&StoragePointer::from_keyword("/data"))
    }

    /// Stores the token's name and symbol.
    pub fn set_name_and_symbol_str(&mut self, name: String, symbol: String)
        ensures
            final(self)@ == old(self)@.insert(state::name_path(), encode_utf8(name@)).insert(
                state::symbol_path(),
                encode_utf8(symbol@),
            ),
    {
        proof {
            lemma_paths_distinct();
        }
        self.write(&StoragePointer::from_keyword("/name"), name.as_str().as_bytes_vec());
        self.write(&StoragePointer::from_keyword("/symbol"), symbol.as_str().as_bytes_vec());
    }

    /// Stores the metadata blob.
    pub fn set_data(&mut self, data: Vec<u8>)
        ensures
            final(self)@ == old(self)@.insert(state::data_path(), data@),
    {
        proof {
            lemma_paths_distinct();
        }
        self.write(&StoragePointer::from_keyword("/data"), data);
    }
}

impl bUSD {
    /// Initializes the token under its default name and symbol.
    pub fn initialize(
        &mut self,
        context: &Context,
        auth_token: AlkaneTransfer,
        data: Vec<u8>,
        token_units: u128,
    ) -> (result: Result<CallResponse, TokenError>)
        ensures
            final(self)@ == after_call(
                old(self)@,
                initialize_call(DEFAULT_NAME@, DEFAULT_NAME@, data@, token_units),
            ),
            answered(
                result,
                refusal(
                    old(self)@,
                    initialize_call(DEFAULT_NAME@, DEFAULT_NAME@, data@, token_units),
                ),
                initialize_response(context, auth_token, token_units),
            ),
    {
        self.initialize_with_name_symbol(
            context,
            auth_token,
            data,
            token_units,
            DEFAULT_NAME.to_string(),
            DEFAULT_NAME.to_string(),
        )
    }

    /// Initializes the token: stores its name, symbol and metadata, mints
    /// `token_units` to the caller and opens an empty log of redemptions. The
    /// response hands back what came in, then the grant of the owner's
    /// capability, then what was minted. A token can be initialized once.
    pub fn initialize_with_name_symbol(
        &mut self,
        context: &Context,
        auth_token: AlkaneTransfer,
        data: Vec<u8>,
        token_units: u128,
        name: String,
        symbol: String,
    ) -> (result: Result<CallResponse, TokenError>)
        ensures
            final(self)@ == after_call(
                old(self)@,
                initialize_call(name@, symbol@, data@, token_units),
            ),
            answered(
                result,
                refusal(old(self)@, initialize_call(name@, symbol@, data@, token_units)),
                initialize_response(context, auth_token, token_units),
            ),
    {
        if self.is_initialized() {
            return Err(TokenError::AlreadyInitialized);
        }
        let supply = match self.total_supply().checked_add(token_units) {
            Some(sum) => sum,
            None => {
                return Err(TokenError::Overflow);
            },
        };
        proof {
            lemma_paths_distinct();
        }
        let _ = self.observe_initialization();
        let mut response = CallResponse::forward(&context.incoming_alkanes);
        self.set_name_and_symbol_str(name, symbol);
        self.set_data(data);
        response.alkanes.pay(auth_token);
        self.set_total_supply(supply);
        response.alkanes.pay(AlkaneTransfer { id: context.myself, value: token_units });
        self.set_redeem_count(0);
        Ok(response)
    }

    /// Mints `token_units` to the caller, who must hold the owner's
    /// capability: `authorized` is the outcome of that check. The response
    /// hands back what came in, then what was minted.
    pub fn mint(&mut self, context: &Context, authorized: bool, token_units: u128) -> (result:
        Result<CallResponse, TokenError>)
        ensures
            final(self)@ == after_call(old(self)@, Call::Mint { authorized, token_units }),
            answered(
                result,
                refusal(old(self)@, Call::Mint { authorized, token_units }),
                mint_response(context, token_units),
            ),
            result is Ok ==> state::total_supply(final(self)@) == state::total_supply(old(self)@)
                + token_units,
    {
        let mut response = CallResponse::forward(&context.incoming_alkanes);
        if !authorized {
            return Err(TokenError::Unauthorized);
        }
        let supply = match self.total_supply().checked_add(token_units) {
            Some(sum) => sum,
            None => {
                return Err(TokenError::Overflow);
            },
        };
        if !self.is_initialized() {
            return Err(TokenError::NotInitialized);
        }
        self.set_total_supply(supply);
        response.alkanes.pay(AlkaneTransfer { id: context.myself, value: token_units });
        Ok(response)
    }

    /// Redeems the one transfer that came with the call, which must be of the
    /// token's own asset: its value leaves the supply, and a record of the
    /// request is appended to the log under the identifier of the enclosing
    /// transaction, whose bytes are `transaction`. The response is empty: what
    /// was redeemed is not handed back.
    pub fn redeem(
        &mut self,
        context: &Context,
        transaction: &[u8],
        token_id: u128,
        destination_chain_id: u128,
        destination_address_h1: u128,
        destination_address_h2: u128,
    ) -> (result: Result<CallResponse, TokenError>)
        ensures
            redeem_outcome(
                old(self)@,
                final(self)@,
                result,
                redeem_call(
                    context,
                    transaction_id(transaction@),
                    token_id,
                    destination_chain_id,
                    destination_address_h1,
                    destination_address_h2,
                ),
            ),
    {
        let txid = decode_transaction_id(transaction);
        self.redeem_with_txid(
            context,
            txid,
            token_id,
            destination_chain_id,
            destination_address_h1,
            destination_address_h2,
        )
    }

    /// Redeems as `redeem` does, with the identifier of the enclosing
    /// transaction given: `None` where its bytes did not decode.
    pub fn redeem_with_txid(
        &mut self,
        context: &Context,
        txid: Option<[u8; 32]>,
        token_id: u128,
        destination_chain_id: u128,
        destination_address_h1: u128,
        destination_address_h2: u128,
    ) -> (result: Result<CallResponse, TokenError>)
        ensures
            redeem_outcome(
                old(self)@,
                final(self)@,
                result,
                redeem_call(
                    context,
                    txid,
                    token_id,
                    destination_chain_id,
                    destination_address_h1,
                    destination_address_h2,
                ),
            ),
    {
        if context.incoming_alkanes.0.len() != 1 {
            return Err(TokenError::InvalidInputCount);
        }
        let incoming = context.incoming_alkanes.0[0];
        if context.myself != incoming.id {
            return Err(TokenError::WrongAsset);
        }
        if incoming.value > self.total_supply() {
            return Err(TokenError::Underflow);
        }
        let txid = match txid {
            Some(bytes) => bytes,
            None => {
                return Err(TokenError::InvalidTransaction);
            },
        };
        if self.get_redeem_count() == u128::MAX {
            return Err(TokenError::Overflow);
        }
        if !self.is_initialized() {
            return Err(TokenError::NotInitialized);
        }
        proof {
            lemma_paths_distinct();
        }
        let _ = self.decrease_total_supply(incoming.value);
        let redeem_info = RedeemInfo {
            amount: incoming.value,
            token_id,
            destination_chain_id,
            destination_address_h1,
            destination_address_h2,
            txid,
        };
        let _ = self.append_redeem_info(redeem_info);
        Ok(CallResponse::default())
    }

    /// The token's name.
    pub fn get_name(&self, context: &Context) -> (response: CallResponse)
        ensures
            response@ == (ResponseView {
                alkanes: context.incoming_alkanes@,
                data: state::name(self@),
            }),
    {
        let mut response = CallResponse::forward(&context.incoming_alkanes);
        response.data = self.name();
        response
    }

    /// The token's symbol.
    pub fn get_symbol(&self, context: &Context) -> (response: CallResponse)
        ensures
            response@ == (ResponseView {
                alkanes: context.incoming_alkanes@,
                data: state::symbol(self@),
            }),
    {
        let mut response = CallResponse::forward(&context.incoming_alkanes);
        response.data = self.symbol();
        response
    }

    /// The serialized record with the given index, empty where there is none.
    pub fn get_redeem_info_by_index(&self, context: &Context, index: u128) -> (response:
        CallResponse)
        ensures
            response@ == (ResponseView {
                alkanes: context.incoming_alkanes@,
                data: state::redeem_info(self@, index),
            }),
    {
        let mut response = CallResponse::forward(&context.incoming_alkanes);
        response.data = self.get_redeem_info(index);
        response
    }

    /// The number of records, as 16 little-endian bytes.
    pub fn get_total_redeem_count(&self, context: &Context) -> (response: CallResponse)
        ensures
            response@ == (ResponseView {
                alkanes: context.incoming_alkanes@,
                data: counter_bytes(state::redeem_count(self@)),
            }),
    {
        let mut response = CallResponse::forward(&context.incoming_alkanes);
        response.data = u128_to_le_bytes(self.get_redeem_count());
        response
    }

    /// The total supply, as 16 little-endian bytes.
    pub fn get_total_supply(&self, context: &Context) -> (response: CallResponse)
        ensures
            response@ == (ResponseView {
                alkanes: context.incoming_alkanes@,
                data: counter_bytes(state::total_supply(self@)),
            }),
    {
        let mut response = CallResponse::forward(&context.incoming_alkanes);
        response.data = u128_to_le_bytes(self.total_supply());
        response
    }

    /// The metadata blob.
    pub fn get_data(&self, context: &Context) -> (response: CallResponse)
        ensures
            response@ == (ResponseView {
                alkanes: context.incoming_alkanes@,
                data: state::data(self@),
            }),
    {
        let mut response = CallResponse::forward(&context.incoming_alkanes);
        response.data = self.data();
        response
    }
}

/// Whether `result` is the answer to a call: the error where the call is
/// refused, else the given response.
pub open spec fn answered(
    result: Result<CallResponse, TokenError>,
    refused: Option<TokenError>,
    response: ResponseView,
) -> bool {
    match refused {
        Some(error) => result == Err::<CallResponse, TokenError>(error),
        None => result matches Ok(given) && given@ == response,
    }
}

/// The initialization that stores the given name and symbol as text.
pub open spec fn initialize_call(
    name: Seq<char>,
    symbol: Seq<char>,
    data: Seq<u8>,
    token_units: u128,
) -> Call {
    Call::Initialize { name: encode_utf8(name), symbol: encode_utf8(symbol), data, token_units }
}

/// The response to an accepted initialization: what came in, then the grant
/// of the owner's capability, then what was minted.
pub open spec fn initialize_response(
    context: &Context,
    auth_token: AlkaneTransfer,
    token_units: u128,
) -> ResponseView {
    ResponseView {
        alkanes: context.incoming_alkanes@.push(auth_token).push(
            AlkaneTransfer { id: context.myself, value: token_units },
        ),
        data: Seq::empty(),
    }
}

/// The response to an accepted mint: what came in, then what was minted.
pub open spec fn mint_response(context: &Context, token_units: u128) -> ResponseView {
    ResponseView {
        alkanes: context.incoming_alkanes@.push(
            AlkaneTransfer { id: context.myself, value: token_units },
        ),
        data: Seq::empty(),
    }
}

/// The redemption that a call in `context` asks for.
pub open spec fn redeem_call(
    context: &Context,
    txid: Option<[u8; 32]>,
    token_id: u128,
    destination_chain_id: u128,
    destination_address_h1: u128,
    destination_address_h2: u128,
) -> Call {
    Call::Redeem {
        myself: context.myself,
        incoming: context.incoming_alkanes@,
        txid,
        token_id,
        destination_chain_id,
        destination_address_h1,
        destination_address_h2,
    }
}

/// What a redemption does. Refused, it changes nothing and answers with the
/// error. Accepted, it answers with the empty response; the value of the
/// transfer has left the supply, the number of records is one higher, and
/// the record stands at the index that the number of records gave before.
pub open spec fn redeem_outcome(
    before: StorageMap,
    after: StorageMap,
    result: Result<CallResponse, TokenError>,
    call: Call,
) -> bool {
    &&& after == after_call(before, call)
    &&& answered(
        result,
        refusal(before, call),
        ResponseView { alkanes: Seq::empty(), data: Seq::empty() },
    )
    &&& result is Ok ==> {
        &&& state::total_supply(after) == state::total_supply(before) - state::record_of(
            call,
        ).amount
        &&& state::redeem_count(after) == state::redeem_count(before) + 1
        &&& state::redeem_info(after, state::redeem_count(before)) == state::record_of(
            call,
        ).spec_bytes()
    }
}

} // verus!
