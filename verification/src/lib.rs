//! A token that is minted by its owner and redeemed for assets on other
//! chains, with an append-only log of the redemptions, and two small proxy
//! contracts. Everything here decides on plain values: the store that the
//! token lives in is handed to it, and so is what the host knows of a call.

pub mod error;
pub mod laws;
pub mod pointer;
pub mod proxy;
pub mod redeem_info;
pub mod state;
pub mod storage;
pub mod support;
pub mod token;
pub mod txid;

pub use error::TokenError;
pub use pointer::StoragePointer;
pub use proxy::{extract_witness_payload, DieselProxy, ProxyStep, WitnessProxy, WitnessStep};
pub use redeem_info::RedeemInfo;
pub use storage::Storage;
pub use support::{
    AlkaneId, AlkaneTransfer, AlkaneTransferParcel, CallResponse, Cellpack, Context,
};
pub use token::{bUSD, BUSD_DEPLOYMENT_ID};
