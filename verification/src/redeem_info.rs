//! The redemption record and its serialized layout.

use vstd::prelude::*;
use vstd::bytes::{
    lemma_auto_spec_u128_to_from_le_bytes, spec_u128_from_le_bytes, spec_u128_to_le_bytes,
    u128_to_le_bytes,
};

verus! {

/// The length in bytes of a serialized redemption record.
pub const REDEEM_INFO_LEN: usize = 112;

/// The offset of the amount in a serialized redemption record.
pub const AMOUNT_OFFSET: usize = 0;

/// The offset of the asset asked for.
pub const TOKEN_ID_OFFSET: usize = 16;

/// The offset of the destination chain.
pub const DESTINATION_CHAIN_ID_OFFSET: usize = 32;

/// The offset of the first half of the destination address.
pub const DESTINATION_ADDRESS_H1_OFFSET: usize = 48;

/// The offset of the second half of the destination address.
pub const DESTINATION_ADDRESS_H2_OFFSET: usize = 64;

/// The offset of the transaction identifier.
pub const TXID_OFFSET: usize = 80;

/// One request to redeem the token for an asset on another chain.
#[derive(Clone, Copy, Debug, PartialEq, Eq)]
pub struct RedeemInfo {
    /// The quantity of the token that was redeemed.
    pub amount: u128,
    /// The asset asked for in return.
    pub token_id: u128,
    /// The chain on which it is asked for.
    pub destination_chain_id: u128,
    /// The first 16 bytes of the address on that chain.
    pub destination_address_h1: u128,
    /// The last 4 bytes of the address on that chain.
    pub destination_address_h2: u128,
    /// The identifier of the transaction that carried the request.
    pub txid: [u8; 32],
}

/// The bytes of a 128-bit field: little-endian, 16 of them.
pub open spec fn field_bytes(value: u128) -> Seq<u8> {
    spec_u128_to_le_bytes(value)
}

/// The 128-bit field that starts at `offset` in `record`.
pub open spec fn field_at(record: Seq<u8>, offset: int) -> u128 {
    spec_u128_from_le_bytes(record.subrange(offset, offset + 16))
}

impl RedeemInfo {
    /// The serialized record: the five 128-bit fields in declaration order,
    /// each as 16 little-endian bytes, then the 32 bytes of the transaction
    /// identifier.
    pub open spec fn spec_bytes(&self) -> Seq<u8> {
        field_bytes(self.amount) + field_bytes(self.token_id) + field_bytes(
            self.destination_chain_id,
        ) + field_bytes(self.destination_address_h1) + field_bytes(self.destination_address_h2)
            + self.txid@
    }

    /// Serializes the record.
    pub fn try_to_vec(&self) -> (bytes: Vec<u8>)
        ensures
            bytes@ == self.spec_bytes(),
            bytes@.len() == REDEEM_INFO_LEN,
    {
        let mut bytes: Vec<u8> = Vec::new();
        let mut amount = u128_to_le_bytes(self.amount);
        bytes.append(&mut amount);
        let mut token_id = u128_to_le_bytes(self.token_id);
        bytes.append(&mut token_id);
        let mut chain_id = u128_to_le_bytes(self.destination_chain_id);
        bytes.append(&mut chain_id);
        let mut h1 = u128_to_le_bytes(self.destination_address_h1);
        bytes.append(&mut h1);
        let mut h2 = u128_to_le_bytes(self.destination_address_h2);
        bytes.append(&mut h2);
        let mut i: usize = 0;
        while i < 32
            invariant
                i <= 32,
                bytes@ == field_bytes(self.amount) + field_bytes(self.token_id) + field_bytes(
                    self.destination_chain_id,
                ) + field_bytes(self.destination_address_h1) + field_bytes(
                    self.destination_address_h2,
                ) + self.txid@.take(i as int),
            decreases 32 - i,
        {
            bytes.push(self.txid[i]);
            i += 1;
        }
        assert(self.txid@.take(32) == self.txid@);
        bytes
    }

    /// A serialized record is 112 bytes long, and each field can be read back
    /// at its fixed offset: the amount at 0, the asset at 16, the chain at 32,
    /// the two halves of the address at 48 and 64, the transaction identifier
    /// at 80.
    pub proof fn lemma_layout(&self)
        ensures
            self.spec_bytes().len() == REDEEM_INFO_LEN == 112,
            AMOUNT_OFFSET == 0 && TOKEN_ID_OFFSET == 16 && DESTINATION_CHAIN_ID_OFFSET == 32
                && DESTINATION_ADDRESS_H1_OFFSET == 48 && DESTINATION_ADDRESS_H2_OFFSET == 64
                && TXID_OFFSET == 80,
            self.spec_bytes().subrange(0, 16) == field_bytes(self.amount),
            self.spec_bytes().subrange(16, 32) == field_bytes(self.token_id),
            self.spec_bytes().subrange(32, 48) == field_bytes(self.destination_chain_id),
            self.spec_bytes().subrange(48, 64) == field_bytes(self.destination_address_h1),
            self.spec_bytes().subrange(64, 80) == field_bytes(self.destination_address_h2),
            self.spec_bytes().subrange(80, 112) == self.txid@,
            field_at(self.spec_bytes(), AMOUNT_OFFSET as int) == self.amount,
            field_at(self.spec_bytes(), TOKEN_ID_OFFSET as int) == self.token_id,
            field_at(self.spec_bytes(), DESTINATION_CHAIN_ID_OFFSET as int)
                == self.destination_chain_id,
            field_at(self.spec_bytes(), DESTINATION_ADDRESS_H1_OFFSET as int)
                == self.destination_address_h1,
            field_at(self.spec_bytes(), DESTINATION_ADDRESS_H2_OFFSET as int)
                == self.destination_address_h2,
    {
        lemma_auto_spec_u128_to_from_le_bytes();
        let b = self.spec_bytes();
        assert(b.len() == 112);
        assert(b.subrange(0, 16) =~= field_bytes(self.amount));
        assert(b.subrange(16, 32) =~= field_bytes(self.token_id));
        assert(b.subrange(32, 48) =~= field_bytes(self.destination_chain_id));
        assert(b.subrange(48, 64) =~= field_bytes(self.destination_address_h1));
        assert(b.subrange(64, 80) =~= field_bytes(self.destination_address_h2));
        assert(b.subrange(80, 112) =~= self.txid@);
    }

    /// Two records with the same bytes are the same record.
    pub proof fn lemma_bytes_injective(&self, other: &RedeemInfo)
        requires
            self.spec_bytes() == other.spec_bytes(),
        ensures
            *self == *other,
    {
        self.lemma_layout();
        other.lemma_layout();
        assert(self.txid@ == other.txid@);
        assert(self.txid == other.txid);
    }
}

} // verus!
