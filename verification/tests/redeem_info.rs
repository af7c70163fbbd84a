use busd::redeem_info::{
    AMOUNT_OFFSET, DESTINATION_ADDRESS_H1_OFFSET, DESTINATION_ADDRESS_H2_OFFSET,
    DESTINATION_CHAIN_ID_OFFSET, REDEEM_INFO_LEN, TOKEN_ID_OFFSET, TXID_OFFSET,
};
use busd::RedeemInfo;

fn sample() -> RedeemInfo {
    let mut txid = [0u8; 32];
    for (i, byte) in txid.iter_mut().enumerate() {
        *byte = 0xe0 + i as u8 % 0x20;
    }
    RedeemInfo {
        amount: 100,
        token_id: 1,
        destination_chain_id: 2,
        destination_address_h1: 3,
        destination_address_h2: 4,
        txid,
    }
}

#[test]
fn record_is_112_bytes() {
    assert_eq!(REDEEM_INFO_LEN, 112);
    assert_eq!(sample().try_to_vec().len(), 112);
}

#[test]
fn fields_stand_at_fixed_offsets() {
    assert_eq!(
        (
            AMOUNT_OFFSET,
            TOKEN_ID_OFFSET,
            DESTINATION_CHAIN_ID_OFFSET,
            DESTINATION_ADDRESS_H1_OFFSET,
            DESTINATION_ADDRESS_H2_OFFSET,
            TXID_OFFSET
        ),
        (0, 16, 32, 48, 64, 80)
    );
    let info = sample();
    let bytes = info.try_to_vec();
    let mut expected = Vec::new();
    for word in [100u128, 1, 2, 3, 4] {
        expected.push(word as u8);
        expected.extend_from_slice(&[0u8; 15]);
    }
    expected.extend_from_slice(&info.txid);
    assert_eq!(bytes, expected);
    assert_eq!(bytes[TXID_OFFSET], 0xe0);
    assert_eq!(bytes[111], 0xff);
}

#[test]
fn fields_are_little_endian() {
    let info = RedeemInfo {
        amount: 0x0102030405060708090a0b0c0d0e0f10,
        token_id: 0xff00,
        destination_chain_id: 1 << 127,
        destination_address_h1: u128::MAX,
        destination_address_h2: 0,
        txid: [0; 32],
    };
    let bytes = info.try_to_vec();
    assert_eq!(
        &bytes[0..16],
        &[
            0x10, 0x0f, 0x0e, 0x0d, 0x0c, 0x0b, 0x0a, 0x09, 0x08, 0x07, 0x06, 0x05, 0x04, 0x03,
            0x02, 0x01
        ]
    );
    assert_eq!(&bytes[16..18], &[0x00, 0xff]);
    assert_eq!(bytes[47], 0x80);
    assert_eq!(&bytes[48..64], &[0xff; 16]);
    assert_eq!(&bytes[64..112], &[0u8; 48][..]);
}

#[test]
fn different_records_have_different_bytes() {
    let info = sample();
    let mut other = info;
    other.destination_address_h2 = 5;
    assert_ne!(info.try_to_vec(), other.try_to_vec());
    let mut third = info;
    third.txid[31] ^= 1;
    assert_ne!(info.try_to_vec(), third.try_to_vec());
    assert_eq!(info.try_to_vec(), sample().try_to_vec());
}
