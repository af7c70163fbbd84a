use busd::txid::decode_transaction_id;
use busd::{bUSD, AlkaneId, AlkaneTransfer, AlkaneTransferParcel, Context};

const GENESIS_COINBASE: &str = "01000000010000000000000000000000000000000000000000000000000000000000000000ffffffff4d04ffff001d0104455468652054696d65732030332f4a616e2f32303039204368616e63656c6c6f72206f6e206272696e6b206f66207365636f6e64206261696c6f757420666f722062616e6b73ffffffff0100f2052a01000000434104678afdb0fe5548271967f1a67130b7105cd6a828e03909a67962e0ea1f61deb649f6bc3f4cef38c4f35504e51ec112de5c384df7ba0b8d578a4c702b6bf11d5fac00000000";

const GENESIS_TXID: &str = "4a5e1e4baab89f3a32518a88c31bc87f618f76673e2cc77ab2127b7afdeda33b";

fn unhex(text: &str) -> Vec<u8> {
    let digits: Vec<u8> = text.bytes().map(|c| (c as char).to_digit(16).unwrap() as u8).collect();
    digits.chunks(2).map(|pair| pair[0] * 16 + pair[1]).collect()
}

fn small_transaction() -> bitcoin::Transaction {
    bitcoin::Transaction {
        version: bitcoin::transaction::Version::ONE,
        lock_time: bitcoin::absolute::LockTime::ZERO,
        input: vec![bitcoin::TxIn {
            previous_output: bitcoin::OutPoint::null(),
            script_sig: bitcoin::ScriptBuf::new(),
            sequence: bitcoin::Sequence::MAX,
            witness: bitcoin::Witness::new(),
        }],
        output: vec![bitcoin::TxOut {
            value: bitcoin::Amount::from_sat(546),
            script_pubkey: bitcoin::ScriptBuf::new(),
        }],
    }
}

#[test]
fn known_transaction_has_its_known_identifier() {
    let raw = unhex(GENESIS_COINBASE);
    let mut expected = unhex(GENESIS_TXID);
    expected.reverse();
    let id = decode_transaction_id(&raw).unwrap();
    assert_eq!(id.to_vec(), expected);
    assert_eq!(id[0], 0x3b);
    assert_eq!(id[31], 0x4a);
}

#[test]
fn identifier_is_the_one_the_transaction_computes() {
    let transaction = small_transaction();
    let raw = bitcoin::consensus::serialize(&transaction);
    let id = decode_transaction_id(&raw).unwrap();
    let computed = bitcoin::hashes::Hash::to_byte_array(transaction.compute_txid());
    assert_eq!(id, computed);
    assert_ne!(id.to_vec(), raw);
}

#[test]
fn bytes_after_the_transaction_are_ignored() {
    let transaction = small_transaction();
    let mut raw = bitcoin::consensus::serialize(&transaction);
    let id = decode_transaction_id(&raw).unwrap();
    raw.extend_from_slice(&[1, 2, 3, 4]);
    assert_eq!(decode_transaction_id(&raw), Some(id));
}

#[test]
fn bytes_that_are_no_transaction_have_no_identifier() {
    assert_eq!(decode_transaction_id(&[]), None);
    assert_eq!(decode_transaction_id(&[0, 1, 2]), None);
    let raw = unhex(GENESIS_COINBASE);
    assert_eq!(decode_transaction_id(&raw[..raw.len() - 1]), None);
}

#[test]
fn redeem_records_the_identifier_of_the_enclosing_transaction() {
    let myself = AlkaneId::new(2, 1);
    let empty = Context {
        myself,
        caller: AlkaneId::new(0, 0),
        vout: 0,
        incoming_alkanes: AlkaneTransferParcel(vec![]),
        inputs: vec![],
    };
    let mut token = bUSD::default();
    token
        .initialize(&empty, AlkaneTransfer { id: AlkaneId::new(2, 2), value: 100 }, vec![], 1000)
        .unwrap();
    let redeeming = Context {
        myself,
        caller: AlkaneId::new(0, 0),
        vout: 0,
        incoming_alkanes: AlkaneTransferParcel(vec![AlkaneTransfer { id: myself, value: 100 }]),
        inputs: vec![88, 1, 2, 3, 4],
    };
    let raw = unhex(GENESIS_COINBASE);
    let response = token.redeem(&redeeming, &raw, 1, 2, 3, 4).unwrap();
    assert_eq!(response.alkanes.0, vec![]);
    assert_eq!(response.data, Vec::<u8>::new());
    assert_eq!(token.total_supply(), 900);
    assert_eq!(token.get_redeem_count(), 1);
    let record = token.get_redeem_info_by_index(&empty, 0).data;
    let mut expected = unhex(GENESIS_TXID);
    expected.reverse();
    assert_eq!(&record[80..112], &expected[..]);
    assert_eq!(record[0], 100);
    assert_eq!(record[16], 1);
    assert_eq!(record[32], 2);
    assert_eq!(record[48], 3);
    assert_eq!(record[64], 4);
}
