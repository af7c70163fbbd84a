use busd::{
    extract_witness_payload, AlkaneId, AlkaneTransfer, AlkaneTransferParcel, CallResponse,
    Cellpack, Context, DieselProxy, ProxyStep, WitnessProxy, WitnessStep,
};

fn context(inputs: Vec<u128>, incoming: Vec<AlkaneTransfer>) -> Context {
    Context {
        myself: AlkaneId::new(4, 1),
        caller: AlkaneId::new(0, 0),
        vout: 3,
        incoming_alkanes: AlkaneTransferParcel(incoming),
        inputs,
    }
}

#[test]
fn proxies_hand_back_what_came_in_on_initialize() {
    let incoming = vec![AlkaneTransfer { id: AlkaneId::new(2, 5), value: 8 }];
    let context = context(vec![69690420], incoming.clone());
    let response = DieselProxy::default().initialize(&context);
    assert_eq!(response.alkanes.0, incoming);
    assert_eq!(response.data, Vec::<u8>::new());
    let response = WitnessProxy::default().initialize(&context);
    assert_eq!(response.alkanes.0, incoming);
    assert_eq!(response.data, Vec::<u8>::new());
}

#[test]
fn diesel_proxy_mints_then_forwards_then_answers() {
    let proxy = DieselProxy::default();
    let incoming = vec![AlkaneTransfer { id: AlkaneId::new(2, 9), value: 5 }];
    let context = context(vec![2, 1, 22, 100000], incoming.clone());
    let mut answers: Vec<CallResponse> = Vec::new();

    let first = proxy.fallback(&context, &answers);
    assert_eq!(
        first,
        ProxyStep::Call {
            cellpack: Cellpack { target: AlkaneId::new(2, 0), inputs: vec![77] },
            parcel: AlkaneTransferParcel(vec![]),
        }
    );
    answers.push(CallResponse {
        alkanes: AlkaneTransferParcel(vec![
            AlkaneTransfer { id: AlkaneId::new(2, 0), value: 312500000 },
            AlkaneTransfer { id: AlkaneId::new(2, 0), value: 1 },
        ]),
        data: vec![1],
    });

    let second = proxy.fallback(&context, &answers);
    assert_eq!(
        second,
        ProxyStep::Call {
            cellpack: Cellpack { target: AlkaneId::new(2, 1), inputs: vec![22, 100000] },
            parcel: AlkaneTransferParcel(incoming),
        }
    );
    answers.push(CallResponse {
        alkanes: AlkaneTransferParcel(vec![AlkaneTransfer {
            id: AlkaneId::new(2, 1),
            value: 100000,
        }]),
        data: vec![0xaa, 0xbb],
    });

    let last = proxy.fallback(&context, &answers);
    assert_eq!(
        last,
        ProxyStep::Return(CallResponse {
            alkanes: AlkaneTransferParcel(vec![
                AlkaneTransfer { id: AlkaneId::new(2, 1), value: 100000 },
                AlkaneTransfer { id: AlkaneId::new(2, 0), value: 312500000 },
            ]),
            data: vec![0xaa, 0xbb],
        })
    );
}

#[test]
fn diesel_proxy_forwards_a_call_without_words() {
    let proxy = DieselProxy::default();
    let context = context(vec![7, 8], vec![]);
    let answers = vec![CallResponse::default()];
    assert_eq!(
        proxy.fallback(&context, &answers),
        ProxyStep::Call {
            cellpack: Cellpack { target: AlkaneId::new(7, 8), inputs: vec![] },
            parcel: AlkaneTransferParcel(vec![]),
        }
    );
}

#[test]
fn first_payload_that_is_not_empty_is_taken() {
    assert_eq!(extract_witness_payload(&vec![]), None);
    assert_eq!(extract_witness_payload(&vec![None, None]), None);
    assert_eq!(extract_witness_payload(&vec![Some(vec![]), None, Some(vec![])]), None);
    assert_eq!(extract_witness_payload(&vec![Some(vec![1, 2])]), Some(vec![1, 2]));
    assert_eq!(
        extract_witness_payload(&vec![None, Some(vec![]), Some(vec![3]), Some(vec![4])]),
        Some(vec![3])
    );
    assert_eq!(
        extract_witness_payload(&vec![Some(vec![0]), Some(vec![1])]),
        Some(vec![0])
    );
}

#[test]
fn parcel_pays_at_the_end() {
    let mut parcel = AlkaneTransferParcel::default();
    parcel.pay(AlkaneTransfer { id: AlkaneId::new(1, 1), value: 1 });
    parcel.pay(AlkaneTransfer { id: AlkaneId::new(1, 1), value: 2 });
    assert_eq!(
        parcel.0,
        vec![
            AlkaneTransfer { id: AlkaneId::new(1, 1), value: 1 },
            AlkaneTransfer { id: AlkaneId::new(1, 1), value: 2 },
        ]
    );
    assert_eq!(parcel.clone(), parcel);
    let response = CallResponse::forward(&parcel);
    assert_eq!(response.alkanes, parcel);
    assert_eq!(response.data, Vec::<u8>::new());
}

#[test]
fn witness_proxy_fails_without_a_payload() {
    let proxy = WitnessProxy::default();
    let context = context(vec![1, 2, 3], vec![]);
    assert_eq!(proxy.fallback(&context, &vec![], &None, &vec![]), WitnessStep::Fail);
    assert_eq!(
        proxy.fallback(&context, &vec![None, Some(vec![])], &None, &vec![]),
        WitnessStep::Fail
    );
    let decoded = Some(Cellpack { target: AlkaneId::new(2, 1), inputs: vec![77] });
    let answers = vec![CallResponse::default()];
    assert_eq!(proxy.fallback(&context, &vec![None], &decoded, &answers), WitnessStep::Fail);
}

#[test]
fn witness_proxy_decodes_then_forwards_then_answers() {
    let proxy = WitnessProxy::default();
    let incoming = vec![AlkaneTransfer { id: AlkaneId::new(2, 9), value: 5 }];
    let context = context(vec![7], incoming.clone());
    let payloads = vec![None, Some(vec![]), Some(vec![2, 1, 77]), Some(vec![9])];
    let mut decoded = None;
    let mut answers: Vec<CallResponse> = Vec::new();

    assert_eq!(
        proxy.fallback(&context, &payloads, &decoded, &answers),
        WitnessStep::Decode(vec![2, 1, 77])
    );
    decoded = Some(Cellpack { target: AlkaneId::new(2, 1), inputs: vec![77, 5] });

    assert_eq!(
        proxy.fallback(&context, &payloads, &decoded, &answers),
        WitnessStep::Call {
            cellpack: Cellpack { target: AlkaneId::new(2, 1), inputs: vec![77, 5] },
            parcel: AlkaneTransferParcel(incoming),
        }
    );
    answers.push(CallResponse {
        alkanes: AlkaneTransferParcel(vec![AlkaneTransfer { id: AlkaneId::new(2, 1), value: 5 }]),
        data: vec![0xca, 0xfe],
    });

    assert_eq!(
        proxy.fallback(&context, &payloads, &decoded, &answers),
        WitnessStep::Return(CallResponse {
            alkanes: AlkaneTransferParcel(vec![AlkaneTransfer {
                id: AlkaneId::new(2, 1),
                value: 5,
            }]),
            data: vec![0xca, 0xfe],
        })
    );
}
