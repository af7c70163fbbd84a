//! The decisions of the two proxy contracts.

use vstd::prelude::*;
use crate::pointer::copy_bytes;
use crate::support::{
    AlkaneId, AlkaneTransfer, AlkaneTransferParcel, CallResponse, Cellpack, Context, ResponseView,
};

verus! {

/// The opcode by which the diesel contract mints.
pub const DIESEL_MINT_OPCODE: u128 = 77;

/// What a proxy does next: it asks the host to make a call, or it answers.
#[derive(Debug, PartialEq, Eq)]
pub enum ProxyStep {
    /// Make this call with these transfers, and come back with the answer.
    Call { cellpack: Cellpack, parcel: AlkaneTransferParcel },
    /// Answer the caller with this response.
    Return(CallResponse),
}

/// The identity of the diesel contract.
pub open spec fn diesel_id() -> AlkaneId {
    AlkaneId { block: 2, tx: 0 }
}

/// The call that the first two words of `inputs` name: they are the target,
/// the rest are the words of the call.
pub open spec fn forwarded_target(inputs: Seq<u128>) -> AlkaneId {
    AlkaneId { block: inputs[0], tx: inputs[1] }
}

/// The step that the diesel proxy takes on a call outside its own opcodes,
/// when `answers` holds the answers to the calls it has asked for so far.
pub open spec fn diesel_step(
    inputs: Seq<u128>,
    incoming: Seq<AlkaneTransfer>,
    answers: Seq<ResponseView>,
    step: ProxyStep,
) -> bool {
    if answers.len() == 0 {
        &&& step matches ProxyStep::Call { cellpack, parcel }
        &&& cellpack.target == diesel_id()
        &&& cellpack.inputs@ == seq![DIESEL_MINT_OPCODE]
        &&& parcel@ == Seq::<AlkaneTransfer>::empty()
    } else if answers.len() == 1 {
        &&& step matches ProxyStep::Call { cellpack, parcel }
        &&& cellpack.target == forwarded_target(inputs)
        &&& cellpack.inputs@ == inputs.subrange(2, inputs.len() as int)
        &&& parcel@ == incoming
    } else {
        &&& step matches ProxyStep::Return(response)
        &&& response@ == (ResponseView {
            alkanes: answers[1].alkanes.push(answers[0].alkanes[0]),
            data: answers[1].data,
        })
    }
}

/// A proxy that mints diesel on every call that it forwards, and hands what
/// was minted to its caller together with the forwarded call's answer.
#[derive(Debug, PartialEq, Eq)]
pub struct DieselProxy(());

impl Default for DieselProxy {
    fn default() -> DieselProxy {
        DieselProxy(())
    }
}

/// A fresh vector holding the words of `words` from position `from` on.
fn copy_words_from(words: &Vec<u128>, from: usize) -> (copy: Vec<u128>)
    requires
        from <= words.len(),
    ensures
        copy@ == words@.subrange(from as int, words.len() as int),
{
    let mut copy: Vec<u128> = Vec::new();
    let mut i: usize = from;
    while i < words.len()
        invariant
            from <= i <= words.len(),
            copy@ == words@.subrange(from as int, i as int),
        decreases words.len() - i,
    {
        copy.push(words[i]);
        assert(words@.subrange(from as int, i + 1) == words@.subrange(from as int, i as int).push(
            words@[i as int],
        ));
        i += 1;
    }
    copy
}

impl DieselProxy {
    /// Hands back what came in.
    pub fn initialize(&self, context: &Context) -> (response: CallResponse)
        ensures
            response@ == (ResponseView { alkanes: context.incoming_alkanes@, data: Seq::empty() }),
    {
        CallResponse::forward(&context.incoming_alkanes)
    }

    /// Handles a call outside the proxy's own opcodes, one step at a time.
    /// The first two words of the call name the contract to forward to, the
    /// rest are the words to forward. The proxy first has diesel minted, then
    /// has the call forwarded with what came in, and at last answers with the
    /// forwarded call's answer, to which it adds the first transfer of what
    /// the mint gave back. `answers` holds the answers to the calls asked for
    /// so far, in order.
    pub fn fallback(&self, context: &Context, answers: &Vec<CallResponse>) -> (step: ProxyStep)
        requires
            context.inputs.len() >= 2,
            answers.len() >= 2 ==> answers[0].alkanes@.len() >= 1,
        ensures
            diesel_step(
                context.inputs@,
                context.incoming_alkanes@,
                answers@.map_values(|answer: CallResponse| answer@),
                step,
            ),
    {
        let target = AlkaneId::new(context.inputs[0], context.inputs[1]);
        let cellpack = Cellpack { target, inputs: copy_words_from(&context.inputs, 2) };
        if answers.len() == 0 {
            let mut inputs: Vec<u128> = Vec::new();
            inputs.push(DIESEL_MINT_OPCODE);
            ProxyStep::Call {
                cellpack: Cellpack { target: AlkaneId::new(2, 0), inputs },
                parcel: AlkaneTransferParcel(Vec::new()),
            }
        } else if answers.len() == 1 {
            ProxyStep::Call { cellpack, parcel: context.incoming_alkanes.clone() }
        } else {
            let mut response = CallResponse::forward(&answers[1].alkanes);
            response.data = copy_bytes(answers[1].data.as_slice());
            response.alkanes.pay(answers[0].alkanes.0[0]);
            ProxyStep::Return(response)
        }
    }
}

/// A proxy that forwards the call which the enclosing transaction carries in
/// its witness.
#[derive(Debug, PartialEq, Eq)]
pub struct WitnessProxy(());

impl Default for WitnessProxy {
    fn default() -> WitnessProxy {
        WitnessProxy(())
    }
}

/// What the witness proxy does next on a call outside its own opcodes.
#[derive(Debug, PartialEq, Eq)]
pub enum WitnessStep {
    /// The enclosing transaction carries no payload: fail.
    Fail,
    /// Turn this payload into the call that it encodes, and come back with it.
    Decode(Vec<u8>),
    /// Make this call with these transfers, and come back with the answer.
    Call { cellpack: Cellpack, parcel: AlkaneTransferParcel },
    /// Answer the caller with this response.
    Return(CallResponse),
}

/// Whether the witness of an input carries a payload: one was found, and it
/// is not empty.
pub open spec fn carries_payload(found: Option<Vec<u8>>) -> bool {
    found matches Some(payload) && payload@.len() > 0
}

/// Whether `found` is the payload that a transaction carries in its witness:
/// that of the first input that carries one, and nothing where no input
/// carries one. `payloads` holds, for each input in order, what was found in
/// its witness.
pub open spec fn is_witness_payload(
    payloads: Seq<Option<Vec<u8>>>,
    found: Option<Vec<u8>>,
) -> bool {
    match found {
        Some(payload) => exists|idx: int|
            0 <= idx < payloads.len() && #[trigger] carries_payload(payloads[idx]) && payload@
                == payloads[idx].unwrap()@ && forall|before: int|
                0 <= before < idx ==> !#[trigger] carries_payload(payloads[before]),
        None => forall|idx: int|
            0 <= idx < payloads.len() ==> !#[trigger] carries_payload(payloads[idx]),
    }
}

/// The step that the witness proxy takes on a call outside its own opcodes.
/// `decoded` is the call that the payload encodes, once it was decoded, and
/// `answers` holds the answers to the calls asked for so far.
pub open spec fn witness_step(
    incoming: Seq<AlkaneTransfer>,
    payloads: Seq<Option<Vec<u8>>>,
    decoded: Option<Cellpack>,
    answers: Seq<ResponseView>,
    step: WitnessStep,
) -> bool {
    if is_witness_payload(payloads, None) {
        step is Fail
    } else if decoded.is_none() {
        step matches WitnessStep::Decode(payload) && is_witness_payload(payloads, Some(payload))
    } else if answers.len() == 0 {
        &&& step matches WitnessStep::Call { cellpack, parcel }
        &&& cellpack.target == decoded.unwrap().target
        &&& cellpack.inputs@ == decoded.unwrap().inputs@
        &&& parcel@ == incoming
    } else {
        step matches WitnessStep::Return(response) && response@ == answers[0]
    }
}

impl WitnessProxy {
    /// Hands back what came in.
    pub fn initialize(&self, context: &Context) -> (response: CallResponse)
        ensures
            response@ == (ResponseView { alkanes: context.incoming_alkanes@, data: Seq::empty() }),
    {
        CallResponse::forward(&context.incoming_alkanes)
    }

    /// Handles a call outside the proxy's own opcodes, one step at a time.
    /// Where the enclosing transaction carries no payload in its witness, the
    /// call fails. Else the proxy has the payload decoded into a call, has
    /// that call made with what came in, and answers with its answer.
    /// `payloads` holds, for each input of the transaction in order, what was
    /// found in its witness.
    pub fn fallback(
        &self,
        context: &Context,
        payloads: &Vec<Option<Vec<u8>>>,
        decoded: &Option<Cellpack>,
        answers: &Vec<CallResponse>,
    ) -> (step: WitnessStep)
        ensures
            witness_step(
                context.incoming_alkanes@,
                payloads@,
                *decoded,
                answers@.map_values(|answer: CallResponse| answer@),
                step,
            ),
    {
        let payload = match extract_witness_payload(payloads) {
            Some(bytes) => bytes,
            None => {
                return WitnessStep::Fail;
            },
        };
        proof {
            let idx = choose|idx: int|
                0 <= idx < payloads.len() && #[trigger] carries_payload(payloads[idx]) && payload@
                    == payloads[idx].unwrap()@ && forall|before: int|
                    0 <= before < idx ==> !#[trigger] carries_payload(payloads[before]);
            assert(carries_payload(payloads@[idx]));
        }
        match decoded {
            None => WitnessStep::Decode(payload),
            Some(call) => {
                if answers.len() == 0 {
                    let inputs = copy_words_from(&call.inputs, 0);
                    assert(inputs@ == call.inputs@);
                    WitnessStep::Call {
                        cellpack: Cellpack { target: call.target, inputs },
                        parcel: context.incoming_alkanes.clone(),
                    }
                } else {
                    let mut response = CallResponse::forward(&answers[0].alkanes);
                    response.data = copy_bytes(answers[0].data.as_slice());
                    WitnessStep::Return(response)
                }
            },
        }
    }
}

/// The payload that a transaction carries in its witness: that of the first
/// input that carries one. `payloads` holds, for each input in order, what
/// was found in its witness.
pub fn extract_witness_payload(payloads: &Vec<Option<Vec<u8>>>) -> (found: Option<Vec<u8>>)
    ensures
        is_witness_payload(payloads@, found),
{
    let mut idx: usize = 0;
    while idx < payloads.len()
        invariant
            idx <= payloads.len(),
            forall|before: int| 0 <= before < idx ==> !#[trigger] carries_payload(payloads[before]),
        decreases payloads.len() - idx,
    {
        match &payloads[idx] {
            Some(data) => {
                if data.len() > 0 {
                    assert(carries_payload(payloads[idx as int]));
                    return Some(copy_bytes(data.as_slice()));
                }
            },
            None => {},
        }
        idx += 1;
    }
    None
}

} // verus!
