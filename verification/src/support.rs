//! The values that a contract exchanges with its host.

use vstd::prelude::*;

verus! {

/// The identity of a deployed contract or of the asset it issues.
#[derive(Clone, Copy, Debug, PartialEq, Eq, Structural)]
pub struct AlkaneId {
    pub block: u128,
    pub tx: u128,
}

impl AlkaneId {
    pub fn new(block: u128, tx: u128) -> (id: AlkaneId)
        ensures
            id == (AlkaneId { block, tx }),
    {
        AlkaneId { block, tx }
    }
}

/// An amount of one asset that moves with a call.
#[derive(Clone, Copy, Debug, PartialEq, Eq, Structural)]
pub struct AlkaneTransfer {
    pub id: AlkaneId,
    pub value: u128,
}

/// The transfers attached to a call or to its response, in order.
#[derive(Debug, PartialEq, Eq)]
pub struct AlkaneTransferParcel(pub Vec<AlkaneTransfer>);

impl View for AlkaneTransferParcel {
    type V = Seq<AlkaneTransfer>;

    open spec fn view(&self) -> Seq<AlkaneTransfer> {
        self.0@
    }
}

impl Clone for AlkaneTransferParcel {
    fn clone(&self) -> (copy: AlkaneTransferParcel)
        ensures
            copy@ == self@,
    {
        let mut transfers: Vec<AlkaneTransfer> = Vec::new();
        let mut i: usize = 0;
        while i < self.0.len()
            invariant
                i <= self.0.len(),
                transfers@ == self.0@.take(i as int),
            decreases self.0.len() - i,
        {
            transfers.push(self.0[i]);
            i += 1;
        }
        AlkaneTransferParcel(transfers)
    }
}

impl Default for AlkaneTransferParcel {
    fn default() -> (parcel: AlkaneTransferParcel)
        ensures
            parcel@ == Seq::<AlkaneTransfer>::empty(),
    {
        AlkaneTransferParcel(Vec::new())
    }
}

impl AlkaneTransferParcel {
    /// Adds one transfer at the end of the parcel.
    pub fn pay(&mut self, transfer: AlkaneTransfer)
        ensures
            final(self)@ == old(self)@.push(transfer),
    {
        self.0.push(transfer);
    }
}

/// What the host tells a contract about the call it is handling.
#[derive(Debug, PartialEq, Eq)]
pub struct Context {
    /// The identity of the contract that is running.
    pub myself: AlkaneId,
    /// The identity of the contract that made the call.
    pub caller: AlkaneId,
    /// The output of the transaction that the call is attached to.
    pub vout: u32,
    /// The transfers that came with the call.
    pub incoming_alkanes: AlkaneTransferParcel,
    /// The words of the call, the opcode first.
    pub inputs: Vec<u128>,
}

/// What a call returns: a byte payload and the transfers handed back.
#[derive(Debug, PartialEq, Eq)]
pub struct CallResponse {
    pub alkanes: AlkaneTransferParcel,
    pub data: Vec<u8>,
}

/// A response as plain mathematical values.
pub ghost struct ResponseView {
    pub alkanes: Seq<AlkaneTransfer>,
    pub data: Seq<u8>,
}

impl View for CallResponse {
    type V = ResponseView;

    open spec fn view(&self) -> ResponseView {
        ResponseView { alkanes: self.alkanes@, data: self.data@ }
    }
}

impl Default for CallResponse {
    fn default() -> (response: CallResponse)
        ensures
            response@ == (ResponseView { alkanes: Seq::empty(), data: Seq::empty() }),
    {
        CallResponse { alkanes: AlkaneTransferParcel(Vec::new()), data: Vec::new() }
    }
}

impl CallResponse {
    /// The response that hands back what came in and carries no payload.
    pub fn forward(incoming: &AlkaneTransferParcel) -> (response: CallResponse)
        ensures
            response@ == (ResponseView { alkanes: incoming@, data: Seq::empty() }),
    {
        CallResponse { alkanes: incoming.clone(), data: Vec::new() }
    }
}

/// A call to make on another contract: its target and the words of the call.
#[derive(Debug, PartialEq, Eq)]
pub struct Cellpack {
    pub target: AlkaneId,
    pub inputs: Vec<u128>,
}

} // verus!
