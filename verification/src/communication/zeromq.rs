//! A zmq subscription as a source of text messages.
use std::sync::Arc;
use vstd::prelude::*;
use zmq::Context;

verus! {

/// zmq's context, which owns the sockets; carried through, never looked into.
#[verifier::external_type_specification]
#[verifier::external_body]
pub struct ExContext(Context);

/// A subscription to `topic` at `address`, with sockets made in `context`.
pub struct ZmqComm {
    pub context: Arc<Context>,
    pub address: String,
    pub topic: String,
}

impl ZmqComm {
    /// Describes a subscription to `topic` at `address`, in `context`.
    pub fn new(context: Arc<Context>, address: String, topic: String) -> (res: Self)
        ensures
            res.context == context,
            res.address@ == address@,
            res.topic@ == topic@,
    {
        ZmqComm { context, address, topic }
    }
}

} // verus!
