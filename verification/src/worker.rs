use crate::options::OptionsPrivate;
use crate::options::OptionsProtocol;
use crate::receiver::ReceiveAction;
use crate::receiver::Receiver;
use crate::receiver::ReceiverView;
use crate::sender::SendAction;
use crate::sender::Sender;
use crate::sender::SenderView;
use vstd::prelude::*;

verus! {

/// One transfer that is about to start, with its options.
#[derive(Clone, Copy, Debug, PartialEq, Eq, Structural)]
pub struct Worker {
    /// Local options
    pub opt_local: OptionsPrivate,
    /// Negotiated options
    pub opt_common: OptionsProtocol,
}

impl Worker {
    /// A transfer with the given options.
    pub fn new(opt_local: OptionsPrivate, opt_common: OptionsProtocol) -> (r: Worker)
        ensures
            r == (Worker { opt_local, opt_common }),
    {
        Worker { opt_local, opt_common }
    }

    /// Starts sending a file: the sending side of the transfer and what
    /// it asks for first. With `check_response` the peer has to
    /// acknowledge the option acknowledgement before data is sent.
    /// Options outside their legal ranges are refused.
    pub fn send(self, check_response: bool) -> (r: Result<(Sender, SendAction), &'static str>)
        ensures
            r is Ok <==> self.opt_common.valid(),
            r matches Err(text) ==> text@ == "transfer options out of range"@,
            r matches Ok(started) ==> started.0.wf() && started.0@.inv() && (
            started.0@,
            started.1@,
            ) == SenderView::start(
                self.opt_common,
                self.opt_local,
                check_response,
            ),
    {
        if self.opt_common.is_valid() {
            Ok(Sender::new(self.opt_common, self.opt_local, check_response))
        } else {
            Err("transfer options out of range")
        }
    }

    /// Starts receiving a file: the receiving side of the transfer and
    /// what it asks for first. Options outside their legal ranges are
    /// refused.
    pub fn receive(self) -> (r: Result<(Receiver, ReceiveAction), &'static str>)
        ensures
            r is Ok <==> self.opt_common.valid(),
            r matches Err(text) ==> text@ == "transfer options out of range"@,
            r matches Ok(started) ==> started.0.wf() && started.0@.inv() && (
            started.0@,
            started.1@,
            ) == ReceiverView::start(self.opt_common, self.opt_local),
    {
        if self.opt_common.is_valid() {
            Ok(Receiver::new(self.opt_common, self.opt_local))
        } else {
            Err("transfer options out of range")
        }
    }
}

} // verus!
