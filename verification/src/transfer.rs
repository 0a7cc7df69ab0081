use crate::options::OptionsPrivate;
use crate::packet::ErrorCode;
use crate::packet::Packet;
use crate::packet::PacketView;
use crate::text::append_decimal;
use crate::text::spec_decimal_text;
use vstd::prelude::*;
use vstd::string::StringExecFns;

verus! {

/// Why a transfer ended without success.
#[derive(Debug, PartialEq)]
pub enum Failure {
    /// The block counter wrapped against the roll-over policy.
    Rollover,
    /// The peer stayed silent through every retry.
    TimedOut {
        /// The number of retries that were allowed.
        retries: usize,
    },
    /// The peer sent an error packet.
    Peer {
        /// Error code of the packet
        code: ErrorCode,
        /// Message of the packet
        msg: String,
    },
    /// The peer answered the option acknowledgement with something else
    /// than an acknowledgement of block 0.
    UnexpectedReply,
    /// The peer did not answer the option acknowledgement.
    NoReply,
    /// The peer acknowledged more blocks than the window holds.
    AckBeyondWindow,
    /// The file received is not as long as the transfer size announced.
    SizeMismatch {
        /// The announced length
        negotiated: u64,
        /// The length received
        transferred: u64,
    },
    /// The event does not answer the action that was asked for.
    OutOfTurn,
    /// The transfer had already ended.
    Stopped,
}

/// What a failure holds, as mathematical values.
pub enum FailureView {
    Rollover,
    TimedOut { retries: usize },
    Peer { code: ErrorCode, msg: Seq<char> },
    UnexpectedReply,
    NoReply,
    AckBeyondWindow,
    SizeMismatch { negotiated: u64, transferred: u64 },
    OutOfTurn,
    Stopped,
}

impl View for Failure {
    type V = FailureView;

    open spec fn view(&self) -> FailureView {
        match self {
            Failure::Rollover => FailureView::Rollover,
            Failure::TimedOut { retries } => FailureView::TimedOut { retries: *retries },
            Failure::Peer { code, msg } => FailureView::Peer { code: *code, msg: msg@ },
            Failure::UnexpectedReply => FailureView::UnexpectedReply,
            Failure::NoReply => FailureView::NoReply,
            Failure::AckBeyondWindow => FailureView::AckBeyondWindow,
            Failure::SizeMismatch { negotiated, transferred } => FailureView::SizeMismatch {
                negotiated: *negotiated,
                transferred: *transferred,
            },
            Failure::OutOfTurn => FailureView::OutOfTurn,
            Failure::Stopped => FailureView::Stopped,
        }
    }
}

impl FailureView {
    /// The text that tells a reader why the transfer ended.
    pub open spec fn spec_text(self) -> Seq<char> {
        match self {
            FailureView::Rollover => "Block counter rollover error"@,
            FailureView::TimedOut { retries } => "Transfer timed out after "@ + spec_decimal_text(
                retries as nat,
            ) + " tries"@,
            FailureView::Peer { code, msg } => "Received error code "@ + code.spec_text() + ": "@
                + msg,
            FailureView::UnexpectedReply => "Unexpected packet received instead of Ack(0)"@,
            FailureView::NoReply => "No answer to the option acknowledgement"@,
            FailureView::AckBeyondWindow => "amount cannot be larger than length of window"@,
            FailureView::SizeMismatch { negotiated, transferred } => "Size mismatch, negotiated: "@
                + spec_decimal_text(negotiated as nat) + ", transferred: "@ + spec_decimal_text(
                transferred as nat,
            ),
            FailureView::OutOfTurn => "Transfer driven out of turn"@,
            FailureView::Stopped => "Transfer had already ended"@,
        }
    }
}

impl Failure {
    /// The text that tells a reader why the transfer ended.
    pub fn to_string(&self) -> (r: String)
        ensures
            r@ == self@.spec_text(),
    {
        match self {
            Failure::Rollover => String::from_str("Block counter rollover error"),
            Failure::TimedOut { retries } => {
                let mut out = String::from_str("Transfer timed out after ");
                append_decimal(&mut out, *retries as u64);
                out.append(" tries");
                out
            },
            Failure::Peer { code, msg } => {
                let mut out = String::from_str("Received error code ");
                let name = code.to_string();
                out.append(name.as_str());
                out.append(": ");
                out.append(msg.as_str());
                assert(out@ =~= self@.spec_text());
                out
            },
            Failure::UnexpectedReply => String::from_str(
                "Unexpected packet received instead of Ack(0)",
            ),
            Failure::NoReply => String::from_str("No answer to the option acknowledgement"),
            Failure::AckBeyondWindow => String::from_str(
                "amount cannot be larger than length of window",
            ),
            Failure::SizeMismatch { negotiated, transferred } => {
                let mut out = String::from_str("Size mismatch, negotiated: ");
                append_decimal(&mut out, *negotiated);
                out.append(", transferred: ");
                append_decimal(&mut out, *transferred);
                assert(out@ =~= self@.spec_text());
                out
            },
            Failure::OutOfTurn => String::from_str("Transfer driven out of turn"),
            Failure::Stopped => String::from_str("Transfer had already ended"),
        }
    }
}

/// Whether the file that a receiving transfer wrote is removed once the
/// transfer has ended: where the transfer did not complete, for whatever
/// reason, and the local options ask for the removal.
pub open spec fn spec_removes_partial_file(local: OptionsPrivate, completed: bool) -> bool {
    !completed && local.clean_on_error
}

/// Whether the file that a receiving transfer wrote is to be removed now
/// that the transfer has ended.
pub fn removes_partial_file(local: &OptionsPrivate, completed: bool) -> (r: bool)
    ensures
        r == spec_removes_partial_file(*local, completed),
{
    !completed && local.clean_on_error
}

/// What an optional packet holds, as mathematical values.
pub open spec fn spec_reply_view(reply: Option<Packet>) -> Option<PacketView> {
    match reply {
        Some(packet) => Some(packet@),
        None => None,
    }
}

/// The error packet that reports a forbidden wrap of the block counter.
pub open spec fn spec_rollover_error() -> PacketView {
    PacketView::Error {
        code: ErrorCode::IllegalOperation,
        msg: "Block counter rollover error"@,
    }
}

/// The error packet that answers a wrong reply to an option
/// acknowledgement.
pub open spec fn spec_bad_reply_error() -> PacketView {
    PacketView::Error { code: ErrorCode::IllegalOperation, msg: "invalid oack response"@ }
}

/// Builds the error packet that reports a forbidden wrap of the block
/// counter.
pub fn rollover_error() -> (r: Packet)
    ensures
        r@ == spec_rollover_error(),
{
    Packet::Error {
        code: ErrorCode::IllegalOperation,
        msg: "Block counter rollover error".to_owned(),
    }
}

/// Builds the error packet that answers a wrong reply to an option
/// acknowledgement.
pub fn bad_reply_error() -> (r: Packet)
    ensures
        r@ == spec_bad_reply_error(),
{
    Packet::Error { code: ErrorCode::IllegalOperation, msg: "invalid oack response".to_owned() }
}

} // verus!
