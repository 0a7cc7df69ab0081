use crate::options::OptionsPrivate;
use crate::options::OptionsProtocol;
use crate::packet::ErrorCode;
use crate::packet::Packet;
use crate::packet::PacketView;
use crate::transfer::spec_reply_view;
use vstd::prelude::*;
use vstd::string::StringExecFns;

verus! {

/// What the client does with its file.
#[derive(Clone, Copy, Debug, PartialEq, Eq, Structural)]
pub enum Mode {
    /// The file is sent to the server.
    Upload,
    /// The file is fetched from the server.
    Download,
}

/// Why the client gave up before the transfer started.
#[derive(Debug, PartialEq)]
pub enum ClientError {
    /// The client is not in the mode that the call is for.
    WrongMode,
    /// The server answered with an error packet.
    Peer {
        /// Error code of the packet
        code: ErrorCode,
        /// Message of the packet
        msg: String,
    },
    /// The server sent data at once: it does not negotiate options.
    NoOptions,
    /// The server answered with a packet that is no answer to a request.
    Unexpected,
}

/// What a client error holds, as mathematical values.
pub enum ClientErrorView {
    WrongMode,
    Peer { code: ErrorCode, msg: Seq<char> },
    NoOptions,
    Unexpected,
}

impl View for ClientError {
    type V = ClientErrorView;

    open spec fn view(&self) -> ClientErrorView {
        match self {
            ClientError::WrongMode => ClientErrorView::WrongMode,
            ClientError::Peer { code, msg } => ClientErrorView::Peer { code: *code, msg: msg@ },
            ClientError::NoOptions => ClientErrorView::NoOptions,
            ClientError::Unexpected => ClientErrorView::Unexpected,
        }
    }
}

impl ClientErrorView {
    /// The text that tells a reader why the client gave up.
    pub open spec fn spec_text(self) -> Seq<char> {
        match self {
            ClientErrorView::WrongMode => "Client is in the other mode"@,
            ClientErrorView::Peer { code, msg } => "Client received error from server: "@
                + code.spec_text() + ": "@ + msg,
            ClientErrorView::NoOptions => "Client received data instead of o-ack. This implementation does not support servers without options (RFC 2347)"@,
            ClientErrorView::Unexpected => "Client received unexpected packet from server"@,
        }
    }
}

impl ClientError {
    /// The text that tells a reader why the client gave up.
    pub fn to_string(&self) -> (r: String)
        ensures
            r@ == self@.spec_text(),
    {
        match self {
            ClientError::WrongMode => String::from_str("Client is in the other mode"),
            ClientError::Peer { code, msg } => {
                let mut out = String::from_str("Client received error from server: ");
                let name = code.to_string();
                out.append(name.as_str());
                out.append(": ");
                out.append(msg.as_str());
                assert(out@ =~= self@.spec_text());
                out
            },
            ClientError::NoOptions => String::from_str(
                "Client received data instead of o-ack. This implementation does not support servers without options (RFC 2347)",
            ),
            ClientError::Unexpected => String::from_str(
                "Client received unexpected packet from server",
            ),
        }
    }
}

/// How the transfer starts once the server has answered the request.
#[derive(Debug, PartialEq)]
pub struct Start {
    /// The packet to send to the server first, if any
    pub reply: Option<Packet>,
    /// The local options of the transfer
    pub opt_local: OptionsPrivate,
    /// The options of the transfer as the server accepted them
    pub opt_common: OptionsProtocol,
}

/// The transfer mode that every request names.
pub open spec fn spec_octet() -> Seq<char> {
    "octet"@
}

/// The outcome of a reply, as mathematical values: the options to go on
/// with and the packet to send first, or the error.
pub open spec fn spec_start_view(r: Result<Start, ClientError>) -> Result<
    (Option<PacketView>, OptionsPrivate, OptionsProtocol),
    ClientErrorView,
> {
    match r {
        Ok(start) => Ok((spec_reply_view(start.reply), start.opt_local, start.opt_common)),
        Err(e) => Err(e@),
    }
}

/// The state of a client, as mathematical values.
pub struct ClientView {
    /// What the client does with its file
    pub mode: Mode,
    /// The name of the file on the server
    pub filename: Seq<char>,
    /// Local options
    pub local: OptionsPrivate,
    /// The options to offer, then the options accepted
    pub common: OptionsProtocol,
}

impl ClientView {
    /// The write request of an upload of a file of `size` bytes, and the
    /// client after it: the transfer size it offers is the size of the
    /// file.
    pub open spec fn upload(self, size: u64) -> (ClientView, PacketView) {
        let sized = OptionsProtocol { transfer_size: Some(size), ..self.common };
        (
            ClientView { common: sized, ..self },
            PacketView::Wrq {
                filename: self.filename,
                mode: spec_octet(),
                options: sized.spec_prepare(),
            },
        )
    }

    /// The read request of a download.
    pub open spec fn download(self) -> PacketView {
        PacketView::Rrq {
            filename: self.filename,
            mode: spec_octet(),
            options: self.common.spec_prepare(),
        }
    }

    /// What the client makes of the server's answer to a write request:
    /// an option acknowledgement is taken over, a plain acknowledgement
    /// means that no option was accepted, anything else is an error.
    pub open spec fn upload_reply(self, packet: PacketView) -> (
        ClientView,
        Result<(Option<PacketView>, OptionsPrivate, OptionsProtocol), ClientErrorView>,
    ) {
        match packet {
            PacketView::Oack(options) => {
                let common = self.common.spec_apply(options);
                (ClientView { common, ..self }, Ok((None, self.local, common)))
            },
            PacketView::Ack(_) => {
                let common = OptionsProtocol::spec_default();
                (ClientView { common, ..self }, Ok((None, self.local, common)))
            },
            PacketView::Error { code, msg } => (self, Err(ClientErrorView::Peer { code, msg })),
            _ => (self, Err(ClientErrorView::Unexpected)),
        }
    }

    /// What the client makes of the server's answer to a read request:
    /// an option acknowledgement is taken over and acknowledged as block
    /// 0, data is refused, anything else is an error.
    pub open spec fn download_reply(self, packet: PacketView) -> (
        ClientView,
        Result<(Option<PacketView>, OptionsPrivate, OptionsProtocol), ClientErrorView>,
    ) {
        match packet {
            PacketView::Oack(options) => {
                let common = self.common.spec_apply(options);
                (
                    ClientView { common, ..self },
                    Ok((Some(PacketView::Ack(0)), self.local, common)),
                )
            },
            PacketView::Data { block_num, data } => (self, Err(ClientErrorView::NoOptions)),
            PacketView::Error { code, msg } => (self, Err(ClientErrorView::Peer { code, msg })),
            _ => (self, Err(ClientErrorView::Unexpected)),
        }
    }
}

/// The client side of the opening of a transfer: it writes the request
/// and decides what the server's answer means.
pub struct Client {
    mode: Mode,
    filename: String,
    opt_local: OptionsPrivate,
    opt_common: OptionsProtocol,
}

impl View for Client {
    type V = ClientView;

    closed spec fn view(&self) -> ClientView {
        ClientView {
            mode: self.mode,
            filename: self.filename@,
            local: self.opt_local,
            common: self.opt_common,
        }
    }
}

impl Client {
    /// A client for the file named `filename` on the server.
    pub fn new(mode: Mode, filename: String, opt_local: OptionsPrivate, opt_common: OptionsProtocol) -> (r:
        Client)
        ensures
            r@ == (ClientView { mode, filename: filename@, local: opt_local, common: opt_common }),
    {
        Client { mode, filename, opt_local, opt_common }
    }

    /// What the client does with its file.
    pub fn mode(&self) -> (r: Mode)
        ensures
            r == self@.mode,
    {
        self.mode
    }

    /// The request that opens the transfer: a write request in upload
    /// mode, where `size` is the length of the file to send, else a read
    /// request.
    pub fn run(&mut self, size: u64) -> (r: Packet)
        ensures
            old(self)@.mode == Mode::Upload ==> (final(self)@, r@) == old(self)@.upload(size),
            old(self)@.mode == Mode::Download ==> final(self)@ == old(self)@ && r@ == old(
                self,
            )@.download(),
    {
        match self.mode {
            Mode::Upload => {
                self.opt_common.transfer_size = Some(size);
                Packet::Wrq {
                    filename: self.filename.clone(),
                    mode: String::from_str("octet"),
                    options: self.opt_common.prepare(),
                }
            },
            Mode::Download => Packet::Rrq {
                filename: self.filename.clone(),
                mode: String::from_str("octet"),
                options: self.opt_common.prepare(),
            },
        }
    }

    /// The write request of an upload of a file of `size` bytes. Refused
    /// in download mode.
    pub fn upload(&mut self, size: u64) -> (r: Result<Packet, ClientError>)
        ensures
            r is Ok <==> old(self)@.mode == Mode::Upload,
            r matches Ok(packet) ==> (final(self)@, packet@) == old(self)@.upload(size),
            r matches Err(e) ==> e == ClientError::WrongMode && final(self)@ == old(self)@,
    {
        match self.mode {
            Mode::Upload => Ok(self.run(size)),
            Mode::Download => Err(ClientError::WrongMode),
        }
    }

    /// The read request of a download. Refused in upload mode.
    pub fn download(&mut self) -> (r: Result<Packet, ClientError>)
        ensures
            final(self)@ == old(self)@,
            r is Ok <==> old(self)@.mode == Mode::Download,
            r matches Ok(packet) ==> packet@ == old(self)@.download(),
            r matches Err(e) ==> e == ClientError::WrongMode,
    {
        match self.mode {
            Mode::Download => Ok(self.run(0)),
            Mode::Upload => Err(ClientError::WrongMode),
        }
    }

    /// Decides what the server's answer to the request means, as
    /// `ClientView::upload_reply` and `ClientView::download_reply` lay
    /// down for the two modes.
    pub fn configure_worker(&mut self, packet: Packet) -> (r: Result<Start, ClientError>)
        ensures
            old(self)@.mode == Mode::Upload ==> (final(self)@, spec_start_view(r)) == old(
                self,
            )@.upload_reply(packet@),
            old(self)@.mode == Mode::Download ==> (final(self)@, spec_start_view(r)) == old(
                self,
            )@.download_reply(packet@),
    {
        match packet {
            Packet::Oack(options) => {
                let applied = self.opt_common.apply(&options);
                let reply = match self.mode {
                    Mode::Upload => None,
                    Mode::Download => Some(Packet::Ack(0)),
                };
                Ok(Start { reply, opt_local: self.opt_local, opt_common: self.opt_common })
            },
            Packet::Error { code, msg } => Err(ClientError::Peer { code, msg }),
            Packet::Ack(block_num) => match self.mode {
                Mode::Upload => {
                    self.opt_common = OptionsProtocol::default();
                    Ok(Start { reply: None, opt_local: self.opt_local, opt_common: self.opt_common })
                },
                Mode::Download => Err(ClientError::Unexpected),
            },
            Packet::Data { block_num, data } => match self.mode {
                Mode::Upload => Err(ClientError::Unexpected),
                Mode::Download => Err(ClientError::NoOptions),
            },
            _ => Err(ClientError::Unexpected),
        }
    }
}

} // verus!
