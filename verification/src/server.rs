use crate::options::spec_negotiate;
use crate::options::OptionsPrivate;
use crate::options::OptionsProtocol;
use crate::options::TransferOption;
use crate::options::DEFAULT_BLOCK_SIZE;
use crate::packet::ErrorCode;
use crate::packet::Packet;
use crate::packet::PacketView;
use crate::path::convert_file_path_with;
use crate::path::join_path_with;
use crate::path::spec_convert_file_path;
use crate::path::spec_is_separator;
use crate::path::spec_join_path;
use crate::path::spec_validate_file_path;
use crate::path::validate_file_path_with;
use vstd::prelude::*;
use vstd::string::StringExecFns;

verus! {

/// The kind of a request, with the size of the file to send for a read.
#[derive(Clone, Copy, Debug, PartialEq, Eq, Structural)]
pub enum RequestType {
    /// A read request for a file of the given length in bytes.
    Read(u64),
    /// A write request.
    Write,
}

/// The first packet that answers an accepted request: the option
/// acknowledgement where options were offered, an acknowledgement of
/// block 0 for a write request without options, nothing for a read
/// request without options.
pub open spec fn spec_accept_request(options: Seq<TransferOption>, request: RequestType) -> Option<
    PacketView,
> {
    if options.len() > 0 {
        Some(PacketView::Oack(options))
    } else if request == RequestType::Write {
        Some(PacketView::Ack(0))
    } else {
        None
    }
}

/// What the check of a requested path comes to: an access violation where
/// the path may not be served from the directory, else whether the file
/// is there.
pub open spec fn spec_check_file_exists(
    file: Seq<char>,
    directory: Seq<char>,
    separator: char,
    exists: bool,
) -> ErrorCode {
    if !spec_validate_file_path(file, directory, separator) {
        ErrorCode::AccessViolation
    } else if !exists {
        ErrorCode::FileNotFound
    } else {
        ErrorCode::FileExists
    }
}

/// Copies a list of options.
pub fn copy_options(options: &Vec<TransferOption>) -> (r: Vec<TransferOption>)
    ensures
        r@ == options@,
{
    let mut out: Vec<TransferOption> = Vec::new();
    let mut i: usize = 0;
    while i < options.len()
        invariant
            i <= options@.len(),
            out@ == options@.subrange(0, i as int),
        decreases options@.len() - i,
    {
        out.push(options[i]);
        assert(out@ =~= options@.subrange(0, i + 1));
        i += 1;
    }
    assert(options@.subrange(0, i as int) =~= options@);
    out
}

/// The first packet that answers an accepted request.
pub fn accept_request(options: &Vec<TransferOption>, request_type: RequestType) -> (r: Option<
    Packet,
>)
    ensures
        crate::transfer::spec_reply_view(r) == spec_accept_request(options@, request_type),
{
    if options.len() > 0 {
        Some(Packet::Oack(copy_options(options)))
    } else {
        match request_type {
            RequestType::Write => Some(Packet::Ack(0)),
            RequestType::Read(_) => None,
        }
    }
}

/// Checks a requested path against the directory it is served from.
/// `exists` says whether a file is at the path; it is not looked at where
/// the path is refused.
pub fn check_file_exists(file: &str, directory: &str, separator: char, exists: bool) -> (r:
    ErrorCode)
    ensures
        r == spec_check_file_exists(file@, directory@, separator, exists),
{
    if !validate_file_path_with(file, directory, separator) {
        ErrorCode::AccessViolation
    } else if !exists {
        ErrorCode::FileNotFound
    } else {
        ErrorCode::FileExists
    }
}

/// What the listener makes of one datagram.
#[derive(Debug, PartialEq)]
pub enum Lookup {
    /// Answer the peer with this packet and go on listening.
    Reply(Packet),
    /// The packet belongs to a transfer in progress, if there is one with
    /// this peer.
    Route(Packet),
    /// A request for the file at `path`: find out whether it is there,
    /// and how long it is, then decide with `handle_rrq` or `handle_wrq`.
    Probe {
        /// Whether the request is a read request
        read: bool,
        /// The path of the file on this host
        path: String,
        /// The options offered
        options: Vec<TransferOption>,
    },
}

/// What a lookup holds, as mathematical values.
pub enum LookupView {
    Reply(PacketView),
    Route(PacketView),
    Probe { read: bool, path: Seq<char>, options: Seq<TransferOption> },
}

impl View for Lookup {
    type V = LookupView;

    open spec fn view(&self) -> LookupView {
        match self {
            Lookup::Reply(packet) => LookupView::Reply(packet@),
            Lookup::Route(packet) => LookupView::Route(packet@),
            Lookup::Probe { read, path, options } => LookupView::Probe {
                read: *read,
                path: path@,
                options: options@,
            },
        }
    }
}

/// What the listener decides about a request once the file was looked for.
#[derive(Debug, PartialEq)]
pub enum Decision {
    /// Refuse the request with this packet.
    Reply(Packet),
    /// Serve the request.
    Serve {
        /// Whether this host sends the file
        send: bool,
        /// The path of the file on this host
        path: String,
        /// The negotiated options
        common: OptionsProtocol,
        /// The local options
        local: OptionsPrivate,
        /// The packet to send before the transfer starts, if any
        first: Option<Packet>,
        /// Whether the sender waits for the peer to acknowledge `first`
        check_response: bool,
    },
}

/// What a decision holds, as mathematical values.
pub enum DecisionView {
    Reply(PacketView),
    Serve {
        send: bool,
        path: Seq<char>,
        common: OptionsProtocol,
        local: OptionsPrivate,
        first: Option<PacketView>,
        check_response: bool,
    },
}

impl View for Decision {
    type V = DecisionView;

    open spec fn view(&self) -> DecisionView {
        match self {
            Decision::Reply(packet) => DecisionView::Reply(packet@),
            Decision::Serve { send, path, common, local, first, check_response } => DecisionView::Serve {
                send: *send,
                path: path@,
                common: *common,
                local: *local,
                first: crate::transfer::spec_reply_view(*first),
                check_response: *check_response,
            },
        }
    }
}

/// The answer to a write request on a server that only sends.
pub open spec fn spec_read_only_error() -> PacketView {
    PacketView::Error { code: ErrorCode::AccessViolation, msg: "server is read-only"@ }
}

/// The answer to a packet that is no request and belongs to no transfer.
pub open spec fn spec_invalid_request_error() -> PacketView {
    PacketView::Error { code: ErrorCode::IllegalOperation, msg: "invalid request"@ }
}

/// The answer to a request for a path outside the served directory.
pub open spec fn spec_access_error(path: Seq<char>) -> PacketView {
    PacketView::Error { code: ErrorCode::AccessViolation, msg: "file access violation: "@ + path }
}

/// The answer to a read request for a file that is not there.
pub open spec fn spec_not_found_error(path: Seq<char>) -> PacketView {
    PacketView::Error {
        code: ErrorCode::FileNotFound,
        msg: "file "@ + path + " does not exist"@,
    }
}

/// The answer to a write request for a file that may not be overwritten.
pub open spec fn spec_exists_error() -> PacketView {
    PacketView::Error { code: ErrorCode::FileExists, msg: "requested file already exists"@ }
}

/// The state of the listener, as mathematical values.
pub struct ServerView {
    /// Directory that received files go to
    pub receive_directory: Seq<char>,
    /// Directory that files are sent from
    pub send_directory: Seq<char>,
    /// The separator of directories on this host
    pub separator: char,
    /// Whether every transfer shares the listening socket
    pub single_port: bool,
    /// Whether write requests are refused
    pub read_only: bool,
    /// Whether a write request may replace a file
    pub overwrite: bool,
    /// The largest block size negotiated so far on the shared socket
    pub largest_block_size: u16,
    /// The local options handed to every transfer
    pub local: OptionsPrivate,
}

impl ServerView {
    /// The path on this host of the file that a request names.
    pub open spec fn path_of(self, read: bool, filename: Seq<char>) -> Seq<char> {
        spec_join_path(
            if read {
                self.send_directory
            } else {
                self.receive_directory
            },
            spec_convert_file_path(filename, self.separator),
            self.separator,
        )
    }

    /// Whether the path of a request may be served.
    pub open spec fn allows(self, read: bool, filename: Seq<char>) -> bool {
        spec_validate_file_path(
            self.path_of(read, filename),
            if read {
                self.send_directory
            } else {
                self.receive_directory
            },
            self.separator,
        )
    }

    /// What the listener makes of one datagram: a write request on a
    /// read-only server and a request for a path outside the served
    /// directory are refused, any other request has its file looked for,
    /// and what is no request goes to the transfer it belongs to.
    pub open spec fn listen(self, packet: PacketView) -> LookupView {
        match packet {
            PacketView::Rrq { filename, mode, options } => if self.allows(true, filename) {
                LookupView::Probe { read: true, path: self.path_of(true, filename), options }
            } else {
                LookupView::Reply(spec_access_error(self.path_of(true, filename)))
            },
            PacketView::Wrq { filename, mode, options } => if self.read_only {
                LookupView::Reply(spec_read_only_error())
            } else if self.allows(false, filename) {
                LookupView::Probe { read: false, path: self.path_of(false, filename), options }
            } else {
                LookupView::Reply(spec_access_error(self.path_of(false, filename)))
            },
            other => LookupView::Route(other),
        }
    }

    /// The largest block size on the shared socket after a transfer with
    /// block size `block_size` was accepted.
    pub open spec fn grown(self, block_size: u16) -> ServerView {
        if self.single_port && block_size > self.largest_block_size {
            ServerView { largest_block_size: block_size, ..self }
        } else {
            self
        }
    }

    /// The listener and its decision after an accepted request.
    pub open spec fn serve(
        self,
        send: bool,
        path: Seq<char>,
        offered: Seq<TransferOption>,
        request: RequestType,
    ) -> (ServerView, DecisionView) {
        let accepted = Seq::new(offered.len(), |i: int| spec_negotiate(offered[i], request));
        let common = OptionsProtocol::spec_parse(offered, request);
        (
            self.grown(common.block_size),
            DecisionView::Serve {
                send,
                path,
                common,
                local: self.local,
                first: spec_accept_request(accepted, request),
                check_response: offered.len() > 0,
            },
        )
    }

    /// The decision about a read request for the file at `path`: refused
    /// as an access violation where the path may not be served from the
    /// directory that files are sent from, refused where the file is not
    /// there, else served with the options negotiated for a file of its
    /// length.
    pub open spec fn handle_rrq(
        self,
        path: Seq<char>,
        offered: Seq<TransferOption>,
        size: Option<u64>,
    ) -> (ServerView, DecisionView) {
        if !spec_validate_file_path(path, self.send_directory, self.separator) {
            (self, DecisionView::Reply(spec_access_error(path)))
        } else {
            match size {
                None => (self, DecisionView::Reply(spec_not_found_error(path))),
                Some(size) => self.serve(true, path, offered, RequestType::Read(size)),
            }
        }
    }

    /// The decision about a write request for the file at `path`: refused
    /// on a server that takes no write requests, refused as an access
    /// violation where the path may not be served from the directory that
    /// received files go to, refused where the file is there and may not
    /// be overwritten, else served.
    pub open spec fn handle_wrq(self, path: Seq<char>, offered: Seq<TransferOption>, exists: bool) -> (
        ServerView,
        DecisionView,
    ) {
        if self.read_only {
            (self, DecisionView::Reply(spec_read_only_error()))
        } else if !spec_validate_file_path(path, self.receive_directory, self.separator) {
            (self, DecisionView::Reply(spec_access_error(path)))
        } else if exists && !self.overwrite {
            (self, DecisionView::Reply(spec_exists_error()))
        } else {
            self.serve(false, path, offered, RequestType::Write)
        }
    }
}

/// The listener of the server: it decides what becomes of each datagram
/// that arrives on the listening socket.
pub struct Server {
    receive_directory: String,
    send_directory: String,
    separator: char,
    single_port: bool,
    read_only: bool,
    overwrite: bool,
    largest_block_size: u16,
    opt_local: OptionsPrivate,
}

impl View for Server {
    type V = ServerView;

    closed spec fn view(&self) -> ServerView {
        ServerView {
            receive_directory: self.receive_directory@,
            send_directory: self.send_directory@,
            separator: self.separator,
            single_port: self.single_port,
            read_only: self.read_only,
            overwrite: self.overwrite,
            largest_block_size: self.largest_block_size,
            local: self.opt_local,
        }
    }
}

impl Server {
    /// Whether the separator is one a host can have.
    pub open spec fn wf(&self) -> bool {
        spec_is_separator(self@.separator)
    }

    /// A listener with the given settings on a host with the given
    /// separator of directories.
    pub fn new(
        receive_directory: String,
        send_directory: String,
        separator: char,
        single_port: bool,
        read_only: bool,
        overwrite: bool,
        opt_local: OptionsPrivate,
    ) -> (r: Server)
        requires
            spec_is_separator(separator),
        ensures
            r.wf(),
            r@ == (ServerView {
                receive_directory: receive_directory@,
                send_directory: send_directory@,
                separator,
                single_port,
                read_only,
                overwrite,
                largest_block_size: DEFAULT_BLOCK_SIZE,
                local: opt_local,
            }),
    {
        Server {
            receive_directory,
            send_directory,
            separator,
            single_port,
            read_only,
            overwrite,
            largest_block_size: DEFAULT_BLOCK_SIZE,
            opt_local,
        }
    }

    /// Whether every transfer shares the listening socket.
    pub fn single_port(&self) -> (r: bool)
        ensures
            r == self@.single_port,
    {
        self.single_port
    }

    /// The largest block size negotiated so far on the shared socket.
    pub fn largest_block_size(&self) -> (r: u16)
        ensures
            r == self@.largest_block_size,
    {
        self.largest_block_size
    }

    fn read_only_error() -> (r: Packet)
        ensures
            r@ == spec_read_only_error(),
    {
        Packet::Error {
            code: ErrorCode::AccessViolation,
            msg: String::from_str("server is read-only"),
        }
    }

    fn access_error(path: &str) -> (r: Packet)
        ensures
            r@ == spec_access_error(path@),
    {
        let mut msg = String::from_str("file access violation: ");
        msg.append(path);
        Packet::Error { code: ErrorCode::AccessViolation, msg }
    }

    fn request(&self, read: bool, filename: &str, options: Vec<TransferOption>) -> (r: Lookup)
        requires
            self.wf(),
        ensures
            r@ == if self@.allows(read, filename@) {
                LookupView::Probe { read, path: self@.path_of(read, filename@), options: options@ }
            } else {
                LookupView::Reply(spec_access_error(self@.path_of(read, filename@)))
            },
    {
        let relative = convert_file_path_with(filename, self.separator);
        let directory: &str = if read {
            self.send_directory.as_str()
        } else {
            self.receive_directory.as_str()
        };
        let path = join_path_with(directory, relative.as_str(), self.separator);
        if validate_file_path_with(path.as_str(), directory, self.separator) {
            Lookup::Probe { read, path, options }
        } else {
            Lookup::Reply(Self::access_error(path.as_str()))
        }
    }

    /// Decides what becomes of one datagram that arrived on the listening
    /// socket.
    pub fn listen(&self, packet: Packet) -> (r: Lookup)
        requires
            self.wf(),
        ensures
            r@ == self@.listen(packet@),
    {
        match packet {
            Packet::Rrq { filename, mode, options } => self.request(
                true,
                filename.as_str(),
                options,
            ),
            Packet::Wrq { filename, mode, options } => {
                if self.read_only {
                    Lookup::Reply(Self::read_only_error())
                } else {
                    self.request(false, filename.as_str(), options)
                }
            },
            other => Lookup::Route(other),
        }
    }

    /// The answer to a packet that is no request: nothing where a
    /// transfer with its peer is in progress, which then gets the packet,
    /// else an error.
    pub fn route_packet(&self, known: bool) -> (r: Option<Packet>)
        ensures
            crate::transfer::spec_reply_view(r) == if known {
                None
            } else {
                Some(spec_invalid_request_error())
            },
    {
        if known {
            None
        } else {
            Some(
                Packet::Error {
                    code: ErrorCode::IllegalOperation,
                    msg: String::from_str("invalid request"),
                },
            )
        }
    }

    fn serve(
        &mut self,
        send: bool,
        path: String,
        options: Vec<TransferOption>,
        request_type: RequestType,
    ) -> (r: Decision)
        ensures
            (final(self)@, r@) == old(self)@.serve(send, path@, options@, request_type),
            final(self).wf() == old(self).wf(),
    {
        let mut options = options;
        let offered: bool = options.len() > 0;
        let common = match OptionsProtocol::parse(options.as_mut_slice(), request_type) {
            Ok(common) => common,
            Err(_) => OptionsProtocol::default(),
        };
        if self.single_port && common.block_size > self.largest_block_size {
            self.largest_block_size = common.block_size;
        }
        let first = accept_request(&options, request_type);
        Decision::Serve {
            send,
            path,
            common,
            local: self.opt_local,
            first,
            check_response: offered,
        }
    }

    /// Decides about a read request for the file at `path`, now that it
    /// is known whether the file is there: `size` is its length, or
    /// `None` where there is no such file. The path is checked against
    /// the directory once more, so that no path outside it is served.
    pub fn handle_rrq(&mut self, path: String, options: Vec<TransferOption>, size: Option<u64>) -> (r:
        Decision)
        ensures
            (final(self)@, r@) == old(self)@.handle_rrq(path@, options@, size),
            final(self).wf() == old(self).wf(),
    {
        if !validate_file_path_with(
            path.as_str(),
            self.send_directory.as_str(),
            self.separator,
        ) {
            return Decision::Reply(Self::access_error(path.as_str()));
        }
        match size {
            None => {
                let mut msg = String::from_str("file ");
                msg.append(path.as_str());
                msg.append(" does not exist");
                Decision::Reply(Packet::Error { code: ErrorCode::FileNotFound, msg })
            },
            Some(size) => self.serve(true, path, options, RequestType::Read(size)),
        }
    }

    /// Decides about a write request for the file at `path`, now that it
    /// is known whether a file is there. Whether the server takes write
    /// requests, and the path against the directory, are checked once
    /// more, so that nothing is served that `listen` would refuse.
    pub fn handle_wrq(&mut self, path: String, options: Vec<TransferOption>, exists: bool) -> (r:
        Decision)
        ensures
            (final(self)@, r@) == old(self)@.handle_wrq(path@, options@, exists),
            final(self).wf() == old(self).wf(),
    {
        if self.read_only {
            return Decision::Reply(Self::read_only_error());
        }
        if !validate_file_path_with(
            path.as_str(),
            self.receive_directory.as_str(),
            self.separator,
        ) {
            return Decision::Reply(Self::access_error(path.as_str()));
        }
        if exists && !self.overwrite {
            Decision::Reply(
                Packet::Error {
                    code: ErrorCode::FileExists,
                    msg: String::from_str("requested file already exists"),
                },
            )
        } else {
            self.serve(false, path, options, RequestType::Write)
        }
    }
}

} // verus!
