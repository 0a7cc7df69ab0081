use crate::convert::lemma_find_zero;
use crate::convert::lemma_find_zero_unique;
use crate::convert::spec_field;
use crate::convert::spec_find_zero;
use crate::convert::spec_u16_be;
use crate::convert::spec_u16_be_bytes;
use crate::convert::Convert;
use crate::decimal::parse_u64;
use crate::decimal::spec_parse_u64;
use crate::options::append_bytes;
use crate::options::spec_options_bytes;
use crate::options::OptionType;
use crate::options::TransferOption;
use vstd::prelude::*;
use vstd::slice::slice_subrange;
use vstd::slice::slice_to_vec;
use vstd::string::StringSliceAdditionalSpecFns;
use vstd::utf8::decode_utf8;
use vstd::utf8::decode_utf8_encode_utf8;
use vstd::utf8::encode_utf8;
use vstd::utf8::valid_utf8;

verus! {

/// The operation codes of the protocol.
#[derive(Clone, Copy, Debug, PartialEq, Eq, Structural)]
pub enum Opcode {
    /// Read request, 1
    Rrq,
    /// Write request, 2
    Wrq,
    /// Data, 3
    Data,
    /// Acknowledgement, 4
    Ack,
    /// Error, 5
    Error,
    /// Option acknowledgement, 6
    Oack,
}

impl Opcode {
    /// The number of the operation code on the wire.
    pub open spec fn spec_code(self) -> u16 {
        match self {
            Opcode::Rrq => 1,
            Opcode::Wrq => 2,
            Opcode::Data => 3,
            Opcode::Ack => 4,
            Opcode::Error => 5,
            Opcode::Oack => 6,
        }
    }

    /// The operation code with the wire number `val`, if there is one.
    pub open spec fn spec_from_u16(val: u16) -> Option<Opcode> {
        if val == 1 {
            Some(Opcode::Rrq)
        } else if val == 2 {
            Some(Opcode::Wrq)
        } else if val == 3 {
            Some(Opcode::Data)
        } else if val == 4 {
            Some(Opcode::Ack)
        } else if val == 5 {
            Some(Opcode::Error)
        } else if val == 6 {
            Some(Opcode::Oack)
        } else {
            None
        }
    }

    /// The operation code with the wire number `val`; the error
    /// `Invalid opcode` for a number outside 1..=6.
    pub fn from_u16(val: u16) -> (r: Result<Opcode, &'static str>)
        ensures
            match Opcode::spec_from_u16(val) {
                Some(op) => r == Ok::<Opcode, &'static str>(op),
                None => r matches Err(text) && text@ == "Invalid opcode"@,
            },
    {
        if val == 1 {
            Ok(Opcode::Rrq)
        } else if val == 2 {
            Ok(Opcode::Wrq)
        } else if val == 3 {
            Ok(Opcode::Data)
        } else if val == 4 {
            Ok(Opcode::Ack)
        } else if val == 5 {
            Ok(Opcode::Error)
        } else if val == 6 {
            Ok(Opcode::Oack)
        } else {
            Err("Invalid opcode")
        }
    }

    /// The number of the operation code on the wire.
    pub fn code(self) -> (r: u16)
        ensures
            r == self.spec_code(),
            Opcode::spec_from_u16(r) == Some(self),
    {
        match self {
            Opcode::Rrq => 1,
            Opcode::Wrq => 2,
            Opcode::Data => 3,
            Opcode::Ack => 4,
            Opcode::Error => 5,
            Opcode::Oack => 6,
        }
    }

    /// The two big-endian bytes of the operation code.
    pub fn as_bytes(self) -> (r: [u8; 2])
        ensures
            r@ == spec_u16_be_bytes(self.spec_code()),
    {
        let r: [u8; 2] = [0, self.code() as u8];
        assert(r@ =~= spec_u16_be_bytes(self.spec_code()));
        r
    }
}

/// The error codes of the protocol.
#[derive(Clone, Copy, Debug, PartialEq, Eq, Structural)]
pub enum ErrorCode {
    /// Not defined, 0
    NotDefined,
    /// File not found, 1
    FileNotFound,
    /// Access violation, 2
    AccessViolation,
    /// Disk full, 3
    DiskFull,
    /// Illegal operation, 4
    IllegalOperation,
    /// Unknown transfer id, 5
    UnknownId,
    /// File already exists, 6
    FileExists,
    /// No such user, 7
    NoSuchUser,
    /// Option refused, 8
    RefusedOption,
}

impl ErrorCode {
    /// The number of the error code on the wire.
    pub open spec fn spec_code(self) -> u16 {
        match self {
            ErrorCode::NotDefined => 0,
            ErrorCode::FileNotFound => 1,
            ErrorCode::AccessViolation => 2,
            ErrorCode::DiskFull => 3,
            ErrorCode::IllegalOperation => 4,
            ErrorCode::UnknownId => 5,
            ErrorCode::FileExists => 6,
            ErrorCode::NoSuchUser => 7,
            ErrorCode::RefusedOption => 8,
        }
    }

    /// The error code with the wire number `code`, if there is one.
    pub open spec fn spec_from_u16(code: u16) -> Option<ErrorCode> {
        if code == 0 {
            Some(ErrorCode::NotDefined)
        } else if code == 1 {
            Some(ErrorCode::FileNotFound)
        } else if code == 2 {
            Some(ErrorCode::AccessViolation)
        } else if code == 3 {
            Some(ErrorCode::DiskFull)
        } else if code == 4 {
            Some(ErrorCode::IllegalOperation)
        } else if code == 5 {
            Some(ErrorCode::UnknownId)
        } else if code == 6 {
            Some(ErrorCode::FileExists)
        } else if code == 7 {
            Some(ErrorCode::NoSuchUser)
        } else if code == 8 {
            Some(ErrorCode::RefusedOption)
        } else {
            None
        }
    }

    /// The text that names the error code to a reader.
    pub open spec fn spec_text(self) -> Seq<char> {
        match self {
            ErrorCode::NotDefined => "Not Defined"@,
            ErrorCode::FileNotFound => "File Not Found"@,
            ErrorCode::AccessViolation => "Access Violation"@,
            ErrorCode::DiskFull => "Disk Full"@,
            ErrorCode::IllegalOperation => "Illegal Operation"@,
            ErrorCode::UnknownId => "Unknown ID"@,
            ErrorCode::FileExists => "File Exists"@,
            ErrorCode::NoSuchUser => "No Such User"@,
            ErrorCode::RefusedOption => "Refused option"@,
        }
    }

    /// The error code with the wire number `code`; the error
    /// `Invalid error code` for a number above 8.
    pub fn from_u16(code: u16) -> (r: Result<ErrorCode, &'static str>)
        ensures
            match ErrorCode::spec_from_u16(code) {
                Some(c) => r == Ok::<ErrorCode, &'static str>(c),
                None => r matches Err(text) && text@ == "Invalid error code"@,
            },
    {
        if code == 0 {
            Ok(ErrorCode::NotDefined)
        } else if code == 1 {
            Ok(ErrorCode::FileNotFound)
        } else if code == 2 {
            Ok(ErrorCode::AccessViolation)
        } else if code == 3 {
            Ok(ErrorCode::DiskFull)
        } else if code == 4 {
            Ok(ErrorCode::IllegalOperation)
        } else if code == 5 {
            Ok(ErrorCode::UnknownId)
        } else if code == 6 {
            Ok(ErrorCode::FileExists)
        } else if code == 7 {
            Ok(ErrorCode::NoSuchUser)
        } else if code == 8 {
            Ok(ErrorCode::RefusedOption)
        } else {
            Err("Invalid error code")
        }
    }

    /// The number of the error code on the wire.
    pub fn code(self) -> (r: u16)
        ensures
            r == self.spec_code(),
            ErrorCode::spec_from_u16(r) == Some(self),
    {
        match self {
            ErrorCode::NotDefined => 0,
            ErrorCode::FileNotFound => 1,
            ErrorCode::AccessViolation => 2,
            ErrorCode::DiskFull => 3,
            ErrorCode::IllegalOperation => 4,
            ErrorCode::UnknownId => 5,
            ErrorCode::FileExists => 6,
            ErrorCode::NoSuchUser => 7,
            ErrorCode::RefusedOption => 8,
        }
    }

    /// The two big-endian bytes of the error code.
    pub fn as_bytes(self) -> (r: [u8; 2])
        ensures
            r@ == spec_u16_be_bytes(self.spec_code()),
    {
        let r: [u8; 2] = [0, self.code() as u8];
        assert(r@ =~= spec_u16_be_bytes(self.spec_code()));
        r
    }

    /// The text that names the error code to a reader.
    pub fn to_string(&self) -> (r: String)
        ensures
            r@ == self.spec_text(),
    {
        let text: &'static str = match self {
            ErrorCode::NotDefined => "Not Defined",
            ErrorCode::FileNotFound => "File Not Found",
            ErrorCode::AccessViolation => "Access Violation",
            ErrorCode::DiskFull => "Disk Full",
            ErrorCode::IllegalOperation => "Illegal Operation",
            ErrorCode::UnknownId => "Unknown ID",
            ErrorCode::FileExists => "File Exists",
            ErrorCode::NoSuchUser => "No Such User",
            ErrorCode::RefusedOption => "Refused option",
        };
        text.to_owned()
    }
}

/// A packet of the protocol.
#[derive(Debug, PartialEq)]
pub enum Packet {
    /// Read request
    Rrq {
        /// Name of the requested file
        filename: String,
        /// Transfer mode
        mode: String,
        /// Offered options
        options: Vec<TransferOption>,
    },
    /// Write request
    Wrq {
        /// Name of the file to write
        filename: String,
        /// Transfer mode
        mode: String,
        /// Offered options
        options: Vec<TransferOption>,
    },
    /// One block of the file
    Data {
        /// Block number
        block_num: u16,
        /// Payload
        data: Vec<u8>,
    },
    /// Acknowledgement of a block number
    Ack(u16),
    /// Error report
    Error {
        /// Error code
        code: ErrorCode,
        /// Message for a reader
        msg: String,
    },
    /// Acknowledgement of options
    Oack(Vec<TransferOption>),
}

/// What a packet holds, as mathematical values.
pub enum PacketView {
    /// Read request
    Rrq { filename: Seq<char>, mode: Seq<char>, options: Seq<TransferOption> },
    /// Write request
    Wrq { filename: Seq<char>, mode: Seq<char>, options: Seq<TransferOption> },
    /// One block of the file
    Data { block_num: u16, data: Seq<u8> },
    /// Acknowledgement of a block number
    Ack(u16),
    /// Error report
    Error { code: ErrorCode, msg: Seq<char> },
    /// Acknowledgement of options
    Oack(Seq<TransferOption>),
}

impl View for Packet {
    type V = PacketView;

    open spec fn view(&self) -> PacketView {
        match self {
            Packet::Rrq { filename, mode, options } => PacketView::Rrq {
                filename: filename@,
                mode: mode@,
                options: options@,
            },
            Packet::Wrq { filename, mode, options } => PacketView::Wrq {
                filename: filename@,
                mode: mode@,
                options: options@,
            },
            Packet::Data { block_num, data } => PacketView::Data {
                block_num: *block_num,
                data: data@,
            },
            Packet::Ack(block_num) => PacketView::Ack(*block_num),
            Packet::Error { code, msg } => PacketView::Error { code: *code, msg: msg@ },
            Packet::Oack(options) => PacketView::Oack(options@),
        }
    }
}

/// The wire form of a request with operation code `op`.
pub open spec fn spec_serialize_request(
    op: Opcode,
    filename: Seq<char>,
    mode: Seq<char>,
    options: Seq<TransferOption>,
) -> Seq<u8> {
    spec_u16_be_bytes(op.spec_code()) + encode_utf8(filename) + seq![0u8] + encode_utf8(mode)
        + seq![0u8] + spec_options_bytes(options)
}

/// The wire form of a data packet.
pub open spec fn spec_serialize_data(block_num: u16, data: Seq<u8>) -> Seq<u8> {
    spec_u16_be_bytes(Opcode::Data.spec_code()) + spec_u16_be_bytes(block_num) + data
}

/// The wire form of an acknowledgement.
pub open spec fn spec_serialize_ack(block_num: u16) -> Seq<u8> {
    spec_u16_be_bytes(Opcode::Ack.spec_code()) + spec_u16_be_bytes(block_num)
}

/// The wire form of an error packet.
pub open spec fn spec_serialize_error(code: ErrorCode, msg: Seq<char>) -> Seq<u8> {
    spec_u16_be_bytes(Opcode::Error.spec_code()) + spec_u16_be_bytes(code.spec_code())
        + encode_utf8(msg) + seq![0u8]
}

/// The wire form of an option acknowledgement.
pub open spec fn spec_serialize_oack(options: Seq<TransferOption>) -> Seq<u8> {
    spec_u16_be_bytes(Opcode::Oack.spec_code()) + spec_options_bytes(options)
}

/// The wire form of a packet.
pub open spec fn spec_serialize(packet: PacketView) -> Seq<u8> {
    match packet {
        PacketView::Rrq { filename, mode, options } => spec_serialize_request(
            Opcode::Rrq,
            filename,
            mode,
            options,
        ),
        PacketView::Wrq { filename, mode, options } => spec_serialize_request(
            Opcode::Wrq,
            filename,
            mode,
            options,
        ),
        PacketView::Data { block_num, data } => spec_serialize_data(block_num, data),
        PacketView::Ack(block_num) => spec_serialize_ack(block_num),
        PacketView::Error { code, msg } => spec_serialize_error(code, msg),
        PacketView::Oack(options) => spec_serialize_oack(options),
    }
}

/// Appends the wire form of each option of `options` to `out`.
fn append_options(out: &mut Vec<u8>, options: &Vec<TransferOption>)
    ensures
        final(out)@ == old(out)@ + spec_options_bytes(options@),
{
    let mut i: usize = 0;
    assert(options@.subrange(0, options@.len() as int) =~= options@);
    while i < options.len()
        invariant
            i <= options@.len(),
            out@ + spec_options_bytes(options@.subrange(i as int, options@.len() as int)) == old(
                out,
            )@ + spec_options_bytes(options@),
        decreases options@.len() - i,
    {
        let ghost rest = options@.subrange(i as int, options@.len() as int);
        let ghost before = out@;
        let bytes = options[i].as_bytes();
        append_bytes(out, bytes.as_slice());
        proof {
            assert(rest.drop_first() =~= options@.subrange(i + 1, options@.len() as int));
            assert(rest[0] == options@[i as int]);
            assert(out@ + spec_options_bytes(rest.drop_first()) =~= before + spec_options_bytes(
                rest,
            ));
        }
        i += 1;
    }
    assert(options@.subrange(i as int, options@.len() as int) =~= Seq::<TransferOption>::empty());
    assert(out@ =~= old(out)@ + spec_options_bytes(options@));
}

/// Writes a request with operation code `op`.
fn serialize_request(op: Opcode, filename: &String, mode: &String, options: &Vec<TransferOption>) -> (r:
    Vec<u8>)
    ensures
        r@ == spec_serialize_request(op, filename@, mode@, options@),
{
    let mut out: Vec<u8> = Vec::new();
    let code = op.as_bytes();
    append_bytes(&mut out, code.as_slice());
    append_bytes(&mut out, filename.as_str().as_bytes());
    out.push(0);
    append_bytes(&mut out, mode.as_str().as_bytes());
    out.push(0);
    assert(out@ =~= spec_u16_be_bytes(op.spec_code()) + encode_utf8(filename@) + seq![0u8]
        + encode_utf8(mode@) + seq![0u8]);
    append_options(&mut out, options);
    out
}

/// Writes a read request.
pub fn serialize_rrq(filename: &String, mode: &String, options: &Vec<TransferOption>) -> (r: Vec<
    u8,
>)
    ensures
        r@ == spec_serialize_request(Opcode::Rrq, filename@, mode@, options@),
{
    serialize_request(Opcode::Rrq, filename, mode, options)
}

/// Writes a write request.
pub fn serialize_wrq(filename: &String, mode: &String, options: &Vec<TransferOption>) -> (r: Vec<
    u8,
>)
    ensures
        r@ == spec_serialize_request(Opcode::Wrq, filename@, mode@, options@),
{
    serialize_request(Opcode::Wrq, filename, mode, options)
}

/// Writes a data packet.
pub fn serialize_data(block_num: &u16, data: &Vec<u8>) -> (r: Vec<u8>)
    ensures
        r@ == spec_serialize_data(*block_num, data@),
{
    let mut out: Vec<u8> = Vec::new();
    let code = Opcode::Data.as_bytes();
    append_bytes(&mut out, code.as_slice());
    out.push((*block_num / 256) as u8);
    out.push((*block_num % 256) as u8);
    assert(out@ =~= spec_u16_be_bytes(Opcode::Data.spec_code()) + spec_u16_be_bytes(*block_num));
    append_bytes(&mut out, data.as_slice());
    out
}

/// Writes an acknowledgement.
pub fn serialize_ack(block_num: &u16) -> (r: Vec<u8>)
    ensures
        r@ == spec_serialize_ack(*block_num),
{
    let mut out: Vec<u8> = Vec::new();
    let code = Opcode::Ack.as_bytes();
    append_bytes(&mut out, code.as_slice());
    out.push((*block_num / 256) as u8);
    out.push((*block_num % 256) as u8);
    assert(out@ =~= spec_serialize_ack(*block_num));
    out
}

/// Writes an error packet.
pub fn serialize_error(code: &ErrorCode, msg: &String) -> (r: Vec<u8>)
    ensures
        r@ == spec_serialize_error(*code, msg@),
{
    let mut out: Vec<u8> = Vec::new();
    let op = Opcode::Error.as_bytes();
    append_bytes(&mut out, op.as_slice());
    let number = code.as_bytes();
    append_bytes(&mut out, number.as_slice());
    append_bytes(&mut out, msg.as_str().as_bytes());
    out.push(0);
    assert(out@ =~= spec_serialize_error(*code, msg@));
    out
}

/// Writes an option acknowledgement.
pub fn serialize_oack(options: &Vec<TransferOption>) -> (r: Vec<u8>)
    ensures
        r@ == spec_serialize_oack(options@),
{
    let mut out: Vec<u8> = Vec::new();
    let code = Opcode::Oack.as_bytes();
    append_bytes(&mut out, code.as_slice());
    append_options(&mut out, options);
    out
}

impl Packet {
    /// Writes the packet in its wire form. Never fails.
    pub fn serialize(&self) -> (r: Result<Vec<u8>, &'static str>)
        ensures
            r matches Ok(bytes) && bytes@ == spec_serialize(self@),
    {
        match self {
            Packet::Rrq { filename, mode, options } => Ok(serialize_rrq(filename, mode, options)),
            Packet::Wrq { filename, mode, options } => Ok(serialize_wrq(filename, mode, options)),
            Packet::Data { block_num, data } => Ok(serialize_data(block_num, data)),
            Packet::Ack(block_num) => Ok(serialize_ack(block_num)),
            Packet::Error { code, msg } => Ok(serialize_error(code, msg)),
            Packet::Oack(options) => Ok(serialize_oack(options)),
        }
    }
}

/// Why bytes could not be read as a packet.
#[derive(Clone, Copy, Debug, PartialEq, Eq, Structural)]
pub enum PacketError {
    /// The operation code is not one of the protocol's.
    IllegalOpcode,
    /// A field is missing, runs off the buffer, or does not hold what it
    /// should.
    Malformed,
}

/// Splits `rest` at its first zero byte: the UTF-8 field before the zero
/// and what follows the zero. `None` when there is no zero or the field is
/// not UTF-8.
pub open spec fn spec_take_field(rest: Seq<u8>) -> Option<(Seq<u8>, Seq<u8>)> {
    let end = spec_find_zero(rest, 0);
    if 0 <= end < rest.len() && valid_utf8(rest.subrange(0, end)) {
        Some((rest.subrange(0, end), rest.subrange(end + 1, rest.len() as int)))
    } else {
        None
    }
}

/// The options that one name and value pair contributes: the option, when
/// the name is known and the value is a number; nothing otherwise.
pub open spec fn spec_keep_option(name: Seq<u8>, value: Seq<u8>) -> Seq<TransferOption> {
    match (OptionType::spec_from_name(name), spec_parse_u64(value)) {
        (Some(option), Some(value)) => seq![TransferOption { option, value }],
        _ => Seq::<TransferOption>::empty(),
    }
}

/// The options written in `rest` as name and value pairs, each field ended
/// by a zero, up to the end of the buffer. `None` when a field is cut short
/// or is not UTF-8.
pub open spec fn spec_parse_options(rest: Seq<u8>) -> Option<Seq<TransferOption>>
    decreases rest.len(),
{
    if rest.len() == 0 {
        Some(Seq::<TransferOption>::empty())
    } else {
        match spec_take_field(rest) {
            None => None,
            Some((name, after_name)) => match spec_take_field(after_name) {
                None => None,
                Some((value, after_value)) => if after_value.len() < rest.len() {
                    match spec_parse_options(after_value) {
                        None => None,
                        Some(tail) => Some(spec_keep_option(name, value) + tail),
                    }
                } else {
                    None
                },
            },
        }
    }
}

/// The request that the bytes after the operation code hold.
pub open spec fn spec_parse_request(op: Opcode, body: Seq<u8>) -> Result<PacketView, PacketError> {
    match spec_take_field(body) {
        None => Err(PacketError::Malformed),
        Some((filename, after_name)) => match spec_take_field(after_name) {
            None => Err(PacketError::Malformed),
            Some((mode, after_mode)) => match spec_parse_options(after_mode) {
                None => Err(PacketError::Malformed),
                Some(options) => match op {
                    Opcode::Rrq => Ok(
                        PacketView::Rrq {
                            filename: decode_utf8(filename),
                            mode: decode_utf8(mode),
                            options,
                        },
                    ),
                    Opcode::Wrq => Ok(
                        PacketView::Wrq {
                            filename: decode_utf8(filename),
                            mode: decode_utf8(mode),
                            options,
                        },
                    ),
                    _ => Err(PacketError::IllegalOpcode),
                },
            },
        },
    }
}

/// The message of an error packet whose own message is missing or unreadable.
pub open spec fn spec_no_message() -> Seq<char> {
    "(no message)"@
}

/// What the bytes of `buf` hold, read as a packet with operation code `op`.
pub open spec fn spec_parse(op: Opcode, buf: Seq<u8>) -> Result<PacketView, PacketError> {
    if buf.len() < 2 {
        Err(PacketError::Malformed)
    } else {
        let body = buf.subrange(2, buf.len() as int);
        match op {
            Opcode::Rrq => spec_parse_request(op, body),
            Opcode::Wrq => spec_parse_request(op, body),
            Opcode::Data => if buf.len() < 4 {
                Err(PacketError::Malformed)
            } else {
                Ok(
                    PacketView::Data {
                        block_num: spec_u16_be(body),
                        data: buf.subrange(4, buf.len() as int),
                    },
                )
            },
            Opcode::Ack => if buf.len() < 4 {
                Err(PacketError::Malformed)
            } else {
                Ok(PacketView::Ack(spec_u16_be(body)))
            },
            Opcode::Error => if buf.len() < 4 {
                Err(PacketError::Malformed)
            } else {
                match ErrorCode::spec_from_u16(spec_u16_be(body)) {
                    None => Err(PacketError::Malformed),
                    Some(code) => match spec_take_field(buf.subrange(4, buf.len() as int)) {
                        Some((msg, _)) => Ok(PacketView::Error { code, msg: decode_utf8(msg) }),
                        None => Ok(PacketView::Error { code, msg: spec_no_message() }),
                    },
                }
            },
            Opcode::Oack => match spec_parse_options(body) {
                None => Err(PacketError::Malformed),
                Some(options) => Ok(PacketView::Oack(options)),
            },
        }
    }
}

/// What the bytes of `buf` hold, read as a packet: fewer than two bytes
/// are malformed, a number outside 1..=6 in the first two is an illegal
/// operation code, and the rest is read as that code asks.
pub open spec fn spec_deserialize(buf: Seq<u8>) -> Result<PacketView, PacketError> {
    if buf.len() < 2 {
        Err(PacketError::Malformed)
    } else {
        match Opcode::spec_from_u16(spec_u16_be(buf)) {
            None => Err(PacketError::IllegalOpcode),
            Some(op) => spec_parse(op, buf),
        }
    }
}

/// The outcome of reading a packet, as mathematical values.
pub open spec fn spec_outcome(r: Result<Packet, PacketError>) -> Result<PacketView, PacketError> {
    match r {
        Ok(packet) => Ok(packet@),
        Err(e) => Err(e),
    }
}

/// Reading a field at an index of a buffer is reading the first field of
/// the buffer's tail from that index.
pub proof fn lemma_field_of_tail(bytes: Seq<u8>, start: int)
    requires
        0 <= start <= bytes.len(),
    ensures
        spec_take_field(bytes.subrange(start, bytes.len() as int)) == match spec_field(
            bytes,
            start,
        ) {
            Ok((raw, end)) => Some((raw, bytes.subrange(end + 1, bytes.len() as int))),
            Err(_) => None::<(Seq<u8>, Seq<u8>)>,
        },
        spec_field(bytes, start) matches Ok((raw, end)) ==> start <= end < bytes.len()
            && valid_utf8(raw),
{
    let tail = bytes.subrange(start, bytes.len() as int);
    let end = spec_find_zero(bytes, start);
    lemma_find_zero(bytes, start);
    assert forall|j: int| 0 <= j < end - start implies tail[j] != 0 by {
        assert(tail[j] == bytes[start + j]);
    }
    lemma_find_zero_unique(tail, 0, end - start);
    assert(tail.subrange(0, end - start) =~= bytes.subrange(start, end));
    if end < bytes.len() {
        assert(tail.subrange(end - start + 1, tail.len() as int) =~= bytes.subrange(
            end + 1,
            bytes.len() as int,
        ));
    }
}

/// What a list of options followed by the outcome of reading more options
/// comes to.
pub open spec fn spec_options_then(
    head: Seq<TransferOption>,
    tail: Option<Seq<TransferOption>>,
) -> Option<Seq<TransferOption>> {
    match tail {
        None => None,
        Some(tail) => Some(head + tail),
    }
}

/// Reads the name and value pairs that fill `buf` from `start` to its end.
fn parse_options(buf: &[u8], start: usize) -> (r: Result<Vec<TransferOption>, PacketError>)
    requires
        start <= buf@.len(),
    ensures
        match spec_parse_options(buf@.subrange(start as int, buf@.len() as int)) {
            Some(options) => r matches Ok(v) && v@ == options,
            None => r == Err::<Vec<TransferOption>, PacketError>(PacketError::Malformed),
        },
{
    let mut options: Vec<TransferOption> = Vec::new();
    let mut pos: usize = start;
    let ghost all = spec_parse_options(buf@.subrange(start as int, buf@.len() as int));
    assert(spec_options_then(options@, all) == all) by {
        if let Some(tail) = all {
            assert(options@ + tail =~= tail);
        }
    }
    while pos < buf.len()
        invariant
            pos <= buf@.len(),
            all == spec_parse_options(buf@.subrange(start as int, buf@.len() as int)),
            all == spec_options_then(
                options@,
                spec_parse_options(buf@.subrange(pos as int, buf@.len() as int)),
            ),
        decreases buf@.len() - pos,
    {
        let ghost rest = buf@.subrange(pos as int, buf@.len() as int);
        proof {
            lemma_field_of_tail(buf@, pos as int);
        }
        let (name, name_end) = match Convert::to_string(buf, pos) {
            Ok(found) => found,
            Err(_) => {
                return Err(PacketError::Malformed);
            },
        };
        proof {
            lemma_field_of_tail(buf@, name_end + 1);
        }
        let (value, value_end) = match Convert::to_string(buf, name_end + 1) {
            Ok(found) => found,
            Err(_) => {
                return Err(PacketError::Malformed);
            },
        };
        let ghost raw_name = buf@.subrange(pos as int, name_end as int);
        let ghost raw_value = buf@.subrange(name_end + 1, value_end as int);
        let ghost after = buf@.subrange(value_end + 1, buf@.len() as int);
        proof {
            decode_utf8_encode_utf8(raw_name);
            decode_utf8_encode_utf8(raw_value);
            assert(spec_take_field(rest) == Some((raw_name, buf@.subrange(name_end + 1, buf@.len() as int))));
            assert(after.len() < rest.len());
        }
        let kept = OptionType::from_name(name.as_str().as_bytes());
        let number = parse_u64(value.as_str().as_bytes());
        let ghost before = options@;
        match (kept, number) {
            (Some(option), Some(value)) => {
                options.push(TransferOption { option, value });
            },
            _ => {},
        }
        proof {
            assert(options@ =~= before + spec_keep_option(raw_name, raw_value));
            match spec_parse_options(after) {
                Some(tail) => {
                    assert(options@ + tail =~= before + (spec_keep_option(raw_name, raw_value)
                        + tail));
                },
                None => {},
            }
        }
        pos = value_end + 1;
    }
    proof {
        assert(buf@.subrange(pos as int, buf@.len() as int).len() == 0);
        assert(options@ + Seq::<TransferOption>::empty() =~= options@);
    }
    Ok(options)
}

/// Reads a read or write request.
pub fn parse_rq(buf: &[u8], opcode: Opcode) -> (r: Result<Packet, PacketError>)
    ensures
        buf@.len() >= 2 ==> spec_outcome(r) == spec_parse_request(
            opcode,
            buf@.subrange(2, buf@.len() as int),
        ),
        buf@.len() < 2 ==> r == Err::<Packet, PacketError>(PacketError::Malformed),
{
    if buf.len() < 2 {
        return Err(PacketError::Malformed);
    }
    proof {
        lemma_field_of_tail(buf@, 2);
    }
    let (filename, name_end) = match Convert::to_string(buf, 2) {
        Ok(found) => found,
        Err(_) => {
            return Err(PacketError::Malformed);
        },
    };
    proof {
        lemma_field_of_tail(buf@, name_end + 1);
    }
    let (mode, mode_end) = match Convert::to_string(buf, name_end + 1) {
        Ok(found) => found,
        Err(_) => {
            return Err(PacketError::Malformed);
        },
    };
    let options = match parse_options(buf, mode_end + 1) {
        Ok(options) => options,
        Err(e) => {
            return Err(e);
        },
    };
    match opcode {
        Opcode::Rrq => Ok(Packet::Rrq { filename, mode, options }),
        Opcode::Wrq => Ok(Packet::Wrq { filename, mode, options }),
        _ => Err(PacketError::IllegalOpcode),
    }
}

/// Reads a data packet.
pub fn parse_data(buf: &[u8]) -> (r: Result<Packet, PacketError>)
    ensures
        spec_outcome(r) == spec_parse(Opcode::Data, buf@),
{
    if buf.len() < 4 {
        return Err(PacketError::Malformed);
    }
    let block_num = match Convert::to_u16(slice_subrange(buf, 2, buf.len())) {
        Ok(n) => n,
        Err(_) => {
            return Err(PacketError::Malformed);
        },
    };
    let data = slice_to_vec(slice_subrange(buf, 4, buf.len()));
    Ok(Packet::Data { block_num, data })
}

/// Reads an acknowledgement.
pub fn parse_ack(buf: &[u8]) -> (r: Result<Packet, PacketError>)
    ensures
        spec_outcome(r) == spec_parse(Opcode::Ack, buf@),
{
    if buf.len() < 4 {
        return Err(PacketError::Malformed);
    }
    match Convert::to_u16(slice_subrange(buf, 2, buf.len())) {
        Ok(n) => Ok(Packet::Ack(n)),
        Err(_) => Err(PacketError::Malformed),
    }
}

/// Reads an option acknowledgement.
pub fn parse_oack(buf: &[u8]) -> (r: Result<Packet, PacketError>)
    ensures
        spec_outcome(r) == spec_parse(Opcode::Oack, buf@),
{
    if buf.len() < 2 {
        return Err(PacketError::Malformed);
    }
    match parse_options(buf, 2) {
        Ok(options) => Ok(Packet::Oack(options)),
        Err(e) => Err(e),
    }
}

/// Reads an error packet. A message that is missing, unterminated or not
/// UTF-8 is replaced by a fixed text.
pub fn parse_error(buf: &[u8]) -> (r: Result<Packet, PacketError>)
    ensures
        spec_outcome(r) == spec_parse(Opcode::Error, buf@),
{
    if buf.len() < 4 {
        return Err(PacketError::Malformed);
    }
    let number = match Convert::to_u16(slice_subrange(buf, 2, buf.len())) {
        Ok(n) => n,
        Err(_) => {
            return Err(PacketError::Malformed);
        },
    };
    let code = match ErrorCode::from_u16(number) {
        Ok(code) => code,
        Err(_) => {
            return Err(PacketError::Malformed);
        },
    };
    proof {
        lemma_field_of_tail(buf@, 4);
    }
    match Convert::to_string(buf, 4) {
        Ok((msg, _)) => Ok(Packet::Error { code, msg }),
        Err(_) => Ok(Packet::Error { code, msg: "(no message)".to_owned() }),
    }
}

impl Packet {
    /// Reads a packet from its wire form.
    pub fn deserialize(buf: &[u8]) -> (r: Result<Packet, PacketError>)
        ensures
            spec_outcome(r) == spec_deserialize(buf@),
    {
        if buf.len() < 2 {
            return Err(PacketError::Malformed);
        }
        let number = match Convert::to_u16(buf) {
            Ok(n) => n,
            Err(_) => {
                return Err(PacketError::Malformed);
            },
        };
        let opcode = match Opcode::from_u16(number) {
            Ok(op) => op,
            Err(_) => {
                return Err(PacketError::IllegalOpcode);
            },
        };
        match opcode {
            Opcode::Rrq => parse_rq(buf, opcode),
            Opcode::Wrq => parse_rq(buf, opcode),
            Opcode::Data => parse_data(buf),
            Opcode::Ack => parse_ack(buf),
            Opcode::Oack => parse_oack(buf),
            Opcode::Error => parse_error(buf),
        }
    }
}

} // verus!
