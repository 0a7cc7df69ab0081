use crate::options::TransferOption;
use crate::packet::ErrorCode;
use crate::packet::Packet;
use crate::packet::PacketError;
use crate::packet::PacketView;
use crate::packet::spec_deserialize;
use crate::packet::spec_outcome;
use vstd::prelude::*;
use vstd::string::StringExecFns;

verus! {

/// The largest payload of a packet that is no data packet.
pub const MAX_REQUEST_PACKET_SIZE: usize = 512;

/// Builds and reads the packets of the common message types.
pub struct Message;

impl Message {
    /// The data packet of block `block_num`.
    pub fn send_data(block_num: u16, data: Vec<u8>) -> (r: Packet)
        ensures
            r@ == (PacketView::Data { block_num, data: data@ }),
    {
        Packet::Data { block_num, data }
    }

    /// The acknowledgement of block `block_number`.
    pub fn send_ack(block_number: u16) -> (r: Packet)
        ensures
            r@ == PacketView::Ack(block_number),
    {
        Packet::Ack(block_number)
    }

    /// The error packet with the given code and message.
    pub fn send_error(code: ErrorCode, msg: &str) -> (r: Packet)
        ensures
            r@ == (PacketView::Error { code, msg: msg@ }),
    {
        Packet::Error { code, msg: String::from_str(msg) }
    }

    /// The error packet with the given code and message, for a peer that
    /// has no transfer in progress.
    pub fn send_error_to(code: ErrorCode, msg: &str) -> (r: Packet)
        ensures
            r@ == (PacketView::Error { code, msg: msg@ }),
    {
        Message::send_error(code, msg)
    }

    /// The acknowledgement of the given options.
    pub fn send_oack(options: Vec<TransferOption>) -> (r: Packet)
        ensures
            r@ == PacketView::Oack(options@),
    {
        Packet::Oack(options)
    }

    /// The number of bytes to make room for when a packet with a payload
    /// of up to `size` bytes is read: the payload and the four bytes
    /// before it, as far as the machine can count.
    pub fn buffer_size(size: usize) -> (r: usize)
        ensures
            r == if size + 4 <= usize::MAX {
                size + 4
            } else {
                usize::MAX as int
            },
    {
        if size <= usize::MAX - 4 {
            size + 4
        } else {
            usize::MAX
        }
    }

    /// Reads the packet that a datagram holds.
    pub fn recv(datagram: &[u8]) -> (r: Result<Packet, PacketError>)
        ensures
            spec_outcome(r) == spec_deserialize(datagram@),
    {
        Packet::deserialize(datagram)
    }

    /// Reads the packet that a datagram from any peer holds.
    pub fn recv_from(datagram: &[u8]) -> (r: Result<Packet, PacketError>)
        ensures
            spec_outcome(r) == spec_deserialize(datagram@),
    {
        Packet::deserialize(datagram)
    }

    /// Reads the packet that a datagram holds, of which at most the
    /// bytes of a payload of `size` bytes and the four before it were
    /// read.
    pub fn recv_with_size(datagram: &[u8], size: usize) -> (r: Result<Packet, PacketError>)
        ensures
            spec_outcome(r) == spec_deserialize(
                datagram@.subrange(
                    0,
                    if datagram@.len() <= size + 4 {
                        datagram@.len() as int
                    } else {
                        size + 4
                    },
                ),
            ),
    {
        let room = Message::buffer_size(size);
        let end: usize = if datagram.len() <= room {
            datagram.len()
        } else {
            room
        };
        Packet::deserialize(vstd::slice::slice_subrange(datagram, 0, end))
    }

    /// Reads the packet that a datagram from any peer holds, of which at
    /// most the bytes of a payload of `size` bytes and the four before it
    /// were read.
    pub fn recv_from_with_size(datagram: &[u8], size: usize) -> (r: Result<Packet, PacketError>)
        ensures
            spec_outcome(r) == spec_deserialize(
                datagram@.subrange(
                    0,
                    if datagram@.len() <= size + 4 {
                        datagram@.len() as int
                    } else {
                        size + 4
                    },
                ),
            ),
    {
        Message::recv_with_size(datagram, size)
    }
}

} // verus!
