use crate::convert::lemma_find_zero_unique;
use crate::convert::lemma_u16_be_roundtrip;
use crate::convert::spec_u16_be;
use crate::convert::spec_u16_be_bytes;
use crate::decimal::lemma_decimal_digits;
use crate::decimal::lemma_decimal_roundtrip;
use crate::decimal::spec_decimal;
use crate::options::spec_option_bytes;
use crate::options::spec_options_bytes;
use crate::options::TransferOption;
use crate::packet::spec_deserialize;
use crate::packet::spec_keep_option;
use crate::packet::spec_parse_options;
use crate::packet::spec_serialize;
use crate::packet::spec_take_field;
use crate::packet::ErrorCode;
use crate::packet::Opcode;
use crate::packet::PacketView;
use vstd::prelude::*;
use vstd::utf8::char_is_scalar;
use vstd::utf8::char_u32_cast;
use vstd::utf8::encode_scalar;
use vstd::utf8::encode_utf8;
use vstd::utf8::encode_utf8_decode_utf8;
use vstd::utf8::encode_utf8_valid_utf8;
use vstd::utf8::has_width_1_encoding;
use vstd::utf8::has_width_2_encoding;
use vstd::utf8::has_width_3_encoding;
use vstd::utf8::is_ascii_chars;
use vstd::utf8::is_ascii_chars_encode_utf8;
use vstd::utf8::is_scalar;
use vstd::utf8::valid_utf8;

verus! {

/// Whether no byte of `bytes` is zero.
pub open spec fn spec_no_zero(bytes: Seq<u8>) -> bool {
    forall|i: int| 0 <= i < bytes.len() ==> #[trigger] bytes[i] != 0
}

/// Whether `text` is free of the NUL character, so that it can stand in a
/// zero-terminated field.
pub open spec fn spec_no_nul(text: Seq<char>) -> bool {
    forall|i: int| 0 <= i < text.len() ==> #[trigger] text[i] != '\0'
}

/// The UTF-8 bytes of a scalar value hold a zero only for the value zero.
proof fn lemma_scalar_zero(scalar: u32)
    requires
        is_scalar(scalar),
    ensures
        spec_no_zero(encode_scalar(scalar)) <==> scalar != 0,
        encode_scalar(scalar).len() > 0,
{
    let bytes = encode_scalar(scalar);
    if has_width_1_encoding(scalar) {
        assert(((scalar & 0x7F) as u8 == 0) <==> scalar == 0) by (bit_vector)
            requires
                scalar <= 0x7F,
        ;
        if scalar == 0 {
            assert(bytes[0] == 0);
        }
    } else {
        assert(0xC0u8 | ((scalar >> 6) & 0x1F) as u8 != 0) by (bit_vector);
        assert(0xE0u8 | ((scalar >> 12) & 0x0F) as u8 != 0) by (bit_vector);
        assert(0xF0u8 | ((scalar >> 18) & 0x7) as u8 != 0) by (bit_vector);
        assert(0x80u8 | (scalar & 0x3F) as u8 != 0) by (bit_vector);
        assert(0x80u8 | ((scalar >> 6) & 0x3F) as u8 != 0) by (bit_vector);
        assert(0x80u8 | ((scalar >> 12) & 0x3F) as u8 != 0) by (bit_vector);
        if has_width_2_encoding(scalar) {
        } else if has_width_3_encoding(scalar) {
        } else {
        }
    }
}

/// The UTF-8 bytes of a text hold a zero exactly when the text holds the
/// NUL character.
pub proof fn lemma_text_zero(text: Seq<char>)
    ensures
        spec_no_zero(encode_utf8(text)) <==> spec_no_nul(text),
    decreases text.len(),
{
    if text.len() == 0 {
    } else {
        let first = encode_scalar(text[0] as u32);
        let rest = encode_utf8(text.drop_first());
        let all = encode_utf8(text);
        char_is_scalar(text[0]);
        lemma_scalar_zero(text[0] as u32);
        lemma_text_zero(text.drop_first());
        assert(all == first + rest);
        assert(text[0] as u32 != 0 <==> text[0] != '\0') by {
            char_u32_cast(text[0], text[0] as u32);
            assert('\0' as u32 == 0);
        }
        if spec_no_nul(text) {
            assert(text[0] != '\0');
            assert forall|i: int| 0 <= i < text.drop_first().len() implies #[trigger] text.drop_first()[i]
                != '\0' by {
                assert(text.drop_first()[i] == text[i + 1]);
            }
            assert forall|i: int| 0 <= i < all.len() implies #[trigger] all[i] != 0 by {
                if i < first.len() {
                    assert(all[i] == first[i]);
                } else {
                    assert(all[i] == rest[i - first.len()]);
                }
            }
        }
        if spec_no_zero(all) {
            assert forall|i: int| 0 <= i < first.len() implies #[trigger] first[i] != 0 by {
                assert(all[i] == first[i]);
            }
            assert forall|i: int| 0 <= i < rest.len() implies #[trigger] rest[i] != 0 by {
                assert(all[i + first.len()] == rest[i]);
            }
            assert(text[0] as u32 != 0);
            assert forall|i: int| 0 <= i < text.len() implies #[trigger] text[i] != '\0' by {
                if i > 0 {
                    assert(text.drop_first()[i - 1] == text[i]);
                }
            }
        }
    }
}

/// Bytes below 128 are well-formed UTF-8.
pub proof fn lemma_ascii_is_utf8(bytes: Seq<u8>)
    requires
        forall|i: int| 0 <= i < bytes.len() ==> #[trigger] bytes[i] < 128,
    ensures
        valid_utf8(bytes),
{
    let text = Seq::new(bytes.len(), |i: int| bytes[i] as char);
    assert(is_ascii_chars(text)) by {
        assert forall|i: int| 0 <= i < text.len() implies '\0' <= #[trigger] text[i] <= '\u{7f}' by {
            assert(bytes[i] < 128);
        }
    }
    is_ascii_chars_encode_utf8(text);
    assert(encode_utf8(text) =~= bytes) by {
        assert forall|i: int| 0 <= i < bytes.len() implies encode_utf8(text)[i] == bytes[i] by {
            assert(text[i] as u8 == encode_utf8(text)[i]);
            assert(bytes[i] < 128);
        }
    }
    encode_utf8_valid_utf8(text);
}

/// A well-formed field without a zero, followed by a zero, is read back
/// whole, and what follows the zero is left over.
pub proof fn lemma_take_field(field: Seq<u8>, rest: Seq<u8>)
    requires
        spec_no_zero(field),
        valid_utf8(field),
    ensures
        spec_take_field(field + seq![0u8] + rest) == Some((field, rest)),
{
    let all = field + seq![0u8] + rest;
    let end = field.len() as int;
    assert(all[end] == 0);
    assert forall|j: int| 0 <= j < end implies all[j] != 0 by {
        assert(all[j] == field[j]);
    }
    lemma_find_zero_unique(all, 0, end);
    assert(all.subrange(0, end) =~= field);
    assert(all.subrange(end + 1, all.len() as int) =~= rest);
}

/// The wire form of one option holds two fields that read back as the
/// option.
proof fn lemma_option_fields(option: TransferOption)
    ensures
        spec_no_zero(option.option.spec_name_bytes()),
        valid_utf8(option.option.spec_name_bytes()),
        spec_no_zero(spec_decimal(option.value as nat)),
        valid_utf8(spec_decimal(option.value as nat)),
        spec_keep_option(option.option.spec_name_bytes(), spec_decimal(option.value as nat))
            == seq![option],
{
    option.option.lemma_name_bytes();
    option.option.lemma_from_name_of_name();
    encode_utf8_valid_utf8(option.option.spec_name());
    lemma_decimal_roundtrip(option.value);
    lemma_decimal_digits(option.value as nat);
    let digits = spec_decimal(option.value as nat);
    assert forall|i: int| 0 <= i < digits.len() implies #[trigger] digits[i] < 128 by {
        assert(crate::decimal::is_digit(digits[i]));
    }
    lemma_ascii_is_utf8(digits);
}

/// A name field and a value field, each ended by a zero, read as the
/// option they write, followed by what the rest of the buffer reads as.
proof fn lemma_parse_options_step(name: Seq<u8>, value: Seq<u8>, after: Seq<u8>)
    requires
        spec_no_zero(name),
        valid_utf8(name),
        spec_no_zero(value),
        valid_utf8(value),
    ensures
        spec_parse_options(name + seq![0u8] + value + seq![0u8] + after) == match spec_parse_options(
            after,
        ) {
            None => None::<Seq<TransferOption>>,
            Some(tail) => Some(spec_keep_option(name, value) + tail),
        },
{
    let after_name = value + seq![0u8] + after;
    let all = name + seq![0u8] + value + seq![0u8] + after;
    assert(all =~= name + seq![0u8] + after_name);
    lemma_take_field(name, after_name);
    lemma_take_field(value, after);
    assert(after.len() < all.len());
    assert(all.len() > 0);
}

/// Reading the wire form of a list of options gives the list back.
pub proof fn lemma_options_roundtrip(options: Seq<TransferOption>)
    ensures
        spec_parse_options(spec_options_bytes(options)) == Some(options),
    decreases options.len(),
{
    if options.len() == 0 {
    } else {
        let first = options[0];
        let name = first.option.spec_name_bytes();
        let digits = spec_decimal(first.value as nat);
        let tail = spec_options_bytes(options.drop_first());
        let all = spec_options_bytes(options);
        lemma_option_fields(first);
        lemma_options_roundtrip(options.drop_first());
        assert(all =~= name + seq![0u8] + digits + seq![0u8] + tail) by {
            assert(spec_option_bytes(first) == name + seq![0u8] + digits + seq![0u8]);
        }
        lemma_parse_options_step(name, digits, tail);
        assert(seq![first] + options.drop_first() =~= options);
    }
}

impl PacketView {
    /// Whether the packet can be written so that it reads back: its texts
    /// are free of the NUL character.
    pub open spec fn wf(self) -> bool {
        match self {
            PacketView::Rrq { filename, mode, options } => spec_no_nul(filename) && spec_no_nul(
                mode,
            ),
            PacketView::Wrq { filename, mode, options } => spec_no_nul(filename) && spec_no_nul(
                mode,
            ),
            PacketView::Error { code, msg } => spec_no_nul(msg),
            _ => true,
        }
    }
}

/// The wire form of a request reads back as the request.
proof fn lemma_request_roundtrip(
    op: Opcode,
    filename: Seq<char>,
    mode: Seq<char>,
    options: Seq<TransferOption>,
)
    requires
        spec_no_nul(filename),
        spec_no_nul(mode),
        op == Opcode::Rrq || op == Opcode::Wrq,
    ensures
        spec_deserialize(crate::packet::spec_serialize_request(op, filename, mode, options))
            == crate::packet::spec_parse_request(
            op,
            encode_utf8(filename) + seq![0u8] + encode_utf8(mode) + seq![0u8] + spec_options_bytes(
                options,
            ),
        ),
        crate::packet::spec_parse_request(
            op,
            encode_utf8(filename) + seq![0u8] + encode_utf8(mode) + seq![0u8] + spec_options_bytes(
                options,
            ),
        ) == if op == Opcode::Rrq {
            Ok::<PacketView, crate::packet::PacketError>(
                PacketView::Rrq { filename, mode, options },
            )
        } else {
            Ok::<PacketView, crate::packet::PacketError>(
                PacketView::Wrq { filename, mode, options },
            )
        },
{
    let name_bytes = encode_utf8(filename);
    let mode_bytes = encode_utf8(mode);
    let tail = spec_options_bytes(options);
    let body = name_bytes + seq![0u8] + mode_bytes + seq![0u8] + tail;
    let all = crate::packet::spec_serialize_request(op, filename, mode, options);
    let head = spec_u16_be_bytes(op.spec_code());
    lemma_u16_be_roundtrip(op.spec_code());
    assert(all =~= head + body);
    assert(all.subrange(2, all.len() as int) =~= body);
    assert(spec_u16_be(all) == op.spec_code()) by {
        assert(all[0] == head[0]);
        assert(all[1] == head[1]);
    }
    lemma_text_zero(filename);
    lemma_text_zero(mode);
    encode_utf8_valid_utf8(filename);
    encode_utf8_valid_utf8(mode);
    encode_utf8_decode_utf8(filename);
    encode_utf8_decode_utf8(mode);
    let after_name = mode_bytes + seq![0u8] + tail;
    assert(body =~= name_bytes + seq![0u8] + after_name);
    lemma_take_field(name_bytes, after_name);
    lemma_take_field(mode_bytes, tail);
    lemma_options_roundtrip(options);
}

/// Reading the wire form of a packet whose texts are free of NUL gives the
/// packet back.
pub proof fn lemma_deserialize_serialize(packet: PacketView)
    requires
        packet.wf(),
    ensures
        spec_deserialize(spec_serialize(packet)) == Ok::<PacketView, crate::packet::PacketError>(
            packet,
        ),
{
    let all = spec_serialize(packet);
    match packet {
        PacketView::Rrq { filename, mode, options } => {
            lemma_request_roundtrip(Opcode::Rrq, filename, mode, options);
        },
        PacketView::Wrq { filename, mode, options } => {
            lemma_request_roundtrip(Opcode::Wrq, filename, mode, options);
        },
        PacketView::Data { block_num, data } => {
            let head = spec_u16_be_bytes(Opcode::Data.spec_code());
            let number = spec_u16_be_bytes(block_num);
            lemma_u16_be_roundtrip(block_num);
            assert(all =~= head + number + data);
            assert(all[0] == head[0] && all[1] == head[1]);
            let body = all.subrange(2, all.len() as int);
            assert(body[0] == number[0] && body[1] == number[1]);
            assert(all.subrange(4, all.len() as int) =~= data);
        },
        PacketView::Ack(block_num) => {
            let head = spec_u16_be_bytes(Opcode::Ack.spec_code());
            let number = spec_u16_be_bytes(block_num);
            lemma_u16_be_roundtrip(block_num);
            assert(all =~= head + number);
            assert(all[0] == head[0] && all[1] == head[1]);
            let body = all.subrange(2, all.len() as int);
            assert(body[0] == number[0] && body[1] == number[1]);
        },
        PacketView::Error { code, msg } => {
            let head = spec_u16_be_bytes(Opcode::Error.spec_code());
            let number = spec_u16_be_bytes(code.spec_code());
            let text = encode_utf8(msg);
            lemma_u16_be_roundtrip(code.spec_code());
            assert(all =~= head + number + text + seq![0u8]);
            assert(all[0] == head[0] && all[1] == head[1]);
            let body = all.subrange(2, all.len() as int);
            assert(body[0] == number[0] && body[1] == number[1]);
            assert(ErrorCode::spec_from_u16(code.spec_code()) == Some(code));
            lemma_text_zero(msg);
            encode_utf8_valid_utf8(msg);
            encode_utf8_decode_utf8(msg);
            lemma_take_field(text, Seq::<u8>::empty());
            assert(all.subrange(4, all.len() as int) =~= text + seq![0u8] + Seq::<u8>::empty());
        },
        PacketView::Oack(options) => {
            let head = spec_u16_be_bytes(Opcode::Oack.spec_code());
            assert(all =~= head + spec_options_bytes(options));
            assert(all[0] == head[0] && all[1] == head[1]);
            assert(all.subrange(2, all.len() as int) =~= spec_options_bytes(options));
            lemma_options_roundtrip(options);
        },
    }
}

/// Whether `bytes` is the wire form of some packet whose texts are free
/// of NUL.
pub open spec fn spec_canonical(bytes: Seq<u8>) -> bool {
    exists|packet: PacketView| packet.wf() && spec_serialize(packet) == bytes
}

/// Writing what was read from the wire form of a packet gives the same
/// bytes again.
pub proof fn lemma_serialize_deserialize(bytes: Seq<u8>)
    requires
        spec_canonical(bytes),
    ensures
        spec_deserialize(bytes) matches Ok(packet) && packet.wf() && spec_serialize(packet)
            == bytes,
{
    let packet = choose|packet: PacketView| packet.wf() && spec_serialize(packet) == bytes;
    lemma_deserialize_serialize(packet);
}

} // verus!
