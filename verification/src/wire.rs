//! The byte layout of a message, stated over sequences of bytes.
//!
//! A message is three fields one after the other: the address, the type tags
//! and the arguments. Strings end in a NUL byte and are filled up with NUL
//! bytes to a multiple of four; numbers take four bytes, most significant
//! byte first.

use vstd::prelude::*;
use vstd::utf8::{encode_utf8, is_ascii_chars_encode_utf8};
use crate::arg::ArgValue;
use crate::message::MessageValue;

verus! {

/// How many NUL bytes follow a string of `len` bytes: the terminator, and
/// what it takes to reach the next multiple of four. Between one and four.
pub open spec fn nul_count(len: nat) -> nat {
    (4 - len % 4) as nat
}

/// `bytes`, then the NUL bytes that end and align it.
pub open spec fn padded(bytes: Seq<u8>) -> Seq<u8> {
    bytes + Seq::new(nul_count(bytes.len()), |i: int| 0u8)
}

/// A string on the wire: its UTF-8 bytes, NUL-terminated and aligned.
pub open spec fn osc_string(s: Seq<char>) -> Seq<u8> {
    padded(encode_utf8(s))
}

/// The four bytes of `x`, most significant first.
pub open spec fn big_endian(x: u32) -> Seq<u8> {
    seq![
        (x / 0x100_0000) as u8,
        (x / 0x1_0000 % 0x100) as u8,
        (x / 0x100 % 0x100) as u8,
        (x % 0x100) as u8,
    ]
}

/// The 32-bit pattern that stands for `i` in two's complement.
pub open spec fn twos_complement(i: i32) -> u32 {
    if i >= 0 {
        i as u32
    } else {
        (i + 0x1_0000_0000) as u32
    }
}

/// The character that announces an argument's type: `i` for an integer, `f`
/// for a floating-point number, `s` for text.
pub open spec fn tag_char(arg: ArgValue) -> char {
    match arg {
        ArgValue::Int(_) => 'i',
        ArgValue::Float(_) => 'f',
        ArgValue::Text(_) => 's',
    }
}

/// The type-tag string of an argument list: a comma, then one tag for each
/// argument, in the order of the arguments.
pub open spec fn type_tags(args: Seq<ArgValue>) -> Seq<char> {
    seq![','] + args.map_values(|a: ArgValue| tag_char(a))
}

/// One argument on the wire.
pub open spec fn arg_bytes(arg: ArgValue) -> Seq<u8> {
    match arg {
        ArgValue::Int(i) => big_endian(twos_complement(i)),
        ArgValue::Float(bits) => big_endian(bits),
        ArgValue::Text(s) => osc_string(s),
    }
}

/// The arguments on the wire, one after the other.
pub open spec fn payload(args: Seq<ArgValue>) -> Seq<u8>
    decreases args.len(),
{
    if args.len() == 0 {
        Seq::empty()
    } else {
        payload(args.drop_last()) + arg_bytes(args.last())
    }
}

/// A whole message on the wire: address, type tags, arguments.
pub open spec fn message_bytes(m: MessageValue) -> Seq<u8> {
    osc_string(m.addr) + osc_string(type_tags(m.args)) + payload(m.args)
}

/// A padded string is longer than the string by one to four bytes, its length
/// is a multiple of four, it begins with the string, and the rest is NUL.
pub proof fn lemma_padded(bytes: Seq<u8>)
    ensures
        padded(bytes).len() % 4 == 0,
        bytes.len() < padded(bytes).len() <= bytes.len() + 4,
        padded(bytes).take(bytes.len() as int) == bytes,
        forall|i: int| bytes.len() <= i < padded(bytes).len() ==> padded(bytes)[i] == 0,
{
}

/// The arguments take up a multiple of four bytes.
pub proof fn lemma_payload_aligned(args: Seq<ArgValue>)
    ensures
        payload(args).len() % 4 == 0,
    decreases args.len(),
{
    if args.len() > 0 {
        lemma_payload_aligned(args.drop_last());
        match args.last() {
            ArgValue::Text(s) => lemma_padded(encode_utf8(s)),
            _ => {},
        }
    }
}

/// The length of an encoded message is a multiple of four, whatever the
/// address and the arguments.
pub proof fn lemma_message_aligned(m: MessageValue)
    ensures
        message_bytes(m).len() % 4 == 0,
{
    lemma_padded(encode_utf8(m.addr));
    lemma_padded(encode_utf8(type_tags(m.args)));
    lemma_payload_aligned(m.args);
}

/// The bytes of a message depend on the address and the arguments alone: two
/// encodings of one message are the same bytes.
pub proof fn lemma_encoding_repeats(m: MessageValue, first: Seq<u8>, second: Seq<u8>)
    requires
        first == message_bytes(m),
        second == message_bytes(m),
    ensures
        first == second,
{
}

/// The arguments of a message with one more argument are the arguments so
/// far, then the new one.
pub proof fn lemma_payload_push(args: Seq<ArgValue>, arg: ArgValue)
    ensures
        payload(args.push(arg)) == payload(args) + arg_bytes(arg),
{
    assert(args.push(arg).drop_last() =~= args);
}

/// The type tags are ASCII, so on the wire each takes one byte: the bytes of
/// the type-tag string are a comma and one tag byte for each argument.
pub proof fn lemma_type_tags_bytes(args: Seq<ArgValue>)
    ensures
        encode_utf8(type_tags(args)).len() == args.len() + 1,
        encode_utf8(type_tags(args))[0] == 0x2c,
        forall|i: int|
            0 <= i < args.len() ==> #[trigger] encode_utf8(type_tags(args))[i + 1] == tag_char(
                args[i],
            ) as u8,
{
    is_ascii_chars_encode_utf8(type_tags(args));
}

/// A message without arguments still carries its type tags: after the
/// address come a comma and three NUL bytes, and nothing else.
pub proof fn lemma_no_arguments(m: MessageValue)
    requires
        m.args.len() == 0,
    ensures
        message_bytes(m) == osc_string(m.addr) + seq![0x2cu8, 0u8, 0u8, 0u8],
{
    lemma_type_tags_bytes(m.args);
    assert(message_bytes(m) =~= osc_string(m.addr) + seq![0x2cu8, 0u8, 0u8, 0u8]);
}

} // verus!
