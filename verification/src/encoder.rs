//! Turns a message into the bytes that go out on the wire.

use vstd::prelude::*;
use vstd::string::{StringExecFns, StringSliceAdditionalSpecFns};
use crate::arg::OscArg;
use crate::message::OscMessage;
use crate::wire::{
    arg_bytes, big_endian, lemma_message_aligned, lemma_payload_push, message_bytes, osc_string,
    padded, payload, twos_complement, type_tags,
};

verus! {

/// Hands a string to `rosc::encoder::encode_string_into`, which writes it
/// behind what `out` already holds.
///
/// Taken on trust from that function's source: it adds to `out` the bytes of
/// `s`, then writes between one and four NUL bytes, as many as bring the
/// number of bytes written to the next multiple of four. It leaves what was
/// in `out` alone, and on a byte vector it cannot fail.
#[verifier::external_body]
fn append_osc_string(s: &str, out: &mut Vec<u8>)
    ensures
        final(out)@ == old(out)@ + padded(s.spec_bytes()),
{
    let _ = rosc::encoder::encode_string_into(s, out);
}

/// Writes the four bytes of `x` behind what `out` holds, most significant
/// byte first.
fn append_u32(x: u32, out: &mut Vec<u8>)
    ensures
        final(out)@ == old(out)@ + big_endian(x),
{
    out.push((x / 0x100_0000) as u8);
    out.push((x / 0x1_0000 % 0x100) as u8);
    out.push((x / 0x100 % 0x100) as u8);
    out.push((x % 0x100) as u8);
}

/// The bit pattern of `i` in two's complement.
fn to_twos_complement(i: i32) -> (bits: u32)
    ensures
        bits == twos_complement(i),
{
    if i >= 0 {
        i as u32
    } else {
        (i as i64 + 0x1_0000_0000) as u32
    }
}

/// Writes one argument behind what `out` holds.
fn append_arg(arg: &OscArg, out: &mut Vec<u8>)
    ensures
        final(out)@ == old(out)@ + arg_bytes(arg@),
{
    match arg {
        OscArg::Int(i) => append_u32(to_twos_complement(*i), out),
        OscArg::Float(bits) => append_u32(*bits, out),
        OscArg::String(s) => append_osc_string(s.as_str(), out),
    }
}

/// The type-tag string of `args`: a comma, then `i`, `f` or `s` for each
/// argument in turn.
pub fn type_tag_string(args: &Vec<OscArg>) -> (tags: String)
    ensures
        tags@ == type_tags(args@.map_values(|a: OscArg| a@)),
{
    let ghost values = args@.map_values(|a: OscArg| a@);
    let mut tags = String::new();
    proof {
        reveal_strlit(",");
        reveal_strlit("i");
        reveal_strlit("f");
        reveal_strlit("s");
    }
    tags.append(",");
    let mut i: usize = 0;
    while i < args.len()
        invariant
            i <= args.len(),
            values == args@.map_values(|a: OscArg| a@),
            tags@ == type_tags(values.take(i as int)),
            ","@ == seq![','],
            "i"@ == seq!['i'],
            "f"@ == seq!['f'],
            "s"@ == seq!['s'],
        decreases args.len() - i,
    {
        match &args[i] {
            OscArg::Int(_) => tags.append("i"),
            OscArg::Float(_) => tags.append("f"),
            OscArg::String(_) => tags.append("s"),
        }
        i = i + 1;
    }
    tags
}

/// Encodes a message: the address, the type tags and the arguments, each
/// string NUL-terminated and filled up to a multiple of four bytes, each
/// number in four bytes, most significant first.
///
/// There is no message that cannot be encoded, and the result is always a
/// whole number of four-byte words.
pub fn encode(msg: &OscMessage) -> (bytes: Vec<u8>)
    ensures
        bytes@ == message_bytes(msg@),
        bytes@.len() % 4 == 0,
{
    let ghost values = msg.args@.map_values(|a: OscArg| a@);
    let mut out: Vec<u8> = Vec::new();
    append_osc_string(msg.addr.as_str(), &mut out);
    let tags = type_tag_string(&msg.args);
    append_osc_string(tags.as_str(), &mut out);
    let ghost head = osc_string(msg.addr@) + osc_string(type_tags(values));
    let mut i: usize = 0;
    while i < msg.args.len()
        invariant
            i <= msg.args.len(),
            values == msg.args@.map_values(|a: OscArg| a@),
            out@ == head + payload(values.take(i as int)),
        decreases msg.args.len() - i,
    {
        append_arg(&msg.args[i], &mut out);
        proof {
            assert(values.take(i + 1) =~= values.take(i as int).push(values[i as int]));
            lemma_payload_push(values.take(i as int), values[i as int]);
        }
        i = i + 1;
    }
    proof {
        assert(values.take(i as int) =~= values);
        lemma_message_aligned(msg@);
    }
    out
}

} // verus!
