//! What is written on the wire, in a stored session and as text.
use crate::alpn::{contents, decode, encode, select};
use crate::session::{be_bytes, stored_session, with_length};
use crate::text::hex;
use vstd::prelude::*;

verus! {

/// A protocol is written after those before it: its length in one byte, and its bytes.
pub proof fn protocols_are_written_in_order(protos: Seq<Seq<u8>>, proto: Seq<u8>)
    requires
        proto.len() < 256,
    ensures
        encode(Seq::empty()) == Seq::<u8>::empty(),
        encode(protos.push(proto)) == encode(protos) + seq![proto.len() as u8] + proto,
{
    assert(protos.push(proto).drop_last() =~= protos);
    assert(encode(protos.push(proto)) =~= encode(protos) + seq![proto.len() as u8] + proto);
}

/// A protocol of 256 bytes or more is written with the low byte of its length.
pub proof fn long_protocols_are_written_with_the_low_byte(protos: Seq<Seq<u8>>, proto: Seq<u8>)
    ensures
        ({
            let wire = encode(protos.push(proto));
            let before = encode(protos);
            &&& wire.len() == before.len() + 1 + proto.len()
            &&& wire.take(before.len() as int) == before
            &&& wire[before.len() as int] as int == proto.len() % 256
            &&& wire.skip(before.len() as int + 1) == proto
        }),
{
    assert(protos.push(proto).drop_last() =~= protos);
    let wire = encode(protos.push(proto));
    let before = encode(protos);
    assert(wire.take(before.len() as int) =~= before);
    assert(wire.skip(before.len() as int + 1) =~= proto);
}

/// The first protocol on the wire is as long as the first byte says, and the others follow it. One
/// that is cut short is not there, nor is anything after it.
pub proof fn protocols_are_read_in_order(wire: Seq<u8>)
    ensures
        wire.len() == 0 ==> decode(wire).len() == 0,
        wire.len() > 0 && wire.len() - 1 < wire[0] ==> decode(wire).len() == 0,
        wire.len() > 0 && wire.len() - 1 >= wire[0] ==> {
            let end = 1 + wire[0] as int;
            &&& decode(wire).len() == 1 + decode(wire.skip(end)).len()
            &&& decode(wire)[0] == wire.subrange(1, end)
            &&& decode(wire).skip(1) == decode(wire.skip(end))
        },
{
    if wire.len() > 0 && wire.len() - 1 >= wire[0] {
        let end = 1 + wire[0] as int;
        assert(decode(wire).skip(1) =~= decode(wire.skip(end)));
    }
}

/// The position of the selected protocol is the first one at which it is supported.
pub proof fn selection_names_the_first_position(supported: Seq<Seq<u8>>, offered: Seq<Seq<u8>>)
    ensures
        select(supported, offered) matches Some(index) ==> {
            &&& 0 <= index < supported.len()
            &&& forall|j: int| 0 <= j < index ==> #[trigger] supported[j] != supported[index]
        },
    decreases offered.len(),
{
    if offered.len() > 0 {
        if supported.contains(offered[0]) {
            supported.index_of_first_ensures(offered[0]);
        } else {
            selection_names_the_first_position(supported, offered.drop_first());
        }
    }
}

/// A number is written in eight bytes that are its digits to the base 256, the most significant one
/// first.
pub proof fn numbers_are_written_most_significant_byte_first(n: u64)
    ensures
        be_bytes(n).len() == 8,
        be_bytes(n)[0] == n / 0x100_0000_0000_0000 % 256,
        be_bytes(n)[1] == n / 0x1_0000_0000_0000 % 256,
        be_bytes(n)[2] == n / 0x100_0000_0000 % 256,
        be_bytes(n)[3] == n / 0x1_0000_0000 % 256,
        be_bytes(n)[4] == n / 0x100_0000 % 256,
        be_bytes(n)[5] == n / 0x1_0000 % 256,
        be_bytes(n)[6] == n / 0x100 % 256,
        be_bytes(n)[7] == n % 256,
{
    assert((n >> 56) as u8 == n / 0x100_0000_0000_0000 % 256) by (bit_vector);
    assert((n >> 48) as u8 == n / 0x1_0000_0000_0000 % 256) by (bit_vector);
    assert((n >> 40) as u8 == n / 0x100_0000_0000 % 256) by (bit_vector);
    assert((n >> 32) as u8 == n / 0x1_0000_0000 % 256) by (bit_vector);
    assert((n >> 24) as u8 == n / 0x100_0000 % 256) by (bit_vector);
    assert((n >> 16) as u8 == n / 0x1_0000 % 256) by (bit_vector);
    assert((n >> 8) as u8 == n / 0x100 % 256) by (bit_vector);
    assert(n as u8 == n % 256) by (bit_vector);
}

/// A stored session is the ticket and the transport parameters, each after its length.
pub proof fn session_is_stored_with_lengths(ticket: Seq<u8>, peer_params: Seq<u8>)
    ensures
        stored_session(ticket, peer_params) == be_bytes(ticket.len() as u64) + ticket + be_bytes(
            peer_params.len() as u64,
        ) + peer_params,
{
    assert(with_length(ticket) + with_length(peer_params) =~= be_bytes(ticket.len() as u64) + ticket
        + be_bytes(peer_params.len() as u64) + peer_params);
}

/// A byte is written as two digits, the one for the sixteens first.
pub proof fn bytes_are_written_in_two_digits(bytes: Seq<u8>, i: int)
    requires
        0 <= i < bytes.len(),
    ensures
        hex(bytes).len() == 2 * bytes.len(),
        hex(bytes)[2 * i] == "0123456789abcdef"@[bytes[i] as int / 16],
        hex(bytes)[2 * i + 1] == "0123456789abcdef"@[bytes[i] as int % 16],
{
    reveal_strlit("0123456789abcdef");
}

/// Nothing is written for no bytes.
pub proof fn no_bytes_are_written_as_nothing()
    ensures
        hex(Seq::empty()) == Seq::<char>::empty(),
{
    assert(hex(Seq::empty()) =~= Seq::<char>::empty());
}

/// The protocols of a list are seen one by one, as they are.
pub proof fn protocols_are_seen_as_they_are(protos: Seq<Vec<u8>>, i: int)
    ensures
        contents(protos).len() == protos.len(),
        0 <= i < protos.len() ==> contents(protos)[i] == protos[i]@,
{
}

} // verus!
