//! The session that a client stores to resume a connection.
use vstd::prelude::*;

verus! {

/// A number in eight bytes, the most significant one first.
pub open spec fn be_bytes(n: u64) -> Seq<u8> {
    seq![
        (n >> 56) as u8,
        (n >> 48) as u8,
        (n >> 40) as u8,
        (n >> 32) as u8,
        (n >> 24) as u8,
        (n >> 16) as u8,
        (n >> 8) as u8,
        n as u8,
    ]
}

/// A byte string preceded by its length.
pub open spec fn with_length(bytes: Seq<u8>) -> Seq<u8> {
    be_bytes(bytes.len() as u64) + bytes
}

/// The stored form of a session: the ticket, then the transport parameters of the peer.
pub open spec fn stored_session(ticket: Seq<u8>, peer_params: Seq<u8>) -> Seq<u8> {
    with_length(ticket) + with_length(peer_params)
}

/// Appends a number in eight bytes, the most significant one first.
fn push_be_bytes(buffer: &mut Vec<u8>, n: u64)
    ensures
        final(buffer)@ == old(buffer)@ + be_bytes(n),
{
    buffer.push((n >> 56) as u8);
    buffer.push((n >> 48) as u8);
    buffer.push((n >> 40) as u8);
    buffer.push((n >> 32) as u8);
    buffer.push((n >> 24) as u8);
    buffer.push((n >> 16) as u8);
    buffer.push((n >> 8) as u8);
    buffer.push(n as u8);
    assert(buffer@ =~= old(buffer)@ + be_bytes(n));
}

/// Writes a session in its stored form.
pub fn store_session(ticket: &[u8], peer_params: &[u8]) -> (buffer: Vec<u8>)
    ensures
        buffer@ == stored_session(ticket@, peer_params@),
{
    let mut buffer: Vec<u8> = Vec::new();
    push_be_bytes(&mut buffer, ticket.len() as u64);
    buffer.extend_from_slice(ticket);
    push_be_bytes(&mut buffer, peer_params.len() as u64);
    buffer.extend_from_slice(peer_params);
    assert(buffer@ =~= stored_session(ticket@, peer_params@));
    buffer
}

/// The number in the first eight bytes.
pub open spec fn from_be_bytes(bytes: Seq<u8>) -> u64 {
    (bytes[0] as u64) << 56 | (bytes[1] as u64) << 48 | (bytes[2] as u64) << 40 | (
    bytes[3] as u64) << 32 | (bytes[4] as u64) << 24 | (bytes[5] as u64) << 16 | (
    bytes[6] as u64) << 8 | bytes[7] as u64
}

/// Reading the eight bytes of a number gives back the number.
pub proof fn from_be_bytes_gives_back_be_bytes(n: u64)
    ensures
        from_be_bytes(be_bytes(n)) == n,
{
    assert((((n >> 56) as u8) as u64) << 56 | (((n >> 48) as u8) as u64) << 48 | (((n
        >> 40) as u8) as u64) << 40 | (((n >> 32) as u8) as u64) << 32 | (((n >> 24) as u8) as u64)
        << 24 | (((n >> 16) as u8) as u64) << 16 | (((n >> 8) as u8) as u64) << 8 | ((
    n as u8) as u64) == n) by (bit_vector);
}

/// A stored session determines the ticket and the transport parameters: the first length says where
/// the ticket ends, and the second one how long the parameters are.
pub proof fn stored_session_is_unambiguous(
    ticket: Seq<u8>,
    peer_params: Seq<u8>,
)
    requires
        ticket.len() <= u64::MAX,
        peer_params.len() <= u64::MAX,
    ensures
        ({
            let stored = stored_session(ticket, peer_params);
            let rest = stored.skip(8 + ticket.len() as int);
            &&& from_be_bytes(stored) == ticket.len()
            &&& stored.subrange(8, 8 + ticket.len() as int) == ticket
            &&& from_be_bytes(rest) == peer_params.len()
            &&& rest.skip(8) == peer_params
        }),
{
    from_be_bytes_gives_back_be_bytes(ticket.len() as u64);
    from_be_bytes_gives_back_be_bytes(peer_params.len() as u64);
    let stored = stored_session(ticket, peer_params);
    let rest = stored.skip(8 + ticket.len() as int);
    assert(stored.subrange(8, 8 + ticket.len() as int) =~= ticket);
    assert(rest =~= with_length(peer_params));
    assert(rest.skip(8) =~= peer_params);
}

} // verus!
