//! Application-layer protocol negotiation.
use vstd::prelude::*;

verus! {

/// A list of protocols on the wire: each protocol is preceded by its length, in one byte.
pub open spec fn encode(protos: Seq<Seq<u8>>) -> Seq<u8>
    decreases protos.len(),
{
    if protos.len() == 0 {
        Seq::empty()
    } else {
        encode(protos.drop_last()).push((protos.last().len() % 256) as u8) + protos.last()
    }
}

/// The length of the first protocol on the wire, if it is there as a whole.
pub open spec fn first_len(wire: Seq<u8>) -> Option<int> {
    if wire.len() > 0 && 1 + wire[0] <= wire.len() {
        Some(wire[0] as int)
    } else {
        None
    }
}

/// The protocols on the wire, up to the first one that is cut short.
pub open spec fn decode(wire: Seq<u8>) -> Seq<Seq<u8>>
    decreases wire.len(),
{
    match first_len(wire) {
        Some(len) => seq![wire.subrange(1, 1 + len)] + decode(wire.skip(1 + len)),
        None => Seq::empty(),
    }
}

/// The position among the supported protocols of the first offered one that is supported.
pub open spec fn select(supported: Seq<Seq<u8>>, offered: Seq<Seq<u8>>) -> Option<int>
    decreases offered.len(),
{
    if offered.len() == 0 {
        None
    } else if supported.contains(offered[0]) {
        Some(supported.index_of_first(offered[0])->0)
    } else {
        select(supported, offered.drop_first())
    }
}

/// The contents of a list of protocols.
pub open spec fn contents(protos: Seq<Vec<u8>>) -> Seq<Seq<u8>> {
    protos.map_values(|proto: Vec<u8>| proto@)
}

/// Writes a list of protocols in wire format. Only the low byte of a length is written.
pub fn encode_protos(protos: &[&[u8]]) -> (wire: Vec<u8>)
    ensures
        wire@ == encode(protos@.map_values(|proto: &[u8]| proto@)),
{
    let ghost all = protos@.map_values(|proto: &[u8]| proto@);
    let mut wire: Vec<u8> = Vec::new();
    let mut i: usize = 0;
    while i < protos.len()
        invariant
            i <= protos@.len(),
            all == protos@.map_values(|proto: &[u8]| proto@),
            wire@ == encode(all.take(i as int)),
        decreases protos@.len() - i,
    {
        let proto = protos[i];
        let len = proto.len();
        assert(len as u8 == len % 256) by (bit_vector);
        wire.push(len as u8);
        wire.extend_from_slice(proto);
        assert(all.take(i + 1).drop_last() =~= all.take(i as int));
        assert(all.take(i + 1).last() == proto@);
        assert(wire@ =~= encode(all.take(i + 1)));
        i = i + 1;
    }
    assert(all.take(protos@.len() as int) =~= all);
    wire
}

/// Whether `a` and `b` hold the same bytes.
fn same_bytes(a: &[u8], b: &[u8]) -> (same: bool)
    ensures
        same == (a@ == b@),
{
    if a.len() != b.len() {
        return false;
    }
    let mut i: usize = 0;
    while i < a.len()
        invariant
            i <= a@.len(),
            a@.len() == b@.len(),
            forall|j: int| 0 <= j < i ==> a@[j] == b@[j],
        decreases a@.len() - i,
    {
        if a[i] != b[i] {
            return false;
        }
        i = i + 1;
    }
    assert(a@ =~= b@);
    true
}

/// The position of `proto` among the supported protocols.
fn position(supported: &Vec<Vec<u8>>, proto: &[u8]) -> (index: Option<usize>)
    ensures
        match index {
            Some(index) => {
                &&& contents(supported@).contains(proto@)
                &&& contents(supported@).index_of_first(proto@) == Some(index as int)
            },
            None => !contents(supported@).contains(proto@),
        },
{
    let mut i: usize = 0;
    while i < supported.len()
        invariant
            i <= supported@.len(),
            forall|j: int| 0 <= j < i ==> #[trigger] contents(supported@)[j] != proto@,
        decreases supported@.len() - i,
    {
        if same_bytes(supported[i].as_slice(), proto) {
            assert(contents(supported@)[i as int] == proto@);
            proof {
                contents(supported@).index_of_first_ensures(proto@);
            }
            return Some(i);
        }
        i = i + 1;
    }
    None
}

/// Selects the first protocol offered on the wire that is supported, and says where it stands among
/// the supported ones.
pub fn select_proto(supported: &Vec<Vec<u8>>, wire: &[u8]) -> (index: Option<usize>)
    ensures
        match index {
            Some(index) => select(contents(supported@), decode(wire@)) == Some(index as int),
            None => select(contents(supported@), decode(wire@)) is None,
        },
{
    let mut off: usize = 0;
    assert(wire@.skip(0) =~= wire@);
    while off < wire.len()
        invariant_except_break
            off <= wire@.len(),
            select(contents(supported@), decode(wire@)) == select(
                contents(supported@),
                decode(wire@.skip(off as int)),
            ),
        ensures
            select(contents(supported@), decode(wire@)) is None,
        decreases wire@.len() - off,
    {
        let ghost rest = wire@.skip(off as int);
        let len = wire[off] as usize;
        if len > wire.len() - off - 1 {
            break ;
        }
        let proto = vstd::slice::slice_subrange(wire, off + 1, off + 1 + len);
        assert(proto@ =~= rest.subrange(1, 1 + len));
        assert(decode(rest) =~= seq![proto@] + decode(rest.skip(1 + len)));
        assert(decode(rest).drop_first() =~= decode(rest.skip(1 + len)));
        if let Some(index) = position(supported, proto) {
            return Some(index);
        }
        assert(rest.skip(1 + len) =~= wire@.skip(off + 1 + len));
        off = off + 1 + len;
    }
    None
}

/// What is encoded is decoded again, if every length fits in its byte.
pub proof fn decode_gives_back_encode(protos: Seq<Seq<u8>>)
    requires
        forall|i: int| 0 <= i < protos.len() ==> (#[trigger] protos[i]).len() < 256,
    ensures
        decode(encode(protos)) == protos,
{
    lemma_decode_onto(protos, Seq::empty());
    assert(encode(protos) + Seq::empty() =~= encode(protos));
    assert(protos + decode(Seq::empty()) =~= protos);
}

/// What is encoded is decoded first, whatever follows it.
proof fn lemma_decode_onto(protos: Seq<Seq<u8>>, rest: Seq<u8>)
    requires
        forall|i: int| 0 <= i < protos.len() ==> (#[trigger] protos[i]).len() < 256,
    ensures
        decode(encode(protos) + rest) == protos + decode(rest),
    decreases protos.len(),
{
    if protos.len() == 0 {
        assert(encode(protos) + rest =~= rest);
        assert(protos + decode(rest) =~= decode(rest));
    } else {
        let last = protos.last();
        let tail = seq![last.len() as u8] + last + rest;
        assert(protos[protos.len() - 1] == last);
        assert(encode(protos) + rest =~= encode(protos.drop_last()) + tail);
        assert(tail.subrange(1, 1 + last.len() as int) =~= last);
        assert(tail.skip(1 + last.len() as int) =~= rest);
        lemma_decode_onto(protos.drop_last(), tail);
        assert(protos + decode(rest) =~= protos.drop_last() + (seq![last] + decode(rest)));
    }
}

} // verus!
