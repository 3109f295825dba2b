//! What is read from a trace, and what is made of it.
use crate::qlog::{
    ack_complete, acks_in, acks_in_frames, all_countable, are_times, base, first_error,
    first_packet, leading, member, record_complete, records_view, schedule, schedule_view,
    time_text, usable, Json, JsonView, QlogError, RecordedAck,
};
use crate::text::chars;
use crate::time::Duration;
use std::ops::Range;
use vstd::prelude::*;

verus! {

/// A JSON value has the content that it was made of.
pub proof fn values_hold_what_they_were_made_of(value: Json)
    ensures
        match value {
            Json::Null => value@ == JsonView::Null,
            Json::Bool(set) => value@ == JsonView::Bool(set),
            Json::Number(number) => value@ == JsonView::Number(number.unsigned, number.text@),
            Json::Text(text) => value@ == JsonView::Text(text@),
            Json::Array(elements) => {
                &&& value@ is Array
                &&& value@->Array_0.len() == elements@.len()
                &&& forall|i: int|
                    0 <= i < elements@.len() ==> #[trigger] value@->Array_0[i] == elements@[i]@
            },
            Json::Object(members) => {
                &&& value@ is Object
                &&& value@->Object_0.len() == members@.len()
                &&& forall|i: int|
                    0 <= i < members@.len() ==> #[trigger] value@->Object_0[i] == (
                        members@[i].0@,
                        members@[i].1@,
                    )
            },
        },
{
}

/// Of the members of an object, the first one with a name is the one that the name stands for.
pub proof fn first_member_is_found(members: Seq<(Seq<char>, JsonView)>, k: int, name: Seq<char>)
    requires
        0 <= k <= members.len(),
        forall|j: int| 0 <= j < k ==> (#[trigger] members[j]).0 != name,
        k < members.len() ==> members[k].0 == name,
    ensures
        k < members.len() ==> JsonView::Object(members).field(name) == Some(members[k].1),
        k == members.len() ==> JsonView::Object(members).field(name) is None,
    decreases members.len(),
{
    if k > 0 {
        let rest = members.drop_first();
        assert forall|j: int| 0 <= j < k - 1 implies (#[trigger] rest[j]).0 != name by {
            assert(rest[j] == members[j + 1]);
        }
        assert(members[0].0 != name);
        first_member_is_found(rest, k - 1, name);
        assert(member(members, name) == member(rest, name));
    }
}

/// Only an object has members, and only an array has elements.
pub proof fn parts_belong_to_their_kind(value: JsonView, name: Seq<char>, index: int)
    ensures
        !(value is Object) ==> value.field(name) is None,
        !(value is Array) ==> value.element(index) is None,
        value is Array && 0 <= index < value->Array_0.len() ==> value.element(index) == Some(
            value->Array_0[index],
        ),
        value is Array && !(0 <= index < value->Array_0.len()) ==> value.element(index) is None,
{
}

/// A trace without records holds no acknowledgments.
pub proof fn empty_trace_has_no_acknowledgments(nanos: Seq<u64>)
    ensures
        acks_in(Seq::empty(), nanos) == Seq::<RecordedAck>::empty(),
{
}

/// A record that is not about a packet that was sent, or is about a packet of another type than
/// 1-RTT, adds no acknowledgment.
pub proof fn other_records_add_nothing(records: Seq<JsonView>, record: JsonView, nanos: Seq<u64>)
    requires
        record.field("name"@) != Some(JsonView::Text("transport:packet_sent"@)) || !(record.field(
            "data"@,
        ) is Some) || !(record.field("data"@)->0.field("header"@) is Some) || record.field(
            "data"@,
        )->0.field("header"@)->0.field("packet_type"@) != Some(JsonView::Text("1RTT"@)),
    ensures
        acks_in(records.push(record), nanos) == acks_in(records, nanos),
{
    assert(records.push(record).drop_last() =~= records);
    assert(acks_in_frames(nanos[records.len() as int], Seq::empty()) =~= Seq::empty());
    assert(acks_in(records.push(record), nanos) =~= acks_in(records, nanos));
}

/// The record of a 1-RTT packet that was sent adds an acknowledgment for each frame of the packet
/// that is one, in order, with the time of the record.
pub proof fn sent_packets_add_their_acknowledgments(
    records: Seq<JsonView>,
    record: JsonView,
    data: JsonView,
    header: JsonView,
    nanos: Seq<u64>,
)
    requires
        record.field("name"@) == Some(JsonView::Text("transport:packet_sent"@)),
        record.field("data"@) == Some(data),
        data.field("header"@) == Some(header),
        header.field("packet_type"@) == Some(JsonView::Text("1RTT"@)),
    ensures
        ({
            let before = acks_in(records, nanos);
            let after = acks_in(records.push(record), nanos);
            let time = nanos[records.len() as int];
            match data.field("frames"@) {
                Some(JsonView::Array(frames)) => {
                    let acks = frames.filter(
                        |frame: JsonView|
                            frame.field("frame_type"@) == Some(JsonView::Text("ack"@)),
                    );
                    &&& after.len() == before.len() + acks.len()
                    &&& forall|i: int| 0 <= i < before.len() ==> #[trigger] after[i] == before[i]
                    &&& forall|i: int|
                        #![trigger acks[i]]
                        0 <= i < acks.len() ==> {
                            let ack = after[before.len() + i];
                            &&& ack.time == time
                            &&& acks[i].field("acked_ranges"@) matches Some(JsonView::Array(ranges))
                                ==> ack.ranges.len() == ranges.len()
                        }
                },
                _ => after == before,
            }
        }),
{
    assert(records.push(record).drop_last() =~= records);
    let time = nanos[records.len() as int];
    match data.field("frames"@) {
        Some(JsonView::Array(frames)) => {
            let is_ack = |frame: JsonView|
                frame.field("frame_type"@) == Some(JsonView::Text("ack"@));
            acknowledgments_are_the_frames_that_are(time, frames);
            let added = acks_in_frames(time, frames);
            let before = acks_in(records, nanos);
            assert(acks_in(records.push(record), nanos) =~= before + added);
            assert forall|i: int|
                #![trigger frames.filter(is_ack)[i]]
                0 <= i < frames.filter(is_ack).len() implies (before + added)[before.len() + i]
                == added[i] by {}
        },
        _ => {
            assert(acks_in_frames(time, Seq::empty()) =~= Seq::empty());
            assert(acks_in(records.push(record), nanos) =~= acks_in(records, nanos));
        },
    }
}

/// The acknowledgments of a packet are those of its frames that are of the type `ack`, one for each
/// and in their order.
pub proof fn acknowledgments_are_the_frames_that_are(time: u64, frames: Seq<JsonView>)
    ensures
        ({
            let acks = frames.filter(
                |frame: JsonView| frame.field("frame_type"@) == Some(JsonView::Text("ack"@)),
            );
            let read = acks_in_frames(time, frames);
            &&& read.len() == acks.len()
            &&& forall|i: int|
                #![trigger acks[i]]
                #![trigger read[i]]
                0 <= i < acks.len() ==> read[i] == acks_in_frames(time, seq![acks[i]])[0]
                    && read[i].time == time && (acks[i].field("acked_ranges"@) matches Some(
                    JsonView::Array(ranges),
                ) ==> read[i].ranges.len() == ranges.len())
        }),
    decreases frames.len(),
{
    let is_ack = |frame: JsonView| frame.field("frame_type"@) == Some(JsonView::Text("ack"@));
    reveal(Seq::filter);
    if frames.len() > 0 {
        let before = frames.drop_last();
        acknowledgments_are_the_frames_that_are(time, before);
        let acks = frames.filter(is_ack);
        let read = acks_in_frames(time, frames);
        assert(before.filter(is_ack) =~= before.filter(
            |frame: JsonView| frame.field("frame_type"@) == Some(JsonView::Text("ack"@)),
        ));
        frame_that_acknowledges_is_read(time, before, frames.last());
        frame_that_acknowledges_is_read(time, Seq::empty(), frames.last());
        assert(before.push(frames.last()) =~= frames);
        assert(Seq::<JsonView>::empty().push(frames.last()) =~= seq![frames.last()]);
        if is_ack(frames.last()) {
            assert(acks == before.filter(is_ack).push(frames.last()));
        } else {
            assert(acks == before.filter(is_ack));
        }
        assert forall|i: int|
            #![trigger acks[i]]
            #![trigger read[i]]
            0 <= i < acks.len() implies read[i] == acks_in_frames(time, seq![acks[i]])[0]
            && read[i].time == time && (acks[i].field("acked_ranges"@) matches Some(
            JsonView::Array(ranges),
        ) ==> read[i].ranges.len() == ranges.len()) by {
            if i < before.filter(is_ack).len() {
                assert(acks[i] == before.filter(is_ack)[i]);
                assert(read[i] == acks_in_frames(time, before)[i]);
            }
        }
    }
}

/// A frame of the type `ack` is read as one acknowledgment, with the time of its record and the
/// ranges that are written in it, bound by bound. Any other frame is passed over.
pub proof fn frame_that_acknowledges_is_read(time: u64, frames: Seq<JsonView>, frame: JsonView)
    ensures
        ({
            let before = acks_in_frames(time, frames);
            let after = acks_in_frames(time, frames.push(frame));
            let ack = after[before.len() as int];
            if frame.field("frame_type"@) == Some(JsonView::Text("ack"@)) {
                &&& after.len() == before.len() + 1
                &&& after == before.push(ack)
                &&& ack.time == time
                &&& match frame.field("acked_ranges"@) {
                    Some(JsonView::Array(ranges)) => {
                        &&& ack.ranges.len() == ranges.len()
                        &&& forall|i: int|
                            0 <= i < ranges.len() ==> match #[trigger] ranges[i] {
                                JsonView::Array(bounds) => bounds.len() >= 2 ==> match (
                                    bounds[0],
                                    bounds[1],
                                ) {
                                    (
                                        JsonView::Number(Some(from), _),
                                        JsonView::Number(Some(to), _),
                                    ) => ack.ranges[i] == (from, to),
                                    _ => true,
                                },
                                _ => true,
                            }
                    },
                    _ => ack.ranges.len() == 0,
                }
            } else {
                after == before
            }
        }),
        acks_in_frames(time, Seq::empty()) == Seq::<RecordedAck>::empty(),
{
    assert(frames.push(frame).drop_last() =~= frames);
}

/// The records up to the first one that could not be read are read, and why that one could not be
/// read is told. If there is none, all are read.
pub proof fn records_are_read_up_to_an_error(records: Seq<Result<JsonView, QlogError>>, k: int)
    requires
        0 <= k <= records.len(),
        forall|j: int| 0 <= j < k ==> (#[trigger] records[j]) is Ok,
        k < records.len() ==> records[k] is Err,
    ensures
        leading(records).len() == k,
        forall|j: int| 0 <= j < k ==> #[trigger] leading(records)[j] == records[j]->Ok_0,
        k < records.len() ==> first_error(records) == Some(records[k]->Err_0),
        k == records.len() ==> first_error(records) is None,
    decreases records.len(),
{
    if k > 0 {
        let rest = records.drop_first();
        assert(records[0] is Ok);
        assert forall|j: int| 0 <= j < k - 1 implies (#[trigger] rest[j]) is Ok by {
            assert(rest[j] == records[j + 1]);
        }
        records_are_read_up_to_an_error(rest, k - 1);
        assert forall|j: int| 0 <= j < k implies #[trigger] leading(records)[j]
            == records[j]->Ok_0 by {
            if j > 0 {
                assert(leading(records)[j] == leading(rest)[j - 1]);
                assert(rest[j - 1] == records[j]);
            }
        }
    }
}

/// The time of a record is the number that is written in it, and a record that could not be read has
/// none.
pub proof fn times_are_those_that_are_written(
    texts: Seq<Option<String>>,
    records: Seq<Result<JsonView, QlogError>>,
)
    ensures
        are_times(texts, records) <==> {
            &&& texts.len() == records.len()
            &&& forall|i: int|
                0 <= i < texts.len() ==> match records[i] {
                    Ok(record) => match record.field("time"@) {
                        Some(JsonView::Number(_, text)) => #[trigger] texts[i] is Some
                            && texts[i]->0@ == text,
                        _ => texts[i] is None,
                    },
                    Err(_) => texts[i] is None,
                }
        },
{
    if are_times(texts, records) {
        assert forall|i: int| 0 <= i < texts.len() implies match records[i] {
            Ok(record) => match record.field("time"@) {
                Some(JsonView::Number(_, text)) => #[trigger] texts[i] is Some && texts[i]->0@
                    == text,
                _ => texts[i] is None,
            },
            Err(_) => texts[i] is None,
        } by {
            assert(chars(texts[i]) == match records[i] {
                Ok(record) => time_text(record),
                Err(_) => None,
            });
        }
    }
}

/// A record is complete if and only if each acknowledgment that is read from it has ranges with two
/// integers for bounds, and the record has a time if there is any.
pub proof fn record_is_complete(record: JsonView, data: JsonView, header: JsonView, frames: Seq<
    JsonView,
>)
    requires
        record.field("data"@) == Some(data),
        data.field("header"@) == Some(header),
        data.field("frames"@) == Some(JsonView::Array(frames)),
    ensures
        record_complete(record) <==> (record.field("name"@) == Some(
            JsonView::Text("transport:packet_sent"@),
        ) && header.field("packet_type"@) == Some(JsonView::Text("1RTT"@)) ==> forall|i: int|
            0 <= i < frames.len() && (#[trigger] frames[i]).field("frame_type"@) == Some(
                JsonView::Text("ack"@),
            ) ==> {
                &&& record.field("time"@) matches Some(JsonView::Number(_, _))
                &&& frames[i].field("acked_ranges"@) matches Some(JsonView::Array(ranges))
                &&& forall|j: int|
                    0 <= j < ranges.len() ==> {
                        &&& (#[trigger] ranges[j]) matches JsonView::Array(bounds)
                        &&& bounds.len() >= 2
                        &&& bounds[0] is Number && bounds[0]->Number_0 is Some
                        &&& bounds[1] is Number && bounds[1]->Number_0 is Some
                    }
            }),
{
    assert forall|i: int| 0 <= i < frames.len() implies (ack_complete(
        record,
        #[trigger] frames[i],
    ) <==> {
        &&& record.field("time"@) matches Some(JsonView::Number(_, _))
        &&& frames[i].field("acked_ranges"@) matches Some(JsonView::Array(ranges))
        &&& forall|j: int|
            0 <= j < ranges.len() ==> {
                &&& (#[trigger] ranges[j]) matches JsonView::Array(bounds)
                &&& bounds.len() >= 2
                &&& bounds[0] is Number && bounds[0]->Number_0 is Some
                &&& bounds[1] is Number && bounds[1]->Number_0 is Some
            }
    }) by {}
    if record.field("name"@) == Some(JsonView::Text("transport:packet_sent"@)) && header.field(
        "packet_type"@,
    ) == Some(JsonView::Text("1RTT"@)) {
        assert(crate::qlog::frames(record) == frames);
    }
}

/// A record without the frames of a 1-RTT packet that was sent is complete.
pub proof fn other_records_are_complete(record: JsonView)
    requires
        record.field("name"@) != Some(JsonView::Text("transport:packet_sent"@)) || !(record.field(
            "data"@,
        ) is Some) || !(record.field("data"@)->0.field("header"@) is Some) || record.field(
            "data"@,
        )->0.field("header"@)->0.field("packet_type"@) != Some(JsonView::Text("1RTT"@)) || !(
        record.field("data"@)->0.field("frames"@) is Some) || !(record.field("data"@)->0.field(
            "frames"@,
        )->0 is Array),
    ensures
        record_complete(record),
{
}

/// The packet number that is counted from is the first bound of the first range of a trace: that of
/// the first acknowledgment that has ranges.
pub proof fn packets_are_counted_from_the_first(acks: Seq<RecordedAck>, k: int)
    requires
        0 <= k <= acks.len(),
        forall|j: int| 0 <= j < k ==> (#[trigger] acks[j]).ranges.len() == 0,
        k < acks.len() ==> acks[k].ranges.len() > 0,
    ensures
        k < acks.len() ==> base(acks) == acks[k].ranges[0].0,
        k == acks.len() ==> base(acks) == 0,
    decreases acks.len(),
{
    if k > 0 {
        let rest = acks.drop_first();
        assert(acks[0].ranges.len() == 0);
        assert forall|j: int| 0 <= j < k - 1 implies (#[trigger] rest[j]).ranges.len() == 0 by {
            assert(rest[j] == acks[j + 1]);
        }
        packets_are_counted_from_the_first(rest, k - 1);
        assert(first_packet(acks) == first_packet(rest));
    }
}

/// A trace is usable if and only if every record has a time, what is read of it is complete, no
/// packet number lies below the first one or so far above that it cannot be counted from there, and
/// there is an acknowledgment, unless a record cannot be read. The first packet number is that of
/// the acknowledgment `k`.
pub proof fn usable_traces_can_be_counted(
    records: Seq<Result<JsonView, QlogError>>,
    nanos: Seq<u64>,
    k: int,
)
    requires
        ({
            let acks = acks_in(leading(records), nanos);
            &&& 0 <= k < acks.len()
            &&& acks[k].ranges.len() > 0
            &&& forall|j: int| 0 <= j < k ==> (#[trigger] acks[j]).ranges.len() == 0
        }),
    ensures
        ({
            let acks = acks_in(leading(records), nanos);
            let first = acks[k].ranges[0].0;
            usable(records, nanos) <==> {
                &&& nanos.len() == records.len()
                &&& forall|i: int|
                    0 <= i < leading(records).len() ==> record_complete(
                        #[trigger] leading(records)[i],
                    )
                &&& forall|i: int, j: int|
                    0 <= i < acks.len() && 0 <= j < acks[i].ranges.len() ==> {
                        let range = #[trigger] acks[i].ranges[j];
                        &&& first <= range.0
                        &&& first <= range.1
                        &&& range.1 + 1 - first <= u64::MAX
                    }
            }
        }),
{
    let acks = acks_in(leading(records), nanos);
    packets_are_counted_from_the_first(acks, k);
    let first = acks[k].ranges[0].0;
    if forall|i: int, j: int|
        0 <= i < acks.len() && 0 <= j < acks[i].ranges.len() ==> {
            let range = #[trigger] acks[i].ranges[j];
            &&& first <= range.0
            &&& first <= range.1
            &&& range.1 + 1 - first <= u64::MAX
        } {
        assert(all_countable(acks, first));
    }
    if all_countable(acks, first) {
        assert forall|i: int, j: int|
            0 <= i < acks.len() && 0 <= j < acks[i].ranges.len() implies {
            let range = #[trigger] acks[i].ranges[j];
            &&& first <= range.0
            &&& first <= range.1
            &&& range.1 + 1 - first <= u64::MAX
        } by {}
    }
}

/// A trace without ranges is usable if and only if every record has a time, what is read of it is
/// complete, and there is an acknowledgment, unless a record cannot be read.
pub proof fn traces_need_an_acknowledgment(
    records: Seq<Result<JsonView, QlogError>>,
    nanos: Seq<u64>,
)
    requires
        forall|i: int|
            0 <= i < acks_in(leading(records), nanos).len() ==> (#[trigger] acks_in(
                leading(records),
                nanos,
            )[i]).ranges.len() == 0,
    ensures
        usable(records, nanos) <==> {
            &&& nanos.len() == records.len()
            &&& forall|i: int|
                0 <= i < leading(records).len() ==> record_complete(#[trigger] leading(records)[i])
            &&& acks_in(leading(records), nanos).len() == 0 ==> first_error(records) is Some
        },
{
    let acks = acks_in(leading(records), nanos);
    packets_are_counted_from_the_first(acks, acks.len() as int);
    assert(all_countable(acks, 0));
}

/// A schedule has an entry for each acknowledgment of a trace. It is due as long after the first one
/// as it was sent after it, and the first one is due after ten milliseconds. Its ranges end one past
/// their upper bounds, and all are counted from the first packet number, that of the acknowledgment
/// `k`.
pub proof fn schedule_follows_the_trace(acks: Seq<RecordedAck>, k: int, i: int)
    requires
        0 <= k < acks.len(),
        acks[k].ranges.len() > 0,
        forall|j: int| 0 <= j < k ==> (#[trigger] acks[j]).ranges.len() == 0,
        0 <= i < acks.len(),
    ensures
        schedule(acks).len() == acks.len(),
        acks[i].time >= acks[0].time ==> schedule(acks)[i].0.nanos == acks[i].time - acks[0].time
            + 10_000_000,
        acks[i].time <= acks[0].time ==> schedule(acks)[i].0.nanos == 10_000_000,
        ({
            let first = acks[k].ranges[0].0;
            let ranges = schedule(acks)[i].1;
            &&& ranges.len() == acks[i].ranges.len()
            &&& forall|j: int|
                0 <= j < ranges.len() && first <= acks[i].ranges[j].0 && first
                    <= acks[i].ranges[j].1 && acks[i].ranges[j].1 + 1 - first <= u64::MAX ==> (
                #[trigger] ranges[j]).start == acks[i].ranges[j].0 - first && ranges[j].end
                    == acks[i].ranges[j].1 + 1 - first
        }),
{
    packets_are_counted_from_the_first(acks, k);
}

/// An acknowledgment without ranges has none in the schedule either.
pub proof fn schedule_adds_no_ranges(acks: Seq<RecordedAck>, i: int)
    requires
        0 <= i < acks.len(),
        acks[i].ranges.len() == 0,
    ensures
        schedule(acks).len() == acks.len(),
        schedule(acks)[i].1 == Seq::<Range<u64>>::empty(),
        acks[i].time >= acks[0].time ==> schedule(acks)[i].0.nanos == acks[i].time - acks[0].time
            + 10_000_000,
        acks[i].time <= acks[0].time ==> schedule(acks)[i].0.nanos == 10_000_000,
{
}

/// Records and schedules are seen entry by entry, as they are.
pub proof fn entries_are_seen_as_they_are(
    records: Seq<Result<Json, QlogError>>,
    entries: Seq<(Duration, Vec<Range<u64>>)>,
    i: int,
)
    ensures
        records_view(records).len() == records.len(),
        0 <= i < records.len() ==> match records[i] {
            Ok(record) => records_view(records)[i] == Ok::<JsonView, QlogError>(record@),
            Err(error) => records_view(records)[i] == Err::<JsonView, QlogError>(error),
        },
        schedule_view(entries).len() == entries.len(),
        0 <= i < entries.len() ==> schedule_view(entries)[i].0 == entries[i].0
            && schedule_view(entries)[i].1 == entries[i].1@,
{
}

} // verus!
