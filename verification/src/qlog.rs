//! Acknowledgments recorded in a qlog trace.
use crate::text::chars;
use crate::time::Duration;
use std::ops::Range;
use vstd::prelude::*;

verus! {

/// A JSON number.
#[derive(Debug)]
pub struct Number {
    /// The number itself, if it is an integer that fits.
    pub unsigned: Option<u64>,

    /// The number in decimal.
    pub text: String,
}

/// A JSON value.
#[derive(Debug)]
pub enum Json {
    Null,
    Bool(bool),
    Number(Number),
    Text(String),
    Array(Vec<Json>),
    Object(Vec<(String, Json)>),
}

/// The mathematical content of a [`Json`].
#[verifier::ext_equal]
pub ghost enum JsonView {
    Null,
    Bool(bool),
    Number(Option<u64>, Seq<char>),
    Text(Seq<char>),
    Array(Seq<JsonView>),
    Object(Seq<(Seq<char>, JsonView)>),
}

impl Json {
    /// The mathematical content of the value.
    pub open spec fn view(self) -> JsonView
        decreases self,
    {
        match self {
            Json::Null => JsonView::Null,
            Json::Bool(value) => JsonView::Bool(value),
            Json::Number(number) => JsonView::Number(number.unsigned, number.text@),
            Json::Text(text) => JsonView::Text(text@),
            Json::Array(elements) => JsonView::Array(
                Seq::new(
                    elements@.len(),
                    |i: int|
                        if 0 <= i < elements@.len() {
                            elements@[i].view()
                        } else {
                            JsonView::Null
                        },
                ),
            ),
            Json::Object(members) => JsonView::Object(
                Seq::new(
                    members@.len(),
                    |i: int|
                        if 0 <= i < members@.len() {
                            (members@[i].0@, members@[i].1.view())
                        } else {
                            (Seq::empty(), JsonView::Null)
                        },
                ),
            ),
        }
    }
}

/// Why the records of a trace end before the trace does.
#[derive(Clone, Copy, Debug, PartialEq, Eq, Structural)]
pub enum QlogError {
    /// The trace could not be read.
    Io,

    /// A record is not valid JSON.
    Syntax,
}

/// The value of the first member called `name`.
pub open spec fn member(members: Seq<(Seq<char>, JsonView)>, name: Seq<char>) -> Option<JsonView>
    decreases members.len(),
{
    if members.len() == 0 {
        None
    } else if members[0].0 == name {
        Some(members[0].1)
    } else {
        member(members.drop_first(), name)
    }
}

impl JsonView {
    /// The member of an object called `name`.
    pub open spec fn field(self, name: Seq<char>) -> Option<JsonView> {
        match self {
            JsonView::Object(members) => member(members, name),
            _ => None,
        }
    }

    /// The element of an array at `index`.
    pub open spec fn element(self, index: int) -> Option<JsonView> {
        match self {
            JsonView::Array(elements) => if 0 <= index < elements.len() {
                Some(elements[index])
            } else {
                None
            },
            _ => None,
        }
    }
}

/// The mathematical content of an optional value.
pub open spec fn content(value: Option<&Json>) -> Option<JsonView> {
    match value {
        Some(value) => Some(value@),
        None => None,
    }
}

impl Json {
    /// The member of an object called `name`.
    pub fn field(&self, name: &str) -> (value: Option<&Json>)
        ensures
            content(value) == self@.field(name@),
    {
        match self {
            Json::Object(members) => {
                let ghost all = self@->Object_0;
                let key = name.to_owned();
                let mut i: usize = 0;
                assert(all.skip(0) =~= all);
                while i < members.len()
                    invariant
                        *self == Json::Object(*members),
                        self@ == JsonView::Object(all),
                        all.len() == members@.len(),
                        key@ == name@,
                        i <= members@.len(),
                        member(all, name@) == member(all.skip(i as int), name@),
                    decreases members@.len() - i,
                {
                    assert(all.skip(i as int).drop_first() =~= all.skip(i + 1));
                    assert(all[i as int] == (members@[i as int].0@, members@[i as int].1@));
                    if members[i].0 == key {
                        return Some(&members[i].1);
                    }
                    i = i + 1;
                }
                None
            },
            _ => None,
        }
    }

    /// The element of an array at `index`.
    pub fn element(&self, index: usize) -> (value: Option<&Json>)
        ensures
            content(value) == self@.element(index as int),
    {
        match self {
            Json::Array(elements) => if index < elements.len() {
                Some(&elements[index])
            } else {
                None
            },
            _ => None,
        }
    }
}

/// `value` is the string `text`.
pub open spec fn is_text(value: Option<JsonView>, text: Seq<char>) -> bool {
    value == Some(JsonView::Text(text))
}

/// The member of an optional value called `name`.
pub open spec fn at(value: Option<JsonView>, name: Seq<char>) -> Option<JsonView> {
    match value {
        Some(value) => value.field(name),
        None => None,
    }
}

/// The elements of an array; none for any other value.
pub open spec fn elements(value: Option<JsonView>) -> Seq<JsonView> {
    match value {
        Some(JsonView::Array(elements)) => elements,
        _ => Seq::empty(),
    }
}

/// The integer that a value is.
pub open spec fn integer(value: Option<JsonView>) -> Option<u64> {
    match value {
        Some(JsonView::Number(unsigned, _)) => unsigned,
        _ => None,
    }
}

/// The record of a packet with application data that was sent.
pub open spec fn is_app_packet(record: JsonView) -> bool {
    &&& is_text(record.field("name"@), "transport:packet_sent"@)
    &&& is_text(at(at(record.field("data"@), "header"@), "packet_type"@), "1RTT"@)
}

/// The frames of the packet that a record is about.
pub open spec fn frames(record: JsonView) -> Seq<JsonView> {
    if is_app_packet(record) {
        elements(at(record.field("data"@), "frames"@))
    } else {
        Seq::empty()
    }
}

/// A frame that acknowledges packets.
pub open spec fn is_ack(frame: JsonView) -> bool {
    is_text(frame.field("frame_type"@), "ack"@)
}

/// A range of acknowledged packet numbers as it is recorded: both bounds belong to it.
pub open spec fn recorded_range(range: JsonView) -> (u64, u64) {
    (integer(range.element(0))->0, integer(range.element(1))->0)
}

/// An acknowledgment as it is recorded.
pub ghost struct RecordedAck {
    /// When it was sent, in nanoseconds.
    pub time: u64,

    /// The ranges that it acknowledges.
    pub ranges: Seq<(u64, u64)>,
}

/// The time of a record in milliseconds, as it is written.
pub open spec fn time_text(record: JsonView) -> Option<Seq<char>> {
    match record.field("time"@) {
        Some(JsonView::Number(_, text)) => Some(text),
        _ => None,
    }
}

/// The ranges that `frame` acknowledges.
pub open spec fn acked_ranges(frame: JsonView) -> Seq<(u64, u64)> {
    elements(frame.field("acked_ranges"@)).map_values(|range: JsonView| recorded_range(range))
}

/// The acknowledgment in `frame`, which was sent at `time`.
pub open spec fn recorded_ack(time: u64, frame: JsonView) -> RecordedAck {
    RecordedAck { time, ranges: acked_ranges(frame) }
}

/// The acknowledgments among `frames`, in order. They were sent at `time`.
pub open spec fn acks_in_frames(time: u64, frames: Seq<JsonView>) -> Seq<RecordedAck>
    decreases frames.len(),
{
    if frames.len() == 0 {
        Seq::empty()
    } else {
        let before = acks_in_frames(time, frames.drop_last());
        if is_ack(frames.last()) {
            before.push(recorded_ack(time, frames.last()))
        } else {
            before
        }
    }
}

/// The acknowledgments of a trace, in order. `nanos` holds the times of the records, in
/// nanoseconds.
pub open spec fn acks_in(records: Seq<JsonView>, nanos: Seq<u64>) -> Seq<RecordedAck>
    decreases records.len(),
{
    if records.len() == 0 {
        Seq::empty()
    } else {
        acks_in(records.drop_last(), nanos) + acks_in_frames(
            nanos[records.len() - 1],
            frames(records.last()),
        )
    }
}

/// The first packet number that a trace acknowledges.
pub open spec fn first_packet(acks: Seq<RecordedAck>) -> Option<u64>
    decreases acks.len(),
{
    if acks.len() == 0 {
        None
    } else if acks[0].ranges.len() > 0 {
        Some(acks[0].ranges[0].0)
    } else {
        first_packet(acks.drop_first())
    }
}

/// The packet number that the packet numbers of a trace are counted from: its first one, or 0 if it
/// acknowledges none.
pub open spec fn base(acks: Seq<RecordedAck>) -> u64 {
    match first_packet(acks) {
        Some(first) => first,
        None => 0,
    }
}

/// Ranges counted from `base`, without their upper bounds.
pub open spec fn shifted(ranges: Seq<(u64, u64)>, base: u64) -> Seq<Range<u64>> {
    ranges.map_values(
        |range: (u64, u64)|
            Range { start: (range.0 - base) as u64, end: (range.1 - base + 1) as u64 },
    )
}

/// The delay before the first acknowledgment of a schedule, in nanoseconds.
pub const INITIAL_DELAY: u64 = 10_000_000;

/// How long to wait for an acknowledgment that was sent at `time`, when the first one was sent at
/// `first_time`.
pub open spec fn delay(time: u64, first_time: u64) -> Duration {
    Duration {
        nanos: (if time > first_time {
            time - first_time + INITIAL_DELAY
        } else {
            INITIAL_DELAY as int
        }) as u128,
    }
}

/// When to send which acknowledgments: those of the trace, with the packet numbers counted from the
/// first one, and the times from shortly before the first acknowledgment.
pub open spec fn schedule(acks: Seq<RecordedAck>) -> Seq<(Duration, Seq<Range<u64>>)> {
    Seq::new(
        acks.len(),
        |i: int| (delay(acks[i].time, acks[0].time), shifted(acks[i].ranges, base(acks))),
    )
}

/// The mathematical content of a schedule.
pub open spec fn schedule_view(entries: Seq<(Duration, Vec<Range<u64>>)>) -> Seq<
    (Duration, Seq<Range<u64>>),
> {
    entries.map_values(|entry: (Duration, Vec<Range<u64>>)| (entry.0, entry.1@))
}

/// An acknowledgment has ranges with integers for bounds, and its record has a time.
pub open spec fn ack_complete(record: JsonView, frame: JsonView) -> bool {
    &&& frame.field("acked_ranges"@) matches Some(JsonView::Array(ranges))
    &&& forall|i: int|
        0 <= i < ranges.len() ==> {
            &&& integer((#[trigger] ranges[i]).element(0)) is Some
            &&& integer(ranges[i].element(1)) is Some
        }
    &&& time_text(record) is Some
}

/// Every acknowledgment of a record is complete.
pub open spec fn record_complete(record: JsonView) -> bool {
    forall|i: int|
        0 <= i < frames(record).len() && is_ack(#[trigger] frames(record)[i]) ==> ack_complete(
            record,
            frames(record)[i],
        )
}

/// The bounds of `range` can be counted from `base`.
pub open spec fn countable(range: (u64, u64), base: u64) -> bool {
    base <= range.0 && base <= range.1 && range.1 - base < u64::MAX
}

/// All ranges of the acknowledgments can be counted from `base`.
pub open spec fn all_countable(acks: Seq<RecordedAck>, base: u64) -> bool {
    forall|i: int, j: int|
        0 <= i < acks.len() && 0 <= j < acks[i].ranges.len() ==> countable(
            #[trigger] acks[i].ranges[j],
            base,
        )
}

/// The records up to the first one that could not be read.
pub open spec fn leading(records: Seq<Result<JsonView, QlogError>>) -> Seq<JsonView>
    decreases records.len(),
{
    if records.len() == 0 {
        Seq::empty()
    } else {
        match records[0] {
            Ok(record) => seq![record] + leading(records.drop_first()),
            Err(_) => Seq::empty(),
        }
    }
}

/// Why the first record that could not be read could not be.
pub open spec fn first_error(records: Seq<Result<JsonView, QlogError>>) -> Option<QlogError>
    decreases records.len(),
{
    if records.len() == 0 {
        None
    } else {
        match records[0] {
            Ok(_) => first_error(records.drop_first()),
            Err(error) => Some(error),
        }
    }
}

/// A trace from which a schedule can be made: every record has a time in `nanos`, the
/// acknowledgments that are read are complete and their packet numbers can be counted from the first
/// one, and if all records can be read there is at least one acknowledgment.
pub open spec fn usable(records: Seq<Result<JsonView, QlogError>>, nanos: Seq<u64>) -> bool {
    let acks = acks_in(leading(records), nanos);
    &&& nanos.len() == records.len()
    &&& forall|i: int|
        0 <= i < leading(records).len() ==> record_complete(#[trigger] leading(records)[i])
    &&& all_countable(acks, base(acks))
    &&& first_error(records) is None ==> acks.len() > 0
}

/// The mathematical content of records.
pub open spec fn records_view(records: Seq<Result<Json, QlogError>>) -> Seq<
    Result<JsonView, QlogError>,
> {
    Seq::new(
        records.len(),
        |i: int|
            match records[i] {
                Ok(record) => Ok(record@),
                Err(error) => Err(error),
            },
    )
}

/// The records that `jsonseq::JsonSeqReader` finds in a trace.
pub uninterp spec fn json_records(trace: Seq<u8>) -> Seq<Result<JsonView, QlogError>>;

/// A JSON value of `serde_json`.
#[verifier::external_type_specification]
#[verifier::external_body]
pub struct ExValue(serde_json::Value);

/// Turns a `serde_json::Value` into a [`Json`], variant by variant. Nothing is claimed of it here:
/// it serves [`parse_records`], which claims what comes out.
#[verifier::external_body]
fn json_of(value: serde_json::Value) -> (json: Json) {
    match value {
        serde_json::Value::Null => Json::Null,
        serde_json::Value::Bool(value) => Json::Bool(value),
        serde_json::Value::Number(number) => Json::Number(
            Number { unsigned: number.as_u64(), text: number.to_string() },
        ),
        serde_json::Value::String(text) => Json::Text(text),
        serde_json::Value::Array(values) => Json::Array(values.into_iter().map(json_of).collect()),
        serde_json::Value::Object(members) => Json::Object(
            members.into_iter().map(|(name, value)| (name, json_of(value))).collect(),
        ),
    }
}

/// Calls `jsonseq::JsonSeqReader::new` and takes the items of the reader to its end. The records
/// depend on the bytes alone.
#[verifier::external_body]
fn parse_records(trace: &[u8]) -> (records: Vec<Result<Json, QlogError>>)
    ensures
        records_view(records@) == json_records(trace@),
{
    jsonseq::JsonSeqReader::new(trace)
        .map(|record| match record {
            Ok(value) => Ok(json_of(value)),
            Err(jsonseq::Error::IOError(_)) => Err(QlogError::Io),
            Err(jsonseq::Error::JsonError(_)) => Err(QlogError::Syntax),
        })
        .collect()
}

/// Whether `value` is the string `text`.
fn text_is(value: Option<&Json>, text: &str) -> (same: bool)
    ensures
        same == is_text(content(value), text@),
{
    match value {
        Some(Json::Text(content)) => *content == text.to_owned(),
        _ => false,
    }
}

/// The integer that `value` is.
fn integer_of(value: Option<&Json>) -> (number: Option<u64>)
    ensures
        number == integer(content(value)),
{
    match value {
        Some(Json::Number(number)) => number.unsigned,
        _ => None,
    }
}

/// The member of `value` called `name`.
fn member_of<'a>(value: Option<&'a Json>, name: &str) -> (found: Option<&'a Json>)
    ensures
        content(found) == at(content(value), name@),
{
    match value {
        Some(value) => value.field(name),
        None => None,
    }
}

/// The packet number that is counted from once `ranges` have been read.
spec fn shift_after(shift: Option<u64>, ranges: Seq<(u64, u64)>) -> Option<u64> {
    match shift {
        Some(shift) => Some(shift),
        None => if ranges.len() > 0 {
            Some(ranges[0].0)
        } else {
            None
        },
    }
}

/// The ranges that `frame` acknowledges, counted from `shift`. If there is no shift yet, the first
/// packet number becomes the shift.
fn read_ranges(record: &Json, frame: &Json, shift: &mut Option<u64>) -> (ranges: Vec<Range<u64>>)
    requires
        ack_complete(record@, frame@),
        ({
            let recorded = acked_ranges(frame@);
            forall|j: int|
                0 <= j < recorded.len() ==> countable(
                    #[trigger] recorded[j],
                    shift_after(*old(shift), recorded)->0,
                )
        }),
    ensures
        ({
            let recorded = acked_ranges(frame@);
            &&& *final(shift) == shift_after(*old(shift), recorded)
            &&& recorded.len() > 0 ==> ranges@ == shifted(recorded, final(shift)->0)
            &&& recorded.len() == 0 ==> ranges@.len() == 0
        }),
{
    let mut ranges: Vec<Range<u64>> = Vec::new();
    if let Some(Json::Array(acked)) = frame.field("acked_ranges") {
        let ghost recorded = acked_ranges(frame@);
        let ghost values = elements(frame@.field("acked_ranges"@));
        assert forall|j: int| 0 <= j < acked@.len() implies {
            &&& integer((#[trigger] acked@[j])@.element(0)) is Some
            &&& integer(acked@[j]@.element(1)) is Some
        } by {
            assert(values[j] == acked@[j]@);
        }
        let mut i: usize = 0;
        while i < acked.len()
            invariant
                i <= acked@.len(),
                recorded.len() == acked@.len(),
                forall|j: int|
                    0 <= j < acked@.len() ==> recorded[j] == recorded_range(
                        (#[trigger] acked@[j])@,
                    ),
                forall|j: int|
                    0 <= j < acked@.len() ==> {
                        &&& integer((#[trigger] acked@[j])@.element(0)) is Some
                        &&& integer(acked@[j]@.element(1)) is Some
                    },
                forall|j: int|
                    0 <= j < recorded.len() ==> countable(
                        #[trigger] recorded[j],
                        shift_after(*old(shift), recorded)->0,
                    ),
                *shift == if i > 0 {
                    shift_after(*old(shift), recorded)
                } else {
                    *old(shift)
                },
                ranges@.len() == i,
                forall|j: int|
                    0 <= j < i ==> #[trigger] ranges@[j] == shifted(
                        recorded,
                        shift_after(*old(shift), recorded)->0,
                    )[j],
            decreases acked@.len() - i,
        {
            let range = &acked[i];
            if let (Some(from), Some(to)) = (
                integer_of(range.element(0)),
                integer_of(range.element(1)),
            ) {
                assert(recorded[i as int] == (from, to));
                let base = match *shift {
                    Some(base) => base,
                    None => from,
                };
                *shift = Some(base);
                ranges.push(from - base..to - base + 1);
            }
            i = i + 1;
        }
        assert(recorded.len() > 0 ==> ranges@ =~= shifted(
            recorded,
            shift_after(*old(shift), recorded)->0,
        ));
    }
    ranges
}

/// The first packet number is found in the acknowledgments that come first.
proof fn lemma_first_packet_push(acks: Seq<RecordedAck>, ack: RecordedAck)
    ensures
        first_packet(acks.push(ack)) == shift_after(first_packet(acks), ack.ranges),
    decreases acks.len(),
{
    if acks.len() == 0 {
        reveal_with_fuel(first_packet, 2);
        assert(acks.push(ack).drop_first() =~= Seq::<RecordedAck>::empty());
    } else {
        lemma_first_packet_push(acks.drop_first(), ack);
        assert(acks.push(ack).drop_first() =~= acks.drop_first().push(ack));
    }
}

/// Once the first packet number has been found, it does not change.
proof fn lemma_first_packet_prefix(acks: Seq<RecordedAck>, n: int)
    requires
        0 <= n <= acks.len(),
        first_packet(acks.take(n)) is Some,
    ensures
        first_packet(acks) == first_packet(acks.take(n)),
    decreases acks.len(),
{
    if n > 0 && acks[0].ranges.len() == 0 {
        assert(acks.take(n).drop_first() =~= acks.drop_first().take(n - 1));
        lemma_first_packet_prefix(acks.drop_first(), n - 1);
    }
}

/// While no packet number has been found, no acknowledgment has ranges.
proof fn lemma_no_first_packet(acks: Seq<RecordedAck>)
    requires
        first_packet(acks) is None,
    ensures
        forall|i: int| 0 <= i < acks.len() ==> (#[trigger] acks[i]).ranges.len() == 0,
    decreases acks.len(),
{
    if acks.len() > 0 {
        lemma_no_first_packet(acks.drop_first());
        assert forall|i: int| 0 <= i < acks.len() implies (#[trigger] acks[i]).ranges.len() == 0 by {
            if i > 0 {
                assert(acks[i] == acks.drop_first()[i - 1]);
            }
        }
    }
}

/// The acknowledgments of the first frames come first.
proof fn lemma_frames_prefix(time: u64, frames: Seq<JsonView>, n: int)
    requires
        0 <= n <= frames.len(),
    ensures
        acks_in_frames(time, frames.take(n)).is_prefix_of(acks_in_frames(time, frames)),
    decreases frames.len() - n,
{
    if n < frames.len() {
        lemma_frames_prefix(time, frames, n + 1);
        assert(frames.take(n + 1).drop_last() =~= frames.take(n));
    } else {
        assert(frames.take(n) =~= frames);
    }
}

/// The acknowledgments of the first records come first.
proof fn lemma_records_prefix(records: Seq<JsonView>, nanos: Seq<u64>, n: int)
    requires
        0 <= n <= records.len(),
    ensures
        acks_in(records.take(n), nanos).is_prefix_of(acks_in(records, nanos)),
    decreases records.len() - n,
{
    if n < records.len() {
        lemma_records_prefix(records, nanos, n + 1);
        assert(records.take(n + 1).drop_last() =~= records.take(n));
    } else {
        assert(records.take(n) =~= records);
    }
}

/// `read` holds the times of `acks`, and their ranges counted from `shift`, which is the first
/// packet number that they acknowledge.
spec fn read_so_far(
    read: Seq<(Duration, Vec<Range<u64>>)>,
    acks: Seq<RecordedAck>,
    shift: Option<u64>,
) -> bool {
    &&& read.len() == acks.len()
    &&& shift == first_packet(acks)
    &&& forall|i: int|
        0 <= i < acks.len() ==> {
            &&& (#[trigger] read[i]).0.nanos == acks[i].time
            &&& read[i].1@ == shifted(acks[i].ranges, base(acks))
        }
}

/// Reading one more acknowledgment.
proof fn lemma_read_next(
    read: Seq<(Duration, Vec<Range<u64>>)>,
    acks: Seq<RecordedAck>,
    shift: Option<u64>,
    ack: RecordedAck,
    next: (Duration, Vec<Range<u64>>),
    next_shift: Option<u64>,
)
    requires
        read_so_far(read, acks, shift),
        next_shift == shift_after(shift, ack.ranges),
        next.0.nanos == ack.time,
        ack.ranges.len() > 0 ==> next.1@ == shifted(ack.ranges, next_shift->0),
        ack.ranges.len() == 0 ==> next.1@.len() == 0,
    ensures
        read_so_far(read.push(next), acks.push(ack), next_shift),
{
    lemma_first_packet_push(acks, ack);
    if shift is None {
        lemma_no_first_packet(acks);
    }
    let all = acks.push(ack);
    assert forall|i: int| 0 <= i < all.len() implies {
        &&& (#[trigger] read.push(next)[i]).0.nanos == all[i].time
        &&& read.push(next)[i].1@ == shifted(all[i].ranges, base(all))
    } by {
        if i < acks.len() {
            assert(read.push(next)[i] == read[i]);
            if shift is None {
                assert(acks[i].ranges.len() == 0);
            }
        }
        assert(read.push(next)[i].1@ =~= shifted(all[i].ranges, base(all)));
    }
}

/// Reads the acknowledgments of a record that was made at `time`, and adds them to those that precede it.
fn read_record(
    record: &Json,
    time: u64,
    shift: &mut Option<u64>,
    read: &mut Vec<(Duration, Vec<Range<u64>>)>,
    Ghost(acks): Ghost<Seq<RecordedAck>>,
    Ghost(all): Ghost<Seq<RecordedAck>>,
)
    requires
        record_complete(record@),
        read_so_far(old(read)@, acks, *old(shift)),
        (acks + acks_in_frames(time, frames(record@))).is_prefix_of(all),
        all_countable(all, base(all)),
    ensures
        read_so_far(
            final(read)@,
            acks + acks_in_frames(time, frames(record@)),
            *final(shift),
        ),
{
    let ghost recorded = frames(record@);
    assert(acks + acks_in_frames(time, recorded.take(0)) =~= acks);
    if !text_is(record.field("name"), "transport:packet_sent") {
        assert(acks + acks_in_frames(time, recorded) =~= acks);
        return;
    }
    let data = record.field("data");
    let header = member_of(data, "header");
    if !text_is(member_of(header, "packet_type"), "1RTT") {
        assert(acks + acks_in_frames(time, recorded) =~= acks);
        return;
    }
    if let Some(Json::Array(frames)) = member_of(data, "frames") {
        assert(recorded.len() == frames@.len());
        let mut i: usize = 0;
        while i < frames.len()
            invariant
                i <= frames@.len(),
                recorded.len() == frames@.len(),
                forall|j: int| 0 <= j < frames@.len() ==> recorded[j] == (#[trigger] frames@[j])@,
                recorded == crate::qlog::frames(record@),
                record_complete(record@),
                (acks + acks_in_frames(time, recorded)).is_prefix_of(all),
                all_countable(all, base(all)),
                read_so_far(
                    read@,
                    acks + acks_in_frames(time, recorded.take(i as int)),
                    *shift,
                ),
            decreases frames@.len() - i,
        {
            let frame = &frames[i];
            assert(recorded[i as int] == frame@);
            let ghost so_far = acks + acks_in_frames(time, recorded.take(i as int));
            let ghost next = acks + acks_in_frames(time, recorded.take(i + 1));
            assert(recorded.take(i + 1).drop_last() =~= recorded.take(i as int));
            if text_is(frame.field("frame_type"), "ack") {
                let ghost ack = recorded_ack(time, frame@);
                assert(next =~= so_far.push(ack));
                proof {
                    lemma_frames_prefix(time, recorded, i + 1);
                    assert(next.is_prefix_of(all));
                    assert(all.take(next.len() as int) =~= next);
                    assert(all[so_far.len() as int] == next[so_far.len() as int]);
                    lemma_first_packet_push(so_far, ack);
                    if ack.ranges.len() > 0 {
                        lemma_first_packet_prefix(all, next.len() as int);
                        assert forall|j: int| 0 <= j < ack.ranges.len() implies countable(
                            #[trigger] ack.ranges[j],
                            base(all),
                        ) by {
                            assert(all[so_far.len() as int].ranges[j] == ack.ranges[j]);
                        }
                    }
                }
                let ghost shift_before = *shift;
                let ghost read_before = read@;
                let ranges = read_ranges(record, frame, shift);
                let entry = (Duration { nanos: time as u128 }, ranges);
                proof {
                    lemma_read_next(read_before, so_far, shift_before, ack, entry, *shift);
                }
                read.push(entry);
            } else {
                assert(next =~= so_far);
            }
            i = i + 1;
        }
        assert(recorded.take(recorded.len() as int) =~= recorded);
    } else {
        assert(acks + acks_in_frames(time, recorded) =~= acks);
    }
}

/// Makes a schedule from the records of a trace: when to send which acknowledgments.
///
/// The packet numbers are counted from the first one that the trace acknowledges, in case it was
/// recorded with a server that starts at a random packet number. The times are counted from shortly
/// before the first acknowledgment.
pub fn read_records(records: &Vec<Result<Json, QlogError>>, nanos: &Vec<u64>) -> (entries: Result<
    Vec<(Duration, Vec<Range<u64>>)>,
    QlogError,
>)
    requires
        usable(records_view(records@), nanos@),
    ensures
        match entries {
            Ok(entries) => {
                &&& first_error(records_view(records@)) is None
                &&& schedule_view(entries@) == schedule(
                    acks_in(leading(records_view(records@)), nanos@),
                )
            },
            Err(error) => first_error(records_view(records@)) == Some(error),
        },
{
    let ghost views = records_view(records@);
    let ghost all = acks_in(leading(views), nanos@);
    let ghost mut done: Seq<JsonView> = Seq::empty();
    let mut shift: Option<u64> = None;
    let mut read: Vec<(Duration, Vec<Range<u64>>)> = Vec::new();
    let mut i: usize = 0;
    assert(views.skip(0) =~= views);
    assert(done + leading(views.skip(0)) =~= leading(views));
    while i < records.len()
        invariant
            i <= records@.len(),
            views == records_view(records@),
            usable(views, nanos@),
            all == acks_in(leading(views), nanos@),
            done.len() == i,
            leading(views) == done + leading(views.skip(i as int)),
            first_error(views) == first_error(views.skip(i as int)),
            read_so_far(read@, acks_in(done, nanos@), shift),
        decreases records@.len() - i,
    {
        assert(views.skip(i as int).drop_first() =~= views.skip(i + 1));
        match &records[i] {
            Ok(record) => {
                let ghost next = done.push(record@);
                proof {
                    assert(leading(views) =~= next + leading(views.skip(i + 1)));
                    assert(leading(views)[i as int] == record@);
                    assert(leading(views).take(i + 1) =~= next);
                    assert(next.drop_last() =~= done);
                    lemma_records_prefix(leading(views), nanos@, i + 1);
                }
                read_record(
                    record,
                    nanos[i],
                    &mut shift,
                    &mut read,
                    Ghost(acks_in(done, nanos@)),
                    Ghost(all),
                );
                proof {
                    done = next;
                }
            },
            Err(error) => {
                return Err(*error);
            },
        }
        i = i + 1;
    }
    assert(leading(views) =~= done);

    // The acknowledgments start when they are activated: the times are counted from the first one.
    let first_time = read[0].0.nanos;
    let ghost acks = acks_in(done, nanos@);
    let mut i: usize = 0;
    while i < read.len()
        invariant
            i <= read@.len(),
            read@.len() == acks.len(),
            acks.len() > 0,
            first_time == acks[0].time,
            forall|j: int|
                0 <= j < acks.len() ==> {
                    &&& (#[trigger] read@[j]).1@ == shifted(acks[j].ranges, base(acks))
                    &&& j < i ==> read@[j].0 == delay(acks[j].time, acks[0].time)
                    &&& j >= i ==> read@[j].0.nanos == acks[j].time
                },
        decreases read@.len() - i,
    {
        let time = read[i].0.nanos;
        let elapsed: u128 = if time > first_time {
            time - first_time
        } else {
            0
        };
        let entry = &mut read[i];
        entry.0 = Duration { nanos: elapsed + INITIAL_DELAY as u128 };
        i = i + 1;
    }
    assert(schedule_view(read@) =~= schedule(acks));
    Ok(read)
}

/// Whether an acknowledgment is complete.
fn is_ack_complete(record: &Json, frame: &Json) -> (complete: bool)
    ensures
        complete == ack_complete(record@, frame@),
{
    let timed = match record.field("time") {
        Some(Json::Number(_)) => true,
        _ => false,
    };
    match frame.field("acked_ranges") {
        Some(Json::Array(ranges)) => {
            let mut i: usize = 0;
            while i < ranges.len()
                invariant
                    i <= ranges@.len(),
                    forall|j: int|
                        0 <= j < i ==> {
                            &&& integer((#[trigger] ranges@[j])@.element(0)) is Some
                            &&& integer(ranges@[j]@.element(1)) is Some
                        },
                    frame@.field("acked_ranges"@) == Some(Json::Array(*ranges)@),
                decreases ranges@.len() - i,
            {
                if integer_of(ranges[i].element(0)).is_none() || integer_of(
                    ranges[i].element(1),
                ).is_none() {
                    assert(elements(frame@.field("acked_ranges"@))[i as int] == ranges@[i as int]@);
                    return false;
                }
                i = i + 1;
            }
            timed
        },
        _ => false,
    }
}

/// The ranges of acknowledgments, one after the other.
spec fn all_ranges(acks: Seq<RecordedAck>) -> Seq<(u64, u64)>
    decreases acks.len(),
{
    if acks.len() == 0 {
        Seq::empty()
    } else {
        all_ranges(acks.drop_last()) + acks.last().ranges
    }
}

/// The first packet number, and whether the ranges can be counted, can be told from the ranges
/// alone.
proof fn lemma_all_ranges(acks: Seq<RecordedAck>, base: u64)
    ensures
        first_packet(acks) == if all_ranges(acks).len() > 0 {
            Some(all_ranges(acks)[0].0)
        } else {
            None
        },
        all_countable(acks, base) <==> forall|k: int|
            0 <= k < all_ranges(acks).len() ==> countable(#[trigger] all_ranges(acks)[k], base),
    decreases acks.len(),
{
    if acks.len() > 0 {
        let before = acks.drop_last();
        let last = acks.last();
        let flat = all_ranges(before);
        lemma_all_ranges(before, base);
        lemma_first_packet_push(before, last);
        assert(before.push(last) =~= acks);
        if all_countable(acks, base) {
            assert(all_countable(before, base)) by {
                assert forall|i: int, j: int|
                    0 <= i < before.len() && 0 <= j < before[i].ranges.len() implies countable(
                    #[trigger] before[i].ranges[j],
                    base,
                ) by {
                    assert(acks[i].ranges[j] == before[i].ranges[j]);
                }
            }
            assert forall|k: int| 0 <= k < all_ranges(acks).len() implies countable(
                #[trigger] all_ranges(acks)[k],
                base,
            ) by {
                if k < flat.len() {
                    assert(all_ranges(acks)[k] == flat[k]);
                } else {
                    assert(acks[acks.len() - 1].ranges[k - flat.len()] == all_ranges(acks)[k]);
                }
            }
        }
        if forall|k: int|
            0 <= k < all_ranges(acks).len() ==> countable(#[trigger] all_ranges(acks)[k], base) {
            assert forall|k: int| 0 <= k < flat.len() implies countable(
                #[trigger] flat[k],
                base,
            ) by {
                assert(all_ranges(acks)[k] == flat[k]);
            }
            assert forall|i: int, j: int|
                0 <= i < acks.len() && 0 <= j < acks[i].ranges.len() implies countable(
                #[trigger] acks[i].ranges[j],
                base,
            ) by {
                if i < before.len() {
                    assert(before[i].ranges[j] == acks[i].ranges[j]);
                } else {
                    assert(all_ranges(acks)[flat.len() + j] == acks[i].ranges[j]);
                }
            }
        }
    }
}

/// Adds the ranges of a complete acknowledgment to `flat`.
fn collect_ranges(record: &Json, frame: &Json, flat: &mut Vec<(u64, u64)>)
    requires
        ack_complete(record@, frame@),
    ensures
        final(flat)@ == old(flat)@ + acked_ranges(frame@),
{
    if let Some(Json::Array(acked)) = frame.field("acked_ranges") {
        let ghost recorded = acked_ranges(frame@);
        let ghost values = elements(frame@.field("acked_ranges"@));
        assert forall|j: int| 0 <= j < acked@.len() implies {
            &&& integer((#[trigger] acked@[j])@.element(0)) is Some
            &&& integer(acked@[j]@.element(1)) is Some
        } by {
            assert(values[j] == acked@[j]@);
        }
        let mut i: usize = 0;
        while i < acked.len()
            invariant
                i <= acked@.len(),
                recorded.len() == acked@.len(),
                forall|j: int|
                    0 <= j < acked@.len() ==> recorded[j] == recorded_range(
                        (#[trigger] acked@[j])@,
                    ),
                forall|j: int|
                    0 <= j < acked@.len() ==> {
                        &&& integer((#[trigger] acked@[j])@.element(0)) is Some
                        &&& integer(acked@[j]@.element(1)) is Some
                    },
                flat@ == old(flat)@ + recorded.take(i as int),
            decreases acked@.len() - i,
        {
            if let (Some(from), Some(to)) = (
                integer_of(acked[i].element(0)),
                integer_of(acked[i].element(1)),
            ) {
                assert(recorded[i as int] == (from, to));
                flat.push((from, to));
            }
            assert(flat@ =~= old(flat)@ + recorded.take(i + 1));
            i = i + 1;
        }
        assert(recorded.take(recorded.len() as int) =~= recorded);
    }
}

/// Whether a record is complete. If it is, the ranges of its acknowledgments are added to `flat`,
/// which holds those of `acks`, and `found` is set if there are any.
fn collect_record(
    record: &Json,
    flat: &mut Vec<(u64, u64)>,
    found: &mut bool,
    Ghost(time): Ghost<u64>,
    Ghost(acks): Ghost<Seq<RecordedAck>>,
) -> (complete: bool)
    requires
        old(flat)@ == all_ranges(acks),
        *old(found) == (acks.len() > 0),
    ensures
        complete == record_complete(record@),
        complete ==> {
            let all = acks + acks_in_frames(time, frames(record@));
            &&& final(flat)@ == all_ranges(all)
            &&& *final(found) == (all.len() > 0)
        },
{
    let ghost recorded = frames(record@);
    assert(acks + acks_in_frames(time, recorded.take(0)) =~= acks);
    if !text_is(record.field("name"), "transport:packet_sent") {
        assert(acks + acks_in_frames(time, recorded) =~= acks);
        return true;
    }
    let data = record.field("data");
    let header = member_of(data, "header");
    if !text_is(member_of(header, "packet_type"), "1RTT") {
        assert(acks + acks_in_frames(time, recorded) =~= acks);
        return true;
    }
    if let Some(Json::Array(frames)) = member_of(data, "frames") {
        assert(recorded.len() == frames@.len());
        let mut i: usize = 0;
        while i < frames.len()
            invariant
                i <= frames@.len(),
                recorded.len() == frames@.len(),
                forall|j: int| 0 <= j < frames@.len() ==> recorded[j] == (#[trigger] frames@[j])@,
                recorded == crate::qlog::frames(record@),
                forall|j: int|
                    0 <= j < i && is_ack(#[trigger] recorded[j]) ==> ack_complete(
                        record@,
                        recorded[j],
                    ),
                ({
                    let so_far = acks + acks_in_frames(time, recorded.take(i as int));
                    &&& flat@ == all_ranges(so_far)
                    &&& *found == (so_far.len() > 0)
                }),
            decreases frames@.len() - i,
        {
            let frame = &frames[i];
            let ghost so_far = acks + acks_in_frames(time, recorded.take(i as int));
            let ghost next = acks + acks_in_frames(time, recorded.take(i + 1));
            assert(recorded.take(i + 1).drop_last() =~= recorded.take(i as int));
            assert(recorded[i as int] == frame@);
            if text_is(frame.field("frame_type"), "ack") {
                if !is_ack_complete(record, frame) {
                    return false;
                }
                let ghost ack = recorded_ack(time, frame@);
                assert(next =~= so_far.push(ack));
                assert(next.drop_last() =~= so_far);
                collect_ranges(record, frame, flat);
                *found = true;
            } else {
                assert(next =~= so_far);
            }
            i = i + 1;
        }
        assert(recorded.take(recorded.len() as int) =~= recorded);
    } else {
        assert(acks + acks_in_frames(time, recorded) =~= acks);
    }
    true
}

/// Whether a schedule can be made from the records of a trace.
pub fn is_usable(records: &Vec<Result<Json, QlogError>>, nanos: &Vec<u64>) -> (possible: bool)
    ensures
        possible == usable(records_view(records@), nanos@),
{
    let ghost views = records_view(records@);
    if nanos.len() != records.len() {
        return false;
    }
    let ghost mut done: Seq<JsonView> = Seq::empty();
    let mut flat: Vec<(u64, u64)> = Vec::new();
    let mut found = false;
    let mut failed = false;
    let mut i: usize = 0;
    assert(views.skip(0) =~= views);
    assert(done + leading(views.skip(0)) =~= leading(views));
    while i < records.len() && !failed
        invariant
            i <= records@.len(),
            views == records_view(records@),
            nanos@.len() == records@.len(),
            !failed ==> done.len() == i,
            leading(views) == done + leading(views.skip(i as int)),
            first_error(views) == first_error(views.skip(i as int)),
            forall|j: int| 0 <= j < done.len() ==> record_complete(#[trigger] done[j]),
            flat@ == all_ranges(acks_in(done, nanos@)),
            found == (acks_in(done, nanos@).len() > 0),
            failed ==> leading(views) == done && first_error(views) is Some,
        decreases records@.len() - i, if failed { 0int } else { 1int },
    {
        assert(views.skip(i as int).drop_first() =~= views.skip(i + 1));
        match &records[i] {
            Ok(record) => {
                let ghost next = done.push(record@);
                assert(leading(views) =~= next + leading(views.skip(i + 1)));
                assert(next.drop_last() =~= done);
                if !collect_record(
                    record,
                    &mut flat,
                    &mut found,
                    Ghost(nanos@[i as int]),
                    Ghost(acks_in(done, nanos@)),
                ) {
                    assert(leading(views)[done.len() as int] == record@);
                    return false;
                }
                proof {
                    done = next;
                }
                i = i + 1;
            },
            Err(_) => {
                assert(leading(views) =~= done);
                failed = true;
            },
        }
    }
    let ghost acks = acks_in(done, nanos@);
    assert(leading(views) =~= done);
    let first = if flat.len() > 0 {
        flat[0].0
    } else {
        0
    };
    proof {
        lemma_all_ranges(acks, first);
    }
    assert(first == base(acks));
    let mut k: usize = 0;
    while k < flat.len()
        invariant
            k <= flat@.len(),
            views == records_view(records@),
            leading(views) == done,
            acks == acks_in(done, nanos@),
            first == base(acks),
            flat@ == all_ranges(acks),
            all_countable(acks, first) <==> forall|k: int|
                0 <= k < flat@.len() ==> countable(#[trigger] flat@[k], first),
            forall|j: int| 0 <= j < k ==> countable(#[trigger] flat@[j], first),
        decreases flat@.len() - k,
    {
        let (from, to) = flat[k];
        if from < first || to < first || to - first == u64::MAX {
            assert(!countable(flat@[k as int], first));
            return false;
        }
        k = k + 1;
    }
    failed || found
}

/// The times of records, as they are written.
pub open spec fn are_times(
    texts: Seq<Option<String>>,
    records: Seq<Result<JsonView, QlogError>>,
) -> bool {
    &&& texts.len() == records.len()
    &&& forall|i: int|
        0 <= i < texts.len() ==> chars(#[trigger] texts[i]) == match records[i] {
            Ok(record) => time_text(record),
            Err(_) => None,
        }
}

/// The times of records in milliseconds, as they are written. A record that could not be read has
/// none.
pub fn times_of(records: &Vec<Result<Json, QlogError>>) -> (texts: Vec<Option<String>>)
    ensures
        are_times(texts@, records_view(records@)),
{
    let mut texts: Vec<Option<String>> = Vec::new();
    let mut i: usize = 0;
    while i < records.len()
        invariant
            i <= records@.len(),
            are_times(texts@, records_view(records@).take(i as int)),
        decreases records@.len() - i,
    {
        let text = match &records[i] {
            Ok(record) => match record.field("time") {
                Some(Json::Number(number)) => Some(number.text.clone()),
                _ => None,
            },
            Err(_) => None,
        };
        texts.push(text);
        i = i + 1;
    }
    assert(records_view(records@).take(records@.len() as int) =~= records_view(records@));
    texts
}

/// The times of the records of a trace in milliseconds, as they are written.
pub fn times(trace: &[u8]) -> (texts: Vec<Option<String>>)
    ensures
        are_times(texts@, json_records(trace@)),
{
    times_of(&parse_records(trace))
}

/// Whether a schedule can be made from a trace whose records were made at `nanos`.
pub fn is_usable_trace(trace: &[u8], nanos: &Vec<u64>) -> (possible: bool)
    ensures
        possible == usable(json_records(trace@), nanos@),
{
    is_usable(&parse_records(trace), nanos)
}

/// Makes a schedule from a trace: when to send which acknowledgments. `nanos` holds the times of
/// its records, in nanoseconds.
pub fn read_qlog(trace: &[u8], nanos: &Vec<u64>) -> (entries: Result<
    Vec<(Duration, Vec<Range<u64>>)>,
    QlogError,
>)
    requires
        usable(json_records(trace@), nanos@),
    ensures
        match entries {
            Ok(entries) => {
                &&& first_error(json_records(trace@)) is None
                &&& schedule_view(entries@) == schedule(
                    acks_in(leading(json_records(trace@)), nanos@),
                )
            },
            Err(error) => first_error(json_records(trace@)) == Some(error),
        },
{
    read_records(&parse_records(trace), nanos)
}

} // verus!
