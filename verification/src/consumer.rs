//! The broker stream consumer's verified core: walking a stream-read reply
//! to collect the record payloads, and feeding decoded records to the
//! aggregation state. The broker connection, the blocking read and the
//! acknowledgments live outside; the reply is handed in as a plain value.

use vstd::prelude::*;

use crate::codec::decode_record;
use crate::state::{AggregatorState, totals_after};

verus! {

/// A broker reply value held as plain data: byte strings, integers, and
/// nested arrays.
#[derive(Debug)]
pub enum WireValue {
    /// No data.
    Nil,
    /// An integer reply.
    Int(i64),
    /// A binary-safe string.
    Data(Vec<u8>),
    /// An array of values.
    List(Vec<WireValue>),
}

/// Whether a value is the byte string "data", the field under which each
/// stream entry carries its record.
pub open spec fn is_data_key(v: WireValue) -> bool {
    v matches WireValue::Data(b) && b@ =~= seq![0x64u8, 0x61u8, 0x74u8, 0x61u8]
}

/// The payload of a field value: the bytes of a binary string.
pub open spec fn spec_payload(v: WireValue) -> Option<Seq<u8>> {
    match v {
        WireValue::Data(b) => Some(b@),
        _ => None,
    }
}

/// The record payloads among a field list: the value after each "data"
/// key, scanning key/value pairs.
pub open spec fn spec_field_data(fields: Seq<WireValue>) -> Seq<Seq<u8>>
    decreases fields.len(),
{
    if fields.len() < 2 {
        Seq::empty()
    } else {
        let head = if is_data_key(fields[0]) && spec_payload(fields[1]) is Some {
            seq![spec_payload(fields[1]).unwrap()]
        } else {
            Seq::<Seq<u8>>::empty()
        };
        head + spec_field_data(fields.skip(2))
    }
}

/// The (entry id, payload) pairs of one stream message: a message is
/// `[id, [field, value, ...]]`.
pub open spec fn spec_message_entries(m: WireValue) -> Seq<(Seq<u8>, Seq<u8>)> {
    match m {
        WireValue::List(items) => if items@.len() >= 2 {
            match (items@[0], items@[1]) {
                (WireValue::Data(id), WireValue::List(fields)) => spec_field_data(
                    fields@).map_values(|d: Seq<u8>| (id@, d)),
                _ => Seq::empty(),
            }
        } else {
            Seq::empty()
        },
        _ => Seq::empty(),
    }
}

/// The pairs of a list of messages, in order.
pub open spec fn spec_messages_entries(ms: Seq<WireValue>) -> Seq<(Seq<u8>, Seq<u8>)>
    decreases ms.len(),
{
    if ms.len() == 0 {
        Seq::empty()
    } else {
        spec_message_entries(ms[0]) + spec_messages_entries(ms.skip(1))
    }
}

/// The pairs of one stream element: a stream is `[name, [message, ...]]`.
pub open spec fn spec_stream_entries(s: WireValue) -> Seq<(Seq<u8>, Seq<u8>)> {
    match s {
        WireValue::List(sd) => if sd@.len() >= 2 {
            match sd@[1] {
                WireValue::List(messages) => spec_messages_entries(messages@),
                _ => Seq::empty(),
            }
        } else {
            Seq::empty()
        },
        _ => Seq::empty(),
    }
}

/// The pairs of a list of streams, in order.
pub open spec fn spec_streams_entries(ss: Seq<WireValue>) -> Seq<(Seq<u8>, Seq<u8>)>
    decreases ss.len(),
{
    if ss.len() == 0 {
        Seq::empty()
    } else {
        spec_stream_entries(ss[0]) + spec_streams_entries(ss.skip(1))
    }
}

/// The (entry id, payload) pairs of a whole stream-read reply:
/// `[[stream_name, [[entry_id, [field, value, ...]], ...]], ...]`.
pub open spec fn spec_response_entries(v: WireValue) -> Seq<(Seq<u8>, Seq<u8>)> {
    match v {
        WireValue::List(streams) => spec_streams_entries(streams@),
        _ => Seq::empty(),
    }
}

/// The byte contents of a list of collected entry pairs.
pub open spec fn entry_views(s: Seq<(Vec<u8>, Vec<u8>)>) -> Seq<(Seq<u8>, Seq<u8>)> {
    s.map_values(|p: (Vec<u8>, Vec<u8>)| (p.0@, p.1@))
}

/// Copy a byte string.
fn clone_bytes(v: &Vec<u8>) -> (r: Vec<u8>)
    ensures
        r@ == v@,
{
    let mut out: Vec<u8> = Vec::new();
    let mut i: usize = 0;
    while i < v.len()
        invariant
            i <= v@.len(),
            out@ =~= v@.take(i as int),
        decreases v@.len() - i,
    {
        out.push(v[i]);
        i = i + 1;
    }
    assert(out@ =~= v@);
    out
}

fn is_data_key_exec(v: &WireValue) -> (r: bool)
    ensures
        r == is_data_key(*v),
{
    match v {
        WireValue::Data(b) => {
            let r = b.len() == 4 && b[0] == 0x64 && b[1] == 0x61 && b[2] == 0x74
                && b[3] == 0x61;
            proof {
                if r {
                    assert(b@ =~= seq![0x64u8, 0x61u8, 0x74u8, 0x61u8]);
                }
            }
            r
        },
        _ => false,
    }
}

fn field_data(fields: &Vec<WireValue>) -> (r: Vec<Vec<u8>>)
    ensures
        r@.map_values(|d: Vec<u8>| d@) =~= spec_field_data(fields@),
{
    let mut out: Vec<Vec<u8>> = Vec::new();
    let mut i: usize = 0;
    proof {
        assert(fields@.skip(0) =~= fields@);
    }
    while i < fields.len() && fields.len() - i >= 2
        invariant
            i <= fields@.len(),
            spec_field_data(fields@) =~= out@.map_values(|d: Vec<u8>| d@)
                + spec_field_data(fields@.skip(i as int)),
        decreases fields@.len() - i,
    {
        let ghost out_pre = out@;
        let ghost rest = fields@.skip(i as int);
        proof {
            assert(rest.len() >= 2);
            assert(rest[0] == fields@[i as int]);
            assert(rest[1] == fields@[i as int + 1]);
            assert(rest.skip(2) =~= fields@.skip(i as int + 2));
        }
        if is_data_key_exec(&fields[i]) {
            match &fields[i + 1] {
                WireValue::Data(b) => {
                    out.push(clone_bytes(b));
                    proof {
                        assert(spec_payload(rest[1]) == Some(b@));
                    }
                },
                _ => {
                    proof {
                        assert(spec_payload(rest[1]) is None);
                    }
                },
            }
        }
        proof {
            let head = if is_data_key(rest[0]) && spec_payload(rest[1]) is Some {
                seq![spec_payload(rest[1]).unwrap()]
            } else {
                Seq::<Seq<u8>>::empty()
            };
            assert(spec_field_data(rest) == head + spec_field_data(rest.skip(2)));
            assert(out@.map_values(|d: Vec<u8>| d@)
                =~= out_pre.map_values(|d: Vec<u8>| d@) + head);
            assert(spec_field_data(fields@) =~= out@.map_values(|d: Vec<u8>| d@)
                + spec_field_data(fields@.skip(i as int + 2)));
        }
        i = i + 2;
    }
    proof {
        assert(spec_field_data(fields@.skip(i as int)).len() == 0);
        assert(out@.map_values(|d: Vec<u8>| d@) + Seq::<Seq<u8>>::empty()
            =~= out@.map_values(|d: Vec<u8>| d@));
    }
    out
}

/// Walk a stream-read reply and collect every `(entry id, payload)` pair
/// carried under a "data" field, in reply order.
pub fn parse_stream_response(v: &WireValue) -> (r: Vec<(Vec<u8>, Vec<u8>)>)
    ensures
        entry_views(r@) =~= spec_response_entries(*v),
{
    let mut out: Vec<(Vec<u8>, Vec<u8>)> = Vec::new();
    let streams = match v {
        WireValue::List(streams) => streams,
        _ => {
            return out;
        },
    };
    let mut si: usize = 0;
    while si < streams.len()
        invariant
            si <= streams@.len(),
            entry_views(out@) =~= spec_streams_entries(streams@.take(si as int)),
        decreases streams@.len() - si,
    {
        let ghost out_pre = out@;
        collect_stream(&streams[si], &mut out);
        proof {
            assert(streams@.take(si as int + 1) =~= streams@.take(si as int).push(
                streams@[si as int]));
            lemma_streams_entries_push(streams@.take(si as int), streams@[si as int]);
        }
        si = si + 1;
    }
    proof {
        assert(streams@.take(streams@.len() as int) =~= streams@);
    }
    out
}

/// Collect the pairs of one stream element.
fn collect_stream(s: &WireValue, out: &mut Vec<(Vec<u8>, Vec<u8>)>)
    ensures
        entry_views(final(out)@) =~= entry_views(old(out)@) + spec_stream_entries(*s),
{
    match s {
        WireValue::List(sd) => {
            if sd.len() >= 2 {
                match &sd[1] {
                    WireValue::List(messages) => {
                        let mut mi: usize = 0;
                        while mi < messages.len()
                            invariant
                                mi <= messages@.len(),
                                entry_views(out@) =~= entry_views(old(out)@)
                                    + spec_messages_entries(messages@.take(mi as int)),
                            decreases messages@.len() - mi,
                        {
                            collect_message(&messages[mi], out);
                            proof {
                                assert(messages@.take(mi as int + 1)
                                    =~= messages@.take(mi as int).push(messages@[mi as int]));
                                lemma_messages_entries_push(messages@.take(mi as int),
                                    messages@[mi as int]);
                            }
                            mi = mi + 1;
                        }
                        proof {
                            assert(messages@.take(messages@.len() as int) =~= messages@);
                        }
                    },
                    _ => {},
                }
            }
        },
        _ => {},
    }
}

/// Collect the pairs of one message.
fn collect_message(m: &WireValue, out: &mut Vec<(Vec<u8>, Vec<u8>)>)
    ensures
        entry_views(final(out)@) =~= entry_views(old(out)@) + spec_message_entries(*m),
{
    match m {
        WireValue::List(items) => {
            if items.len() >= 2 {
                match (&items[0], &items[1]) {
                    (WireValue::Data(id), WireValue::List(fields)) => {
                        let data = field_data(fields);
                        let ghost dviews = data@.map_values(|d: Vec<u8>| d@);
                        let mut di: usize = 0;
                        while di < data.len()
                            invariant
                                di <= data@.len(),
                                dviews == data@.map_values(|d: Vec<u8>| d@),
                                entry_views(out@) =~= entry_views(old(out)@)
                                    + dviews.take(di as int).map_values(
                                        |d: Seq<u8>| (id@, d)),
                            decreases data@.len() - di,
                        {
                            let ghost out_pre = out@;
                            out.push((clone_bytes(id), clone_bytes(&data[di])));
                            proof {
                                assert(entry_views(out@) =~= entry_views(out_pre).push(
                                    (id@, data@[di as int]@)));
                                assert(dviews.take(di as int + 1)
                                    =~= dviews.take(di as int).push(dviews[di as int]));
                                assert(dviews.take(di as int + 1).map_values(
                                    |d: Seq<u8>| (id@, d))
                                    =~= dviews.take(di as int).map_values(
                                        |d: Seq<u8>| (id@, d)).push((id@, dviews[di as int])));
                                assert(dviews[di as int] == data@[di as int]@);
                            }
                            di = di + 1;
                        }
                        proof {
                            assert(dviews.take(data@.len() as int) =~= dviews);
                            assert(spec_message_entries(*m)
                                == dviews.map_values(|d: Seq<u8>| (id@, d)));
                        }
                    },
                    _ => {},
                }
            }
        },
        _ => {},
    }
}

proof fn lemma_messages_entries_push(ms: Seq<WireValue>, m: WireValue)
    ensures
        spec_messages_entries(ms.push(m)) =~= spec_messages_entries(ms)
            + spec_message_entries(m),
    decreases ms.len(),
{
    if ms.len() == 0 {
        assert(ms.push(m)[0] == m);
        assert(ms.push(m).skip(1) =~= Seq::<WireValue>::empty());
        assert(spec_messages_entries(ms.push(m)) == spec_message_entries(m)
            + spec_messages_entries(ms.push(m).skip(1)));
        assert(spec_messages_entries(ms.push(m).skip(1))
            == Seq::<(Seq<u8>, Seq<u8>)>::empty());
        assert(spec_messages_entries(ms) == Seq::<(Seq<u8>, Seq<u8>)>::empty());
    } else {
        assert(ms.push(m)[0] == ms[0]);
        assert(ms.push(m).skip(1) =~= ms.skip(1).push(m));
        lemma_messages_entries_push(ms.skip(1), m);
        assert(spec_messages_entries(ms.push(m)) == spec_message_entries(ms[0])
            + spec_messages_entries(ms.skip(1).push(m)));
        assert(spec_messages_entries(ms) == spec_message_entries(ms[0])
            + spec_messages_entries(ms.skip(1)));
    }
}

proof fn lemma_streams_entries_push(ss: Seq<WireValue>, s: WireValue)
    ensures
        spec_streams_entries(ss.push(s)) =~= spec_streams_entries(ss)
            + spec_stream_entries(s),
    decreases ss.len(),
{
    if ss.len() == 0 {
        assert(ss.push(s)[0] == s);
        assert(ss.push(s).skip(1) =~= Seq::<WireValue>::empty());
        assert(spec_streams_entries(ss.push(s)) == spec_stream_entries(s)
            + spec_streams_entries(ss.push(s).skip(1)));
        assert(spec_streams_entries(ss.push(s).skip(1))
            == Seq::<(Seq<u8>, Seq<u8>)>::empty());
        assert(spec_streams_entries(ss) == Seq::<(Seq<u8>, Seq<u8>)>::empty());
    } else {
        assert(ss.push(s)[0] == ss[0]);
        assert(ss.push(s).skip(1) =~= ss.skip(1).push(s));
        lemma_streams_entries_push(ss.skip(1), s);
        assert(spec_streams_entries(ss.push(s)) == spec_stream_entries(ss[0])
            + spec_streams_entries(ss.skip(1).push(s)));
        assert(spec_streams_entries(ss) == spec_stream_entries(ss[0])
            + spec_streams_entries(ss.skip(1)));
    }
}

/// Feed a batch of stream entries to the aggregation state: every payload
/// that decodes as a record is processed, the rest are skipped, and every
/// entry id is returned for acknowledgment — a bad payload must still be
/// acknowledged, else it would poison the pending-entries list.
pub fn process_entries(state: &mut AggregatorState, entries: &Vec<(Vec<u8>, Vec<u8>)>)
    -> (r: (Vec<Vec<u8>>, usize))
    requires
        old(state).wf(),
    ensures
        final(state).wf(),
        r.0@.len() == entries@.len(),
        forall|i: int| 0 <= i < entries@.len() ==> r.0@[i]@ == (#[trigger] entries@[i]).0@,
        r.1 <= entries@.len(),
        final(state).total_packets == totals_after(old(state).total_packets,
            Seq::new(r.1 as nat, |i: int| 1u64)),
{
    let mut acks: Vec<Vec<u8>> = Vec::new();
    let mut processed: usize = 0;
    let mut i: usize = 0;
    while i < entries.len()
        invariant
            i <= entries@.len(),
            state.wf(),
            acks@.len() == i,
            processed <= i,
            forall|j: int| 0 <= j < i ==> acks@[j]@ == (#[trigger] entries@[j]).0@,
            state.total_packets == totals_after(old(state).total_packets,
                Seq::new(processed as nat, |k: int| 1u64)),
        decreases entries@.len() - i,
    {
        let entry = &entries[i];
        match decode_record(entry.1.as_slice()) {
            Some(frame) => {
                let _ = state.process_frame(&frame);
                processed = processed + 1;
                proof {
                    assert(Seq::new(processed as nat, |k: int| 1u64).drop_last()
                        =~= Seq::new((processed - 1) as nat, |k: int| 1u64));
                }
            },
            None => {},
        }
        acks.push(clone_bytes(&entry.0));
        i = i + 1;
    }
    (acks, processed)
}

} // verus!
