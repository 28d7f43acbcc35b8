//! The ghost model of everything the byte transport observes.
//!
//! Every register write the engine performs decomposes into transport
//! events: a toggle of the data/command selector line, or one raw transfer
//! of at most the transport's single-transfer limit. Contracts throughout
//! the crate speak of sequences of these events, so the exact wire traffic
//! of every operation is pinned down, ordering included.

use vstd::prelude::*;

verus! {

/// One observable action on the command/data transport.
///
/// `Select { level: 0 }` frames what follows as a command byte,
/// `Select { level: 1 }` as payload data. `Chunk` is a single raw transfer.
#[verifier::ext_equal]
pub enum SpiEvent {
    Select { level: u8 },
    Chunk { bytes: Seq<u8> },
}

/// An exec-level record of one transport action, as the recording fake
/// backend stores it. Its view is the corresponding [`SpiEvent`].
#[derive(Debug, Clone, PartialEq, Eq)]
pub enum RecordedSpiEvent {
    Select { level: u8 },
    Chunk { bytes: Vec<u8> },
}

impl View for RecordedSpiEvent {
    type V = SpiEvent;

    open spec fn view(&self) -> SpiEvent {
        match self {
            RecordedSpiEvent::Select { level } => SpiEvent::Select { level: *level },
            RecordedSpiEvent::Chunk { bytes } => SpiEvent::Chunk { bytes: bytes@ },
        }
    }
}

/// `num` divided by `den`, rounded up.
pub open spec fn ceil_div(num: nat, den: nat) -> int {
    (num + den - 1) as int / den as int
}

/// The transfers a payload of `data` splits into: successive chunks of
/// exactly `limit` bytes, the last one holding the remainder. Byte order
/// and boundaries are preserved exactly; nothing is re-framed.
pub open spec fn chunk_events(data: Seq<u8>, limit: nat) -> Seq<SpiEvent>
    recommends
        1 <= limit,
    decreases data.len() when 1 <= limit
{
    if data.len() == 0 {
        Seq::empty()
    } else if data.len() <= limit {
        seq![SpiEvent::Chunk { bytes: data }]
    } else {
        seq![SpiEvent::Chunk { bytes: data.take(limit as int) }]
            + chunk_events(data.skip(limit as int), limit)
    }
}

/// What sending a payload emits: nothing at all when the payload is empty,
/// otherwise one data-select followed by the chunked transfers.
pub open spec fn payload_events(data: Seq<u8>, limit: nat) -> Seq<SpiEvent>
    recommends
        1 <= limit,
{
    if data.len() == 0 {
        Seq::empty()
    } else {
        seq![SpiEvent::Select { level: 1 }] + chunk_events(data, limit)
    }
}

/// What sending a one-byte register address emits: a command-select, then
/// the single code byte.
pub open spec fn command_events(code: u8) -> Seq<SpiEvent> {
    seq![
        SpiEvent::Select { level: 0 },
        SpiEvent::Chunk { bytes: seq![code] },
    ]
}

/// One full register write: the command framing, then the payload framing.
pub open spec fn register_write_events(code: u8, data: Seq<u8>, limit: nat) -> Seq<SpiEvent>
    recommends
        1 <= limit,
{
    command_events(code) + payload_events(data, limit)
}

/// The register codes a transport log carries, in emission order: the byte
/// of each transfer that directly follows a command-select.
pub open spec fn command_codes(events: Seq<SpiEvent>) -> Seq<u8>
    decreases events.len(),
{
    if events.len() == 0 {
        Seq::empty()
    } else if events[0] == (SpiEvent::Select { level: 0 }) && events.len() >= 2
        && events[1] is Chunk {
        seq![events[1]->bytes[0]] + command_codes(events.skip(2))
    } else {
        command_codes(events.skip(1))
    }
}

/// The bytes carried by the transfers of a log, concatenated in order.
pub open spec fn chunk_payload_bytes(events: Seq<SpiEvent>) -> Seq<u8>
    decreases events.len(),
{
    if events.len() == 0 {
        Seq::empty()
    } else {
        (if events[0] is Chunk {
            events[0]->bytes
        } else {
            Seq::empty()
        }) + chunk_payload_bytes(events.skip(1))
    }
}

/// `new_log` extends `old_log` by some prefix of `intended`: the shape a
/// transport log is left in when an operation is cut short by an I/O
/// failure part-way through its intended emission.
pub open spec fn advanced_by_prefix<T>(
    old_log: Seq<T>,
    new_log: Seq<T>,
    intended: Seq<T>,
) -> bool {
    exists|k: int| 0 <= k <= intended.len() && new_log == old_log + intended.take(k)
}

/// An unmoved log has advanced by the empty prefix of anything.
pub proof fn lemma_advanced_refl<T>(old_log: Seq<T>, intended: Seq<T>)
    ensures
        advanced_by_prefix(old_log, old_log, intended),
{
    assert(old_log + intended.take(0) =~= old_log);
}

/// A prefix of the first stage is a prefix of the whole plan.
pub proof fn lemma_advanced_widen<T>(
    old_log: Seq<T>,
    new_log: Seq<T>,
    first: Seq<T>,
    rest: Seq<T>,
)
    requires
        advanced_by_prefix(old_log, new_log, first),
    ensures
        advanced_by_prefix(old_log, new_log, first + rest),
{
    let k = choose|k: int| 0 <= k <= first.len() && new_log == old_log + first.take(k);
    assert((first + rest).take(k) =~= first.take(k));
    assert(0 <= k <= (first + rest).len());
}

/// After the first stage completed in full, a prefix of the second stage
/// is a prefix of the whole plan.
pub proof fn lemma_advanced_compose<T>(
    old_log: Seq<T>,
    mid_log: Seq<T>,
    new_log: Seq<T>,
    first: Seq<T>,
    rest: Seq<T>,
)
    requires
        mid_log == old_log + first,
        advanced_by_prefix(mid_log, new_log, rest),
    ensures
        advanced_by_prefix(old_log, new_log, first + rest),
{
    let k = choose|k: int| 0 <= k <= rest.len() && new_log == mid_log + rest.take(k);
    assert((first + rest).take(first.len() + k) =~= first + rest.take(k));
    assert(new_log == old_log + (first + rest).take(first.len() + k)) by {
        assert(old_log + (first + rest).take(first.len() + k)
            =~= (old_log + first) + rest.take(k));
    }
}

/// A log that advanced by the whole of `intended` advanced by a prefix
/// of it.
pub proof fn lemma_advanced_full<T>(old_log: Seq<T>, new_log: Seq<T>, intended: Seq<T>)
    requires
        new_log == old_log + intended,
    ensures
        advanced_by_prefix(old_log, new_log, intended),
{
    assert(intended.take(intended.len() as int) =~= intended);
}

/// How a payload is chunked, in full: the selector is raised exactly once
/// per non-empty payload, every transfer respects the limit, all transfers
/// but the last are full, their count is the payload length divided by the
/// limit rounded up, and the transferred bytes re-concatenate to the
/// payload exactly.
pub proof fn lemma_payload_chunking(data: Seq<u8>, limit: nat)
    requires
        1 <= limit,
    ensures
        data.len() == 0 ==> payload_events(data, limit) =~= Seq::<SpiEvent>::empty(),
        data.len() > 0 ==> payload_events(data, limit)[0] == (SpiEvent::Select { level: 1 }),
        data.len() > 0 ==> payload_events(data, limit).skip(1) == chunk_events(data, limit),
        chunk_events(data, limit).len() == ceil_div(data.len(), limit),
        forall|i: int|
            0 <= i < chunk_events(data, limit).len() ==> #[trigger] chunk_events(data, limit)[i]
                is Chunk,
        forall|i: int|
            0 <= i < chunk_events(data, limit).len() ==> #[trigger] chunk_events(
                data,
                limit,
            )[i]->bytes.len() <= limit,
        forall|i: int|
            0 <= i < chunk_events(data, limit).len() - 1 ==> #[trigger] chunk_events(
                data,
                limit,
            )[i]->bytes.len() == limit,
        chunk_payload_bytes(chunk_events(data, limit)) == data,
    decreases data.len(),
{
    if data.len() == 0 {
        let l = limit as int;
        assert(ceil_div(data.len(), limit) == 0) by {
            assert((0 + l - 1) / l == 0) by (nonlinear_arith)
                requires
                    1 <= l,
            ;
        }
    } else if data.len() <= limit {
        let events = chunk_events(data, limit);
        let n = data.len() as int;
        let l = limit as int;
        assert(ceil_div(data.len(), limit) == 1) by {
            assert((n + l - 1) / l == 1) by (nonlinear_arith)
                requires
                    1 <= l,
                    1 <= n <= l,
            ;
        }
        assert(chunk_payload_bytes(events) =~= data) by {
            assert(events.skip(1) =~= Seq::<SpiEvent>::empty());
            assert(chunk_payload_bytes(events.skip(1)) =~= Seq::<u8>::empty());
            assert(chunk_payload_bytes(events) == events[0]->bytes + chunk_payload_bytes(
                events.skip(1),
            ));
        }
        assert(payload_events(data, limit).skip(1) =~= chunk_events(data, limit));
    } else {
        let head = data.take(limit as int);
        let tail = data.skip(limit as int);
        lemma_payload_chunking(tail, limit);
        let events = chunk_events(data, limit);
        let rest = chunk_events(tail, limit);
        assert(events =~= seq![SpiEvent::Chunk { bytes: head }] + rest);
        assert(events.len() == 1 + rest.len());
        let n = data.len() as int;
        let l = limit as int;
        assert(ceil_div(data.len(), limit) == 1 + ceil_div(tail.len(), limit)) by {
            assert((n + l - 1) / l == 1 + ((n - l) + l - 1) / l) by (nonlinear_arith)
                requires
                    1 <= l,
                    n > l,
            ;
        }
        assert(forall|i: int| 0 <= i < rest.len() ==> events[i + 1] == #[trigger] rest[i]);
        assert(forall|i: int| 1 <= i < events.len() ==> #[trigger] events[i] == rest[i - 1]);
        assert(chunk_payload_bytes(events) =~= data) by {
            assert(events.skip(1) =~= rest);
            assert(chunk_payload_bytes(events) == head + chunk_payload_bytes(rest));
            assert(head + tail =~= data);
        }
        assert(payload_events(data, limit).skip(1) =~= chunk_events(data, limit));
    }
}

/// Payload framing carries no command-select, so it contributes no
/// register codes: extraction passes straight over it.
pub proof fn lemma_codes_skip_non_commands(events: Seq<SpiEvent>, rest: Seq<SpiEvent>)
    requires
        forall|i: int| 0 <= i < events.len() ==> events[i] != (SpiEvent::Select { level: 0 }),
    ensures
        command_codes(events + rest) == command_codes(rest),
    decreases events.len(),
{
    if events.len() == 0 {
        assert(events + rest =~= rest);
    } else {
        assert((events + rest)[0] == events[0]);
        assert((events + rest).skip(1) =~= events.skip(1) + rest);
        lemma_codes_skip_non_commands(events.skip(1), rest);
    }
}

/// A full register write contributes exactly its own code, whatever
/// payload it carries and whatever follows it.
pub proof fn lemma_codes_of_register_write(
    code: u8,
    data: Seq<u8>,
    limit: nat,
    rest: Seq<SpiEvent>,
)
    requires
        1 <= limit,
    ensures
        command_codes(register_write_events(code, data, limit) + rest) == seq![code]
            + command_codes(rest),
{
    let events = register_write_events(code, data, limit) + rest;
    let payload = payload_events(data, limit);
    assert(events[0] == (SpiEvent::Select { level: 0 }));
    assert(events[1] == (SpiEvent::Chunk { bytes: seq![code] }));
    assert(events.len() >= 2);
    assert(command_codes(events) == seq![events[1]->bytes[0]] + command_codes(events.skip(2)));
    assert(events[1]->bytes[0] == code);
    assert(events.skip(2) =~= payload + rest);
    lemma_payload_chunking(data, limit);
    assert forall|i: int| 0 <= i < payload.len() implies payload[i] != (SpiEvent::Select {
        level: 0,
    }) by {
        if i == 0 {
            assert(payload[0] == (SpiEvent::Select { level: 1 }));
        } else {
            assert(payload[i] == payload.skip(1)[i - 1]);
            assert(chunk_events(data, limit)[i - 1] is Chunk);
        }
    }
    lemma_codes_skip_non_commands(payload, rest);
}

/// A bare command contributes exactly its own code.
pub proof fn lemma_codes_of_command(code: u8, rest: Seq<SpiEvent>)
    ensures
        command_codes(command_events(code) + rest) == seq![code] + command_codes(rest),
{
    let events = command_events(code) + rest;
    assert(events[0] == (SpiEvent::Select { level: 0 }));
    assert(events[1] == (SpiEvent::Chunk { bytes: seq![code] }));
    assert(command_codes(events) == seq![events[1]->bytes[0]] + command_codes(events.skip(2)));
    assert(events.skip(2) =~= rest);
}

} // verus!
