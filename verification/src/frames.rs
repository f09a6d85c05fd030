//! Bounded newline-delimited control messages over the HTTP/2 byte stream.
//!
//! HTTP/2 DATA frame boundaries are deliberately not used as message boundaries.

use crate::protocol::{ProtocolError, TunnelEvent, MAX_CONTROL_BODY};
use vstd::prelude::*;

verus! {

/// The byte that ends a message.
pub const NEWLINE: u8 = 10;

/// Where the first complete line of a byte string ends.
pub open spec fn line_end(bytes: Seq<u8>) -> Option<int> {
    bytes.index_of_first(NEWLINE)
}

/// The complete lines of a byte string, each without its newline.
pub open spec fn complete_lines(bytes: Seq<u8>) -> Seq<Seq<u8>>
    decreases bytes.len(),
{
    if bytes.contains(NEWLINE) {
        let end = line_end(bytes)->0;
        if 0 <= end < bytes.len() {
            seq![bytes.take(end)] + complete_lines(bytes.skip(end + 1))
        } else {
            Seq::empty()
        }
    } else {
        Seq::empty()
    }
}

/// What follows the last complete line of a byte string.
pub open spec fn remainder(bytes: Seq<u8>) -> Seq<u8>
    decreases bytes.len(),
{
    if bytes.contains(NEWLINE) {
        let end = line_end(bytes)->0;
        if 0 <= end < bytes.len() {
            remainder(bytes.skip(end + 1))
        } else {
            bytes
        }
    } else {
        bytes
    }
}

/// What follows the first `count` complete lines of a byte string.
pub open spec fn after_lines(bytes: Seq<u8>, count: nat) -> Seq<u8>
    decreases count,
{
    if count == 0 {
        bytes
    } else {
        after_lines(bytes.skip(line_end(bytes)->0 + 1), (count - 1) as nat)
    }
}

/// A position is where the first line ends exactly if it holds a newline and none stands
/// before it.
proof fn lemma_line_end(bytes: Seq<u8>, end: int)
    requires
        0 <= end < bytes.len(),
        bytes[end] == NEWLINE,
        forall|j: int| 0 <= j < end ==> bytes[j] != NEWLINE,
    ensures
        bytes.contains(NEWLINE),
        line_end(bytes) == Some(end),
{
    bytes.index_of_first_ensures(NEWLINE);
    let found = line_end(bytes)->0;
    assert(bytes.contains(NEWLINE));
    if found < end {
        assert(bytes[found] != NEWLINE);
    }
}

/// Where a newline stands, the first line ends at a newline with none before it.
proof fn lemma_line_end_exists(bytes: Seq<u8>)
    requires
        bytes.contains(NEWLINE),
    ensures
        line_end(bytes) is Some,
        0 <= line_end(bytes)->0 < bytes.len(),
        bytes[line_end(bytes)->0] == NEWLINE,
        forall|j: int| 0 <= j < line_end(bytes)->0 ==> bytes[j] != NEWLINE,
{
    bytes.index_of_first_ensures(NEWLINE);
}

/// Splitting a byte stream anywhere changes no line: the lines of `first`, then those that
/// `second` completes, are the lines of the whole, and the same bytes are left over.
pub proof fn law_fragmentation(first: Seq<u8>, second: Seq<u8>)
    ensures
        complete_lines(first + second) == complete_lines(first) + complete_lines(
            remainder(first) + second,
        ),
        remainder(first + second) == remainder(remainder(first) + second),
    decreases first.len(),
{
    let whole = first + second;
    if first.contains(NEWLINE) {
        lemma_line_end_exists(first);
        let end = line_end(first)->0;
        assert(whole[end] == NEWLINE);
        assert forall|j: int| 0 <= j < end implies whole[j] != NEWLINE by {
            assert(whole[j] == first[j]);
        }
        lemma_line_end(whole, end);
        assert(whole.skip(end + 1) =~= first.skip(end + 1) + second);
        assert(whole.take(end) =~= first.take(end));
        law_fragmentation(first.skip(end + 1), second);
        assert(complete_lines(whole) =~= complete_lines(first) + complete_lines(
            remainder(first) + second,
        ));
    } else {
        assert(complete_lines(first) =~= Seq::<Seq<u8>>::empty());
        assert(complete_lines(whole) =~= complete_lines(first) + complete_lines(
            remainder(first) + second,
        ));
    }
}

/// The lines that a decoder holding `pending` gives out while it takes chunks in one by one.
pub open spec fn fed_lines(pending: Seq<u8>, chunks: Seq<Seq<u8>>) -> Seq<Seq<u8>>
    decreases chunks.len(),
{
    if chunks.len() == 0 {
        Seq::empty()
    } else {
        complete_lines(pending + chunks[0]) + fed_lines(
            remainder(pending + chunks[0]),
            chunks.skip(1),
        )
    }
}

/// Chunks one after the other.
pub open spec fn chained(chunks: Seq<Seq<u8>>) -> Seq<u8>
    decreases chunks.len(),
{
    if chunks.len() == 0 {
        Seq::empty()
    } else {
        chunks[0] + chained(chunks.skip(1))
    }
}

/// However a stream is cut into chunks, the decoder gives out the lines of the whole stream.
pub proof fn law_chunk_boundaries_are_invisible(pending: Seq<u8>, chunks: Seq<Seq<u8>>)
    requires
        !pending.contains(NEWLINE),
    ensures
        fed_lines(pending, chunks) == complete_lines(pending + chained(chunks)),
    decreases chunks.len(),
{
    if chunks.len() == 0 {
        assert(pending + chained(chunks) =~= pending);
        assert(complete_lines(pending) =~= Seq::<Seq<u8>>::empty());
    } else {
        let head = pending + chunks[0];
        law_remainder_is_partial(head);
        law_chunk_boundaries_are_invisible(remainder(head), chunks.skip(1));
        law_fragmentation(head, chained(chunks.skip(1)));
        assert(head + chained(chunks.skip(1)) =~= pending + chained(chunks));
    }
}

/// What is left over holds no newline and is no longer than what came in.
pub proof fn law_remainder_is_partial(bytes: Seq<u8>)
    ensures
        !remainder(bytes).contains(NEWLINE),
        remainder(bytes).len() <= bytes.len(),
    decreases bytes.len(),
{
    if bytes.contains(NEWLINE) {
        lemma_line_end_exists(bytes);
        law_remainder_is_partial(bytes.skip(line_end(bytes)->0 + 1));
    }
}

/// Collects control messages out of the chunks that a stream delivers.
pub struct ControlDecoder {
    pending: Vec<u8>,
}

impl View for ControlDecoder {
    type V = Seq<u8>;

    closed spec fn view(&self) -> Seq<u8> {
        self.pending@
    }
}

impl Default for ControlDecoder {
    fn default() -> (decoder: Self)
        ensures
            decoder@ == Seq::<u8>::empty(),
    {
        ControlDecoder { pending: Vec::new() }
    }
}

/// The position of the first newline.
fn find_newline(bytes: &Vec<u8>) -> (found: Option<usize>)
    ensures
        found is Some == bytes@.contains(NEWLINE),
        found matches Some(end) ==> line_end(bytes@) == Some(end as int) && end < bytes@.len(),
{
    let mut i: usize = 0;
    while i < bytes.len()
        invariant
            i <= bytes@.len(),
            forall|j: int| 0 <= j < i ==> bytes@[j] != NEWLINE,
        decreases bytes@.len() - i,
    {
        if bytes[i] == NEWLINE {
            proof {
                lemma_line_end(bytes@, i as int);
            }
            return Some(i);
        }
        i += 1;
    }
    None
}

/// A line was read as an event.
pub open spec fn reads_as<F: Fn(&[u8]) -> Option<TunnelEvent>>(
    parse: F,
    line: Seq<u8>,
    event: Option<TunnelEvent>,
) -> bool {
    exists|bytes: &[u8]| bytes@ == line && #[trigger] call_ensures(parse, (bytes,), event)
}

/// A line was read as some event.
pub open spec fn readable<F: Fn(&[u8]) -> Option<TunnelEvent>>(parse: F, line: Seq<u8>) -> bool {
    exists|event: TunnelEvent| #[trigger] reads_as(parse, line, Some(event))
}

/// The events that were given out, or the refusal.
pub open spec fn given_out(outcome: Result<Vec<TunnelEvent>, ProtocolError>) -> Result<
    Seq<TunnelEvent>,
    ProtocolError,
> {
    match outcome {
        Ok(events) => Ok(events@),
        Err(error) => Err(error),
    }
}

/// What taking a chunk in comes to, where `before` waited and `after` waits. More than the bound
/// is refused and changes nothing; else every line that is complete is read as an event, or the
/// first that cannot be read is refused, and what follows it waits.
pub open spec fn is_push<F: Fn(&[u8]) -> Option<TunnelEvent>>(
    parse: F,
    before: Seq<u8>,
    chunk: Seq<u8>,
    outcome: Result<Seq<TunnelEvent>, ProtocolError>,
    after: Seq<u8>,
) -> bool {
    let lines = complete_lines(before + chunk);
    if before.len() + chunk.len() > MAX_CONTROL_BODY {
        &&& outcome == Err::<Seq<TunnelEvent>, ProtocolError>(ProtocolError::TooLarge)
        &&& after == before
    } else {
        match outcome {
            Ok(events) => {
                &&& after == remainder(before + chunk)
                &&& events.len() == lines.len()
                &&& forall|i: int|
                    0 <= i < lines.len() ==> reads_as(parse, #[trigger] lines[i], Some(events[i]))
            },
            Err(error) => {
                &&& error == ProtocolError::InvalidEncoding
                &&& exists|k: int|
                    0 <= k < lines.len() && reads_as(parse, #[trigger] lines[k], None) && after
                        == after_lines(before + chunk, (k + 1) as nat) && (forall|i: int|
                        0 <= i < k ==> readable(parse, #[trigger] lines[i]))
            },
        }
    }
}

impl ControlDecoder {
    /// Takes a chunk in and gives out the events of the lines that it completes, each read by
    /// `parse`. A chunk that would let more than the bound wait is refused and leaves the
    /// decoder as it was. A line that cannot be read is dropped with the events before it in
    /// the same chunk; what follows it waits.
    pub fn push<F: Fn(&[u8]) -> Option<TunnelEvent>>(
        &mut self,
        chunk: &[u8],
        parse: F,
    ) -> (outcome: Result<Vec<TunnelEvent>, ProtocolError>)
        requires
            forall|line: &[u8]| call_requires(parse, (line,)),
        ensures
            is_push(parse, old(self)@, chunk@, given_out(outcome), final(self)@),
            final(self)@.len() <= old(self)@.len() + chunk@.len(),
    {
        if chunk.len() > MAX_CONTROL_BODY || self.pending.len() > MAX_CONTROL_BODY
            - chunk.len() {
            return Err(ProtocolError::TooLarge);
        }
        self.pending.extend_from_slice(chunk);
        let ghost whole = old(self)@ + chunk@;
        let ghost lines = complete_lines(whole);
        proof {
            assert(self.pending@ =~= whole);
        }
        let mut events: Vec<TunnelEvent> = Vec::new();
        loop
            invariant
                forall|line: &[u8]| call_requires(parse, (line,)),
                lines == complete_lines(whole),
                lines.len() == events@.len() + complete_lines(self.pending@).len(),
                lines.skip(events@.len() as int) == complete_lines(self.pending@),
                remainder(whole) == remainder(self.pending@),
                after_lines(whole, events@.len()) == self.pending@,
                self.pending@.len() <= whole.len(),
                whole == old(self)@ + chunk@,
                whole.len() <= MAX_CONTROL_BODY,
                forall|i: int|
                    0 <= i < events@.len() ==> reads_as(
                        parse,
                        #[trigger] lines[i],
                        Some(events@[i]),
                    ),
            ensures
                !self.pending@.contains(NEWLINE),
            decreases self.pending@.len(),
        {
            let end: usize = match find_newline(&self.pending) {
                Some(end) => end,
                None => {
                    break;
                },
            };
            let ghost before = self.pending@;
            let rest: Vec<u8> = self.pending.split_off(end + 1);
            let mut line: Vec<u8> = Vec::new();
            line.append(&mut self.pending);
            self.pending = rest;
            line.truncate(end);
            proof {
                assert(line@ =~= before.take(end as int));
                assert(self.pending@ =~= before.skip(end + 1));
                assert(complete_lines(before)[0] == line@);
                assert(lines[events@.len() as int] == lines.skip(events@.len() as int)[0]);
                assert(lines.skip(events@.len() as int + 1) =~= complete_lines(before).skip(1));
                assert(complete_lines(before).skip(1) =~= complete_lines(self.pending@));
                lemma_after_lines_step(whole, events@.len());
            }
            let event: Option<TunnelEvent> = parse(line.as_slice());
            match event {
                Some(event) => {
                    events.push(event);
                },
                None => {
                    proof {
                        let k = events@.len() as int;
                        assert(reads_as(parse, lines[k], None));
                        assert forall|i: int| 0 <= i < k implies readable(
                            parse,
                            #[trigger] lines[i],
                        ) by {
                            assert(reads_as(parse, lines[i], Some(events@[i])));
                        }
                        assert(self.pending@ == after_lines(whole, (k + 1) as nat));
                    }
                    return Err(ProtocolError::InvalidEncoding);
                },
            }
        }
        proof {
            assert(complete_lines(self.pending@) =~= Seq::<Seq<u8>>::empty());
            assert(remainder(self.pending@) == self.pending@);
        }
        Ok(events)
    }
}

/// Whether chunks were taken in one after the other, up to the first that was refused.
/// `states[i]` waited when the chunk `i` came, and `outcomes[i]` is what it came to.
pub open spec fn is_feed<F: Fn(&[u8]) -> Option<TunnelEvent>>(
    parse: F,
    chunks: Seq<Seq<u8>>,
    outcomes: Seq<Result<Seq<TunnelEvent>, ProtocolError>>,
    states: Seq<Seq<u8>>,
) -> bool {
    &&& outcomes.len() <= chunks.len()
    &&& states.len() == outcomes.len() + 1
    &&& forall|i: int|
        0 <= i < outcomes.len() ==> is_push(
            parse,
            states[i],
            chunks[i],
            #[trigger] outcomes[i],
            states[i + 1],
        )
    &&& forall|i: int| 0 <= i < outcomes.len() - 1 ==> (#[trigger] outcomes[i]) is Ok
    &&& outcomes.len() < chunks.len() ==> outcomes.len() > 0 && outcomes.last() is Err
}

/// Whether no chunk was refused.
pub open spec fn all_taken(outcomes: Seq<Result<Seq<TunnelEvent>, ProtocolError>>) -> bool {
    forall|i: int| 0 <= i < outcomes.len() ==> (#[trigger] outcomes[i]) is Ok
}

/// The events of chunks that were taken in, in order.
pub open spec fn events_of(outcomes: Seq<Result<Seq<TunnelEvent>, ProtocolError>>) -> Seq<
    TunnelEvent,
>
    decreases outcomes.len(),
{
    if outcomes.len() == 0 {
        Seq::empty()
    } else {
        outcomes[0]->Ok_0 + events_of(outcomes.skip(1))
    }
}

/// Whether lines were read as events, one for one.
pub open spec fn read_all<F: Fn(&[u8]) -> Option<TunnelEvent>>(
    parse: F,
    lines: Seq<Seq<u8>>,
    events: Seq<TunnelEvent>,
) -> bool {
    &&& events.len() == lines.len()
    &&& forall|i: int|
        0 <= i < lines.len() ==> reads_as(parse, #[trigger] lines[i], Some(events[i]))
}

/// Whether some line was refused.
pub open spec fn some_refused<F: Fn(&[u8]) -> Option<TunnelEvent>>(
    parse: F,
    lines: Seq<Seq<u8>>,
) -> bool {
    exists|k: int| 0 <= k < lines.len() && reads_as(parse, #[trigger] lines[k], None)
}

/// Whether a parser has one answer for each line.
pub open spec fn single_minded<F: Fn(&[u8]) -> Option<TunnelEvent>>(parse: F) -> bool {
    forall|line: Seq<u8>, a: Option<TunnelEvent>, b: Option<TunnelEvent>|
        #[trigger] reads_as(parse, line, a) && #[trigger] reads_as(parse, line, b) ==> a == b
}

/// Chunks that fit together are all taken in with the events of the lines of the whole, or one
/// is refused, and then a line of the whole was.
proof fn lemma_feed<F: Fn(&[u8]) -> Option<TunnelEvent>>(
    parse: F,
    chunks: Seq<Seq<u8>>,
    outcomes: Seq<Result<Seq<TunnelEvent>, ProtocolError>>,
    states: Seq<Seq<u8>>,
)
    requires
        is_feed(parse, chunks, outcomes, states),
        !states[0].contains(NEWLINE),
        states[0].len() + chained(chunks).len() <= MAX_CONTROL_BODY,
    ensures
        ({
            let lines = complete_lines(states[0] + chained(chunks));
            if all_taken(outcomes) {
                outcomes.len() == chunks.len() && read_all(parse, lines, events_of(outcomes))
            } else {
                some_refused(parse, lines)
            }
        }),
    decreases chunks.len(),
{
    let whole = states[0] + chained(chunks);
    let lines = complete_lines(whole);
    if chunks.len() == 0 {
        assert(whole =~= states[0]);
        assert(lines =~= Seq::<Seq<u8>>::empty());
    } else {
        let head = states[0] + chunks[0];
        let rest = chained(chunks.skip(1));
        let first = complete_lines(head);
        let later = complete_lines(remainder(head) + rest);
        assert(whole =~= head + rest);
        law_fragmentation(head, rest);
        law_remainder_is_partial(head);
        assert(lines == first + later);
        assert(is_push(parse, states[0], chunks[0], outcomes[0], states[1]));
        if outcomes[0] is Err {
            let k = choose|k: int| 0 <= k < first.len() && reads_as(parse, #[trigger] first[k], None);
            assert(lines[k] == first[k]);
        } else {
            let tail_outcomes = outcomes.skip(1);
            let tail_states = states.skip(1);
            let tail_chunks = chunks.skip(1);
            assert forall|i: int| 0 <= i < tail_outcomes.len() implies is_push(
                parse,
                tail_states[i],
                tail_chunks[i],
                #[trigger] tail_outcomes[i],
                tail_states[i + 1],
            ) by {
                assert(tail_outcomes[i] == outcomes[i + 1]);
            }
            lemma_feed(parse, tail_chunks, tail_outcomes, tail_states);
            if all_taken(outcomes) {
                assert forall|i: int| 0 <= i < tail_outcomes.len() implies (
                #[trigger] tail_outcomes[i]) is Ok by {
                    assert(tail_outcomes[i] == outcomes[i + 1]);
                }
                let events = events_of(outcomes);
                assert forall|i: int| 0 <= i < lines.len() implies reads_as(
                    parse,
                    #[trigger] lines[i],
                    Some(events[i]),
                ) by {
                    if i < first.len() {
                        assert(lines[i] == first[i]);
                    } else {
                        assert(lines[i] == later[i - first.len()]);
                    }
                }
            } else {
                let bad = choose|i: int| 0 <= i < outcomes.len() && !((#[trigger] outcomes[i]) is Ok);
                assert(tail_outcomes[bad - 1] == outcomes[bad]);
                let k = choose|k: int|
                    0 <= k < later.len() && reads_as(parse, #[trigger] later[k], None);
                assert(lines[first.len() + k] == later[k]);
            }
        }
    }
}

/// Message boundaries do not depend on chunk boundaries. Where a stream that fits the bound is
/// taken in whole, every way of cutting it into chunks is taken in too, with the same events in
/// the same order; where it is refused whole, some chunk of every cut is refused.
pub proof fn law_cuts_give_the_same_events<F: Fn(&[u8]) -> Option<TunnelEvent>>(
    parse: F,
    pending: Seq<u8>,
    data: Seq<u8>,
    whole: Result<Seq<TunnelEvent>, ProtocolError>,
    after: Seq<u8>,
    chunks: Seq<Seq<u8>>,
    outcomes: Seq<Result<Seq<TunnelEvent>, ProtocolError>>,
    states: Seq<Seq<u8>>,
)
    requires
        single_minded(parse),
        !pending.contains(NEWLINE),
        pending.len() + data.len() <= MAX_CONTROL_BODY,
        is_push(parse, pending, data, whole, after),
        chained(chunks) == data,
        is_feed(parse, chunks, outcomes, states),
        states[0] == pending,
    ensures
        whole matches Ok(events) ==> all_taken(outcomes) && outcomes.len() == chunks.len()
            && events_of(outcomes) == events && states.last() == after,
        whole is Err ==> outcomes.len() > 0 && outcomes.last() is Err,
{
    let lines = complete_lines(pending + data);
    lemma_feed(parse, chunks, outcomes, states);
    match whole {
        Ok(events) => {
            if all_taken(outcomes) {
                let cut = events_of(outcomes);
                assert forall|i: int| 0 <= i < events.len() implies cut[i] == events[i] by {
                    assert(reads_as(parse, lines[i], Some(cut[i])));
                    assert(reads_as(parse, lines[i], Some(events[i])));
                }
                assert(cut =~= events);
                lemma_feed_leaves_remainder(parse, chunks, outcomes, states);
            } else {
                let k = choose|k: int|
                    0 <= k < lines.len() && reads_as(parse, #[trigger] lines[k], None);
                assert(reads_as(parse, lines[k], Some(events[k])));
            }
        },
        Err(_) => {
            let k = choose|k: int|
                0 <= k < lines.len() && reads_as(parse, #[trigger] lines[k], None);
            if all_taken(outcomes) {
                assert(reads_as(parse, lines[k], Some(events_of(outcomes)[k])));
            }
        },
    }
}

/// What waits after chunks that were all taken in.
proof fn lemma_feed_leaves_remainder<F: Fn(&[u8]) -> Option<TunnelEvent>>(
    parse: F,
    chunks: Seq<Seq<u8>>,
    outcomes: Seq<Result<Seq<TunnelEvent>, ProtocolError>>,
    states: Seq<Seq<u8>>,
)
    requires
        is_feed(parse, chunks, outcomes, states),
        all_taken(outcomes),
        !states[0].contains(NEWLINE),
        states[0].len() + chained(chunks).len() <= MAX_CONTROL_BODY,
    ensures
        states.last() == remainder(states[0] + chained(chunks)),
    decreases chunks.len(),
{
    if chunks.len() == 0 {
        assert(states[0] + chained(chunks) =~= states[0]);
    } else {
        let head = states[0] + chunks[0];
        let rest = chained(chunks.skip(1));
        assert(states[0] + chained(chunks) =~= head + rest);
        law_fragmentation(head, rest);
        law_remainder_is_partial(head);
        assert(outcomes.len() > 0);
        assert(is_push(parse, states[0], chunks[0], outcomes[0], states[1]));
        let tail_outcomes = outcomes.skip(1);
        let tail_states = states.skip(1);
        let tail_chunks = chunks.skip(1);
        assert forall|i: int| 0 <= i < tail_outcomes.len() implies (
        #[trigger] tail_outcomes[i]) is Ok && is_push(
            parse,
            tail_states[i],
            tail_chunks[i],
            tail_outcomes[i],
            tail_states[i + 1],
        ) by {
            assert(tail_outcomes[i] == outcomes[i + 1]);
        }
        lemma_feed_leaves_remainder(parse, tail_chunks, tail_outcomes, tail_states);
    }
}

/// Going one line further.
proof fn lemma_after_lines_step(bytes: Seq<u8>, count: nat)
    ensures
        after_lines(bytes, count + 1) == after_lines(bytes, count).skip(
            line_end(after_lines(bytes, count))->0 + 1,
        ),
    decreases count,
{
    if count > 0 {
        lemma_after_lines_step(bytes.skip(line_end(bytes)->0 + 1), (count - 1) as nat);
    } else {
        reveal_with_fuel(after_lines, 2);
    }
}

/// The lines of a text, each with the newline that closes it.
pub open spec fn joined(lines: Seq<Seq<u8>>) -> Seq<u8>
    decreases lines.len(),
{
    if lines.len() == 0 {
        Seq::empty()
    } else {
        lines[0].push(10) + joined(lines.skip(1))
    }
}

/// Nothing is lost and nothing is made up: the complete lines, each with its newline, and the
/// remainder behind them are the bytes that came in, and no line holds a newline.
pub proof fn law_lines_join_back(bytes: Seq<u8>)
    ensures
        joined(complete_lines(bytes)) + remainder(bytes) == bytes,
        forall|i: int|
            0 <= i < complete_lines(bytes).len() ==> !(#[trigger] complete_lines(
                bytes,
            )[i]).contains(10),
        !remainder(bytes).contains(10),
    decreases bytes.len(),
{
    law_remainder_is_partial(bytes);
    let lines = complete_lines(bytes);
    if bytes.contains(NEWLINE) {
        lemma_line_end_exists(bytes);
        let end = line_end(bytes)->0;
        let rest = bytes.skip(end + 1);
        law_lines_join_back(rest);
        assert(lines =~= seq![bytes.take(end)] + complete_lines(rest));
        assert(lines.skip(1) =~= complete_lines(rest));
        assert(bytes =~= bytes.take(end).push(10) + rest);
        assert(joined(lines) + remainder(bytes) =~= bytes.take(end).push(10) + (joined(
            complete_lines(rest),
        ) + remainder(rest)));
        assert forall|i: int| 0 <= i < lines.len() implies !(#[trigger] lines[i]).contains(10) by {
            if i == 0 {
                if lines[0].contains(10) {
                    let k = lines[0].index_of(10);
                    assert(bytes[k] == NEWLINE && k < end);
                }
            } else {
                assert(lines[i] == complete_lines(rest)[i - 1]);
            }
        }
    } else {
        assert(joined(lines) + remainder(bytes) =~= bytes);
    }
}

/// Whether the parser gives an event, or nothing, for a line.
pub open spec fn gives<F: Fn(&[u8]) -> Option<TunnelEvent>>(
    parse: F,
    line: Seq<u8>,
    event: Option<TunnelEvent>,
) -> bool {
    exists|bytes: &[u8]| bytes@ == line && #[trigger] call_ensures(parse, (bytes,), event)
}

/// A chunk that would make more than 16 KiB wait is refused and changes nothing. Any other is read
/// line by line: each complete line is given to the parser as it stands, the events come out in
/// the order of the lines, one for each, and what follows the last line waits. A line that the
/// parser refuses is an error.
pub proof fn law_every_line_is_parsed<F: Fn(&[u8]) -> Option<TunnelEvent>>(
    parse: F,
    before: Seq<u8>,
    chunk: Seq<u8>,
    outcome: Result<Seq<TunnelEvent>, ProtocolError>,
    after: Seq<u8>,
)
    requires
        is_push(parse, before, chunk, outcome, after),
    ensures
        before.len() + chunk.len() > 16_384 ==> after == before && outcome == Err::<
            Seq<TunnelEvent>,
            ProtocolError,
        >(ProtocolError::TooLarge),
        before.len() + chunk.len() <= 16_384 && outcome is Ok ==> {
            let lines = complete_lines(before + chunk);
            &&& outcome->Ok_0.len() == lines.len()
            &&& after == remainder(before + chunk)
            &&& forall|i: int|
                0 <= i < lines.len() ==> gives(parse, #[trigger] lines[i], Some(outcome->Ok_0[i]))
        },
        before.len() + chunk.len() <= 16_384 && outcome is Err ==> {
            let lines = complete_lines(before + chunk);
            &&& outcome->Err_0 is InvalidEncoding
            &&& exists|k: int|
                0 <= k < lines.len() && gives(parse, #[trigger] lines[k], None)
        },
{
    let lines = complete_lines(before + chunk);
    if before.len() + chunk.len() <= 16_384 {
        match outcome {
            Ok(events) => {
                assert forall|i: int| 0 <= i < lines.len() implies gives(
                    parse,
                    #[trigger] lines[i],
                    Some(events[i]),
                ) by {
                    assert(reads_as(parse, lines[i], Some(events[i])));
                }
            },
            Err(_) => {
                let k = choose|k: int|
                    0 <= k < lines.len() && reads_as(parse, #[trigger] lines[k], None) && after
                        == after_lines(before + chunk, (k + 1) as nat) && (forall|i: int|
                        0 <= i < k ==> readable(parse, #[trigger] lines[i]));
                assert(gives(parse, lines[k], None));
            },
        }
    }
}

} // verus!
