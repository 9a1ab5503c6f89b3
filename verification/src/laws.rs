//! What holds of every run of the controller.

use crate::clock::{
    deadline_after, law_boundary_follows_minute, law_boundary_holds_for_its_minute,
    law_boundary_stays_in_range, next_boundary, WallTime,
};
use crate::error::Error;
use crate::input::{
    classify, law_classify_is_dense, lemma_valid_before_bounded, InputStream, InputView, Rational,
    SourceStream,
};
use crate::model::{Phase, SegmenterView, Turn};
use crate::output::{benign, lemma_table_len, stream_table, MuxError, UNKNOWN_POSITION};
use crate::protocol::{CommandView, EventView};
use vstd::prelude::*;

verus! {

/// A file that is made from a well-formed source has no more streams than
/// can be numbered.
proof fn lemma_table_fits(input: InputView)
    requires
        input.wf(),
    ensures
        stream_table(input.streams).len() <= u32::MAX,
{
    lemma_table_len(input.streams, input.streams.len() as int);
    lemma_valid_before_bounded(input.streams, input.streams.len() as int);
}

/// A controller starts in a well-formed state.
pub proof fn law_start_is_well_formed(
    camera: Seq<char>,
    url: Seq<char>,
    folder: Seq<char>,
    time_format: Seq<char>,
)
    ensures
        SegmenterView::initial(camera, url, folder, time_format).0.wf(),
{
}

/// The controller's state stays well formed: whatever holds of it before a
/// step holds after it.
pub proof fn law_state_stays_well_formed(
    state: SegmenterView,
    event: EventView,
    name: Option<Seq<char>>,
)
    requires
        state.wf(),
        state.accepts(event),
    ensures
        state.react(event, name).0.wf(),
{
    if state.input is Some {
        lemma_table_fits(state.input->Some_0);
    }
    match (state.phase, event) {
        (Phase::Connecting, EventView::Connected { streams, metadata, now }) => {
            law_classify_is_dense(streams, metadata);
            law_boundary_stays_in_range(now);
        },
        (Phase::Rotating { now, .. }, EventView::Opened { .. }) => {
            law_boundary_stays_in_range(now);
        },
        _ => {},
    }
}

/// At no moment of a run does the caller hold more than two files for the
/// controller, counting the one that is being opened and the one that is
/// being closed.
pub proof fn law_at_most_two_files(state: SegmenterView)
    requires
        state.wf(),
    ensures
        state.open_files() <= 2,
{
}

/// A file only ages. The active file of the state after a step is the
/// active file before it or the file that was being opened; the draining
/// file after a step is the draining file before it or the file that was
/// active; and a draining file leaves the state only with the command that
/// closes it.
pub proof fn law_files_only_age(state: SegmenterView, event: EventView, name: Option<Seq<char>>)
    requires
        state.wf(),
        state.accepts(event),
    ensures
        ({
            let (next, command) = state.react(event, name);
            &&& next.active is Some ==> next.active == state.active || (state.active is None
                && state.opening is Some && next.active->Some_0.serial == state.opening->Some_0.0)
            &&& next.draining is Some ==> next.draining == state.draining || next.draining
                == state.active
            &&& state.draining is Some && next.draining != state.draining ==> command
                == (CommandView::Close { serial: state.draining->Some_0.serial })
            &&& command matches CommandView::Close { serial } ==> state.draining is Some
                && state.draining->Some_0.serial == serial && next.draining is None
        }),
{
}

/// What a step does to the serial numbers: the oldest file in use never
/// gets younger, a file is opened under a number that was never given out,
/// a file that is closed is the oldest in use, and a packet is written only
/// to files in use.
pub proof fn law_serials_only_rise(state: SegmenterView, event: EventView, name: Option<Seq<char>>)
    requires
        state.wf(),
        state.accepts(event),
    ensures
        ({
            let (next, command) = state.react(event, name);
            &&& state.oldest() <= next.oldest() <= next.next_serial
            &&& state.next_serial <= next.next_serial
            &&& command matches CommandView::Open { serial, .. } ==> serial == state.next_serial
                && serial < next.next_serial
            &&& command matches CommandView::Close { serial } ==> serial == state.oldest()
                && serial < next.oldest()
            &&& command matches CommandView::Write { order } ==> next.oldest() <= order.serial
                < state.next_serial
        }),
{
    law_state_stays_well_formed(state, event, name);
}

/// A run that starts well formed stays well formed.
pub proof fn law_run_stays_well_formed(state: SegmenterView, turns: Seq<Turn>)
    requires
        state.wf(),
        state.admits(turns),
    ensures
        state.after(turns).wf(),
    decreases turns.len(),
{
    if turns.len() > 0 {
        let before = turns.drop_last();
        assert forall|at: int| 0 <= at < before.len() implies (#[trigger] state.after(
            before.take(at),
        )).accepts(before[at].event) by {
            assert(before.take(at) == turns.take(at));
        }
        law_run_stays_well_formed(state, before);
        assert(turns.take(turns.len() - 1) == before);
        law_state_stays_well_formed(state.after(before), turns.last().event, turns.last().name);
    }
}

/// Between two moments of a run, the oldest file in use does not get
/// younger and no serial number is taken back.
proof fn lemma_run_only_rises(state: SegmenterView, turns: Seq<Turn>, early: int, late: int)
    requires
        state.wf(),
        state.admits(turns),
        0 <= early <= late <= turns.len(),
    ensures
        state.after(turns.take(early)).wf(),
        state.after(turns.take(late)).wf(),
        state.after(turns.take(early)).oldest() <= state.after(turns.take(late)).oldest(),
        state.after(turns.take(early)).next_serial <= state.after(turns.take(late)).next_serial,
    decreases late - early,
{
    lemma_prefix_admitted(state, turns, early);
    lemma_prefix_admitted(state, turns, late);
    law_run_stays_well_formed(state, turns.take(early));
    law_run_stays_well_formed(state, turns.take(late));
    if early < late {
        lemma_run_only_rises(state, turns, early, late - 1);
        let before = turns.take(late - 1);
        assert(turns.take(late).drop_last() == before);
        assert(turns.take(late).last() == turns[late - 1]);
        law_serials_only_rise(state.after(before), turns[late - 1].event, turns[late - 1].name);
    }
}

/// The start of an admitted run is an admitted run.
proof fn lemma_prefix_admitted(state: SegmenterView, turns: Seq<Turn>, len: int)
    requires
        state.admits(turns),
        0 <= len <= turns.len(),
    ensures
        state.admits(turns.take(len)),
{
    let prefix = turns.take(len);
    assert forall|at: int| 0 <= at < prefix.len() implies (#[trigger] state.after(
        prefix.take(at),
    )).accepts(prefix[at].event) by {
        assert(prefix.take(at) == turns.take(at));
    }
}

/// Of any two commands of a run, the one at `early` before the one at
/// `late`: two files are never opened under one serial number; no file is
/// closed twice, and files are closed in the order in which they were
/// opened; nothing is written to a file after the command that closes it;
/// and no file is opened under the number of a file that was closed. So a
/// file that is closed stays closed.
pub proof fn law_closed_files_stay_closed(
    state: SegmenterView,
    turns: Seq<Turn>,
    early: int,
    late: int,
)
    requires
        state.wf(),
        state.admits(turns),
        0 <= early < late < turns.len(),
    ensures
        ({
            let first = state.answer(turns, early);
            let second = state.answer(turns, late);
            &&& first is Open && second is Open ==> first->Open_serial < second->Open_serial
            &&& first is Close && second is Close ==> first->Close_serial < second->Close_serial
            &&& first is Close && second is Write ==> first->Close_serial < second->order.serial
            &&& first is Close && second is Open ==> first->Close_serial < second->Open_serial
        }),
{
    lemma_run_only_rises(state, turns, early, early);
    lemma_run_only_rises(state, turns, early + 1, late);
    let before = state.after(turns.take(early));
    let then = state.after(turns.take(late));
    assert(state.after(turns.take(early + 1)) == before.react(
        turns[early].event,
        turns[early].name,
    ).0) by {
        assert(turns.take(early + 1).drop_last() == turns.take(early));
        assert(turns.take(early + 1).last() == turns[early]);
    }
    law_serials_only_rise(before, turns[early].event, turns[early].name);
    law_serials_only_rise(then, turns[late].event, turns[late].name);
}

/// Whatever the caller reports, nothing is written but packets of stored
/// streams, and only to files that are open: a command to write belongs to
/// a packet whose stream is stored, goes to the stream of its mapping, takes
/// the time base of the source's stream as the one to rescale from, and is
/// the order of the active or of the draining file.
pub proof fn law_only_stored_packets_are_written(
    state: SegmenterView,
    event: EventView,
    name: Option<Seq<char>>,
)
    requires
        state.wf(),
        state.accepts(event),
    ensures
        ({
            let (next, command) = state.react(event, name);
            command matches CommandView::Write { order } ==> {
                &&& state.packet_stream(event) matches Some(stream)
                &&& state.input->Some_0.streams[stream as int] matches InputStream::Valid {
                    mapping,
                    time_base,
                    ..
                }
                &&& order.stream == mapping
                &&& order.from == time_base
                &&& order.position == UNKNOWN_POSITION
                &&& (next.active is Some && order == next.active->Some_0.write(mapping, time_base))
                    || (next.draining is Some && order == next.draining->Some_0.write(
                    mapping,
                    time_base,
                ))
            }
        }),
{
}

/// At no moment of a run does the caller hold more than two files.
pub proof fn law_run_holds_at_most_two_files(state: SegmenterView, turns: Seq<Turn>)
    requires
        state.wf(),
        state.admits(turns),
    ensures
        state.after(turns).open_files() <= 2,
{
    law_run_stays_well_formed(state, turns);
}

/// A file that the state holds after a step was held before it or is
/// ordered by the step.
proof fn lemma_files_come_from_orders(
    state: SegmenterView,
    event: EventView,
    name: Option<Seq<char>>,
    serial: u64,
)
    requires
        state.wf(),
        state.accepts(event),
        state.react(event, name).0.has_file(serial),
    ensures
        state.has_file(serial) || (state.react(event, name).1 matches CommandView::Open {
            serial: ordered,
            ..
        } && ordered == serial),
{
}

/// Every file that the state holds at a moment of a run that began with
/// [`SegmenterView::initial`] was ordered by a command before that moment.
proof fn lemma_held_files_were_ordered(state: SegmenterView, turns: Seq<Turn>, len: int, serial: u64)
    requires
        state.wf(),
        state.phase is Connecting,
        state.admits(turns),
        0 <= len <= turns.len(),
        state.after(turns.take(len)).has_file(serial),
    ensures
        state.opened_before(turns, len, serial),
    decreases len,
{
    if len > 0 {
        let before = state.after(turns.take(len - 1));
        assert(turns.take(len).drop_last() == turns.take(len - 1));
        assert(turns.take(len).last() == turns[len - 1]);
        lemma_run_only_rises(state, turns, len - 1, len);
        lemma_files_come_from_orders(before, turns[len - 1].event, turns[len - 1].name, serial);
        if before.has_file(serial) {
            lemma_held_files_were_ordered(state, turns, len - 1, serial);
            let at = choose|at: int| 0 <= at < len - 1 && #[trigger] state.opens_at(turns, at, serial);
            assert(state.opens_at(turns, at, serial));
        } else {
            assert(state.opens_at(turns, len - 1, serial));
        }
    } else {
        assert(turns.take(0) == Seq::<Turn>::empty());
    }
}

/// In a run from the start, nothing is written to and nothing closes a file
/// that was not ordered before.
pub proof fn law_files_are_opened_first(state: SegmenterView, turns: Seq<Turn>, at: int)
    requires
        state.wf(),
        state.phase is Connecting,
        state.admits(turns),
        0 <= at < turns.len(),
    ensures
        state.answer(turns, at) matches CommandView::Write { order } ==> state.opened_before(
            turns,
            at,
            order.serial,
        ),
        state.answer(turns, at) matches CommandView::Close { serial } ==> state.opened_before(
            turns,
            at,
            serial,
        ),
{
    let before = state.after(turns.take(at));
    lemma_run_only_rises(state, turns, at, at);
    law_only_stored_packets_are_written(before, turns[at].event, turns[at].name);
    law_files_only_age(before, turns[at].event, turns[at].name);
    match state.answer(turns, at) {
        CommandView::Write { order } => {
            lemma_files_come_from_orders(before, turns[at].event, turns[at].name, order.serial);
            lemma_held_files_were_ordered(state, turns, at, order.serial);
        },
        CommandView::Close { serial } => {
            lemma_held_files_were_ordered(state, turns, at, serial);
        },
        _ => {},
    }
}

/// A packet that the writer declines for the benign reason is passed over:
/// the step is the step of a write that was done. The run goes on, and
/// nothing of the state changes but the place where the controller stands.
pub proof fn law_benign_reject_is_passed_over(
    state: SegmenterView,
    fault: MuxError,
    name: Option<Seq<char>>,
)
    requires
        benign(fault),
    ensures
        state.react(EventView::Written { result: Err(fault) }, name) == state.react(
            EventView::Written { result: Ok(()) },
            name,
        ),
        state.phase is WritingActive || state.phase is WritingDraining ==> ({
            let next = state.react(EventView::Written { result: Err(fault) }, name).0;
            &&& !(next.phase is Terminated)
            &&& next == SegmenterView { phase: next.phase, ..state }
        }),
{
}

/// Every other refusal of a write ends the run as a broken multiplex.
pub proof fn law_other_write_errors_end_the_run(
    state: SegmenterView,
    fault: MuxError,
    name: Option<Seq<char>>,
)
    requires
        state.phase is WritingActive || state.phase is WritingDraining,
        !benign(fault),
    ensures
        state.react(EventView::Written { result: Err(fault) }, name) == state.stop(
            Err(Error::BrokenMux),
        ),
{
}

/// Once the run has ended, no event is processed: the state stays as it is,
/// and the answer is the result again.
pub proof fn law_nothing_follows_the_end(
    state: SegmenterView,
    event: EventView,
    name: Option<Seq<char>>,
)
    requires
        state.phase is Terminated,
    ensures
        state.react(event, name) == (
            state,
            CommandView::Stop { result: state.phase->Terminated_result },
        ),
{
}

/// From the dispatch of a packet on: the writes, then the request for the
/// next packet.
proof fn lemma_dispatch_is_followed(
    state: SegmenterView,
    stream: usize,
    name: Option<Seq<char>>,
    time_bases: Seq<Rational>,
    patience: nat,
)
    requires
        state.wf(),
        state.phase is Running || state.phase is Expiring,
        stream < state.stream_count(),
        patience >= 2,
    ensures
        ({
            let (next, command) = state.dispatch(stream);
            next.follow(command, name, time_bases, patience) == (
                SegmenterView { phase: Phase::Running, ..state },
                state.writes(stream) + seq![CommandView::Pull],
            )
        }),
{
    reveal_with_fuel(SegmenterView::follow, 3);
    let (next, command) = state.dispatch(stream);
    let followed = next.follow(command, name, time_bases, patience);
    assert(followed.1 =~= state.writes(stream) + seq![CommandView::Pull]);
}

/// From the check of the drain deadline on: the draining file is closed if
/// its deadline has come, then the packet is dispatched.
proof fn lemma_expiry_is_followed(
    state: SegmenterView,
    now: WallTime,
    stream: usize,
    name: Option<Seq<char>>,
    time_bases: Seq<Rational>,
    patience: nat,
)
    requires
        state.wf(),
        state.phase is Running,
        stream < state.stream_count(),
        patience >= 3,
    ensures
        ({
            let (next, command) = state.expire(now, stream);
            next.follow(command, name, time_bases, patience) == (
                SegmenterView { phase: Phase::Running, ..state.expired(now) },
                state.expiry_commands(now) + state.expired(now).writes(stream)
                    + seq![CommandView::Pull],
            )
        }),
{
    reveal_with_fuel(SegmenterView::follow, 2);
    let (next, command) = state.expire(now, stream);
    let followed = next.follow(command, name, time_bases, patience);
    if state.drain_is_over(now) {
        assert(next.wf());
        lemma_dispatch_is_followed(next, stream, name, time_bases, (patience - 1) as nat);
        assert(next.react(EventView::Closed, name) == next.dispatch(stream));
        assert(next.writes(stream) == state.expired(now).writes(stream));
        assert(followed.1 =~= state.expiry_commands(now) + state.expired(now).writes(stream)
            + seq![CommandView::Pull]);
    } else {
        lemma_dispatch_is_followed(state, stream, name, time_bases, patience);
        assert(followed.1 =~= state.expiry_commands(now) + state.expired(now).writes(stream)
            + seq![CommandView::Pull]);
    }
}

/// From the rotation itself on: the next file is opened and becomes the
/// active one, then the drain deadline is checked.
proof fn lemma_rotation_is_followed(
    state: SegmenterView,
    now: WallTime,
    stream: usize,
    name: Seq<char>,
    time_bases: Seq<Rational>,
    patience: nat,
)
    requires
        state.wf(),
        state.phase is Running || state.phase is Retiring,
        state.draining is None,
        now.rotatable(),
        now.at_or_after(state.current_segment_end),
        stream < state.stream_count(),
        state.next_serial < u64::MAX,
        time_bases.len() == stream_table(state.input->Some_0.streams).len(),
        patience >= 4,
    ensures
        ({
            let (next, command) = state.rotate(now, stream, Some(name));
            let turned = state.rotated(now, name, time_bases);
            &&& command == state.rotation_commands(now, name)[0]
            &&& state.rotation_commands(now, name).len() == 1
            &&& next.follow(command, Some(name), time_bases, patience) == (
                SegmenterView { phase: Phase::Running, ..turned.expired(now) },
                seq![command] + turned.expiry_commands(now) + turned.expired(now).writes(stream)
                    + seq![CommandView::Pull],
            )
        }),
{
    reveal_with_fuel(SegmenterView::follow, 2);
    lemma_table_fits(state.input->Some_0);
    law_boundary_stays_in_range(now);
    let (next, command) = state.rotate(now, stream, Some(name));
    let turned = state.rotated(now, name, time_bases);
    let started = SegmenterView { phase: Phase::Running, ..turned };
    assert(next.install(time_bases) is Some);
    assert(SegmenterView { current_segment_end: next_boundary(now), ..next.install(time_bases)->Some_0 }
        == started);
    assert(next.react(EventView::Opened { time_bases }, Some(name)) == started.expire(now, stream));
    assert(started.wf());
    lemma_expiry_is_followed(started, now, stream, Some(name), time_bases, (patience - 1) as nat);
    assert(started.expired(now) == SegmenterView { phase: Phase::Running, ..turned.expired(now) });
    assert(started.expiry_commands(now) == turned.expiry_commands(now));
    assert(started.expired(now).writes(stream) == turned.expired(now).writes(stream));
    let followed = next.follow(command, Some(name), time_bases, patience);
    assert(followed.1 =~= seq![command] + turned.expiry_commands(now) + turned.expired(now).writes(
        stream,
    ) + seq![CommandView::Pull]);
}

/// The controller serves a packet as one piece would: when the caller
/// succeeds in every command, the commands from a packet to the request for
/// the next one, and the state then, are those of the rotation check, the
/// check of the drain deadline and the writes, in this order.
pub proof fn law_packet_is_served_in_order(
    state: SegmenterView,
    now: WallTime,
    stream: usize,
    name: Seq<char>,
    time_bases: Seq<Rational>,
)
    requires
        state.wf(),
        state.phase is Running,
        state.accepts(EventView::Packet { now, stream }),
        state.next_serial < u64::MAX,
        time_bases.len() == stream_table(state.input->Some_0.streams).len(),
    ensures
        state.serve(now, stream, name, time_bases) == state.round(now, stream, name, time_bases),
{
    reveal_with_fuel(SegmenterView::follow, 2);
    let served = state.serve(now, stream, name, time_bases);
    let planned = state.round(now, stream, name, time_bases);
    let turned = state.rotated(now, name, time_bases);
    if !now.at_or_after(state.current_segment_end) {
        lemma_expiry_is_followed(state, now, stream, Some(name), time_bases, 5);
        assert(planned.1 =~= state.expiry_commands(now) + state.expired(now).writes(stream)
            + seq![CommandView::Pull]);
    } else if state.draining is None {
        lemma_rotation_is_followed(state, now, stream, name, time_bases, 5);
        assert(planned.1 =~= seq![state.rotation_commands(now, name)[0]] + turned.expiry_commands(
            now,
        ) + turned.expired(now).writes(stream) + seq![CommandView::Pull]);
    } else {
        let (retiring, close) = state.react(EventView::Packet { now, stream }, Some(name));
        assert(retiring.wf());
        lemma_rotation_is_followed(retiring, now, stream, name, time_bases, 4);
        assert(retiring.react(EventView::Closed, Some(name)) == retiring.rotate(
            now,
            stream,
            Some(name),
        ));
        assert(retiring.rotated(now, name, time_bases) == SegmenterView {
            phase: Phase::Retiring { now, stream },
            ..turned
        });
        let again = retiring.rotated(now, name, time_bases);
        assert(again.expired(now) == SegmenterView {
            phase: Phase::Retiring { now, stream },
            ..turned.expired(now)
        });
        assert(again.expiry_commands(now) == turned.expiry_commands(now));
        assert(again.expired(now).writes(stream) == turned.expired(now).writes(stream));
        assert(state.rotation_commands(now, name) =~= seq![
            close,
            retiring.rotation_commands(now, name)[0],
        ]);
        assert(served.1 =~= planned.1);
    }
    assert(served.1 =~= planned.1);
    assert(served.0 == planned.0);
}

/// When the first file is open, the controller is at rest: no file drains,
/// and the deadline is the grace after the first boundary.
pub proof fn law_run_starts_at_rest(
    state: SegmenterView,
    streams: Seq<SourceStream>,
    metadata: Seq<(Seq<char>, Seq<char>)>,
    now: WallTime,
    name: Seq<char>,
    time_bases: Seq<Rational>,
)
    requires
        state.wf(),
        state.phase is Connecting,
        streams.len() <= u32::MAX,
        now.rotatable(),
        state.next_serial < u64::MAX,
        time_bases.len() == stream_table(classify(streams)).len(),
    ensures
        ({
            let (starting, open) = state.react(
                EventView::Connected { streams, metadata, now },
                Some(name),
            );
            let (running, pull) = starting.react(EventView::Opened { time_bases }, None);
            &&& open is Open
            &&& pull is Pull
            &&& running.phase is Running
            &&& running.rests_after(now)
            &&& running.current_segment_end == next_boundary(now)
            &&& running.previous_segment_deadline == deadline_after(next_boundary(now))
            &&& running.draining is None
        }),
{
    law_boundary_follows_minute(now);
    law_boundary_stays_in_range(now);
}

/// While the clock does not run backwards, a file drains only when the
/// boundary has been reached: if the controller was at rest after the
/// packet before, it is at rest after this one. So after a packet that came
/// before the boundary, no file drains.
pub proof fn law_file_drains_only_past_the_boundary(
    state: SegmenterView,
    last: WallTime,
    now: WallTime,
    stream: usize,
    name: Seq<char>,
    time_bases: Seq<Rational>,
)
    requires
        state.wf(),
        state.phase is Running,
        state.accepts(EventView::Packet { now, stream }),
        state.next_serial < u64::MAX,
        time_bases.len() == stream_table(state.input->Some_0.streams).len(),
        state.rests_after(last),
        now.at_or_after(last),
        now.offset == last.offset,
    ensures
        state.serve(now, stream, name, time_bases).0.rests_after(now),
{
    law_packet_is_served_in_order(state, now, stream, name, time_bases);
    let boundary = state.current_segment_end;
    let turned = state.rotated(now, name, time_bases);
    if now.at_or_after(boundary) {
        law_boundary_follows_minute(now);
        law_boundary_stays_in_range(now);
        if !turned.drain_is_over(now) {
            assert(boundary.local_seconds() <= now.local_seconds() < boundary.local_seconds()
                + 60);
            law_boundary_holds_for_its_minute(boundary, now);
        }
    }
}

/// Every packet of a stored stream is written to the active file, and to
/// the draining file exactly if there is one at that moment; each write
/// rescales to the time base that its own file has for the stream; and
/// nothing else is written.
pub proof fn law_stored_packet_is_written(
    state: SegmenterView,
    now: WallTime,
    stream: usize,
    name: Seq<char>,
    time_bases: Seq<Rational>,
)
    requires
        state.wf(),
        state.phase is Running,
        state.accepts(EventView::Packet { now, stream }),
        state.next_serial < u64::MAX,
        time_bases.len() == stream_table(state.input->Some_0.streams).len(),
        state.input->Some_0.streams[stream as int] is Valid,
    ensures
        ({
            let (after, commands) = state.serve(now, stream, name, time_bases);
            let entry = state.input->Some_0.streams[stream as int];
            let files: int = if after.draining is Some {
                2
            } else {
                1
            };
            let first = commands.len() - 1 - files;
            &&& after.phase is Running
            &&& after.active is Some
            &&& first >= 0
            &&& forall|at: int| 0 <= at < first ==> !(#[trigger] commands[at] is Write)
            &&& commands[first] == (CommandView::Write {
                order: after.active->Some_0.write(entry->mapping, entry->time_base),
            })
            &&& commands[first]->order.to == after.active->Some_0.time_bases[entry->mapping as int]
            &&& after.draining is Some ==> commands[first + 1] == (CommandView::Write {
                order: after.draining->Some_0.write(entry->mapping, entry->time_base),
            }) && commands[first + 1]->order.to
                == after.draining->Some_0.time_bases[entry->mapping as int]
            &&& commands.last() is Pull
        }),
{
    law_packet_is_served_in_order(state, now, stream, name, time_bases);
}

/// A packet of a stream that is left out is written to no file and ends no
/// run: the controller asks for the next packet.
pub proof fn law_unstored_packet_is_dropped(
    state: SegmenterView,
    now: WallTime,
    stream: usize,
    name: Seq<char>,
    time_bases: Seq<Rational>,
)
    requires
        state.wf(),
        state.phase is Running,
        state.accepts(EventView::Packet { now, stream }),
        state.next_serial < u64::MAX,
        time_bases.len() == stream_table(state.input->Some_0.streams).len(),
        state.input->Some_0.streams[stream as int] is Invalid,
    ensures
        ({
            let (after, commands) = state.serve(now, stream, name, time_bases);
            &&& after.phase is Running
            &&& forall|at: int| 0 <= at < commands.len() ==> !(#[trigger] commands[at] is Write)
            &&& commands.last() is Pull
        }),
{
    law_packet_is_served_in_order(state, now, stream, name, time_bases);
}

} // verus!
