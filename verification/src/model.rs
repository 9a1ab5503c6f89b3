//! The controller as a transition system: its states, and what it answers
//! to each event. The executable controller of [`crate::segmenter`] is
//! proved to follow it; the laws of [`crate::laws`] are proved of it.

use crate::clock::{deadline_after, name_at, next_boundary, WallTime};
use crate::error::Error;
use crate::input::{classify, InputView, Rational, SourceStream};
use crate::output::{opened_output, stream_table, write_outcome, OutputView};
use crate::protocol::{CommandView, EventView};
use vstd::prelude::*;

verus! {

/// Where the controller stands: what it has asked for and is waiting to
/// hear of.
///
/// A run starts (`Connecting`, `Starting`), runs (`Running`, and while a
/// packet is served `Expiring`, `WritingActive`, `WritingDraining`), rotates
/// now and then (`Retiring`, `Rotating`) and ends (`Terminated`).
#[derive(Clone, Copy, Debug, PartialEq, Eq)]
pub enum Phase {
    /// The source is being opened.
    Connecting,
    /// The first file is being opened.
    Starting,
    /// The next packet is awaited.
    Running,
    /// A rotation has begun for the packet of `stream` that came at `now`:
    /// the file that was still draining is being closed.
    Retiring { now: WallTime, stream: usize },
    /// The rotation goes on: the file that was active drains, and the next
    /// one is being opened.
    Rotating { now: WallTime, stream: usize },
    /// The draining file has reached its deadline and is being closed,
    /// before the packet of `stream` is written.
    Expiring { stream: usize },
    /// The packet of `stream` is being written to the active file.
    WritingActive { stream: usize },
    /// The packet is being written to the draining file.
    WritingDraining,
    /// The run has ended.
    Terminated { result: Result<(), Error> },
}

/// The state of the controller.
pub struct SegmenterView {
    /// Name of the camera.
    pub camera: Seq<char>,
    /// Address of the source.
    pub url: Seq<char>,
    /// Folder of the files.
    pub folder: Seq<char>,
    /// Format description of the time in a file name.
    pub time_format: Seq<char>,
    /// The source, from the moment it is open.
    pub input: Option<InputView>,
    /// The boundary at which the next rotation is due.
    pub current_segment_end: WallTime,
    /// The instant from which a draining file is closed.
    pub previous_segment_deadline: WallTime,
    /// The file that every stored packet is written to.
    pub active: Option<OutputView>,
    /// The file before it, for as long as it is kept open.
    pub draining: Option<OutputView>,
    /// Serial number and name of the file that is being opened.
    pub opening: Option<(u64, Seq<char>)>,
    /// The serial number that the next file gets.
    pub next_serial: u64,
    /// Where the controller stands.
    pub phase: Phase,
}

impl SegmenterView {
    /// The state in which a controller starts, and its first command.
    pub open spec fn initial(
        camera: Seq<char>,
        url: Seq<char>,
        folder: Seq<char>,
        time_format: Seq<char>,
    ) -> (SegmenterView, CommandView) {
        (
            SegmenterView {
                camera,
                url,
                folder,
                time_format,
                input: None,
                current_segment_end: WallTime { seconds: 0, nanosecond: 0, offset: 0 },
                previous_segment_deadline: WallTime { seconds: 0, nanosecond: 0, offset: 0 },
                active: None,
                draining: None,
                opening: None,
                next_serial: 0,
                phase: Phase::Connecting,
            },
            CommandView::Connect { url },
        )
    }

    /// Number of streams that the source declares; 0 before it is open.
    pub open spec fn stream_count(self) -> nat {
        match self.input {
            Some(input) => input.streams.len(),
            None => 0,
        }
    }

    /// Whether the file `held` is one that this controller may hold: it has
    /// the streams of the source, a time base for each, and a serial number
    /// that has been given out.
    pub open spec fn holds(self, held: OutputView) -> bool {
        &&& held.wf()
        &&& self.input matches Some(input) && held.streams == stream_table(input.streams)
        &&& held.serial < self.next_serial
    }

    /// What holds of the controller's state at every moment of a run.
    pub open spec fn wf(self) -> bool {
        &&& self.input matches Some(input) ==> input.wf()
        &&& self.active matches Some(active) ==> self.holds(active)
        &&& self.draining matches Some(draining) ==> self.holds(draining)
        &&& self.active is Some && self.draining is Some ==> self.draining->Some_0.serial
            < self.active->Some_0.serial
        &&& self.opening matches Some((serial, _)) ==> {
            &&& self.input is Some
            &&& self.active is None
            &&& serial < self.next_serial
            &&& self.draining matches Some(draining) ==> draining.serial < serial
        }
        &&& !(self.phase is Connecting) && !(self.phase is Terminated) ==> {
            &&& self.input is Some
            &&& self.current_segment_end.rotatable()
            &&& self.previous_segment_deadline.wf()
        }
        &&& match self.phase {
            Phase::Connecting => self.input is None && self.active is None && self.draining is None
                && self.opening is None,
            Phase::Starting => self.opening is Some && self.draining is None,
            Phase::Running => self.active is Some && self.opening is None,
            Phase::Retiring { now, stream } => self.active is Some && self.draining is None
                && self.opening is None && now.rotatable() && stream < self.stream_count(),
            Phase::Rotating { now, stream } => self.opening is Some && now.rotatable() && stream
                < self.stream_count(),
            Phase::Expiring { stream } => self.active is Some && self.draining is None
                && self.opening is None && stream < self.stream_count(),
            Phase::WritingActive { stream } => self.active is Some && self.opening is None
                && stream < self.stream_count() && self.input->Some_0.streams[stream as int] is Valid,
            Phase::WritingDraining => self.active is Some && self.draining is Some
                && self.opening is None,
            Phase::Terminated { .. } => true,
        }
    }

    /// The events that may be handed to the controller: a clock reading must
    /// be early enough for its boundary to exist, a source must not declare
    /// more streams than can be numbered, and a packet must belong to a
    /// stream that the source declared.
    pub open spec fn accepts(self, event: EventView) -> bool {
        match event {
            EventView::Connected { streams, now, .. } => streams.len() <= u32::MAX
                && now.rotatable(),
            EventView::Packet { now, stream } => now.rotatable() && (self.input is Some ==> stream
                < self.stream_count()),
            _ => true,
        }
    }

    /// The run ends with `result`.
    pub open spec fn stop(self, result: Result<(), Error>) -> (SegmenterView, CommandView) {
        (
            SegmenterView { phase: Phase::Terminated { result }, ..self },
            CommandView::Stop { result },
        )
    }

    /// A file is ordered under the next serial number and `name`, and the
    /// controller waits for it in `phase`. Where there is no name or no
    /// serial number left, the run ends.
    pub open spec fn open(self, phase: Phase, name: Option<Seq<char>>) -> (
        SegmenterView,
        CommandView,
    ) {
        if name is Some && self.next_serial < u64::MAX {
            (
                SegmenterView {
                    opening: Some((self.next_serial, name->Some_0)),
                    next_serial: (self.next_serial + 1) as u64,
                    phase,
                    ..self
                },
                CommandView::Open {
                    serial: self.next_serial,
                    name: name->Some_0,
                    streams: stream_table(self.input->Some_0.streams),
                    metadata: self.input->Some_0.metadata,
                },
            )
        } else {
            self.stop(Err(Error::FailedToOpen))
        }
    }

    /// The file that was being opened could not be had: the run ends.
    pub open spec fn give_up(self) -> (SegmenterView, CommandView) {
        (SegmenterView { opening: None, ..self }).stop(Err(Error::FailedToOpen))
    }

    /// The file that was being opened has its header, with `time_bases`: it
    /// becomes the active file, and the next packet is awaited. `None` where
    /// the writer reported another number of streams than it was given.
    pub open spec fn install(self, time_bases: Seq<Rational>) -> Option<SegmenterView> {
        match opened_output(
            self.opening->Some_0.0,
            self.opening->Some_0.1,
            self.input->Some_0,
            Some(time_bases),
        ) {
            Some(active) => Some(
                SegmenterView { active: Some(active), opening: None, phase: Phase::Running, ..self },
            ),
            None => None,
        }
    }

    /// The rotation itself: the active file becomes the draining one, and
    /// the next file is ordered.
    pub open spec fn rotate(self, now: WallTime, stream: usize, name: Option<Seq<char>>) -> (
        SegmenterView,
        CommandView,
    ) {
        (SegmenterView { draining: self.active, active: None, ..self }).open(
            Phase::Rotating { now, stream },
            name,
        )
    }

    /// The check of the drain deadline for the packet of `stream` that came
    /// at `now`. A draining file whose deadline has come is closed, and the
    /// next deadline is set from the boundary; else the packet is dispatched.
    pub open spec fn expire(self, now: WallTime, stream: usize) -> (SegmenterView, CommandView) {
        if self.draining is Some && now.at_or_after(self.previous_segment_deadline) {
            (
                SegmenterView {
                    draining: None,
                    previous_segment_deadline: deadline_after(self.current_segment_end),
                    phase: Phase::Expiring { stream },
                    ..self
                },
                CommandView::Close { serial: self.draining->Some_0.serial },
            )
        } else {
            self.dispatch(stream)
        }
    }

    /// The packet of `stream` goes to the active file if its stream is
    /// stored, and nowhere if not.
    pub open spec fn dispatch(self, stream: usize) -> (SegmenterView, CommandView) {
        let entry = self.input->Some_0.streams[stream as int];
        if entry is Valid {
            (
                SegmenterView { phase: Phase::WritingActive { stream }, ..self },
                CommandView::Write {
                    order: self.active->Some_0.write(entry->mapping, entry->time_base),
                },
            )
        } else {
            (SegmenterView { phase: Phase::Running, ..self }, CommandView::Pull)
        }
    }

    /// The packet of `stream` has gone to the active file: it goes to the
    /// draining one too, if there is one.
    pub open spec fn repeat(self, stream: usize) -> (SegmenterView, CommandView) {
        let entry = self.input->Some_0.streams[stream as int];
        if self.draining is Some {
            (
                SegmenterView { phase: Phase::WritingDraining, ..self },
                CommandView::Write {
                    order: self.draining->Some_0.write(entry->mapping, entry->time_base),
                },
            )
        } else {
            (SegmenterView { phase: Phase::Running, ..self }, CommandView::Pull)
        }
    }

    /// The source is open: its streams are classified, the first boundary
    /// and the first deadline are set, and the first file is ordered.
    pub open spec fn connect(
        self,
        streams: Seq<SourceStream>,
        metadata: Seq<(Seq<char>, Seq<char>)>,
        now: WallTime,
        name: Option<Seq<char>>,
    ) -> (SegmenterView, CommandView) {
        (SegmenterView {
            input: Some(InputView { streams: classify(streams), metadata }),
            current_segment_end: next_boundary(now),
            previous_segment_deadline: deadline_after(next_boundary(now)),
            ..self
        }).open(Phase::Starting, name)
    }

    /// The state after `event`, and the command that answers it. `name` is
    /// the name for the file that this step may order.
    ///
    /// An event that the controller is not waiting for ends the run as a
    /// broken multiplex. Once the run has ended, nothing changes any more.
    pub open spec fn react(self, event: EventView, name: Option<Seq<char>>) -> (
        SegmenterView,
        CommandView,
    ) {
        match (self.phase, event) {
            (Phase::Terminated { result }, _) => (self, CommandView::Stop { result }),
            (Phase::Connecting, EventView::Connected { streams, metadata, now }) => self.connect(
                streams,
                metadata,
                now,
                name,
            ),
            (Phase::Connecting, EventView::ConnectFailed) => self.stop(
                Err(Error::FailedToConnect),
            ),
            (Phase::Starting, EventView::Opened { time_bases }) => match self.install(time_bases) {
                Some(running) => (running, CommandView::Pull),
                None => self.give_up(),
            },
            (Phase::Starting, EventView::OpenFailed) => self.give_up(),
            (Phase::Running, EventView::Packet { now, stream }) => {
                if now.at_or_after(self.current_segment_end) {
                    if self.draining is Some {
                        (
                            SegmenterView {
                                draining: None,
                                phase: Phase::Retiring { now, stream },
                                ..self
                            },
                            CommandView::Close { serial: self.draining->Some_0.serial },
                        )
                    } else {
                        self.rotate(now, stream, name)
                    }
                } else {
                    self.expire(now, stream)
                }
            },
            (Phase::Running, EventView::EndOfInput) => self.stop(Ok(())),
            (Phase::Retiring { now, stream }, EventView::Closed) => self.rotate(now, stream, name),
            (Phase::Retiring { .. }, EventView::CloseFailed) => self.stop(Err(Error::BrokenMux)),
            (Phase::Rotating { now, stream }, EventView::Opened { time_bases }) => match self.install(
                time_bases,
            ) {
                Some(running) => (SegmenterView {
                    current_segment_end: next_boundary(now),
                    ..running
                }).expire(now, stream),
                None => self.give_up(),
            },
            (Phase::Rotating { .. }, EventView::OpenFailed) => self.give_up(),
            (Phase::Expiring { stream }, EventView::Closed) => self.dispatch(stream),
            (Phase::Expiring { .. }, EventView::CloseFailed) => self.stop(Err(Error::BrokenMux)),
            (Phase::WritingActive { stream }, EventView::Written { result }) => match write_outcome(
                result,
            ) {
                Ok(_) => self.repeat(stream),
                Err(error) => self.stop(Err(error)),
            },
            (Phase::WritingDraining, EventView::Written { result }) => match write_outcome(result) {
                Ok(_) => (SegmenterView { phase: Phase::Running, ..self }, CommandView::Pull),
                Err(error) => self.stop(Err(error)),
            },
            _ => self.stop(Err(Error::BrokenMux)),
        }
    }

    /// The clock reading for which the step on `event` needs a file name,
    /// if it may order a file.
    pub open spec fn naming_time(self, event: EventView) -> Option<WallTime> {
        match (self.phase, event) {
            (Phase::Connecting, EventView::Connected { now, .. }) => Some(now),
            (Phase::Running, EventView::Packet { now, .. }) => if now.at_or_after(
                self.current_segment_end,
            ) && self.draining is None {
                Some(now)
            } else {
                None
            },
            (Phase::Retiring { now, .. }, EventView::Closed) => Some(now),
            _ => None,
        }
    }

    /// The name of the file that the step on `event` may order.
    pub open spec fn name_for(self, event: EventView) -> Option<Seq<char>> {
        match self.naming_time(event) {
            Some(now) => name_at(now, self.camera, self.folder, self.time_format),
            None => None,
        }
    }

    /// The state after `event`, and the command that answers it.
    pub open spec fn step(self, event: EventView) -> (SegmenterView, CommandView) {
        self.react(event, self.name_for(event))
    }

    /// The stream of the packet that the step on `event` works for: the
    /// packet that comes with the event, or the packet that the controller
    /// has at hand.
    pub open spec fn packet_stream(self, event: EventView) -> Option<usize> {
        match (self.phase, event) {
            (Phase::Running, EventView::Packet { stream, .. }) => Some(stream),
            (Phase::Retiring { stream, .. }, _) => Some(stream),
            (Phase::Rotating { stream, .. }, _) => Some(stream),
            (Phase::Expiring { stream }, _) => Some(stream),
            (Phase::WritingActive { stream }, _) => Some(stream),
            _ => None,
        }
    }

    /// Number of files whose writers the caller holds: the active and the
    /// draining file, the file that is being opened and the file that is
    /// being closed.
    pub open spec fn open_files(self) -> nat {
        (if self.active is Some {
            1nat
        } else {
            0nat
        }) + (if self.draining is Some {
            1nat
        } else {
            0nat
        }) + (if self.opening is Some {
            1nat
        } else {
            0nat
        }) + (if self.phase is Retiring || self.phase is Expiring {
            1nat
        } else {
            0nat
        })
    }

    /// Serial number of the oldest file that has not been ordered closed;
    /// where there is none, the serial number that the next file gets.
    pub open spec fn oldest(self) -> u64 {
        if self.draining is Some {
            self.draining->Some_0.serial
        } else if self.active is Some {
            self.active->Some_0.serial
        } else if self.opening is Some {
            self.opening->Some_0.0
        } else {
            self.next_serial
        }
    }

    /// Whether the state is one in which the controller can rest after a
    /// packet that came at `last`: the segment ends on a boundary of the
    /// clock that `last` was read from; the drain deadline is not later
    /// than the grace after that boundary; and a file drains only if `last`
    /// has reached the boundary.
    pub open spec fn rests_after(self, last: WallTime) -> bool {
        &&& self.current_segment_end.is_boundary()
        &&& self.current_segment_end.offset == last.offset
        &&& deadline_after(self.current_segment_end).at_or_after(self.previous_segment_deadline)
        &&& self.draining is Some ==> last.at_or_after(self.current_segment_end)
    }

    /// The state after the rotation check for a packet that came at `now`,
    /// when the file that a rotation opens gets `name` and `time_bases`.
    pub open spec fn rotated(self, now: WallTime, name: Seq<char>, time_bases: Seq<Rational>)
        -> SegmenterView {
        if now.at_or_after(self.current_segment_end) {
            SegmenterView {
                draining: self.active,
                active: Some(
                    OutputView {
                        serial: self.next_serial,
                        name,
                        streams: stream_table(self.input->Some_0.streams),
                        time_bases,
                    },
                ),
                current_segment_end: next_boundary(now),
                next_serial: (self.next_serial + 1) as u64,
                ..self
            }
        } else {
            self
        }
    }

    /// The commands of the rotation check: a file that is still draining is
    /// closed, and the next file is opened.
    pub open spec fn rotation_commands(self, now: WallTime, name: Seq<char>) -> Seq<CommandView> {
        if now.at_or_after(self.current_segment_end) {
            (if self.draining is Some {
                seq![CommandView::Close { serial: self.draining->Some_0.serial }]
            } else {
                Seq::empty()
            }).push(
                CommandView::Open {
                    serial: self.next_serial,
                    name,
                    streams: stream_table(self.input->Some_0.streams),
                    metadata: self.input->Some_0.metadata,
                },
            )
        } else {
            Seq::empty()
        }
    }

    /// Whether the draining file is closed for a packet that came at `now`.
    pub open spec fn drain_is_over(self, now: WallTime) -> bool {
        self.draining is Some && now.at_or_after(self.previous_segment_deadline)
    }

    /// The state after the check of the drain deadline.
    pub open spec fn expired(self, now: WallTime) -> SegmenterView {
        if self.drain_is_over(now) {
            SegmenterView {
                draining: None,
                previous_segment_deadline: deadline_after(self.current_segment_end),
                ..self
            }
        } else {
            self
        }
    }

    /// The commands of the check of the drain deadline.
    pub open spec fn expiry_commands(self, now: WallTime) -> Seq<CommandView> {
        if self.drain_is_over(now) {
            seq![CommandView::Close { serial: self.draining->Some_0.serial }]
        } else {
            Seq::empty()
        }
    }

    /// The writes for a packet of `stream`: none where the stream is left
    /// out; else one to the active file and, where a file is draining, one
    /// to that file, each with the time base that the file has for the
    /// stream.
    pub open spec fn writes(self, stream: usize) -> Seq<CommandView> {
        let entry = self.input->Some_0.streams[stream as int];
        if !(entry is Valid) {
            Seq::empty()
        } else if self.draining is Some {
            seq![
                CommandView::Write {
                    order: self.active->Some_0.write(entry->mapping, entry->time_base),
                },
                CommandView::Write {
                    order: self.draining->Some_0.write(entry->mapping, entry->time_base),
                },
            ]
        } else {
            seq![
                CommandView::Write {
                    order: self.active->Some_0.write(entry->mapping, entry->time_base),
                },
            ]
        }
    }

    /// What a packet of `stream` that comes at `now` is to bring about, as
    /// one piece: the rotation check, the check of the drain deadline, the
    /// writes, and the request for the next packet.
    pub open spec fn round(
        self,
        now: WallTime,
        stream: usize,
        name: Seq<char>,
        time_bases: Seq<Rational>,
    ) -> (SegmenterView, Seq<CommandView>) {
        let turned = self.rotated(now, name, time_bases);
        let settled = turned.expired(now);
        (
            SegmenterView { phase: Phase::Running, ..settled },
            self.rotation_commands(now, name) + turned.expiry_commands(now) + settled.writes(
                stream,
            ) + seq![CommandView::Pull],
        )
    }

    /// The commands from `command` on, up to the next that asks for a packet
    /// or ends the run, and the state then, when the caller succeeds in all
    /// of them and every file that is opened gets `time_bases`.
    pub open spec fn follow(
        self,
        command: CommandView,
        name: Option<Seq<char>>,
        time_bases: Seq<Rational>,
        patience: nat,
    ) -> (SegmenterView, Seq<CommandView>)
        decreases patience,
    {
        if patience == 0 || !awaits_report(command) {
            (self, seq![command])
        } else {
            let next = self.react(success(command, time_bases), name);
            let rest = next.0.follow(next.1, name, time_bases, (patience - 1) as nat);
            (rest.0, seq![command] + rest.1)
        }
    }

    /// The commands that a packet of `stream` that comes at `now` brings
    /// about, and the state after them, when the caller succeeds in all of
    /// them. No packet brings about more than six: two files closed, one
    /// opened, two writes and the request for the next packet.
    pub open spec fn serve(
        self,
        now: WallTime,
        stream: usize,
        name: Seq<char>,
        time_bases: Seq<Rational>,
    ) -> (SegmenterView, Seq<CommandView>) {
        let first = self.react(EventView::Packet { now, stream }, Some(name));
        first.0.follow(first.1, Some(name), time_bases, 5)
    }

    /// The state after the events of `turns`, one after the other.
    pub open spec fn after(self, turns: Seq<Turn>) -> SegmenterView
        decreases turns.len(),
    {
        if turns.len() == 0 {
            self
        } else {
            self.after(turns.drop_last()).react(turns.last().event, turns.last().name).0
        }
    }

    /// The command that answers the event `at` of `turns`.
    pub open spec fn answer(self, turns: Seq<Turn>, at: int) -> CommandView {
        self.after(turns.take(at)).react(turns[at].event, turns[at].name).1
    }

    /// Whether the command that answers the event `at` of `turns` orders
    /// the file `serial`.
    pub open spec fn opens_at(self, turns: Seq<Turn>, at: int, serial: u64) -> bool {
        self.answer(turns, at) matches CommandView::Open { serial: ordered, .. } && ordered
            == serial
    }

    /// Whether the file `serial` was ordered by one of the first `len`
    /// commands of the run.
    pub open spec fn opened_before(self, turns: Seq<Turn>, len: int, serial: u64) -> bool {
        exists|at: int| 0 <= at < len && #[trigger] self.opens_at(turns, at, serial)
    }

    /// Whether the state holds the file `serial`: as the active or the
    /// draining file, or as the file that is being opened.
    pub open spec fn has_file(self, serial: u64) -> bool {
        ||| self.active is Some && self.active->Some_0.serial == serial
        ||| self.draining is Some && self.draining->Some_0.serial == serial
        ||| self.opening is Some && self.opening->Some_0.0 == serial
    }

    /// Whether each event of `turns` may be handed to the controller when
    /// its turn comes.
    pub open spec fn admits(self, turns: Seq<Turn>) -> bool {
        forall|at: int|
            0 <= at < turns.len() ==> (#[trigger] self.after(turns.take(at))).accepts(
                turns[at].event,
            )
    }
}

/// One step of a run: an event, and the name of the file that the step may
/// order.
pub struct Turn {
    pub event: EventView,
    pub name: Option<Seq<char>>,
}

/// Whether `command` is one that the caller performs on a file and reports.
pub open spec fn awaits_report(command: CommandView) -> bool {
    command is Open || command is Close || command is Write
}

/// The event with which a caller who succeeds answers `command`.
pub open spec fn success(command: CommandView, time_bases: Seq<Rational>) -> EventView {
    match command {
        CommandView::Open { .. } => EventView::Opened { time_bases },
        CommandView::Write { .. } => EventView::Written { result: Ok(()) },
        _ => EventView::Closed,
    }
}

} // verus!
