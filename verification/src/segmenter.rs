//! The controller that runs: it holds the state of one camera's run and
//! answers each event with the next command.

use crate::camera::{Camera, CamerasMetadata};
use crate::clock::{
    drain_deadline, get_name, get_next_time, law_boundary_stays_in_range, WallTime,
};
use crate::error::Error;
use crate::input::{law_classify_is_dense, pairs_view, Input, InputStream, Rational, SourceStream};
use crate::laws::law_state_stays_well_formed;
use crate::model::{Phase, SegmenterView};
use crate::output::{law_table_follows_mappings, plan_streams, stream_table, MuxError, Output};
use crate::protocol::{Command, CommandView, Event, EventView};
use vstd::prelude::*;

verus! {

/// The text of a name that may be missing.
pub open spec fn text(name: Option<String>) -> Option<Seq<char>> {
    match name {
        Some(name) => Some(name@),
        None => None,
    }
}

/// The controller of one camera's run.
///
/// It is made by [`Segmenter::new`], which also gives the first command. The
/// caller performs each command and hands the event that answers it to
/// [`Segmenter::step`], which gives the state after it and the next command,
/// until the command is `Stop`.
pub struct Segmenter {
    camera: Camera,
    cameras_meta: CamerasMetadata,
    input: Option<Input>,
    current_segment_end: WallTime,
    previous_segment_deadline: WallTime,
    active: Option<Output>,
    draining: Option<Output>,
    opening: Option<(u64, String)>,
    next_serial: u64,
    phase: Phase,
}

impl View for Segmenter {
    type V = SegmenterView;

    closed spec fn view(&self) -> SegmenterView {
        SegmenterView {
            camera: self.camera.name@,
            url: self.camera.url@,
            folder: self.cameras_meta.folder@,
            time_format: self.cameras_meta.time_format@,
            input: match self.input {
                Some(input) => Some(input@),
                None => None,
            },
            current_segment_end: self.current_segment_end,
            previous_segment_deadline: self.previous_segment_deadline,
            active: match self.active {
                Some(active) => Some(active@),
                None => None,
            },
            draining: match self.draining {
                Some(draining) => Some(draining@),
                None => None,
            },
            opening: match self.opening {
                Some((serial, name)) => Some((serial, name@)),
                None => None,
            },
            next_serial: self.next_serial,
            phase: self.phase,
        }
    }
}

impl Segmenter {
    #[verifier::type_invariant]
    spec fn well_formed(&self) -> bool {
        self@.wf()
    }

    /// Starts a run for `camera`. The first command is to open its source.
    pub fn new(camera: Camera, cameras_meta: CamerasMetadata) -> (start: (Segmenter, Command))
        ensures
            (start.0@, start.1@) == SegmenterView::initial(
                camera.name@,
                camera.url@,
                cameras_meta.folder@,
                cameras_meta.time_format@,
            ),
            start.0@.wf(),
    {
        let url = camera.url.clone();
        (
            Segmenter {
                camera,
                cameras_meta,
                input: None,
                current_segment_end: WallTime { seconds: 0, nanosecond: 0, offset: 0 },
                previous_segment_deadline: WallTime { seconds: 0, nanosecond: 0, offset: 0 },
                active: None,
                draining: None,
                opening: None,
                next_serial: 0,
                phase: Phase::Connecting,
            },
            Command::Connect { url },
        )
    }

    /// Tells whether `event` may be handed to [`Segmenter::step`].
    pub fn accepts(&self, event: &Event) -> (accepted: bool)
        ensures
            accepted == self@.accepts(event@),
    {
        match event {
            Event::Connected { streams, metadata: _, now } => streams.len() <= 0xffff_ffff
                && now.is_rotatable(),
            Event::Packet { now, stream } => now.is_rotatable() && match &self.input {
                Some(input) => *stream < input.len(),
                None => true,
            },
            _ => true,
        }
    }

    /// The clock reading for which the step on `event` needs a file name.
    pub fn naming_time(&self, event: &Event) -> (time: Option<WallTime>)
        ensures
            self@.wf(),
            time == self@.naming_time(event@),
    {
        proof {
            use_type_invariant(self);
        }
        match self.phase {
            Phase::Connecting => match event {
                Event::Connected { streams: _, metadata: _, now } => Some(*now),
                _ => None,
            },
            Phase::Running => match event {
                Event::Packet { now, stream: _ } => if now.reached(&self.current_segment_end)
                    && self.draining.is_none() {
                    Some(*now)
                } else {
                    None
                },
                _ => None,
            },
            Phase::Retiring { now, stream: _ } => match event {
                Event::Closed => Some(now),
                _ => None,
            },
            _ => None,
        }
    }

    /// Takes the step for `event`: gives the state after it and the command
    /// that answers it. Where the step orders a file, the file is named
    /// after the clock reading that set the rotation off.
    pub fn step(self, event: Event) -> (next: (Segmenter, Command))
        requires
            self@.accepts(event@),
        ensures
            (next.0@, next.1@) == self@.step(event@),
            next.0@.wf(),
    {
        let name = match self.naming_time(&event) {
            Some(now) => get_name(&now, &self.camera, &self.cameras_meta),
            None => None,
        };
        self.react(event, name)
    }

    /// Takes the step for `event`, with `name` as the name of the file that
    /// the step may order.
    pub fn react(self, event: Event, name: Option<String>) -> (next: (Segmenter, Command))
        requires
            self@.accepts(event@),
        ensures
            (next.0@, next.1@) == self@.react(event@, text(name)),
            next.0@.wf(),
    {
        proof {
            use_type_invariant(&self);
            law_state_stays_well_formed(self@, event@, text(name));
        }
        match self.phase {
            Phase::Terminated { result } => (self, Command::Stop { result }),
            Phase::Connecting => match event {
                Event::Connected { streams, metadata, now } => self.connect(
                    streams,
                    metadata,
                    now,
                    name,
                ),
                Event::ConnectFailed => self.stop(Err(Error::FailedToConnect)),
                _ => self.stop(Err(Error::BrokenMux)),
            },
            Phase::Starting => match event {
                Event::Opened { time_bases } => match self.install(time_bases) {
                    Ok(running) => (running, Command::Pull),
                    Err(stopped) => stopped,
                },
                Event::OpenFailed => self.give_up(),
                _ => self.stop(Err(Error::BrokenMux)),
            },
            Phase::Running => match event {
                Event::Packet { now, stream } => {
                    if now.reached(&self.current_segment_end) {
                        if self.draining.is_some() {
                            let serial = self.draining.unwrap().close();
                            (
                                Segmenter {
                                    draining: None,
                                    phase: Phase::Retiring { now, stream },
                                    ..self
                                },
                                Command::Close { serial },
                            )
                        } else {
                            self.rotate(now, stream, name)
                        }
                    } else {
                        self.expire(now, stream)
                    }
                },
                Event::EndOfInput => self.stop(Ok(())),
                _ => self.stop(Err(Error::BrokenMux)),
            },
            Phase::Retiring { now, stream } => match event {
                Event::Closed => self.rotate(now, stream, name),
                _ => self.stop(Err(Error::BrokenMux)),
            },
            Phase::Rotating { now, stream } => match event {
                Event::Opened { time_bases } => match self.install(time_bases) {
                    Ok(running) => {
                        let current_segment_end = get_next_time(&now);
                        (Segmenter { current_segment_end, ..running }).expire(now, stream)
                    },
                    Err(stopped) => stopped,
                },
                Event::OpenFailed => self.give_up(),
                _ => self.stop(Err(Error::BrokenMux)),
            },
            Phase::Expiring { stream } => match event {
                Event::Closed => self.dispatch(stream),
                _ => self.stop(Err(Error::BrokenMux)),
            },
            Phase::WritingActive { stream } => match event {
                Event::Written { result } => self.written_to_active(stream, result),
                _ => self.stop(Err(Error::BrokenMux)),
            },
            Phase::WritingDraining => match event {
                Event::Written { result } => self.written_to_draining(result),
                _ => self.stop(Err(Error::BrokenMux)),
            },
        }
    }

    fn stop(self, result: Result<(), Error>) -> (next: (Segmenter, Command))
        ensures
            (next.0@, next.1@) == self@.stop(result),
    {
        proof {
            use_type_invariant(&self);
        }
        (Segmenter { phase: Phase::Terminated { result }, ..self }, Command::Stop { result })
    }

    fn give_up(self) -> (next: (Segmenter, Command))
        ensures
            (next.0@, next.1@) == self@.give_up(),
    {
        proof {
            use_type_invariant(&self);
        }
        let result = Err(Error::FailedToOpen);
        (
            Segmenter { opening: None, phase: Phase::Terminated { result }, ..self },
            Command::Stop { result },
        )
    }

    fn order(input: &Input, serial: u64, name: &String) -> (command: Command)
        ensures
            command@ == (CommandView::Open {
                serial,
                name: name@,
                streams: stream_table(input@.streams),
                metadata: input@.metadata,
            }),
    {
        Command::Open {
            serial,
            name: name.clone(),
            streams: plan_streams(input),
            metadata: input.copy_metadata(),
        }
    }

    fn connect(
        self,
        streams: Vec<SourceStream>,
        metadata: Vec<(String, String)>,
        now: WallTime,
        name: Option<String>,
    ) -> (next: (Segmenter, Command))
        requires
            self@.phase is Connecting,
            streams.len() <= u32::MAX,
            now.rotatable(),
        ensures
            (next.0@, next.1@) == self@.connect(streams@, pairs_view(metadata@), now, text(name)),
    {
        proof {
            use_type_invariant(&self);
            law_classify_is_dense(streams@, pairs_view(metadata@));
            law_boundary_stays_in_range(now);
        }
        let input = Input::new(&streams, metadata);
        let current_segment_end = get_next_time(&now);
        let previous_segment_deadline = drain_deadline(&current_segment_end);
        if name.is_some() && self.next_serial < u64::MAX {
            let name = name.unwrap();
            let serial = self.next_serial;
            let command = Self::order(&input, serial, &name);
            (
                Segmenter {
                    input: Some(input),
                    current_segment_end,
                    previous_segment_deadline,
                    opening: Some((serial, name)),
                    next_serial: serial + 1,
                    phase: Phase::Starting,
                    ..self
                },
                command,
            )
        } else {
            let result = Err(Error::FailedToOpen);
            (
                Segmenter {
                    input: Some(input),
                    current_segment_end,
                    previous_segment_deadline,
                    phase: Phase::Terminated { result },
                    ..self
                },
                Command::Stop { result },
            )
        }
    }

    fn install(self, time_bases: Vec<Rational>) -> (next: Result<Segmenter, (Segmenter, Command)>)
        requires
            self@.phase is Starting || self@.phase is Rotating,
        ensures
            match self@.install(time_bases@) {
                Some(running) => next is Ok && next->Ok_0@ == running,
                None => next is Err && (next->Err_0.0@, next->Err_0.1@) == self@.give_up(),
            },
    {
        proof {
            use_type_invariant(&self);
        }
        let (serial, name) = self.opening.unwrap();
        match Output::new(name, serial, self.input.as_ref().unwrap(), Some(time_bases)) {
            Ok(active) => Ok(
                Segmenter { active: Some(active), opening: None, phase: Phase::Running, ..self },
            ),
            Err(_) => {
                let result = Err(Error::FailedToOpen);
                Err(
                    (
                        Segmenter { opening: None, phase: Phase::Terminated { result }, ..self },
                        Command::Stop { result },
                    ),
                )
            },
        }
    }

    fn rotate(self, now: WallTime, stream: usize, name: Option<String>) -> (next: (
        Segmenter,
        Command,
    ))
        requires
            self@.phase is Running || self@.phase is Retiring,
            self@.draining is None,
            now.rotatable(),
            stream < self@.stream_count(),
        ensures
            (next.0@, next.1@) == self@.rotate(now, stream, text(name)),
    {
        proof {
            use_type_invariant(&self);
        }
        if name.is_some() && self.next_serial < u64::MAX {
            let name = name.unwrap();
            let serial = self.next_serial;
            let command = Self::order(self.input.as_ref().unwrap(), serial, &name);
            (
                Segmenter {
                    draining: self.active,
                    active: None,
                    opening: Some((serial, name)),
                    next_serial: serial + 1,
                    phase: Phase::Rotating { now, stream },
                    ..self
                },
                command,
            )
        } else {
            let result = Err(Error::FailedToOpen);
            (
                Segmenter {
                    draining: self.active,
                    active: None,
                    phase: Phase::Terminated { result },
                    ..self
                },
                Command::Stop { result },
            )
        }
    }

    fn expire(self, now: WallTime, stream: usize) -> (next: (Segmenter, Command))
        requires
            self@.phase is Running,
            now.wf(),
            stream < self@.stream_count(),
        ensures
            (next.0@, next.1@) == self@.expire(now, stream),
    {
        proof {
            use_type_invariant(&self);
        }
        if self.draining.is_some() && now.reached(&self.previous_segment_deadline) {
            let previous_segment_deadline = drain_deadline(&self.current_segment_end);
            let serial = self.draining.unwrap().close();
            (
                Segmenter {
                    draining: None,
                    previous_segment_deadline,
                    phase: Phase::Expiring { stream },
                    ..self
                },
                Command::Close { serial },
            )
        } else {
            self.dispatch(stream)
        }
    }

    fn dispatch(self, stream: usize) -> (next: (Segmenter, Command))
        requires
            self@.phase is Running || self@.phase is Expiring,
            stream < self@.stream_count(),
        ensures
            (next.0@, next.1@) == self@.dispatch(stream),
    {
        proof {
            use_type_invariant(&self);
        }
        let entry = self.input.as_ref().unwrap().get(stream).unwrap();
        match entry {
            InputStream::Valid { mapping, time_base, parameter: _ } => {
                proof {
                    law_table_follows_mappings(self@.input->Some_0, stream as int);
                }
                let order = self.active.as_ref().unwrap().write(mapping, time_base);
                (
                    Segmenter { phase: Phase::WritingActive { stream }, ..self },
                    Command::Write { order },
                )
            },
            InputStream::Invalid => (Segmenter { phase: Phase::Running, ..self }, Command::Pull),
        }
    }

    fn written_to_active(self, stream: usize, result: Result<(), MuxError>) -> (next: (
        Segmenter,
        Command,
    ))
        requires
            self@.phase == (Phase::WritingActive { stream }),
        ensures
            (next.0@, next.1@) == self@.react(EventView::Written { result }, None),
    {
        proof {
            use_type_invariant(&self);
        }
        match self.active.as_ref().unwrap().write_packet(result) {
            Err(error) => self.stop(Err(error)),
            Ok(_) => {
                if self.draining.is_some() {
                    let entry = self.input.as_ref().unwrap().get(stream).unwrap();
                    match entry {
                        InputStream::Valid { mapping, time_base, parameter: _ } => {
                            proof {
                                law_table_follows_mappings(self@.input->Some_0, stream as int);
                            }
                            let order = self.draining.as_ref().unwrap().write(mapping, time_base);
                            (
                                Segmenter { phase: Phase::WritingDraining, ..self },
                                Command::Write { order },
                            )
                        },
                        InputStream::Invalid => (
                            Segmenter { phase: Phase::Running, ..self },
                            Command::Pull,
                        ),
                    }
                } else {
                    (Segmenter { phase: Phase::Running, ..self }, Command::Pull)
                }
            },
        }
    }

    fn written_to_draining(self, result: Result<(), MuxError>) -> (next: (Segmenter, Command))
        requires
            self@.phase is WritingDraining,
        ensures
            (next.0@, next.1@) == self@.react(EventView::Written { result }, None),
    {
        proof {
            use_type_invariant(&self);
        }
        match self.draining.as_ref().unwrap().write_packet(result) {
            Err(error) => self.stop(Err(error)),
            Ok(_) => (Segmenter { phase: Phase::Running, ..self }, Command::Pull),
        }
    }

    /// Where the controller stands.
    pub fn phase(&self) -> (phase: Phase)
        ensures
            self@.wf(),
            phase == self@.phase,
    {
        proof {
            use_type_invariant(self);
        }
        self.phase
    }

    /// How the run ended, or `None` while it goes on.
    pub fn result(&self) -> (result: Option<Result<(), Error>>)
        ensures
            result == (match self@.phase {
                Phase::Terminated { result } => Some(result),
                _ => None,
            }),
    {
        match self.phase {
            Phase::Terminated { result } => Some(result),
            _ => None,
        }
    }

    /// The boundary at which the next rotation is due.
    pub fn current_segment_end(&self) -> (boundary: WallTime)
        ensures
            boundary == self@.current_segment_end,
    {
        self.current_segment_end
    }

    /// The instant from which a draining file is closed.
    pub fn previous_segment_deadline(&self) -> (deadline: WallTime)
        ensures
            deadline == self@.previous_segment_deadline,
    {
        self.previous_segment_deadline
    }

    /// The source, once it is open.
    pub fn input(&self) -> (input: Option<&Input>)
        ensures
            input is Some == self@.input is Some,
            input matches Some(source) ==> self@.input == Some(source@),
    {
        self.input.as_ref()
    }

    /// The file that stored packets are written to.
    pub fn active(&self) -> (active: Option<&Output>)
        ensures
            active is Some == self@.active is Some,
            active matches Some(file) ==> self@.active == Some(file@),
    {
        self.active.as_ref()
    }

    /// The file before it, while it is kept open.
    pub fn draining(&self) -> (draining: Option<&Output>)
        ensures
            draining is Some == self@.draining is Some,
            draining matches Some(file) ==> self@.draining == Some(file@),
    {
        self.draining.as_ref()
    }

    /// Ends the controller and hands out the files that are still open, the
    /// active one first. When the source has ended, their trailers are
    /// still to be written: the caller closes them.
    pub fn into_sessions(self) -> (open: (Option<Output>, Option<Output>))
        ensures
            open.0 is Some == self@.active is Some,
            open.0 matches Some(file) ==> self@.active == Some(file@),
            open.1 is Some == self@.draining is Some,
            open.1 matches Some(file) ==> self@.draining == Some(file@),
    {
        (self.active, self.draining)
    }
}

} // verus!
