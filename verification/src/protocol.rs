//! What passes between the controller and its caller: the commands that the
//! caller performs and the events with which it reports how they went.

use crate::clock::WallTime;
use crate::error::Error;
use crate::input::{pairs_view, Rational, SourceStream};
use crate::output::{MuxError, OutputStream, PacketWrite};
use vstd::prelude::*;

verus! {

/// What the caller is to do next. Each command but `Stop` is answered with
/// one event.
#[derive(Debug)]
pub enum Command {
    /// Open the source at `url`. Answer: `Connected` or `ConnectFailed`.
    Connect { url: String },
    /// Make sure that the folder of `name` exists, open a writer there and
    /// keep it as `serial`; give it one stream for each entry of `streams`,
    /// with the codec parameters of the source's stream `source` and the
    /// codec tag of the entry; give it `metadata`; write the header.
    /// Answer: `Opened`, or `OpenFailed` where any of this fails.
    Open { serial: u64, name: String, streams: Vec<OutputStream>, metadata: Vec<(String, String)> },
    /// Write the trailer of the writer `serial` and let go of it.
    /// Answer: `Closed` or `CloseFailed`.
    Close { serial: u64 },
    /// Write the packet that came last, as the order says. Answer: `Written`.
    Write { order: PacketWrite },
    /// Take the next packet from the source and read the clock.
    /// Answer: `Packet`, or `EndOfInput` where the source has ended.
    Pull,
    /// The run has ended with `result`. Nothing is to be done, and every
    /// further event is answered with this command again.
    Stop { result: Result<(), Error> },
}

/// How the last command went.
#[derive(Debug)]
pub enum Event {
    /// The source is open. It declares `streams` and carries `metadata`; the
    /// clock shows `now`.
    Connected { streams: Vec<SourceStream>, metadata: Vec<(String, String)>, now: WallTime },
    /// The source could not be opened.
    ConnectFailed,
    /// The writer has written its header; `time_bases` holds the time base
    /// that it fixed for each of its streams, in their order.
    Opened { time_bases: Vec<Rational> },
    /// The folder, the file or the header failed.
    OpenFailed,
    /// The trailer is written.
    Closed,
    /// The trailer could not be written.
    CloseFailed,
    /// What the writer made of the packet.
    Written { result: Result<(), MuxError> },
    /// A packet of the source's stream `stream` has come; the clock shows
    /// `now`.
    Packet { now: WallTime, stream: usize },
    /// The source has no more packets.
    EndOfInput,
}

/// A command as the contracts speak of it.
pub enum CommandView {
    Connect { url: Seq<char> },
    Open {
        serial: u64,
        name: Seq<char>,
        streams: Seq<OutputStream>,
        metadata: Seq<(Seq<char>, Seq<char>)>,
    },
    Close { serial: u64 },
    Write { order: PacketWrite },
    Pull,
    Stop { result: Result<(), Error> },
}

/// An event as the contracts speak of it.
pub enum EventView {
    Connected { streams: Seq<SourceStream>, metadata: Seq<(Seq<char>, Seq<char>)>, now: WallTime },
    ConnectFailed,
    Opened { time_bases: Seq<Rational> },
    OpenFailed,
    Closed,
    CloseFailed,
    Written { result: Result<(), MuxError> },
    Packet { now: WallTime, stream: usize },
    EndOfInput,
}

impl View for Command {
    type V = CommandView;

    open spec fn view(&self) -> CommandView {
        match *self {
            Command::Connect { url } => CommandView::Connect { url: url@ },
            Command::Open { serial, name, streams, metadata } => CommandView::Open {
                serial,
                name: name@,
                streams: streams@,
                metadata: pairs_view(metadata@),
            },
            Command::Close { serial } => CommandView::Close { serial },
            Command::Write { order } => CommandView::Write { order },
            Command::Pull => CommandView::Pull,
            Command::Stop { result } => CommandView::Stop { result },
        }
    }
}

impl View for Event {
    type V = EventView;

    open spec fn view(&self) -> EventView {
        match *self {
            Event::Connected { streams, metadata, now } => EventView::Connected {
                streams: streams@,
                metadata: pairs_view(metadata@),
                now,
            },
            Event::ConnectFailed => EventView::ConnectFailed,
            Event::Opened { time_bases } => EventView::Opened { time_bases: time_bases@ },
            Event::OpenFailed => EventView::OpenFailed,
            Event::Closed => EventView::Closed,
            Event::CloseFailed => EventView::CloseFailed,
            Event::Written { result } => EventView::Written { result },
            Event::Packet { now, stream } => EventView::Packet { now, stream },
            Event::EndOfInput => EventView::EndOfInput,
        }
    }
}

} // verus!
