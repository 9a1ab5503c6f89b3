//! One file that is being written: the streams it was set up with, the time
//! bases that its writer fixed, and what is asked of the writer.

use crate::error::Error;
use crate::input::{lemma_valid_before_bounded, valid_before, Input, InputStream, InputView, Parameters, Rational};
use vstd::prelude::*;

verus! {

/// The error code with which a writer declines a packet that it can do
/// without, such as one whose timestamp repeats an earlier one.
pub const AVERROR_BAD_REQUEST: i32 = 22;

/// The byte position that a packet is given before it is written: none. The
/// position in the source means nothing in the file.
pub const UNKNOWN_POSITION: i64 = -1;

/// One stream of a file: the stream of the source that it stores and the
/// parameters it is set up with.
#[derive(Clone, Copy, Debug, PartialEq, Eq, Structural)]
pub struct OutputStream {
    /// Index of the stream in the source, from which the codec parameters
    /// are copied.
    pub source: usize,
    /// The source's parameters with the codec tag cleared.
    pub parameter: Parameters,
}

/// How a writer refused a packet or a trailer.
#[derive(Clone, Copy, Debug, PartialEq, Eq, Structural)]
pub enum MuxError {
    /// An error of the operating system's kind, with its code.
    Other { errno: i32 },
    /// Any error that the writer names itself.
    Coded,
}

/// An order to write the packet at hand to one file. The caller takes a
/// copy of the packet, rescales its timestamps from `from` to `to`, gives it
/// the byte position `position` and the stream `stream`, and hands it to the
/// writer `serial` to be written in the order of the timestamps.
#[derive(Clone, Copy, Debug, PartialEq, Eq, Structural)]
pub struct PacketWrite {
    /// The file.
    pub serial: u64,
    /// The stream of the file that the packet goes to.
    pub stream: u32,
    /// The time base in which the packet's timestamps came.
    pub from: Rational,
    /// The time base of that stream in this file, into which the timestamps
    /// are rescaled.
    pub to: Rational,
    /// The byte position to give the packet.
    pub position: i64,
}

/// The stream of a file that stores the stream `index` of the source: the
/// same parameters, but for the codec tag. A tag belongs to the container it
/// was read from, and a file that carried it over could become unreadable.
pub open spec fn output_stream(streams: Seq<InputStream>, index: int) -> OutputStream {
    OutputStream {
        source: index as usize,
        parameter: Parameters { medium: streams[index]->parameter.medium, codec_tag: 0 },
    }
}

/// The streams of a file for the first `end` entries of a source: one for
/// each stored stream, in the order of the source.
pub open spec fn table_before(streams: Seq<InputStream>, end: int) -> Seq<OutputStream>
    decreases end,
{
    if end <= 0 {
        Seq::empty()
    } else if streams[end - 1] is Valid {
        table_before(streams, end - 1).push(output_stream(streams, end - 1))
    } else {
        table_before(streams, end - 1)
    }
}

/// The streams of every file that is written from a source.
pub open spec fn stream_table(streams: Seq<InputStream>) -> Seq<OutputStream> {
    table_before(streams, streams.len() as int)
}

/// Whether a writer's refusal is one that is passed over.
pub open spec fn benign(fault: MuxError) -> bool {
    fault matches MuxError::Other { errno } && errno == AVERROR_BAD_REQUEST
}

/// What a write comes to: done, also where the writer declined the packet
/// for the benign reason, and a broken multiplex in every other case.
pub open spec fn write_outcome(result: Result<(), MuxError>) -> Result<(), Error> {
    match result {
        Ok(_) => Ok(()),
        Err(fault) => if benign(fault) {
            Ok(())
        } else {
            Err(Error::BrokenMux)
        },
    }
}

/// A table has one stream for each stored stream.
pub proof fn lemma_table_len(streams: Seq<InputStream>, end: int)
    requires
        0 <= end,
    ensures
        table_before(streams, end).len() == valid_before(streams, end),
    decreases end,
{
    if end > 0 {
        lemma_table_len(streams, end - 1);
    }
}

/// A longer table starts with the shorter one.
proof fn lemma_table_grows(streams: Seq<InputStream>, start: int, end: int, at: int)
    requires
        0 <= start <= end,
        0 <= at < table_before(streams, start).len(),
    ensures
        at < table_before(streams, end).len(),
        table_before(streams, end)[at] == table_before(streams, start)[at],
    decreases end - start,
{
    if start < end {
        lemma_table_grows(streams, start, end - 1, at);
    }
}

/// The streams of a file stand in the order of the mappings: a file has as
/// many streams as the source has stored ones, and the stored stream `index`
/// of the source is found at its mapping.
pub proof fn law_table_follows_mappings(input: InputView, index: int)
    requires
        input.wf(),
        0 <= index < input.streams.len(),
        input.streams[index] is Valid,
    ensures
        stream_table(input.streams).len() == input.count_valid(),
        input.streams[index]->mapping < stream_table(input.streams).len(),
        stream_table(input.streams)[input.streams[index]->mapping as int] == output_stream(
            input.streams,
            index,
        ),
{
    let streams = input.streams;
    lemma_table_len(streams, streams.len() as int);
    lemma_table_len(streams, index);
    lemma_table_len(streams, index + 1);
    lemma_table_grows(streams, index + 1, streams.len() as int, valid_before(streams, index) as int);
}

/// Builds the streams of a file for a source.
pub fn plan_streams(input: &Input) -> (table: Vec<OutputStream>)
    ensures
        table@ == stream_table(input@.streams),
        table.len() == input@.count_valid(),
        table.len() <= u32::MAX,
{
    let mut table: Vec<OutputStream> = Vec::new();
    let len = input.len();
    let mut index: usize = 0;
    while index < len
        invariant
            len == input@.streams.len(),
            index <= len,
            table@ == table_before(input@.streams, index as int),
        decreases len - index,
    {
        if let Some(InputStream::Valid { mapping: _, time_base: _, parameter }) = input.get(index) {
            table.push(
                OutputStream {
                    source: index,
                    parameter: Parameters { medium: parameter.medium, codec_tag: 0 },
                },
            );
        }
        index += 1;
    }
    proof {
        lemma_table_len(input@.streams, len as int);
        lemma_valid_before_bounded(input@.streams, len as int);
    }
    table
}

/// What a file is to the controller.
pub struct OutputView {
    /// Number by which the caller knows the file's writer.
    pub serial: u64,
    /// Path of the file.
    pub name: Seq<char>,
    /// Streams that the file was set up with.
    pub streams: Seq<OutputStream>,
    /// Time base of each stream, as the writer fixed it with the header.
    pub time_bases: Seq<Rational>,
}

impl OutputView {
    /// Every stream has its time base.
    pub open spec fn wf(self) -> bool {
        self.streams.len() == self.time_bases.len() <= u32::MAX
    }

    /// The order to write a packet of the file's stream `mapping` whose
    /// timestamps came in `time_base`.
    pub open spec fn write(self, mapping: u32, time_base: Rational) -> PacketWrite {
        PacketWrite {
            serial: self.serial,
            stream: mapping,
            from: time_base,
            to: self.time_bases[mapping as int],
            position: UNKNOWN_POSITION,
        }
    }
}

/// The file that a new session gets from a source, once its writer has
/// written the header and reported the time bases `header`; `None` where the
/// writer failed or reported another number of streams than it was given.
pub open spec fn opened_output(
    serial: u64,
    name: Seq<char>,
    input: InputView,
    header: Option<Seq<Rational>>,
) -> Option<OutputView> {
    match header {
        Some(time_bases) => if time_bases.len() == stream_table(input.streams).len() {
            Some(OutputView { serial, name, streams: stream_table(input.streams), time_bases })
        } else {
            None
        },
        None => None,
    }
}

/// A file that is open: its header has been written, its trailer has not.
/// There is no closed state: [`Output::close`] takes the value, so that
/// nothing can be written to a closed file or close it again.
pub struct Output {
    serial: u64,
    name: String,
    streams: Vec<OutputStream>,
    time_bases: Vec<Rational>,
}

impl View for Output {
    type V = OutputView;

    closed spec fn view(&self) -> OutputView {
        OutputView {
            serial: self.serial,
            name: self.name@,
            streams: self.streams@,
            time_bases: self.time_bases@,
        }
    }
}

impl Output {
    #[verifier::type_invariant]
    spec fn well_formed(&self) -> bool {
        self@.wf()
    }

    /// Makes the session for the file `name`, whose writer is known to the
    /// caller as `serial`. `header` is what became of opening it: the time
    /// bases that the writer fixed for the streams it was given, in their
    /// order, or `None` where the folder, the file or the header failed.
    /// The session exists only where the header was written.
    pub fn new(name: String, serial: u64, input: &Input, header: Option<Vec<Rational>>) -> (output:
        Result<Output, Error>)
        ensures
            match opened_output(
                serial,
                name@,
                input@,
                match header {
                    Some(time_bases) => Some(time_bases@),
                    None => None,
                },
            ) {
                Some(session) => output is Ok && output->Ok_0@ == session && session.wf(),
                None => output == Err::<Output, Error>(Error::FailedToOpen),
            },
    {
        match header {
            Some(time_bases) => {
                let streams = plan_streams(input);
                if time_bases.len() == streams.len() {
                    Ok(Output { serial, name, streams, time_bases })
                } else {
                    Err(Error::FailedToOpen)
                }
            },
            None => Err(Error::FailedToOpen),
        }
    }

    /// The order to write a packet to this file: to its stream `mapping`,
    /// with the timestamps rescaled from `time_base` to the time base that
    /// this file has for that stream, and with no byte position.
    pub fn write(&self, mapping: u32, time_base: Rational) -> (order: PacketWrite)
        requires
            mapping < self@.streams.len(),
        ensures
            self@.wf(),
            order == self@.write(mapping, time_base),
    {
        proof {
            use_type_invariant(self);
        }
        PacketWrite {
            serial: self.serial,
            stream: mapping,
            from: time_base,
            to: self.time_bases[mapping as usize],
            position: UNKNOWN_POSITION,
        }
    }

    /// Judges what the writer reported of a write: a packet that it declined
    /// for the benign reason is dropped and the write counts as done; every
    /// other refusal is a broken multiplex.
    pub fn write_packet(&self, result: Result<(), MuxError>) -> (outcome: Result<(), Error>)
        ensures
            outcome == write_outcome(result),
    {
        match result {
            Ok(_) => Ok(()),
            Err(MuxError::Other { errno }) => {
                if errno != AVERROR_BAD_REQUEST {
                    Err(Error::BrokenMux)
                } else {
                    Ok(())
                }
            },
            Err(MuxError::Coded) => Err(Error::BrokenMux),
        }
    }

    /// Ends the session and returns the number of the writer that now
    /// writes the trailer.
    pub fn close(self) -> (serial: u64)
        ensures
            serial == self@.serial,
    {
        self.serial
    }

    /// Number by which the caller knows the file's writer.
    pub fn serial(&self) -> (serial: u64)
        ensures
            serial == self@.serial,
    {
        self.serial
    }

    /// Path of the file.
    pub fn name(&self) -> (name: &String)
        ensures
            name@ == self@.name,
    {
        &self.name
    }

    /// Number of streams in the file.
    pub fn count_streams(&self) -> (count: u32)
        ensures
            self@.wf(),
            count == self@.streams.len(),
    {
        proof {
            use_type_invariant(self);
        }
        self.streams.len() as u32
    }
}

} // verus!
