//! The streams that a source declares, and the choice of those that are
//! stored.

use vstd::prelude::*;

verus! {

/// The kind of content that a stream carries.
#[derive(Clone, Copy, Debug, PartialEq, Eq, Structural)]
pub enum Medium {
    Unknown,
    Video,
    Audio,
    Data,
    Subtitle,
    Attachment,
}

/// The unit of a stream's timestamps, as a fraction of a second.
#[derive(Clone, Copy, Debug, PartialEq, Eq, Structural)]
pub struct Rational {
    pub numerator: i32,
    pub denominator: i32,
}

/// What the controller reads of a stream's codec parameters. The rest of
/// them stays with the source and is copied from there when a file is opened.
#[derive(Clone, Copy, Debug, PartialEq, Eq, Structural)]
pub struct Parameters {
    /// Kind of content.
    pub medium: Medium,
    /// Tag by which the source's container names the codec.
    pub codec_tag: u32,
}

/// A stream as the source declares it.
#[derive(Clone, Copy, Debug, PartialEq, Eq, Structural)]
pub struct SourceStream {
    pub time_base: Rational,
    pub parameter: Parameters,
}

/// The controller's entry for one stream of the source.
#[derive(Clone, Copy, Debug, PartialEq, Eq, Structural)]
pub enum InputStream {
    /// A stream that is stored, as stream `mapping` of every file.
    Valid { mapping: u32, time_base: Rational, parameter: Parameters },
    /// A stream that is left out. Its packets are dropped.
    Invalid,
}

/// Audio, video and subtitles are stored; nothing else is.
pub open spec fn mux_worthy(medium: Medium) -> bool {
    medium is Audio || medium is Video || medium is Subtitle
}

/// Number of streams among the first `end` declared ones that are stored.
pub open spec fn worthy_before(declared: Seq<SourceStream>, end: int) -> nat
    decreases end,
{
    if end <= 0 {
        0
    } else {
        worthy_before(declared, end - 1) + if mux_worthy(declared[end - 1].parameter.medium) {
            1nat
        } else {
            0nat
        }
    }
}

/// The entry of the declared stream `index`: a stored stream gets the number
/// of stored streams before it as its mapping, and keeps its time base and
/// parameters.
pub open spec fn classify_one(declared: Seq<SourceStream>, index: int) -> InputStream {
    if mux_worthy(declared[index].parameter.medium) {
        InputStream::Valid {
            mapping: worthy_before(declared, index) as u32,
            time_base: declared[index].time_base,
            parameter: declared[index].parameter,
        }
    } else {
        InputStream::Invalid
    }
}

/// The entries of all declared streams, in the order of the source.
pub open spec fn classify(declared: Seq<SourceStream>) -> Seq<InputStream> {
    Seq::new(declared.len(), |index: int| classify_one(declared, index))
}

/// Number of stored streams among the first `end` entries.
pub open spec fn valid_before(streams: Seq<InputStream>, end: int) -> nat
    decreases end,
{
    if end <= 0 {
        0
    } else {
        valid_before(streams, end - 1) + if streams[end - 1] is Valid {
            1nat
        } else {
            0nat
        }
    }
}

/// Texts of the pairs of a metadata list.
pub open spec fn pairs_view(pairs: Seq<(String, String)>) -> Seq<(Seq<char>, Seq<char>)> {
    Seq::new(pairs.len(), |index: int| (pairs[index].0@, pairs[index].1@))
}

/// What a source is to the controller: the entries of its streams and the
/// metadata of its container.
pub struct InputView {
    pub streams: Seq<InputStream>,
    pub metadata: Seq<(Seq<char>, Seq<char>)>,
}

impl InputView {
    /// Number of stored streams.
    pub open spec fn count_valid(self) -> nat {
        valid_before(self.streams, self.streams.len() as int)
    }

    /// The mappings are dense: each stored stream has the number of stored
    /// streams before it as its mapping. So they start at 0, rise with the
    /// source's order and leave no gap.
    pub open spec fn wf(self) -> bool {
        &&& self.streams.len() <= u32::MAX
        &&& forall|index: int|
            0 <= index < self.streams.len() ==> (#[trigger] self.streams[index] matches InputStream::Valid {
                mapping,
                ..
            } ==> mapping == valid_before(self.streams, index))
    }
}

/// The source of a run: one entry for each stream that it declares, and its
/// metadata. Made once, when the source has been opened, and read by every
/// file that is opened after that.
pub struct Input {
    streams: Vec<InputStream>,
    count_valid_streams: u32,
    metadata: Vec<(String, String)>,
}

impl View for Input {
    type V = InputView;

    closed spec fn view(&self) -> InputView {
        InputView { streams: self.streams@, metadata: pairs_view(self.metadata@) }
    }
}

/// The count of stored streams never exceeds the count of streams.
pub proof fn lemma_valid_before_bounded(streams: Seq<InputStream>, end: int)
    requires
        0 <= end,
    ensures
        valid_before(streams, end) <= end,
    decreases end,
{
    if end > 0 {
        lemma_valid_before_bounded(streams, end - 1);
    }
}

/// The count of stored streams does not fall as more entries are counted.
pub proof fn lemma_valid_before_monotonic(streams: Seq<InputStream>, start: int, end: int)
    requires
        0 <= start <= end,
    ensures
        valid_before(streams, start) <= valid_before(streams, end),
    decreases end - start,
{
    if start < end {
        lemma_valid_before_monotonic(streams, start, end - 1);
    }
}

/// Counting stored streams among declared ones and among their entries
/// gives the same number.
pub proof fn lemma_classify_counts(declared: Seq<SourceStream>, end: int)
    requires
        0 <= end <= declared.len(),
    ensures
        valid_before(classify(declared), end) == worthy_before(declared, end),
        worthy_before(declared, end) <= end,
    decreases end,
{
    if end > 0 {
        lemma_classify_counts(declared, end - 1);
    }
}

/// Classifying gives dense mappings.
pub proof fn law_classify_is_dense(
    declared: Seq<SourceStream>,
    metadata: Seq<(Seq<char>, Seq<char>)>,
)
    requires
        declared.len() <= u32::MAX,
    ensures
        (InputView { streams: classify(declared), metadata }).wf(),
{
    let streams = classify(declared);
    assert forall|index: int| 0 <= index < streams.len() implies (
    #[trigger] streams[index] matches InputStream::Valid { mapping, .. } ==> mapping
        == valid_before(streams, index)) by {
        lemma_classify_counts(declared, index);
    }
}

/// Of dense mappings: a stored stream that comes later in the source has a
/// larger mapping, and every mapping is below the count of stored streams.
pub proof fn law_mappings_ascend(input: InputView, earlier: int, later: int)
    requires
        input.wf(),
        0 <= earlier < later < input.streams.len(),
        input.streams[earlier] is Valid,
        input.streams[later] is Valid,
    ensures
        input.streams[earlier]->mapping < input.streams[later]->mapping,
        input.streams[later]->mapping < input.count_valid(),
{
    lemma_valid_before_monotonic(input.streams, earlier + 1, later);
    lemma_valid_before_monotonic(input.streams, later + 1, input.streams.len() as int);
}

impl Input {
    /// What holds of every source: the mappings are dense and the count of
    /// stored streams is kept.
    #[verifier::type_invariant]
    spec fn well_formed(&self) -> bool {
        &&& self@.wf()
        &&& self.count_valid_streams == self@.count_valid()
    }

    /// Makes the entries for the streams that a source declares, with its
    /// metadata. Audio, video and subtitle streams are stored and numbered
    /// from 0 in the order of the source; every other stream is left out.
    pub fn new(declared: &Vec<SourceStream>, metadata: Vec<(String, String)>) -> (input: Input)
        requires
            declared.len() <= u32::MAX,
        ensures
            input@.wf(),
            input@.streams == classify(declared@),
            input@.metadata == pairs_view(metadata@),
    {
        let mut streams: Vec<InputStream> = Vec::new();
        let mut count_valid_streams: u32 = 0;
        let mut index: usize = 0;
        while index < declared.len()
            invariant
                declared.len() <= u32::MAX,
                index <= declared.len(),
                streams.len() == index,
                count_valid_streams == worthy_before(declared@, index as int),
                count_valid_streams <= index,
                forall|at: int| 0 <= at < index ==> streams[at] == classify_one(declared@, at),
            decreases declared.len() - index,
        {
            let stream = declared[index];
            let entry = match stream.parameter.medium {
                Medium::Audio | Medium::Video | Medium::Subtitle => {
                    let mapping = count_valid_streams;
                    count_valid_streams += 1;
                    InputStream::Valid {
                        mapping,
                        time_base: stream.time_base,
                        parameter: stream.parameter,
                    }
                },
                _ => InputStream::Invalid,
            };
            streams.push(entry);
            index += 1;
        }
        proof {
            assert(streams@ =~= classify(declared@));
            law_classify_is_dense(declared@, pairs_view(metadata@));
            lemma_classify_counts(declared@, declared.len() as int);
        }
        Input { streams, count_valid_streams, metadata }
    }

    /// Number of streams that the source declares.
    pub fn len(&self) -> (len: usize)
        ensures
            self@.wf(),
            len == self@.streams.len(),
    {
        proof {
            use_type_invariant(self);
        }
        self.streams.len()
    }

    /// The entry of the stream `index` of the source, or `None` where the
    /// source declares no such stream.
    pub fn get(&self, index: usize) -> (entry: Option<InputStream>)
        ensures
            self@.wf(),
            entry == (if index < self@.streams.len() {
                Some(self@.streams[index as int])
            } else {
                None
            }),
    {
        proof {
            use_type_invariant(self);
        }
        if index < self.streams.len() {
            Some(self.streams[index])
        } else {
            None
        }
    }

    /// Number of streams that are stored.
    pub fn count_valid_streams(&self) -> (count: u32)
        ensures
            self@.wf(),
            count == self@.count_valid(),
    {
        proof {
            use_type_invariant(self);
        }
        self.count_valid_streams
    }

    /// The metadata of the source's container.
    pub fn metadata(&self) -> (metadata: &Vec<(String, String)>)
        ensures
            pairs_view(metadata@) == self@.metadata,
    {
        &self.metadata
    }

    /// A copy of the metadata, pair by pair, for a file that is opened.
    pub fn copy_metadata(&self) -> (copy: Vec<(String, String)>)
        ensures
            pairs_view(copy@) == self@.metadata,
    {
        let mut copy: Vec<(String, String)> = Vec::new();
        let mut index: usize = 0;
        while index < self.metadata.len()
            invariant
                index <= self.metadata.len(),
                copy.len() == index,
                forall|at: int|
                    0 <= at < index ==> copy[at].0@ == self.metadata[at].0@ && copy[at].1@
                        == self.metadata[at].1@,
            decreases self.metadata.len() - index,
        {
            let pair = &self.metadata[index];
            copy.push((pair.0.clone(), pair.1.clone()));
            index += 1;
        }
        proof {
            assert(pairs_view(copy@) =~= pairs_view(self.metadata@));
        }
        copy
    }
}

} // verus!
