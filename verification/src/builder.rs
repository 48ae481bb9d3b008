//! The settings of one encode, collected step by step.

use vstd::prelude::*;
use crate::input::InputData;
use crate::level::BpsLevel;
use crate::sample::IntoSample;
use crate::tags::{c_text, decimal, decimal_text, signed_decimal, signed_decimal_text, to_c_text};

verus! {

/// A tag as the codec will take it: key and value.
pub type Tag = (Seq<char>, Seq<char>);

/// What a builder holds, as plain values.
pub struct Settings<'data, Sample: IntoSample> {
    /// The samples to encode.
    pub data: InputData<'data, Sample>,
    /// The bit depth the samples are quantized to.
    pub bps: BpsLevel,
    /// The sample rate in Hz.
    pub sample_rate: u32,
    /// The compression level, handed to the codec as it is.
    pub compression_level: u32,
    /// The number of bytes set aside in the padding block.
    pub padding: u32,
    /// The tags, in the order in which they were added.
    pub comments: Seq<Tag>,
    /// The path of the output file, or `None` where the output is a buffer.
    pub output: Option<Seq<char>>,
}

impl<'data, Sample: IntoSample> Settings<'data, Sample> {
    /// The settings with the output set to the file at `path`.
    pub open spec fn to_file(self, path: Seq<char>) -> Self {
        Settings { output: Some(path), ..self }
    }

    /// The settings with the tag `key`, `value` added behind the others.
    pub open spec fn with_comment(self, key: Seq<char>, value: Seq<char>) -> Self {
        Settings { comments: self.comments.push((c_text(key), c_text(value))), ..self }
    }
}

/// The texts of a list of tags.
pub open spec fn tag_texts(tags: Seq<(String, String)>) -> Seq<Tag> {
    tags.map_values(|tag: (String, String)| (tag.0@, tag.1@))
}

/// Collects the settings of one encode: the samples, how to quantize and
/// compress them, and the tags to store with them.
///
/// The samples are borrowed, never copied. Each setter takes the builder and
/// gives it back changed in that one setting.
pub struct FlacBuilder<'data, Sample> where Sample: IntoSample {
    pub(crate) data: InputData<'data, Sample>,
    pub(crate) bps: BpsLevel,
    pub(crate) sample_rate: u32,
    pub(crate) compression_level: u32,
    pub(crate) padding: u32,
    pub(crate) vorbis_comments: Vec<(String, String)>,
    pub(crate) output: Option<String>,
}

impl<'data, Sample: IntoSample> View for FlacBuilder<'data, Sample> {
    type V = Settings<'data, Sample>;

    open(crate) spec fn view(&self) -> Settings<'data, Sample> {
        Settings {
            data: self.data,
            bps: self.bps,
            sample_rate: self.sample_rate,
            compression_level: self.compression_level,
            padding: self.padding,
            comments: tag_texts(self.vorbis_comments@),
            output: match self.output {
                Some(path) => Some(path@),
                None => None,
            },
        }
    }
}

impl<'data, Sample: IntoSample> FlacBuilder<'data, Sample> {
    /// The settings a new builder starts from: 16 bits, compression level 5,
    /// 500 bytes of padding, no tags, output into a buffer.
    pub open spec fn initial(data: InputData<'data, Sample>, sample_rate: u32) -> Settings<
        'data,
        Sample,
    > {
        Settings {
            data,
            bps: BpsLevel::Bps16,
            sample_rate,
            compression_level: 5,
            padding: 500,
            comments: Seq::empty(),
            output: None,
        }
    }

    /// A builder for planar data: one sequence of samples per channel.
    pub fn from_planar(data: &'data [Vec<Sample>], sample_rate: u32) -> (builder: Self)
        ensures
            builder@ == Self::initial(InputData::Planar(data), sample_rate),
    {
        Self::new(InputData::Planar(data), sample_rate)
    }

    /// A builder for interleaved data: one sequence, the `channels` samples of
    /// each frame side by side.
    pub fn from_interleaved(data: &'data [Sample], channels: usize, sample_rate: u32) -> (builder:
        Self)
        ensures
            builder@ == Self::initial(InputData::Interleaved { data, channels }, sample_rate),
    {
        Self::new(InputData::Interleaved { data, channels }, sample_rate)
    }

    fn new(data: InputData<'data, Sample>, sample_rate: u32) -> (builder: Self)
        ensures
            builder@ == Self::initial(data, sample_rate),
    {
        let builder = FlacBuilder {
            data,
            sample_rate,
            bps: BpsLevel::Bps16,
            compression_level: 5,
            padding: 500,
            vorbis_comments: Vec::new(),
            output: None,
        };
        assert(builder@.comments =~= Seq::empty());
        builder
    }

    /// Sets the compression level. The codec decides which levels it takes.
    pub fn compression_level(self, level: u32) -> (builder: Self)
        ensures
            builder@ == (Settings { compression_level: level, ..self@ }),
    {
        let mut builder = self;
        builder.compression_level = level;
        builder
    }

    /// Sets the bit depth.
    pub fn bps(self, bps: BpsLevel) -> (builder: Self)
        ensures
            builder@ == (Settings { bps, ..self@ }),
    {
        let mut builder = self;
        builder.bps = bps;
        builder
    }

    /// Sets the size of the padding block in bytes.
    pub fn padding(self, padding: u32) -> (builder: Self)
        ensures
            builder@ == (Settings { padding, ..self@ }),
    {
        let mut builder = self;
        builder.padding = padding;
        builder
    }

    /// Sets the output to the file at `path`. Without it the output is a
    /// buffer. The path is checked when the encode starts.
    pub fn output_path(self, path: &str) -> (builder: Self)
        ensures
            builder@ == self@.to_file(path@),
    {
        let mut builder = self;
        builder.output = Some(path.to_owned());
        builder
    }

    /// Adds the tag `ARTIST`.
    pub fn artist(self, artist: &str) -> (builder: Self)
        ensures
            builder@ == self@.with_comment("ARTIST"@, artist@),
    {
        self.vorbis_comment("ARTIST", artist)
    }

    /// Adds the tag `ALBUM`.
    pub fn album(self, album: &str) -> (builder: Self)
        ensures
            builder@ == self@.with_comment("ALBUM"@, album@),
    {
        self.vorbis_comment("ALBUM", album)
    }

    /// Adds the tag `TITLE`.
    pub fn title(self, title: &str) -> (builder: Self)
        ensures
            builder@ == self@.with_comment("TITLE"@, title@),
    {
        self.vorbis_comment("TITLE", title)
    }

    /// Adds the tag `YEAR`, the year written in decimal.
    pub fn year(self, year: u32) -> (builder: Self)
        ensures
            builder@ == self@.with_comment("YEAR"@, decimal(year as nat)),
    {
        let text = decimal_text(year as u64);
        self.vorbis_comment("YEAR", text.as_str())
    }

    /// Adds the tag `TRACKNUMBER`, the number written in decimal.
    pub fn track_number(self, number: i32) -> (builder: Self)
        ensures
            builder@ == self@.with_comment("TRACKNUMBER"@, signed_decimal(number as int)),
    {
        let text = signed_decimal_text(number);
        self.vorbis_comment("TRACKNUMBER", text.as_str())
    }

    /// Adds a tag behind those already there. Keys may repeat. A key or a
    /// value that holds a NUL is replaced by the empty text.
    pub fn vorbis_comment(self, key: &str, value: &str) -> (builder: Self)
        ensures
            builder@ == self@.with_comment(key@, value@),
    {
        let mut builder = self;
        let ghost before = builder.vorbis_comments@;
        builder.vorbis_comments.push((to_c_text(key), to_c_text(value)));
        assert(tag_texts(builder.vorbis_comments@) =~= tag_texts(before).push(
            (c_text(key@), c_text(value@)),
        ));
        builder
    }

    /// The samples to encode.
    pub fn data(&self) -> (data: &InputData<'data, Sample>)
        ensures
            *data == self@.data,
    {
        &self.data
    }

    /// The bit depth the samples are quantized to.
    pub fn bit_depth(&self) -> (bps: BpsLevel)
        ensures
            bps == self@.bps,
    {
        self.bps
    }

    /// The path of the output file, or `None` where the output is a buffer.
    pub fn output(&self) -> (path: Option<&str>)
        ensures
            path is Some <==> self@.output is Some,
            path matches Some(p) ==> self@.output == Some(p@),
    {
        match &self.output {
            Some(path) => Some(path.as_str()),
            None => None,
        }
    }

    /// The number of tags.
    pub fn comment_count(&self) -> (count: usize)
        ensures
            count == self@.comments.len(),
    {
        self.vorbis_comments.len()
    }

    /// The tag at `index`, key and value, if there is one.
    pub fn comment(&self, index: usize) -> (tag: Option<(&str, &str)>)
        ensures
            tag is Some <==> index < self@.comments.len(),
            tag matches Some(t) ==> (t.0@, t.1@) == self@.comments[index as int],
    {
        if index < self.vorbis_comments.len() {
            let tag = &self.vorbis_comments[index];
            Some((tag.0.as_str(), tag.1.as_str()))
        } else {
            None
        }
    }
}

/// The keys of the named tags are plain text: as tags they stand for
/// themselves.
pub proof fn lemma_named_keys_are_plain()
    ensures
        c_text("ARTIST"@) == "ARTIST"@,
        c_text("ALBUM"@) == "ALBUM"@,
        c_text("TITLE"@) == "TITLE"@,
        c_text("YEAR"@) == "YEAR"@,
        c_text("TRACKNUMBER"@) == "TRACKNUMBER"@,
{
    reveal_strlit("ARTIST");
    reveal_strlit("ALBUM");
    reveal_strlit("TITLE");
    reveal_strlit("YEAR");
    reveal_strlit("TRACKNUMBER");
    assert("ARTIST"@ =~= seq!['A', 'R', 'T', 'I', 'S', 'T']);
    assert("ALBUM"@ =~= seq!['A', 'L', 'B', 'U', 'M']);
    assert("TITLE"@ =~= seq!['T', 'I', 'T', 'L', 'E']);
    assert("YEAR"@ =~= seq!['Y', 'E', 'A', 'R']);
    assert("TRACKNUMBER"@ =~= seq!['T', 'R', 'A', 'C', 'K', 'N', 'U', 'M', 'B', 'E', 'R']);
}

} // verus!
