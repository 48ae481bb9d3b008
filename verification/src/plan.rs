//! The calls of one encode, in order.
//!
//! An encode is a fixed list of calls into the codec, known once the settings
//! are: configure the encoder, assemble the metadata, open the output, hand
//! over the samples block by block, finish, release the metadata. The codec
//! decides only how far down the list the encode gets.

use vstd::prelude::*;
use crate::builder::Settings;
use crate::error::Failure;
use crate::sample::IntoSample;

verus! {

/// The number of frames in every block but the last.
pub const BLOCK_FRAMES: usize = 1024;

/// One call into the codec, with the plain values it is made with.
#[derive(Debug, Clone, Copy, PartialEq, Eq, Structural)]
pub enum CodecCall {
    /// Allocate the encoder.
    NewEncoder,
    /// Switch verification of the encoded stream on or off.
    SetVerify(bool),
    /// Set the compression level.
    SetCompressionLevel(u32),
    /// Set the number of channels.
    SetChannels(u32),
    /// Set the bit depth.
    SetBitsPerSample(u32),
    /// Set the sample rate in Hz.
    SetSampleRate(u32),
    /// Tell the codec how many samples to expect.
    SetTotalSamplesEstimate(u64),
    /// Hand the codec an empty list of metadata blocks.
    ClearMetadata,
    /// Allocate the block that holds the tags.
    NewCommentBlock,
    /// Build the entry for the tag at this index from its key and value.
    MakeCommentEntry(usize),
    /// Append the entry of the tag at this index to the comment block.
    AppendCommentEntry(usize),
    /// Allocate the padding block, of this many bytes.
    NewPaddingBlock(u32),
    /// Hand the codec the metadata blocks allocated so far, in order.
    SetMetadata,
    /// Open the output as a stream into a buffer.
    InitStream,
    /// Open the output as a file.
    InitFile,
    /// Hand over the block of `frames` frames that starts at frame `cursor`.
    ProcessInterleaved { cursor: usize, frames: u32 },
    /// Flush and close the stream.
    Finish,
    /// Delete every metadata block that was allocated.
    ReleaseMetadata,
}

impl CodecCall {
    /// Whether a refusal of the call ends the encode. The padding block is
    /// left out if it cannot be had, and if the output cannot be opened the
    /// first block fails; the release returns nothing.
    pub open spec fn may_fail(self) -> bool {
        !(self is NewPaddingBlock || self is InitStream || self is InitFile
            || self is ReleaseMetadata)
    }

    /// Whether a refusal of the call ends the encode.
    pub fn is_fallible(&self) -> (fallible: bool)
        ensures
            fallible == self.may_fail(),
    {
        match self {
            CodecCall::NewPaddingBlock(_) => false,
            CodecCall::InitStream => false,
            CodecCall::InitFile => false,
            CodecCall::ReleaseMetadata => false,
            _ => true,
        }
    }
}

/// The calls that configure the encoder.
pub open spec fn setup_calls(
    level: u32,
    channels: u32,
    bits: u32,
    rate: u32,
    total: u64,
) -> Seq<CodecCall> {
    seq![
        CodecCall::NewEncoder,
        CodecCall::SetVerify(true),
        CodecCall::SetCompressionLevel(level),
        CodecCall::SetChannels(channels),
        CodecCall::SetBitsPerSample(bits),
        CodecCall::SetSampleRate(rate),
        CodecCall::SetTotalSamplesEstimate(total),
    ]
}

/// The calls that put `tags` tags into a comment block: the block, then for
/// each tag in order its entry and the appending of it. Without tags there is
/// no comment block, and the codec's list of metadata is cleared instead.
pub open spec fn tag_calls(tags: nat) -> Seq<CodecCall> {
    if tags == 0 {
        seq![CodecCall::ClearMetadata]
    } else {
        seq![CodecCall::NewCommentBlock] + Seq::new(
            2 * tags,
            |j: int|
                if j % 2 == 0 {
                    CodecCall::MakeCommentEntry((j / 2) as usize)
                } else {
                    CodecCall::AppendCommentEntry((j / 2) as usize)
                },
        )
    }
}

/// The number of blocks that `frames` frames are handed over in.
pub open spec fn block_count(frames: nat) -> nat {
    (frames + BLOCK_FRAMES - 1) as nat / (BLOCK_FRAMES as nat)
}

/// The number of frames in block `k` of `frames` frames: a full block, or
/// what is left for the last.
pub open spec fn block_frames(frames: nat, k: nat) -> nat {
    if frames - k * BLOCK_FRAMES >= BLOCK_FRAMES {
        BLOCK_FRAMES as nat
    } else {
        (frames - k * BLOCK_FRAMES) as nat
    }
}

/// The calls that hand over `frames` frames, block by block.
pub open spec fn block_calls(frames: nat) -> Seq<CodecCall> {
    Seq::new(
        block_count(frames),
        |k: int|
            CodecCall::ProcessInterleaved {
                cursor: (k * BLOCK_FRAMES) as usize,
                frames: block_frames(frames, k as nat) as u32,
            },
    )
}

impl<'data, Sample: IntoSample> Settings<'data, Sample> {
    /// What is wrong with the settings before any call is made, if anything:
    /// channels of different lengths, then no samples at all, then more
    /// channels or samples than the codec's parameters can hold.
    pub open spec fn defect(self) -> Option<Failure> {
        if !self.data.spec_channel_sizes_match() {
            Some(Failure::MismatchedSampleCountPerChannels)
        } else if self.data.spec_total_samples() == 0 {
            Some(Failure::NoData)
        } else if self.data.spec_channel_count() > u32::MAX {
            Some(Failure::InvalidChannelCount)
        } else if self.data.spec_total_samples() > usize::MAX {
            Some(Failure::TooManyOrTooFewSamples)
        } else {
            None
        }
    }

    /// The calls that set up the metadata: the tags, the padding block, and
    /// the handing over of both.
    pub open spec fn metadata_calls(self) -> Seq<CodecCall> {
        tag_calls(self.comments.len()) + seq![
            CodecCall::NewPaddingBlock(self.padding),
            CodecCall::SetMetadata,
        ]
    }

    /// Every call of an encode with these settings, in order.
    pub open spec fn plan(self) -> Seq<CodecCall> {
        setup_calls(
            self.compression_level,
            self.data.spec_channel_count() as u32,
            self.bps.bits() as u32,
            self.sample_rate,
            self.data.spec_total_samples() as u64,
        ) + self.metadata_calls() + seq![
            if self.output is Some {
                CodecCall::InitFile
            } else {
                CodecCall::InitStream
            },
        ] + block_calls(self.data.spec_samples_per_channel()) + seq![
            CodecCall::Finish,
            CodecCall::ReleaseMetadata,
        ]
    }

    /// The error that the encode ends in when the codec refuses `call`.
    pub open spec fn failure_of(self, call: CodecCall) -> Failure {
        match call {
            CodecCall::NewEncoder => Failure::InitializationError,
            CodecCall::SetVerify(_) => Failure::VerificationError,
            CodecCall::SetCompressionLevel(_) => Failure::InvalidCompressionLevel,
            CodecCall::SetChannels(_) => Failure::InvalidChannelCount,
            CodecCall::SetBitsPerSample(_) => Failure::InvalidSampleType,
            CodecCall::SetSampleRate(_) => Failure::InvalidSampleRate,
            CodecCall::SetTotalSamplesEstimate(_) => Failure::TooManyOrTooFewSamples,
            CodecCall::ClearMetadata => Failure::FailedToSetMetadata,
            CodecCall::NewCommentBlock => Failure::InitializationError,
            CodecCall::MakeCommentEntry(index) => Failure::InvalidVorbisComment(
                self.comments[index as int].0,
            ),
            CodecCall::AppendCommentEntry(_) => Failure::FailedToSetMetadata,
            CodecCall::SetMetadata => Failure::FailedToSetMetadata,
            _ => Failure::EncodingError,
        }
    }
}

} // verus!

verus! {

impl<'data, Sample: IntoSample> Settings<'data, Sample> {
    /// The place in the plan of the call that allocates the padding block:
    /// behind the seven calls of the setup and the calls for the tags.
    pub open spec fn padding_at(self) -> int {
        7 + tag_calls(self.comments.len()).len() as int
    }

    /// The place in the plan of the call that builds the entry of tag `i`.
    pub open spec fn entry_at(i: int) -> int {
        8 + 2 * i
    }

    /// The place in the plan of the first block.
    pub open spec fn first_block_at(self) -> int {
        self.padding_at() + 3
    }

    /// The place in the plan of the call that finishes the stream.
    pub open spec fn finish_at(self) -> int {
        self.first_block_at() + block_count(self.data.spec_samples_per_channel()) as int
    }

    /// The plan begins with the setup, goes on with the metadata and the
    /// opening of the output, and ends with the finish and the release; the
    /// release is its last call.
    pub proof fn lemma_plan_landmarks(self)
        ensures
            self.plan().len() == self.finish_at() + 2,
            self.plan().subrange(0, 7) == setup_calls(
                self.compression_level,
                self.data.spec_channel_count() as u32,
                self.bps.bits() as u32,
                self.sample_rate,
                self.data.spec_total_samples() as u64,
            ),
            self.comments.len() == 0 ==> self.padding_at() == 8 && self.plan()[7]
                == CodecCall::ClearMetadata,
            self.comments.len() > 0 ==> self.padding_at() == 8 + 2 * self.comments.len()
                && self.plan()[7] == CodecCall::NewCommentBlock,
            self.plan()[self.padding_at()] == CodecCall::NewPaddingBlock(self.padding),
            self.plan()[self.padding_at() + 1] == CodecCall::SetMetadata,
            self.plan()[self.padding_at() + 2] == if self.output is Some {
                CodecCall::InitFile
            } else {
                CodecCall::InitStream
            },
            self.plan()[self.finish_at()] == CodecCall::Finish,
            self.plan()[self.finish_at() + 1] == CodecCall::ReleaseMetadata,
    {
        let setup = setup_calls(
            self.compression_level,
            self.data.spec_channel_count() as u32,
            self.bps.bits() as u32,
            self.sample_rate,
            self.data.spec_total_samples() as u64,
        );
        assert(self.plan().subrange(0, 7) =~= setup);
    }

    /// Tag `i` takes two calls in a row: its entry is built, then appended.
    /// The tags come in their order, behind the call for the comment block.
    pub proof fn lemma_plan_tag(self, i: int)
        requires
            0 <= i < self.comments.len(),
        ensures
            self.plan()[Self::entry_at(i)] == CodecCall::MakeCommentEntry(i as usize),
            self.plan()[Self::entry_at(i) + 1] == CodecCall::AppendCommentEntry(
                i as usize,
            ),
            Self::entry_at(i) + 1 < self.padding_at(),
    {
        let tags = tag_calls(self.comments.len());
        assert(tags[1 + 2 * i] == CodecCall::MakeCommentEntry(i as usize));
        assert(tags[2 + 2 * i] == CodecCall::AppendCommentEntry(i as usize));
    }

    /// Block `k` starts at frame `k * 1024` and holds 1024 frames, or what is
    /// left of the input if that is less.
    pub proof fn lemma_plan_block(self, k: int)
        requires
            0 <= k < block_count(self.data.spec_samples_per_channel()),
        ensures
            self.plan()[self.first_block_at() + k] == (CodecCall::ProcessInterleaved {
                cursor: (k * BLOCK_FRAMES) as usize,
                frames: block_frames(self.data.spec_samples_per_channel(), k as nat) as u32,
            }),
            self.first_block_at() + k < self.finish_at(),
    {
    }
}

/// The blocks of an input cover it without gap or overlap: each starts where
/// the one before ended, none is empty or holds more than 1024 frames, and
/// the last ends with the input.
pub proof fn lemma_blocks_cover_input(frames: nat, k: nat)
    requires
        k < block_count(frames),
    ensures
        1 <= block_frames(frames, k) <= BLOCK_FRAMES,
        k * BLOCK_FRAMES + block_frames(frames, k) <= frames,
        k + 1 < block_count(frames) ==> block_frames(frames, k) == BLOCK_FRAMES,
        k + 1 == block_count(frames) ==> k * BLOCK_FRAMES + block_frames(frames, k) == frames,
{
}

} // verus!
