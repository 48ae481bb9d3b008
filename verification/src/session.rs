//! One encode, stepped through call by call.
//!
//! A session knows which call into the codec is due. Whoever drives it makes
//! that call and reports whether the codec accepted it; the session then
//! says which call is due next, until none is. The first refusal that
//! matters ends the encode: only the release of the metadata is still made,
//! and the outcome is the error that belongs to the refused call.

use vstd::prelude::*;
use crate::block::{interleaved, lemma_interleaved_splits, quantize_frames};
use crate::builder::{FlacBuilder, Settings};
use crate::error::{EncoderError, Failure};
use crate::plan::{block_count, block_frames, lemma_blocks_cover_input, CodecCall, BLOCK_FRAMES};
use crate::sample::IntoSample;
use crate::tags::{has_nul, holds_nul};

verus! {

/// How far an encode has come.
#[derive(Debug, Clone, Copy, PartialEq, Eq, Structural)]
pub enum Phase {
    /// Settings are still being collected; no session exists yet.
    Unconfigured,
    /// The settings passed validation and the codec is being configured.
    Validated,
    /// The codec is configured and its output is open; no block was accepted
    /// yet.
    CodecConfigured,
    /// At least one block was accepted, and the stream is not finished.
    Streaming,
    /// The stream was finished without an error.
    Finished,
    /// A call was refused.
    Failed,
}

impl Phase {
    /// The place of the phase in the order in which an encode passes through
    /// the phases.
    pub open spec fn rank(self) -> nat {
        match self {
            Phase::Unconfigured => 0,
            Phase::Validated => 1,
            Phase::CodecConfigured => 2,
            Phase::Streaming => 3,
            Phase::Finished => 4,
            Phase::Failed => 5,
        }
    }
}

/// The state of a session as plain values.
pub struct Course<'data, Sample: IntoSample> {
    /// The settings of the encode.
    pub settings: Settings<'data, Sample>,
    /// The number of calls of the plan that are behind the session.
    pub position: nat,
    /// The error of the call that ended the encode, if one did.
    pub failure: Option<Failure>,
}

impl<'data, Sample: IntoSample> Course<'data, Sample> {
    /// Every call of the encode, in order.
    pub open spec fn plan(self) -> Seq<CodecCall> {
        self.settings.plan()
    }

    /// The call that is due, or `None` when the encode is over.
    pub open spec fn pending(self) -> Option<CodecCall> {
        if self.position < self.plan().len() {
            Some(self.plan()[self.position as int])
        } else {
            None
        }
    }

    /// The state after the codec has answered the call that is due.
    ///
    /// If it accepted the call, or the call is one whose refusal does not
    /// matter, the next call of the plan is due. If not, the error of the
    /// refused call is kept and only the last call of the plan, the release
    /// of the metadata, is still due. When no call is due nothing changes.
    pub open spec fn advanced(self, accepted: bool) -> Self {
        if self.position >= self.plan().len() {
            self
        } else if accepted || !self.plan()[self.position as int].may_fail() {
            Course { position: self.position + 1, ..self }
        } else {
            Course {
                position: (self.plan().len() - 1) as nat,
                failure: Some(self.settings.failure_of(self.plan()[self.position as int])),
                ..self
            }
        }
    }

    /// How the encode ended, or `None` while a call is due.
    pub open spec fn outcome(self) -> Option<Result<(), Failure>> {
        if self.position < self.plan().len() {
            None
        } else {
            match self.failure {
                Some(failure) => Some(Err(failure)),
                None => Some(Ok(())),
            }
        }
    }

    /// How far the encode has come.
    pub open spec fn phase(self) -> Phase {
        if self.failure is Some {
            Phase::Failed
        } else if self.position < self.settings.first_block_at() {
            Phase::Validated
        } else if self.position == self.settings.first_block_at() {
            Phase::CodecConfigured
        } else if self.position <= self.settings.finish_at() {
            Phase::Streaming
        } else {
            Phase::Finished
        }
    }

    /// The samples of the block that is due, or nothing if no block is due.
    pub open spec fn block(self) -> Seq<i32> {
        match self.pending() {
            Some(CodecCall::ProcessInterleaved { cursor, frames }) => interleaved(
                self.settings.data,
                self.settings.bps,
                cursor as nat,
                frames as nat,
            ),
            _ => Seq::empty(),
        }
    }
}

impl<'data, Sample: IntoSample> Course<'data, Sample> {
    /// Whether the state is one that a session can be in: it stands inside
    /// the plan or at its end, and if a call was refused only the release is
    /// still due, or nothing.
    pub open spec fn reachable(self) -> bool {
        &&& self.position <= self.plan().len()
        &&& self.failure is Some ==> self.position + 1 >= self.plan().len()
    }

    /// The state after the codec has answered one call after the other with
    /// `answers`.
    pub open spec fn run(self, answers: Seq<bool>) -> Self
        decreases answers.len(),
    {
        if answers.len() == 0 {
            self
        } else {
            self.advanced(answers[0]).run(answers.drop_first())
        }
    }

    /// An encode starts in a state that a session can be in, and every answer
    /// leads to such a state again.
    pub proof fn lemma_reachable_is_kept(self, accepted: bool)
        requires
            self.reachable(),
        ensures
            self.settings.start().reachable(),
            self.advanced(accepted).reachable(),
            self.advanced(accepted).settings == self.settings,
    {
        self.settings.lemma_plan_landmarks();
    }

    /// The release of the metadata is the last call of the plan and occurs
    /// nowhere else in it.
    pub proof fn lemma_release_is_last(self, at: int)
        requires
            0 <= at < self.plan().len(),
        ensures
            self.plan()[at] == CodecCall::ReleaseMetadata <==> at == self.plan().len() - 1,
    {
        let settings = self.settings;
        let tags = settings.comments.len() as int;
        settings.lemma_plan_landmarks();
        if at < 7 {
            assert(self.plan()[at] == self.plan().subrange(0, 7)[at]);
        } else if at < settings.padding_at() {
            if tags > 0 && at >= 8 {
                let i = (at - 8) / 2;
                settings.lemma_plan_tag(i);
            }
        } else if settings.first_block_at() <= at < settings.finish_at() {
            settings.lemma_plan_block(at - settings.first_block_at());
        }
    }

    /// The first refusal that matters ends the encode: the release of the
    /// metadata is the one call that is still made, whatever call was refused,
    /// and the encode then ends in the error of the refused call.
    pub proof fn lemma_refusal_ends_encode(self, released: bool)
        requires
            self.reachable(),
            self.failure is None,
            self.pending() matches Some(call) && call.may_fail(),
        ensures
            self.advanced(false).pending() == Some(CodecCall::ReleaseMetadata),
            self.advanced(false).phase() == Phase::Failed,
            self.advanced(false).advanced(released).pending() is None,
            self.advanced(false).advanced(released).outcome() == Some(
                Err::<(), Failure>(self.settings.failure_of(self.pending()->0)),
            ),
    {
        self.settings.lemma_plan_landmarks();
    }

    /// When the codec rejects the entry of a tag, the encode ends in the
    /// error that carries the key of that very tag, and no call for any
    /// other tag is made after it.
    pub proof fn lemma_rejected_tag_is_named(self, index: usize, released: bool)
        requires
            self.reachable(),
            self.failure is None,
            index < self.settings.comments.len(),
            self.position == Settings::<Sample>::entry_at(index as int),
        ensures
            self.pending() == Some(CodecCall::MakeCommentEntry(index)),
            self.advanced(false).pending() == Some(CodecCall::ReleaseMetadata),
            self.advanced(false).advanced(released).outcome() == Some(
                Err::<(), Failure>(
                    Failure::InvalidVorbisComment(self.settings.comments[index as int].0),
                ),
            ),
    {
        self.settings.lemma_plan_landmarks();
        self.settings.lemma_plan_tag(index as int);
        self.lemma_refusal_ends_encode(released);
    }

    /// An encode never goes back to an earlier phase, and a failed encode
    /// stays failed.
    pub proof fn lemma_phase_never_goes_back(self, accepted: bool)
        requires
            self.reachable(),
        ensures
            self.phase().rank() <= self.advanced(accepted).phase().rank(),
            self.phase() != Phase::Unconfigured,
            self.phase() == Phase::Failed ==> self.advanced(accepted).phase() == Phase::Failed,
    {
        self.settings.lemma_plan_landmarks();
        if self.position < self.plan().len() {
            self.lemma_release_is_last(self.position as int);
        }
    }

    /// While the codec accepts every call, the calls are made in the order of
    /// the plan, and when it has accepted them all the encode has ended well.
    pub proof fn lemma_accepted_run(self, answers: Seq<bool>)
        requires
            self.reachable(),
            self.failure is None,
            self.position + answers.len() <= self.plan().len(),
            forall|i: int| 0 <= i < answers.len() ==> answers[i],
        ensures
            self.run(answers) == (Course { position: self.position + answers.len(), ..self }),
            self.position + answers.len() == self.plan().len() ==> self.run(answers).outcome()
                == Some(Ok::<(), Failure>(())),
        decreases answers.len(),
    {
        if answers.len() > 0 {
            let rest = answers.drop_first();
            self.advanced(true).lemma_accepted_run(rest);
        }
    }

    /// Answers taken in two parts lead where the answers taken at once lead.
    pub proof fn lemma_run_in_parts(self, first: Seq<bool>, second: Seq<bool>)
        ensures
            self.run(first + second) == self.run(first).run(second),
        decreases first.len(),
    {
        if first.len() == 0 {
            assert(first + second =~= second);
        } else {
            assert((first + second).drop_first() =~= first.drop_first() + second);
            self.advanced(first[0]).lemma_run_in_parts(first.drop_first(), second);
        }
    }

    /// The first refusal that matters decides the outcome: when the codec
    /// has accepted the first `accepted` calls and refuses the next, the
    /// encode ends in the error of that call, whatever is answered to the
    /// release.
    pub proof fn lemma_first_refusal_decides(self, accepted: nat, released: bool)
        requires
            self == self.settings.start(),
            accepted < self.plan().len(),
            self.plan()[accepted as int].may_fail(),
        ensures
            self.run(Seq::new(accepted, |i: int| true).push(false).push(released)).outcome()
                == Some(
                Err::<(), Failure>(self.settings.failure_of(self.plan()[accepted as int])),
            ),
    {
        let before = Seq::new(accepted, |i: int| true);
        let after = seq![false, released];
        assert(before.push(false).push(released) =~= before + after);
        self.lemma_run_in_parts(before, after);
        self.lemma_accepted_run(before);
        let refused = self.run(before);
        refused.lemma_refusal_ends_encode(released);
        assert(after.drop_first() =~= seq![released]);
        assert(after.drop_first().drop_first() =~= Seq::<bool>::empty());
        assert(refused.run(after) == refused.advanced(false).advanced(released)) by {
            reveal_with_fuel(Course::run, 3);
        }
    }

    /// Whatever the codec answers, an encode is over after as many answers as
    /// the plan has calls.
    pub proof fn lemma_run_ends(self, answers: Seq<bool>)
        requires
            self.reachable(),
            self.position + answers.len() >= self.plan().len(),
        ensures
            self.run(answers).outcome() is Some,
            self.run(answers).reachable(),
        decreases answers.len(),
    {
        self.settings.lemma_plan_landmarks();
        if answers.len() > 0 {
            self.lemma_reachable_is_kept(answers[0]);
            self.advanced(answers[0]).lemma_run_ends(answers.drop_first());
        }
    }
}

impl<'data, Sample: IntoSample> Settings<'data, Sample> {
    /// The samples of block `k` of the plan.
    pub open spec fn block(self, k: nat) -> Seq<i32> {
        interleaved(
            self.data,
            self.bps,
            (k * BLOCK_FRAMES) as nat,
            block_frames(self.data.spec_samples_per_channel(), k),
        )
    }

    /// The samples of the first `blocks` blocks of the plan, one block after
    /// the other.
    pub open spec fn stream(self, blocks: nat) -> Seq<i32>
        decreases blocks,
    {
        if blocks == 0 {
            Seq::empty()
        } else {
            self.stream((blocks - 1) as nat) + self.block((blocks - 1) as nat)
        }
    }

    /// The blocks of the plan hand the input over once and in order: put
    /// together, they are the quantized samples of all frames of the input.
    pub proof fn lemma_blocks_hand_over_the_input(self, blocks: nat)
        requires
            blocks <= block_count(self.data.spec_samples_per_channel()),
        ensures
            blocks < block_count(self.data.spec_samples_per_channel()) ==> self.stream(blocks)
                == interleaved(self.data, self.bps, 0, (blocks * BLOCK_FRAMES) as nat),
            blocks == block_count(self.data.spec_samples_per_channel()) ==> self.stream(blocks)
                == interleaved(self.data, self.bps, 0, self.data.spec_samples_per_channel()),
        decreases blocks,
    {
        let frames = self.data.spec_samples_per_channel();
        if blocks == 0 {
            assert(0 * self.data.spec_channel_count() == 0) by (nonlinear_arith);
            assert(interleaved(self.data, self.bps, 0, 0) =~= Seq::<i32>::empty());
        } else {
            let k = (blocks - 1) as nat;
            self.lemma_blocks_hand_over_the_input(k);
            lemma_blocks_cover_input(frames, k);
            lemma_interleaved_splits(
                self.data,
                self.bps,
                0,
                (k * BLOCK_FRAMES) as nat,
                block_frames(frames, k),
            );
        }
    }
}

/// The call that is due, as the session keeps it.
enum Stage {
    Encoder,
    Verify,
    Compression,
    Channels,
    Bits,
    Rate,
    Estimate,
    ClearMetadata,
    CommentBlock,
    Entry(usize),
    Append(usize),
    Padding,
    SetMetadata,
    Init,
    Block(usize),
    Finish,
    Release,
    Done,
}

impl Stage {
    /// Whether the stage can occur with these settings.
    spec fn fits<Sample: IntoSample>(self, settings: Settings<'_, Sample>) -> bool {
        match self {
            Stage::ClearMetadata => settings.comments.len() == 0,
            Stage::CommentBlock => settings.comments.len() > 0,
            Stage::Entry(i) => i < settings.comments.len(),
            Stage::Append(i) => i < settings.comments.len(),
            Stage::Block(cursor) => cursor < settings.data.spec_samples_per_channel() && cursor
                % BLOCK_FRAMES == 0,
            _ => true,
        }
    }

    /// The number of calls that are behind the session at this stage.
    spec fn position<Sample: IntoSample>(self, settings: Settings<'_, Sample>) -> int {
        match self {
            Stage::Encoder => 0,
            Stage::Verify => 1,
            Stage::Compression => 2,
            Stage::Channels => 3,
            Stage::Bits => 4,
            Stage::Rate => 5,
            Stage::Estimate => 6,
            Stage::ClearMetadata => 7,
            Stage::CommentBlock => 7,
            Stage::Entry(i) => 8 + 2 * i,
            Stage::Append(i) => 9 + 2 * i,
            Stage::Padding => settings.padding_at(),
            Stage::SetMetadata => settings.padding_at() + 1,
            Stage::Init => settings.padding_at() + 2,
            Stage::Block(cursor) => settings.first_block_at() + cursor as int / BLOCK_FRAMES as int,
            Stage::Finish => settings.finish_at(),
            Stage::Release => settings.finish_at() + 1,
            Stage::Done => settings.finish_at() + 2,
        }
    }
}

/// One encode in progress: the settings, the output, and the call that is
/// due.
pub struct Session<'data, Sample> where Sample: IntoSample {
    builder: FlacBuilder<'data, Sample>,
    channels: u32,
    frames: usize,
    total: usize,
    stage: Stage,
    failure: Option<EncoderError>,
}

impl<'data, Sample: IntoSample> View for Session<'data, Sample> {
    type V = Course<'data, Sample>;

    closed spec fn view(&self) -> Course<'data, Sample> {
        Course {
            settings: self.builder@,
            position: self.stage.position(self.builder@) as nat,
            failure: match self.failure {
                Some(error) => Some(error@),
                None => None,
            },
        }
    }
}

impl<'data, Sample: IntoSample> Session<'data, Sample> {
    #[verifier::type_invariant]
    spec fn well_formed(self) -> bool {
        &&& self.builder@.defect() is None
        &&& self.channels == self.builder@.data.spec_channel_count()
        &&& self.frames == self.builder@.data.spec_samples_per_channel()
        &&& self.total == self.builder@.data.spec_total_samples()
        &&& self.stage.fits(self.builder@)
        &&& self.failure is Some ==> self.stage is Release || self.stage is Done
        &&& self.builder@.output matches Some(path) ==> !holds_nul(path)
    }

    /// The settings of the encode.
    pub fn settings(&self) -> (builder: &FlacBuilder<'data, Sample>)
        ensures
            builder@ == self@.settings,
    {
        &self.builder
    }

    /// The path of the output file, or `None` where the output is a buffer.
    /// A path never holds a NUL.
    pub fn path(&self) -> (path: Option<&str>)
        ensures
            path is Some <==> self@.settings.output is Some,
            path matches Some(p) ==> self@.settings.output == Some(p@) && !holds_nul(p@),
    {
        proof {
            use_type_invariant(self);
        }
        self.builder.output()
    }

    /// The call that is due, or `None` when the encode is over.
    pub fn pending(&self) -> (call: Option<CodecCall>)
        ensures
            call == self@.pending(),
    {
        proof {
            use_type_invariant(self);
            self.lemma_stage_in_plan();
        }
        match self.stage {
            Stage::Encoder => Some(CodecCall::NewEncoder),
            Stage::Verify => Some(CodecCall::SetVerify(true)),
            Stage::Compression => Some(
                CodecCall::SetCompressionLevel(self.builder.compression_level),
            ),
            Stage::Channels => Some(CodecCall::SetChannels(self.channels)),
            Stage::Bits => Some(CodecCall::SetBitsPerSample(self.builder.bps.to_u32())),
            Stage::Rate => Some(CodecCall::SetSampleRate(self.builder.sample_rate)),
            Stage::Estimate => Some(CodecCall::SetTotalSamplesEstimate(self.total as u64)),
            Stage::ClearMetadata => Some(CodecCall::ClearMetadata),
            Stage::CommentBlock => Some(CodecCall::NewCommentBlock),
            Stage::Entry(i) => Some(CodecCall::MakeCommentEntry(i)),
            Stage::Append(i) => Some(CodecCall::AppendCommentEntry(i)),
            Stage::Padding => Some(CodecCall::NewPaddingBlock(self.builder.padding)),
            Stage::SetMetadata => Some(CodecCall::SetMetadata),
            Stage::Init => if self.builder.output.is_some() {
                Some(CodecCall::InitFile)
            } else {
                Some(CodecCall::InitStream)
            },
            Stage::Block(cursor) => {
                let left = self.frames - cursor;
                let frames = if left >= BLOCK_FRAMES {
                    BLOCK_FRAMES
                } else {
                    left
                };
                Some(CodecCall::ProcessInterleaved { cursor, frames: frames as u32 })
            },
            Stage::Finish => Some(CodecCall::Finish),
            Stage::Release => Some(CodecCall::ReleaseMetadata),
            Stage::Done => None,
        }
    }

    /// Takes the codec's answer to the call that is due and moves on.
    ///
    /// `accepted` says whether the codec accepted the call. When no call is
    /// due the session stays as it is.
    pub fn advance(&mut self, accepted: bool)
        ensures
            final(self)@ == old(self)@.advanced(accepted),
    {
        proof {
            use_type_invariant(&*self);
            self.lemma_stage_in_plan();
        }
        let call = match self.pending() {
            Some(call) => call,
            None => {
                return ;
            },
        };
        if accepted || !call.is_fallible() {
            let next = self.following();
            self.stage = next;
        } else {
            let error = self.error_of(call);
            self.stage = Stage::Release;
            self.failure = Some(error);
        }
    }

    /// The stage behind the one the session is in.
    fn following(&self) -> (next: Stage)
        requires
            self.well_formed(),
            !(self.stage is Done),
        ensures
            next.fits(self.builder@),
            next.position(self.builder@) == self.stage.position(self.builder@) + 1,
            self.failure is Some ==> next is Done,
    {
        proof {
            self.lemma_stage_in_plan();
        }
        let tags = self.builder.vorbis_comments.len();
        match self.stage {
            Stage::Encoder => Stage::Verify,
            Stage::Verify => Stage::Compression,
            Stage::Compression => Stage::Channels,
            Stage::Channels => Stage::Bits,
            Stage::Bits => Stage::Rate,
            Stage::Rate => Stage::Estimate,
            Stage::Estimate => if tags == 0 {
                Stage::ClearMetadata
            } else {
                Stage::CommentBlock
            },
            Stage::ClearMetadata => Stage::Padding,
            Stage::CommentBlock => Stage::Entry(0),
            Stage::Entry(i) => Stage::Append(i),
            Stage::Append(i) => if i + 1 < tags {
                Stage::Entry(i + 1)
            } else {
                Stage::Padding
            },
            Stage::Padding => Stage::SetMetadata,
            Stage::SetMetadata => Stage::Init,
            Stage::Init => Stage::Block(0),
            Stage::Block(cursor) => if self.frames - cursor > BLOCK_FRAMES {
                Stage::Block(cursor + BLOCK_FRAMES)
            } else {
                Stage::Finish
            },
            Stage::Finish => Stage::Release,
            Stage::Release => Stage::Done,
            Stage::Done => Stage::Done,
        }
    }

    /// The error that the encode ends in when the codec refuses `call`.
    fn error_of(&self, call: CodecCall) -> (error: EncoderError)
        requires
            self.well_formed(),
            self@.pending() == Some(call),
        ensures
            error@ == self@.settings.failure_of(call),
    {
        proof {
            self.lemma_stage_in_plan();
        }
        match call {
            CodecCall::NewEncoder => EncoderError::InitializationError,
            CodecCall::SetVerify(_) => EncoderError::VerificationError,
            CodecCall::SetCompressionLevel(_) => EncoderError::InvalidCompressionLevel,
            CodecCall::SetChannels(_) => EncoderError::InvalidChannelCount,
            CodecCall::SetBitsPerSample(_) => EncoderError::InvalidSampleType,
            CodecCall::SetSampleRate(_) => EncoderError::InvalidSampleRate,
            CodecCall::SetTotalSamplesEstimate(_) => EncoderError::TooManyOrTooFewSamples,
            CodecCall::ClearMetadata => EncoderError::FailedToSetMetadata,
            CodecCall::NewCommentBlock => EncoderError::InitializationError,
            CodecCall::MakeCommentEntry(index) => {
                match self.builder.comment(index) {
                    Some(tag) => EncoderError::InvalidVorbisComment(tag.0.to_owned()),
                    None => EncoderError::InvalidVorbisComment(String::new()),
                }
            },
            CodecCall::AppendCommentEntry(_) => EncoderError::FailedToSetMetadata,
            CodecCall::SetMetadata => EncoderError::FailedToSetMetadata,
            _ => EncoderError::EncodingError,
        }
    }

    /// How the encode ended, or `None` while a call is due.
    pub fn outcome(&self) -> (outcome: Option<Result<(), EncoderError>>)
        ensures
            match outcome {
                None => self@.outcome() is None,
                Some(Ok(())) => self@.outcome() == Some(Ok::<(), Failure>(())),
                Some(Err(error)) => self@.outcome() == Some(Err::<(), Failure>(error@)),
            },
    {
        proof {
            use_type_invariant(self);
            self.lemma_stage_in_plan();
        }
        match self.stage {
            Stage::Done => match &self.failure {
                Some(error) => Some(Err(error.clone())),
                None => Some(Ok(())),
            },
            _ => None,
        }
    }

    /// How far the encode has come.
    pub fn phase(&self) -> (phase: Phase)
        ensures
            phase == self@.phase(),
            phase != Phase::Unconfigured,
    {
        proof {
            use_type_invariant(self);
            self.lemma_stage_in_plan();
        }
        if self.failure.is_some() {
            return Phase::Failed;
        }
        match self.stage {
            Stage::Block(cursor) => if cursor == 0 {
                Phase::CodecConfigured
            } else {
                Phase::Streaming
            },
            Stage::Finish => Phase::Streaming,
            Stage::Release => Phase::Finished,
            Stage::Done => Phase::Finished,
            _ => Phase::Validated,
        }
    }

    /// The samples of the block that is due, quantized, frame after frame,
    /// the channels of a frame side by side; nothing if no block is due.
    pub fn block(&self) -> (samples: Vec<i32>)
        ensures
            samples@ == self@.block(),
    {
        proof {
            use_type_invariant(self);
            self.lemma_stage_in_plan();
        }
        let (cursor, frames) = match self.pending() {
            Some(CodecCall::ProcessInterleaved { cursor, frames }) => (cursor, frames as usize),
            _ => {
                return Vec::new();
            },
        };
        proof {
            lemma_blocks_cover_input(
                self.frames as nat,
                cursor as nat / BLOCK_FRAMES as nat,
            );
        }
        quantize_frames(&self.builder.data, self.builder.bps, cursor, frames)
    }

    /// Where the session stands, the plan holds the call of its stage.
    proof fn lemma_stage_in_plan(&self)
        requires
            self.well_formed(),
        ensures
            0 <= self.stage.position(self.builder@) <= self@.plan().len(),
            self.frames > 0,
            self.stage is Entry || self.stage is Append ==> self@.position
                < self.builder@.padding_at(),
            self.stage is Done <==> self@.position == self@.plan().len(),
            self.stage is Release <==> self@.position == self@.plan().len() - 1,
            self.stage is Entry ==> self@.pending() == Some(
                CodecCall::MakeCommentEntry(self.stage->Entry_0),
            ),
            self.stage is Append ==> self@.pending() == Some(
                CodecCall::AppendCommentEntry(self.stage->Append_0),
            ),
            self.stage matches Stage::Block(cursor) ==> self@.pending() == Some(
                CodecCall::ProcessInterleaved {
                    cursor,
                    frames: block_frames(self.frames as nat, cursor as nat / BLOCK_FRAMES as nat)
                        as u32,
                },
            ) && cursor as nat / BLOCK_FRAMES as nat + 1 <= block_count(self.frames as nat),
    {
        let settings = self.builder@;
        settings.lemma_plan_landmarks();
        settings.data.lemma_total_is_channels_times_frames();
        assert(self.frames > 0) by (nonlinear_arith)
            requires
                settings.data.spec_total_samples() == settings.data.spec_channel_count()
                    * self.frames,
                settings.data.spec_total_samples() > 0,
        ;
        match self.stage {
            Stage::Entry(i) => {
                settings.lemma_plan_tag(i as int);
            },
            Stage::Append(i) => {
                settings.lemma_plan_tag(i as int);
            },
            Stage::Block(cursor) => {
                settings.lemma_plan_block(cursor as int / BLOCK_FRAMES as int);
            },
            _ => {},
        }
    }
}

impl<'data, Sample: IntoSample> Settings<'data, Sample> {
    /// Why no encode can start with these settings, if there is a reason:
    /// what is wrong with the data comes first, then a NUL in the path of the
    /// output file.
    pub open spec fn refusal(self) -> Option<Failure> {
        if self.defect() is Some {
            self.defect()
        } else if self.output is Some && holds_nul(self.output->0) {
            Some(Failure::NullCharInPath)
        } else {
            None
        }
    }

    /// The state of an encode before its first call.
    pub open spec fn start(self) -> Course<'data, Sample> {
        Course { settings: self, position: 0, failure: None }
    }
}

impl<'data, Sample: IntoSample> FlacBuilder<'data, Sample> {
    /// Starts the encode, into the file that was set or else into a buffer.
    ///
    /// The settings are checked first. If they are refused, no session
    /// exists and no call into the codec is made.
    pub fn build(self) -> (started: Result<Session<'data, Sample>, EncoderError>)
        ensures
            match started {
                Ok(session) => self@.refusal() is None && session@ == self@.start(),
                Err(error) => self@.refusal() == Some(error@),
            },
    {
        self.prepare()
    }

    /// Checks the settings and sets up the session that makes the calls.
    fn prepare(self) -> (started: Result<Session<'data, Sample>, EncoderError>)
        ensures
            match started {
                Ok(session) => self@.refusal() is None && session@ == self@.start(),
                Err(error) => self@.refusal() == Some(error@),
            },
    {
        if !self.data.channel_sizes_match() {
            return Err(EncoderError::MismatchedSampleCountPerChannels);
        }
        let total = self.data.total_samples();
        if let Some(0) = total {
            return Err(EncoderError::NoData);
        }
        let channels = self.data.channel_count();
        if channels > u32::MAX as usize {
            return Err(EncoderError::InvalidChannelCount);
        }
        let total = match total {
            Some(total) => total,
            None => {
                return Err(EncoderError::TooManyOrTooFewSamples);
            },
        };
        if let Some(path) = self.output() {
            if has_nul(path) {
                return Err(EncoderError::NullCharInPath);
            }
        }
        let frames = self.data.samples_per_channel();
        Ok(
            Session {
                builder: self,
                channels: channels as u32,
                frames,
                total,
                stage: Stage::Encoder,
                failure: None,
            },
        )
    }

    /// Starts the encode into the file at `path`, whatever output was set
    /// before.
    pub fn write_file(self, path: &str) -> (started: Result<Session<'data, Sample>, EncoderError>)
        ensures
            match started {
                Ok(session) => self@.to_file(path@).refusal() is None && session@ == self@.to_file(
                    path@,
                ).start(),
                Err(error) => self@.to_file(path@).refusal() == Some(error@),
            },
    {
        self.output_path(path).prepare()
    }
}

} // verus!
