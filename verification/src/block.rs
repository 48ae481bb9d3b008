//! The samples of a block as the codec takes them.
//!
//! The codec is handed whole frames: the quantized samples of the first
//! frame, one for each channel, then those of the second, and so on,
//! whatever the layout of the input is.

use vstd::prelude::*;
use crate::input::InputData;
use crate::level::BpsLevel;
use crate::sample::IntoSample;

verus! {

/// The quantized samples of one frame of `data`, channel by channel.
pub open spec fn one_frame<Sample: IntoSample>(
    data: InputData<'_, Sample>,
    bps: BpsLevel,
    frame: int,
) -> Seq<i32> {
    Seq::new(
        data.spec_channel_count(),
        |c: int| data.spec_sample(c, frame).quantized(bps) as i32,
    )
}

/// The quantized samples of `frames` frames of `data` from frame `cursor` on,
/// frame after frame, the channels of a frame side by side.
pub open spec fn interleaved<Sample: IntoSample>(
    data: InputData<'_, Sample>,
    bps: BpsLevel,
    cursor: nat,
    frames: nat,
) -> Seq<i32> {
    let channels = data.spec_channel_count() as int;
    Seq::new(
        frames * channels as nat,
        |i: int| data.spec_sample(i % channels, cursor + i / channels).quantized(bps) as i32,
    )
}

/// The quantized samples of `frames` frames of `data` from frame `cursor` on,
/// frame after frame, the channels of a frame side by side.
pub fn quantize_frames<Sample: IntoSample>(
    data: &InputData<'_, Sample>,
    bps: BpsLevel,
    cursor: usize,
    frames: usize,
) -> (samples: Vec<i32>)
    requires
        data.spec_channel_sizes_match(),
        cursor + frames <= data.spec_samples_per_channel(),
    ensures
        samples@ == interleaved(*data, bps, cursor as nat, frames as nat),
        forall|i: int| 0 <= i < samples@.len() ==> bps.holds(#[trigger] samples@[i] as int),
{
    let channels = data.channel_count();
    let end = data.samples_per_channel();
    let mut samples: Vec<i32> = match frames.checked_mul(channels) {
        Some(count) => Vec::with_capacity(count),
        None => Vec::new(),
    };
    let mut frame: usize = 0;
    while frame < frames
        invariant
            frame <= frames,
            cursor + frames <= end,
            channels == data.spec_channel_count(),
            data.spec_channel_sizes_match(),
            cursor + frames <= data.spec_samples_per_channel(),
            samples@ == interleaved(*data, bps, cursor as nat, frame as nat),
            forall|i: int| 0 <= i < samples@.len() ==> bps.holds(#[trigger] samples@[i] as int),
        decreases frames - frame,
    {
        let ghost before = samples@;
        let mut channel: usize = 0;
        while channel < channels
            invariant
                frame < frames,
                cursor + frames <= end,
                channel <= channels,
                channels == data.spec_channel_count(),
                data.spec_channel_sizes_match(),
                cursor + frames <= data.spec_samples_per_channel(),
                before == interleaved(*data, bps, cursor as nat, frame as nat),
                samples@ == before + one_frame(*data, bps, cursor + frame).take(channel as int),
                forall|i: int| 0 <= i < samples@.len() ==> bps.holds(#[trigger] samples@[i] as int),
            decreases channels - channel,
        {
            let sample = data.sample(channel, cursor + frame);
            samples.push(sample.to_bps_level(bps));
            assert(samples@ =~= before + one_frame(*data, bps, cursor + frame).take(
                channel + 1,
            ));
            channel += 1;
        }
        proof {
            let row = one_frame(*data, bps, cursor + frame);
            assert(row.take(channels as int) =~= row);
            lemma_interleaved_grows(*data, bps, cursor as nat, frame as nat);
        }
        frame += 1;
    }
    samples
}

/// One more frame puts the samples of that frame, channel by channel, behind
/// the frames before it.
pub proof fn lemma_interleaved_grows<Sample: IntoSample>(
    data: InputData<'_, Sample>,
    bps: BpsLevel,
    cursor: nat,
    frames: nat,
)
    ensures
        interleaved(data, bps, cursor, frames + 1) == interleaved(data, bps, cursor, frames)
            + one_frame(data, bps, (cursor + frames) as int),
{
    let channels = data.spec_channel_count() as int;
    let more = interleaved(data, bps, cursor, frames + 1);
    let less = interleaved(data, bps, cursor, frames);
    let row = one_frame(data, bps, (cursor + frames) as int);
    assert((frames + 1) * channels == frames * channels + channels) by (nonlinear_arith);
    assert(frames * channels >= 0) by (nonlinear_arith)
        requires
            channels >= 0,
    ;
    assert forall|i: int| 0 <= i < more.len() implies more[i] == (less + row)[i] by {
        if i >= frames * channels {
            let c = i - frames * channels;
            assert(i / channels == frames && i % channels == c) by (nonlinear_arith)
                requires
                    i == frames * channels + c,
                    0 <= c < channels,
            ;
        }
    }
    assert(more =~= less + row);
}

/// Frames handed over in two parts are the frames handed over at once: the
/// second part goes on where the first ended.
pub proof fn lemma_interleaved_splits<Sample: IntoSample>(
    data: InputData<'_, Sample>,
    bps: BpsLevel,
    cursor: nat,
    first: nat,
    second: nat,
)
    ensures
        interleaved(data, bps, cursor, first + second) == interleaved(data, bps, cursor, first)
            + interleaved(data, bps, cursor + first, second),
    decreases second,
{
    if second == 0 {
        assert(0 * data.spec_channel_count() == 0) by (nonlinear_arith);
        assert(interleaved(data, bps, cursor + first, 0) =~= Seq::<i32>::empty());
        assert(interleaved(data, bps, cursor, first) + Seq::<i32>::empty() =~= interleaved(
            data,
            bps,
            cursor,
            first,
        ));
    } else {
        let less = (second - 1) as nat;
        lemma_interleaved_splits(data, bps, cursor, first, less);
        lemma_interleaved_grows(data, bps, cursor, first + less);
        lemma_interleaved_grows(data, bps, cursor + first, less);
        let row = one_frame(data, bps, (cursor + first + less) as int);
        let head = interleaved(data, bps, cursor, first);
        let tail = interleaved(data, bps, cursor + first, less);
        assert((head + tail) + row =~= head + (tail + row));
    }
}

} // verus!
