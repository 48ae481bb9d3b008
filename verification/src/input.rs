//! The two layouts in which samples are handed to the encoder.

use vstd::prelude::*;
use crate::sample::IntoSample;

verus! {

/// The number of samples that a list of channels holds in all.
pub open spec fn sum_of_lengths<Sample>(channels: Seq<Vec<Sample>>) -> nat
    decreases channels.len(),
{
    if channels.len() == 0 {
        0
    } else {
        sum_of_lengths(channels.drop_last()) + channels.last()@.len()
    }
}

/// Whether every channel of a list is as long as the first.
pub open spec fn all_as_long_as_first<Sample>(channels: Seq<Vec<Sample>>) -> bool {
    forall|c: int| 0 <= c < channels.len() ==> (#[trigger] channels[c])@.len() == channels[0]@.len()
}

/// Borrowed sample data in one of two layouts.
///
/// A frame is one sample of every channel at one point in time. In the planar
/// layout each channel is a sequence of its own; in the interleaved layout
/// there is one sequence, frame after frame, the channels of a frame side by
/// side.
pub enum InputData<'a, Sample> where Sample: IntoSample {
    /// One sequence for all channels: the samples of the first frame, then
    /// those of the second, and so on.
    Interleaved { data: &'a [Sample], channels: usize },
    /// One sequence for each channel.
    Planar(&'a [Vec<Sample>]),
}

impl<'a, Sample: IntoSample> InputData<'a, Sample> {
    /// The number of channels.
    pub open spec fn spec_channel_count(&self) -> nat {
        match *self {
            InputData::Interleaved { data, channels } => channels as nat,
            InputData::Planar(data) => data@.len(),
        }
    }

    /// The number of frames: the length of the first channel, or the number
    /// of whole frames in an interleaved sequence. Without channels there are
    /// no frames.
    pub open spec fn spec_samples_per_channel(&self) -> nat {
        match *self {
            InputData::Interleaved { data, channels } => if channels == 0 {
                0
            } else {
                data@.len() / (channels as nat)
            },
            InputData::Planar(data) => if data@.len() == 0 {
                0
            } else {
                data@[0]@.len()
            },
        }
    }

    /// The number of samples over all channels.
    pub open spec fn spec_total_samples(&self) -> nat {
        match *self {
            InputData::Interleaved { data, channels } => data@.len(),
            InputData::Planar(data) => sum_of_lengths(data@),
        }
    }

    /// Whether the data divides into whole frames: every planar channel is as
    /// long as the first, an interleaved sequence is a multiple of the channel
    /// count long (and empty if there are no channels).
    pub open spec fn spec_channel_sizes_match(&self) -> bool {
        match *self {
            InputData::Interleaved { data, channels } => if channels == 0 {
                data@.len() == 0
            } else {
                data@.len() % (channels as nat) == 0
            },
            InputData::Planar(data) => all_as_long_as_first(data@),
        }
    }

    /// Whether `(channel, frame)` names a sample of the data.
    pub open spec fn in_bounds(&self, channel: int, frame: int) -> bool {
        &&& 0 <= channel < self.spec_channel_count()
        &&& 0 <= frame < self.spec_samples_per_channel()
    }

    /// The sample of `channel` in `frame`.
    pub open spec fn spec_sample(&self, channel: int, frame: int) -> Sample
        recommends
            self.spec_channel_sizes_match(),
            self.in_bounds(channel, frame),
    {
        match *self {
            InputData::Interleaved { data, channels } => data@[frame * channels + channel],
            InputData::Planar(data) => data@[channel]@[frame],
        }
    }

    /// The number of channels.
    pub fn channel_count(&self) -> (count: usize)
        ensures
            count == self.spec_channel_count(),
    {
        match *self {
            InputData::Interleaved { channels, .. } => channels,
            InputData::Planar(data) => data.len(),
        }
    }

    /// The number of frames.
    pub fn samples_per_channel(&self) -> (frames: usize)
        ensures
            frames == self.spec_samples_per_channel(),
    {
        match *self {
            InputData::Interleaved { data, channels } => {
                if channels == 0 {
                    0
                } else {
                    data.len() / channels
                }
            },
            InputData::Planar(data) => {
                if data.len() == 0 {
                    0
                } else {
                    data[0].len()
                }
            },
        }
    }

    /// The number of samples over all channels, unless that number is more
    /// than a `usize` holds.
    pub fn total_samples(&self) -> (total: Option<usize>)
        ensures
            match total {
                Some(n) => n == self.spec_total_samples(),
                None => self.spec_total_samples() > usize::MAX,
            },
    {
        match *self {
            InputData::Interleaved { data, .. } => Some(data.len()),
            InputData::Planar(data) => count_samples(data),
        }
    }

    /// Whether the data divides into whole frames.
    pub fn channel_sizes_match(&self) -> (whole: bool)
        ensures
            whole == self.spec_channel_sizes_match(),
    {
        match *self {
            InputData::Interleaved { data, channels } => {
                if channels == 0 {
                    data.len() == 0
                } else {
                    data.len() % channels == 0
                }
            },
            InputData::Planar(data) => same_lengths(data),
        }
    }

    /// The sample of `channel` in `frame`.
    pub fn sample(&self, channel: usize, frame: usize) -> (s: Sample)
        requires
            self.spec_channel_sizes_match(),
            self.in_bounds(channel as int, frame as int),
        ensures
            s == self.spec_sample(channel as int, frame as int),
    {
        match *self {
            InputData::Interleaved { data, channels } => {
                let len = data.len();
                proof {
                    lemma_interleaved_index(
                        len as int,
                        channels as int,
                        channel as int,
                        frame as int,
                    );
                }
                data[frame * channels + channel]
            },
            InputData::Planar(data) => data[channel][frame],
        }
    }

    /// Data that divides into whole frames holds as many samples as its
    /// channel count times its frame count; without channels or without
    /// frames it holds none.
    pub proof fn lemma_total_is_channels_times_frames(&self)
        requires
            self.spec_channel_sizes_match(),
        ensures
            self.spec_total_samples() == self.spec_channel_count()
                * self.spec_samples_per_channel(),
    {
        match *self {
            InputData::Interleaved { data, channels } => {
                if channels != 0 {
                    let n = data@.len();
                    let ch = channels as nat;
                    assert(n == ch * (n / ch) + n % ch) by (nonlinear_arith)
                        requires
                            ch > 0,
                    ;
                } else {
                    let per = self.spec_samples_per_channel();
                    assert(0 * per == 0) by (nonlinear_arith);
                }
            },
            InputData::Planar(data) => {
                if data@.len() > 0 {
                    lemma_sum_of_equal_lengths(data@);
                } else {
                    let per = self.spec_samples_per_channel();
                    assert(0 * per == 0) by (nonlinear_arith);
                }
            },
        }
    }
}

/// In an interleaved sequence of whole frames, the position of a sample that
/// is in bounds lies inside the sequence.
pub proof fn lemma_interleaved_index(len: int, channels: int, channel: int, frame: int)
    requires
        channels > 0,
        len >= 0,
        len % channels == 0,
        0 <= channel < channels,
        0 <= frame < len / channels,
    ensures
        0 <= frame * channels <= frame * channels + channel < len,
{
    assert(len == channels * (len / channels) + len % channels) by (nonlinear_arith)
        requires
            channels > 0,
    ;
    assert(frame * channels + channel < channels * (len / channels)) by (nonlinear_arith)
        requires
            0 <= channel < channels,
            0 <= frame < len / channels,
    ;
    assert(0 <= frame * channels) by (nonlinear_arith)
        requires
            0 <= frame,
            0 < channels,
    ;
}

/// Two channels of different lengths are enough for a list of channels not to
/// be all as long as the first.
pub proof fn lemma_two_lengths_differ<Sample>(channels: Seq<Vec<Sample>>, a: int, b: int)
    requires
        0 <= a < channels.len(),
        0 <= b < channels.len(),
        channels[a]@.len() != channels[b]@.len(),
    ensures
        !all_as_long_as_first(channels),
{
}

/// The samples of the first `n` channels are among the samples of all.
pub proof fn lemma_sum_of_prefix<Sample>(channels: Seq<Vec<Sample>>, n: int)
    requires
        0 <= n <= channels.len(),
    ensures
        sum_of_lengths(channels.take(n)) <= sum_of_lengths(channels),
    decreases channels.len(),
{
    if n == channels.len() {
        assert(channels.take(n) =~= channels);
    } else {
        assert(channels.drop_last().take(n) =~= channels.take(n));
        lemma_sum_of_prefix(channels.drop_last(), n);
    }
}

/// Channels that are all as long as the first hold that length times their
/// number in all.
pub proof fn lemma_sum_of_equal_lengths<Sample>(channels: Seq<Vec<Sample>>)
    requires
        channels.len() > 0,
        all_as_long_as_first(channels),
    ensures
        sum_of_lengths(channels) == channels.len() * channels[0]@.len(),
    decreases channels.len(),
{
    let n = channels.len() as int;
    let size = channels[0]@.len() as int;
    let rest = channels.drop_last();
    assert(channels.last()@.len() == size);
    if rest.len() > 0 {
        assert(rest[0] == channels[0]);
        assert forall|c: int| 0 <= c < rest.len() implies (#[trigger] rest[c])@.len()
            == rest[0]@.len() by {
            assert(rest[c] == channels[c]);
        }
        lemma_sum_of_equal_lengths(rest);
        assert(sum_of_lengths(rest) == (n - 1) * size);
    } else {
        assert(sum_of_lengths(rest) == 0);
        assert((n - 1) * size == 0) by (nonlinear_arith)
            requires
                n == 1,
        ;
    }
    assert(n * size == (n - 1) * size + size) by (nonlinear_arith);
}

/// The number of samples in a list of channels, unless it is more than a
/// `usize` holds.
fn count_samples<Sample>(data: &[Vec<Sample>]) -> (total: Option<usize>)
    ensures
        match total {
            Some(n) => n == sum_of_lengths(data@),
            None => sum_of_lengths(data@) > usize::MAX,
        },
{
    let mut sum: usize = 0;
    let mut c: usize = 0;
    while c < data.len()
        invariant
            c <= data@.len(),
            sum == sum_of_lengths(data@.take(c as int)),
        decreases data@.len() - c,
    {
        proof {
            let next = data@.take(c + 1);
            assert(next.drop_last() =~= data@.take(c as int));
            assert(next.last() == data@[c as int]);
            assert(sum_of_lengths(next) == sum + data@[c as int]@.len());
            lemma_sum_of_prefix(data@, c + 1);
        }
        match sum.checked_add(data[c].len()) {
            Some(next) => {
                sum = next;
            },
            None => {
                return None;
            },
        }
        c += 1;
    }
    proof {
        assert(data@.take(c as int) =~= data@);
    }
    Some(sum)
}

/// Whether every channel of a list is as long as the first.
fn same_lengths<Sample>(data: &[Vec<Sample>]) -> (same: bool)
    ensures
        same == all_as_long_as_first(data@),
{
    if data.len() == 0 {
        return true;
    }
    let size = data[0].len();
    let mut c: usize = 0;
    while c < data.len()
        invariant
            c <= data@.len(),
            data@.len() > 0,
            size == data@[0]@.len(),
            forall|k: int| 0 <= k < c ==> (#[trigger] data@[k])@.len() == size,
        decreases data@.len() - c,
    {
        if data[c].len() != size {
            return false;
        }
        c += 1;
    }
    true
}

} // verus!
