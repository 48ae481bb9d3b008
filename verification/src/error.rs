//! The ways in which an encode can fail.

use vstd::prelude::*;

verus! {

/// Every failure an encode can end in. Exactly one of them is handed to the
/// caller: the first that occurs.
#[derive(Debug, PartialEq, Eq)]
pub enum EncoderError {
    /// The input holds no samples at all.
    NoData,
    /// The codec could not allocate an encoder or a comment block.
    InitializationError,
    /// The codec refused to switch verification on.
    VerificationError,
    /// The codec refused the compression level.
    InvalidCompressionLevel,
    /// The codec refused the channel count, or it does not fit in 32 bits.
    InvalidChannelCount,
    /// The codec refused the bit depth.
    InvalidSampleType,
    /// The codec refused the estimate of the total sample count, or there are
    /// more samples than a `usize` counts.
    TooManyOrTooFewSamples,
    /// The channels of the input do not all hold the same number of samples.
    MismatchedSampleCountPerChannels,
    /// The encoder could not be initialized. No call of an encode ends in
    /// this error: an output that cannot be opened shows in the first block.
    FailedToInitializeEncoder,
    /// The codec rejected a tag; the key of that tag is carried along.
    InvalidVorbisComment(String),
    /// The codec refused a tag entry or the list of metadata blocks.
    FailedToSetMetadata,
    /// The codec failed on a block of samples or when finishing the stream.
    EncodingError,
    /// The codec refused the sample rate.
    InvalidSampleRate,
    /// The output path holds a NUL character.
    NullCharInPath,
}

/// An error as a plain value: the kind, and for a rejected tag the text of
/// its key.
pub enum Failure {
    NoData,
    InitializationError,
    VerificationError,
    InvalidCompressionLevel,
    InvalidChannelCount,
    InvalidSampleType,
    TooManyOrTooFewSamples,
    MismatchedSampleCountPerChannels,
    FailedToInitializeEncoder,
    InvalidVorbisComment(Seq<char>),
    FailedToSetMetadata,
    EncodingError,
    InvalidSampleRate,
    NullCharInPath,
}

impl View for EncoderError {
    type V = Failure;

    open spec fn view(&self) -> Failure {
        match *self {
            EncoderError::NoData => Failure::NoData,
            EncoderError::InitializationError => Failure::InitializationError,
            EncoderError::VerificationError => Failure::VerificationError,
            EncoderError::InvalidCompressionLevel => Failure::InvalidCompressionLevel,
            EncoderError::InvalidChannelCount => Failure::InvalidChannelCount,
            EncoderError::InvalidSampleType => Failure::InvalidSampleType,
            EncoderError::TooManyOrTooFewSamples => Failure::TooManyOrTooFewSamples,
            EncoderError::MismatchedSampleCountPerChannels => {
                Failure::MismatchedSampleCountPerChannels
            },
            EncoderError::FailedToInitializeEncoder => Failure::FailedToInitializeEncoder,
            EncoderError::InvalidVorbisComment(key) => Failure::InvalidVorbisComment(key@),
            EncoderError::FailedToSetMetadata => Failure::FailedToSetMetadata,
            EncoderError::EncodingError => Failure::EncodingError,
            EncoderError::InvalidSampleRate => Failure::InvalidSampleRate,
            EncoderError::NullCharInPath => Failure::NullCharInPath,
        }
    }
}

impl Clone for EncoderError {
    /// A copy of the error, key and all.
    fn clone(&self) -> (copy: EncoderError)
        ensures
            copy == *self,
    {
        match self {
            EncoderError::NoData => EncoderError::NoData,
            EncoderError::InitializationError => EncoderError::InitializationError,
            EncoderError::VerificationError => EncoderError::VerificationError,
            EncoderError::InvalidCompressionLevel => EncoderError::InvalidCompressionLevel,
            EncoderError::InvalidChannelCount => EncoderError::InvalidChannelCount,
            EncoderError::InvalidSampleType => EncoderError::InvalidSampleType,
            EncoderError::TooManyOrTooFewSamples => EncoderError::TooManyOrTooFewSamples,
            EncoderError::MismatchedSampleCountPerChannels => {
                EncoderError::MismatchedSampleCountPerChannels
            },
            EncoderError::FailedToInitializeEncoder => EncoderError::FailedToInitializeEncoder,
            EncoderError::InvalidVorbisComment(key) => {
                EncoderError::InvalidVorbisComment(key.clone())
            },
            EncoderError::FailedToSetMetadata => EncoderError::FailedToSetMetadata,
            EncoderError::EncodingError => EncoderError::EncodingError,
            EncoderError::InvalidSampleRate => EncoderError::InvalidSampleRate,
            EncoderError::NullCharInPath => EncoderError::NullCharInPath,
        }
    }
}

} // verus!
