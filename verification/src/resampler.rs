//! Sample-rate validation and output-size arithmetic for the 16 kHz mono
//! normalisation pipeline.  Only rates that are an exact multiple of 16 kHz
//! are accepted, since the averaging downsampler works on whole ratios.

use vstd::prelude::*;

verus! {

/// Target sample rate for speech recognition.
pub const TARGET_SAMPLE_RATE: usize = 16000;

/// Sample rates that divide evenly to 16 kHz.
pub const SUPPORTED_SAMPLE_RATES: [u32; 3] = [48000, 32000, 16000];

/// Why a native sample rate cannot be normalised to 16 kHz.
#[derive(Debug, Clone, Copy, PartialEq, Eq, Structural)]
pub enum SampleRateError {
    /// The rate is below 16 kHz; upsampling is not supported.
    TooLow { rate: u32 },
    /// The rate is not a whole multiple of 16 kHz.
    NonIntegerRatio { rate: u32 },
}

/// The downsample ratio a rate yields when it is supported.
pub open spec fn rate_is_supported(rate: int) -> bool {
    rate >= TARGET_SAMPLE_RATE && rate % (TARGET_SAMPLE_RATE as int) == 0
}

/// Validate that a sample rate can be downsampled exactly to 16 kHz and
/// return the integer ratio.
pub fn validate_sample_rate(sample_rate: u32) -> (r: Result<usize, SampleRateError>)
    ensures
        r is Ok <==> rate_is_supported(sample_rate as int),
        r matches Ok(k) ==> k == sample_rate / 16000,
        r matches Err(SampleRateError::TooLow { rate }) ==> rate == sample_rate && sample_rate
            < 16000,
        r matches Err(SampleRateError::NonIntegerRatio { rate }) ==> rate == sample_rate
            && sample_rate >= 16000 && sample_rate % 16000 != 0,
{
    if sample_rate < 16000 {
        return Err(SampleRateError::TooLow { rate: sample_rate });
    }
    let ratio_i: usize = (sample_rate / 16000) as usize;
    if sample_rate % 16000 != 0 {
        return Err(SampleRateError::NonIntegerRatio { rate: sample_rate });
    }
    Ok(ratio_i)
}

/// Whether `validate_sample_rate` accepts the rate.
pub fn is_sample_rate_supported(sample_rate: u32) -> (b: bool)
    ensures
        b == rate_is_supported(sample_rate as int),
{
    validate_sample_rate(sample_rate).is_ok()
}

/// Number of 16 kHz mono samples produced from `input_samples` interleaved
/// samples of `channels` channels at `native_sample_rate`.
pub open spec fn spec_expected_output_samples(
    input_samples: int,
    channels: int,
    native_sample_rate: int,
) -> int {
    let mono = if channels >= 2 {
        input_samples / 2
    } else {
        input_samples
    };
    let ratio = native_sample_rate / 16000;
    if ratio == 0 {
        mono
    } else {
        mono / ratio
    }
}

/// Expected number of output samples for a block of input, used for buffer
/// sizing: stereo input is halved, then divided by the downsample ratio (a
/// ratio of zero leaves the count unchanged).
pub fn expected_output_samples(input_samples: usize, channels: u16, native_sample_rate: u32) -> (n:
    usize)
    ensures
        n == spec_expected_output_samples(
            input_samples as int,
            channels as int,
            native_sample_rate as int,
        ),
{
    let mono_samples = if channels >= 2 {
        input_samples / 2
    } else {
        input_samples
    };
    let ratio: usize = (native_sample_rate / 16000) as usize;
    if ratio == 0 {
        mono_samples
    } else {
        mono_samples / ratio
    }
}

/// Stereo (or wider) input is first reduced to mono by halving the sample
/// count, whatever the native rate: the expected output for `n` interleaved
/// samples of two or more channels is that for `n / 2` mono samples at the
/// same rate.  Mono input at 16 kHz passes through unchanged, and mono input
/// at a supported rate is divided by the rate's ratio to 16 kHz.
pub proof fn lemma_expected_output_samples(n: nat, channels: nat, rate: nat)
    ensures
        channels >= 2 ==> spec_expected_output_samples(n as int, channels as int, rate as int)
            == spec_expected_output_samples((n / 2) as int, 1, rate as int),
        spec_expected_output_samples(n as int, 1, 16000) == n,
        spec_expected_output_samples(n as int, 2, 16000) == n / 2,
        rate_is_supported(rate as int) ==> spec_expected_output_samples(n as int, 1, rate as int) == n / (rate / 16000),
{
}

} // verus!
