use meeting_minutes_automator::resampler::{
    expected_output_samples, is_sample_rate_supported, validate_sample_rate, SampleRateError,
    SUPPORTED_SAMPLE_RATES, TARGET_SAMPLE_RATE,
};

#[test]
fn test_validate_sample_rate_supported() {
    assert_eq!(validate_sample_rate(48000), Ok(3));
    assert_eq!(validate_sample_rate(32000), Ok(2));
    assert_eq!(validate_sample_rate(16000), Ok(1));
}

#[test]
fn test_validate_sample_rate_non_integer() {
    let result = validate_sample_rate(44100);
    assert!(result.is_err());
    assert!(matches!(result, Err(SampleRateError::NonIntegerRatio { rate: 44100, .. })));

    let result = validate_sample_rate(22050);
    assert!(result.is_err());
}

#[test]
fn test_validate_sample_rate_too_low() {
    let result = validate_sample_rate(8000);
    assert!(result.is_err());
    assert!(matches!(result, Err(SampleRateError::TooLow { rate: 8000 })));

    let result = validate_sample_rate(11025);
    assert!(result.is_err());
}

#[test]
fn test_is_sample_rate_supported() {
    assert!(is_sample_rate_supported(48000));
    assert!(is_sample_rate_supported(32000));
    assert!(is_sample_rate_supported(16000));
    assert!(!is_sample_rate_supported(44100));
    assert!(!is_sample_rate_supported(8000));
}

#[test]
fn test_expected_output_samples() {
    assert_eq!(expected_output_samples(48000, 1, 48000), 16000);
    assert_eq!(expected_output_samples(96000, 2, 48000), 16000);
    assert_eq!(expected_output_samples(32000, 1, 32000), 16000);
}

#[test]
fn supported_rates_are_exact_multiples_of_the_target() {
    assert_eq!(TARGET_SAMPLE_RATE, 16000);
    for rate in SUPPORTED_SAMPLE_RATES {
        assert_eq!(validate_sample_rate(rate), Ok(rate as usize / 16000));
    }
    assert_eq!(validate_sample_rate(64000), Ok(4));
    assert!(matches!(validate_sample_rate(15999), Err(SampleRateError::TooLow { rate: 15999 })));
    assert!(matches!(validate_sample_rate(16001), Err(SampleRateError::NonIntegerRatio { rate: 16001 })));
}
