use rayhunter::analysis::analyzer::{Analyzer, EventType};
use rayhunter::analysis::imsi_exposure_ratio::{
    Fraction, ImsiExposureConfig, ImsiExposureRatioAnalyzer,
};
use rayhunter::analysis::information_element::{
    EmmCause, EmmMessage, IdentityType, InformationElement, LteInformationElement, NasMessage,
};

fn percent(numerator: u32) -> Fraction {
    Fraction { numerator, denominator: 100 }
}

fn as_float(f: Fraction) -> f64 {
    f.numerator as f64 / f.denominator as f64
}

fn make_analyzer(
    window_size: usize,
    medium_threshold: Fraction,
    high_threshold: Fraction,
    min_sample_size: usize,
) -> ImsiExposureRatioAnalyzer {
    ImsiExposureRatioAnalyzer::new(ImsiExposureConfig {
        window_size,
        baseline_ratio: percent(3),
        medium_threshold,
        high_threshold,
        min_sample_size,
    })
}

fn exposing() -> InformationElement {
    InformationElement::LTE(LteInformationElement::NAS(NasMessage::EMMMessage(
        EmmMessage::EMMIdentityRequest(IdentityType::IMSI),
    )))
}

fn benign() -> InformationElement {
    InformationElement::LTE(LteInformationElement::NAS(NasMessage::EMMMessage(EmmMessage::Other)))
}

#[test]
fn test_no_alert_below_min_sample_size() {
    // Even with 100% exposure, no alert until min_sample_size is met
    let analyzer = make_analyzer(100, percent(10), percent(25), 50);
    assert_eq!(analyzer.window_count(), 0);
}

#[test]
fn test_default_config() {
    let config = ImsiExposureConfig::default();
    assert_eq!(config.window_size, 200);
    assert!((as_float(config.baseline_ratio) - 0.03).abs() < f64::EPSILON);
    assert!((as_float(config.medium_threshold) - 0.10).abs() < f64::EPSILON);
    assert!((as_float(config.high_threshold) - 0.25).abs() < f64::EPSILON);
    assert_eq!(config.min_sample_size, 50);
}

#[test]
fn test_name_and_description() {
    let analyzer = ImsiExposureRatioAnalyzer::default();
    assert_eq!(analyzer.get_name(), "IMSI Exposure Ratio");
    assert!(analyzer.get_description().contains("Tucker"));
}

#[test]
fn test_non_lte_messages_ignored() {
    let mut analyzer = ImsiExposureRatioAnalyzer::default();
    // Non-LTE messages should not affect the window
    let result = analyzer.analyze_information_element(&InformationElement::GSM, 1);
    assert!(result.is_none());
    assert_eq!(analyzer.window_count(), 0);
}

#[test]
fn version_is_one() {
    assert_eq!(ImsiExposureRatioAnalyzer::default().get_version(), 1);
}

#[test]
fn config_validity_is_checked() {
    assert!(ImsiExposureConfig::default().is_valid());
    let mut config = ImsiExposureConfig::default();
    config.window_size = 0;
    assert!(!config.is_valid());
    let mut config = ImsiExposureConfig::default();
    config.high_threshold.denominator = 0;
    assert!(!config.is_valid());
    let mut config = ImsiExposureConfig::default();
    config.medium_threshold.denominator = 0;
    assert!(!config.is_valid());
    let mut config = ImsiExposureConfig::default();
    config.baseline_ratio.denominator = 0;
    assert!(!config.is_valid());
}

#[test]
fn no_alert_until_the_window_holds_enough() {
    let mut analyzer = make_analyzer(100, percent(10), percent(25), 5);
    for i in 0..4 {
        assert!(analyzer.analyze_information_element(&exposing(), i).is_none());
    }
    assert_eq!(analyzer.window_count(), 4);
    let event = analyzer.analyze_information_element(&exposing(), 4).unwrap();
    assert_eq!(event.event_type, EventType::High);
    assert_eq!(
        event.message,
        "IMSI exposure ratio 100.0% (5/5 messages) exceeds high threshold 25%. Latest: EMM Identity Request (IMSI)"
    );
}

#[test]
fn single_message_alerts_with_min_sample_of_one() {
    let mut analyzer = make_analyzer(200, percent(10), percent(25), 1);
    let event = analyzer.analyze_information_element(&exposing(), 0).unwrap();
    assert_eq!(event.event_type, EventType::High);
}

#[test]
fn benign_messages_never_alert_but_are_counted() {
    let mut analyzer = make_analyzer(10, percent(10), percent(25), 1);
    for i in 0..3 {
        assert!(analyzer.analyze_information_element(&exposing(), i).is_some());
    }
    // The ratio is 100% but a benign message raises no alert.
    assert!(analyzer.analyze_information_element(&benign(), 3).is_none());
    assert_eq!(analyzer.window_count(), 4);
    // The benign message entered the window: 4 of 5 now.
    let event = analyzer.analyze_information_element(&exposing(), 4).unwrap();
    assert!(event.message.starts_with("IMSI exposure ratio 80.0% (4/5 messages)"));
}

#[test]
fn medium_and_high_thresholds_are_inclusive() {
    // 10 messages, thresholds at 10% and 25%.
    let mut analyzer = make_analyzer(10, percent(10), percent(25), 10);
    for i in 0..9 {
        assert!(analyzer.analyze_information_element(&benign(), i).is_none());
    }
    // 1 of 10 = 10%: exactly the medium threshold.
    let event = analyzer.analyze_information_element(&exposing(), 9).unwrap();
    assert_eq!(event.event_type, EventType::Medium);
    assert_eq!(
        event.message,
        "IMSI exposure ratio 10.0% (1/10 messages) exceeds medium threshold 10%. Latest: EMM Identity Request (IMSI)"
    );
    // The oldest benign message leaves: 2 of 10 = 20%, still medium.
    let event = analyzer.analyze_information_element(&exposing(), 10).unwrap();
    assert_eq!(event.event_type, EventType::Medium);
    // 3 of 10 = 30%: high.
    let event = analyzer.analyze_information_element(&exposing(), 11).unwrap();
    assert_eq!(event.event_type, EventType::High);
    assert!(event.message.starts_with("IMSI exposure ratio 30.0% (3/10 messages) exceeds high"));
}

#[test]
fn quarter_is_exactly_high() {
    let mut analyzer = make_analyzer(4, percent(10), percent(25), 4);
    for i in 0..3 {
        analyzer.analyze_information_element(&benign(), i);
    }
    let event = analyzer.analyze_information_element(&exposing(), 3).unwrap();
    assert_eq!(event.event_type, EventType::High);
    assert!(event.message.starts_with("IMSI exposure ratio 25.0% (1/4 messages)"));
}

#[test]
fn below_medium_threshold_no_alert() {
    // 200 messages with exactly 2 exposing: 1%, under every default threshold.
    let mut analyzer = ImsiExposureRatioAnalyzer::default();
    for i in 0..200 {
        let ie = if i == 50 || i == 150 { exposing() } else { benign() };
        assert!(analyzer.analyze_information_element(&ie, i).is_none(), "message {}", i);
    }
    assert_eq!(analyzer.window_count(), 200);
}

#[test]
fn window_slides_and_old_exposure_is_forgotten() {
    let mut analyzer = make_analyzer(4, percent(50), percent(75), 4);
    for i in 0..4 {
        analyzer.analyze_information_element(&exposing(), i);
    }
    for i in 4..8 {
        assert!(analyzer.analyze_information_element(&benign(), i).is_none());
    }
    assert_eq!(analyzer.window_count(), 4);
    // Only this one exposing message is left in the window: 25% < 50%.
    assert!(analyzer.analyze_information_element(&exposing(), 8).is_none());
    // Two of four: medium.
    let event = analyzer.analyze_information_element(&exposing(), 9).unwrap();
    assert_eq!(event.event_type, EventType::Medium);
    assert!(event.message.starts_with("IMSI exposure ratio 50.0% (2/4 messages) exceeds medium threshold 50%"));
}

#[test]
fn message_names_the_latest_classification() {
    let mut analyzer = make_analyzer(10, percent(10), percent(25), 1);
    let reject = InformationElement::LTE(LteInformationElement::NAS(NasMessage::EMMMessage(
        EmmMessage::EMMAttachReject(EmmCause::IllegalUE),
    )));
    let event = analyzer.analyze_information_element(&reject, 0).unwrap();
    assert!(event.message.ends_with("Latest: EMM Attach Reject (IllegalUE)"));
}

#[test]
fn percentages_round_to_one_decimal_halves_up() {
    // 1 of 3 = 33.33..% shows as 33.3; 2 of 3 = 66.66..% shows as 66.7.
    let mut analyzer = make_analyzer(3, percent(10), percent(25), 3);
    analyzer.analyze_information_element(&benign(), 0);
    analyzer.analyze_information_element(&benign(), 1);
    let event = analyzer.analyze_information_element(&exposing(), 2).unwrap();
    assert!(event.message.starts_with("IMSI exposure ratio 33.3% (1/3 messages)"));
    let event = analyzer.analyze_information_element(&exposing(), 3).unwrap();
    assert!(event.message.starts_with("IMSI exposure ratio 66.7% (2/3 messages)"));
    // 1 of 16 = 6.25% shows as 6.3; the threshold 1/8 = 12.5% shows as 13.
    let mut analyzer =
        make_analyzer(16, Fraction { numerator: 1, denominator: 16 }, Fraction { numerator: 1, denominator: 8 }, 16);
    for i in 0..15 {
        analyzer.analyze_information_element(&benign(), i);
    }
    let event = analyzer.analyze_information_element(&exposing(), 15).unwrap();
    assert_eq!(event.event_type, EventType::Medium);
    assert!(event.message.starts_with("IMSI exposure ratio 6.3% (1/16 messages) exceeds medium threshold 6%"));
    let event = analyzer.analyze_information_element(&exposing(), 16).unwrap();
    assert_eq!(event.event_type, EventType::High);
    assert!(event.message.contains("exceeds high threshold 13%"));
}

#[test]
fn fraction_comparison_is_exact() {
    let third = Fraction { numerator: 1, denominator: 3 };
    assert!(third.is_reached_by(1, 3));
    assert!(third.is_reached_by(2, 6));
    assert!(!third.is_reached_by(333_333, 1_000_000));
    assert!(third.is_reached_by(333_334, 1_000_000));
    assert!(Fraction { numerator: 0, denominator: 1 }.is_reached_by(0, 5));
    let big = Fraction { numerator: u32::MAX, denominator: u32::MAX };
    assert!(big.is_reached_by(usize::MAX, usize::MAX));
    assert!(!big.is_reached_by(usize::MAX - 1, usize::MAX));
}
