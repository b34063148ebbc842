//! An analyzer that watches the share of IMSI-exposing messages.
//!
//! Following Tucker et al. (NDSS 2025), it does not alert on single exposing
//! messages. It tracks their share among the most recent messages: on an
//! honest network that share stays under about 3%, near an IMSI catcher it is
//! far higher. A single identity request after airplane mode raises no alert,
//! while an attacker who avoids the obvious identity request but uses other
//! exposing messages is still caught.
//!
//! Shares and thresholds are exact fractions, so every comparison is exact.

use super::analyzer::{Analyzer, Event, EventType, SpecEvent};
use super::imsi_exposure_classifier::{
    classify, is_countable_message, option_view, spec_classify, spec_is_countable_message,
    ImsiExposureClassification, SpecClassification,
};
use super::information_element::InformationElement;
use super::sliding_window::{count_true, pushed, SlidingWindowRatio};
use crate::text::{append_decimal, decimal, digit, digit_char, push_char};
use vstd::prelude::*;
use vstd::string::*;

verus! {

/// The name of the analyzer.
pub const NAME: &'static str = "IMSI Exposure Ratio";

/// What the analyzer looks for.
pub const DESCRIPTION: &'static str =
    "Tracks the ratio of IMSI-exposing messages (identity requests, reject messages, paging with IMSI, 2G redirects, etc.) to total messages over a sliding window. Normal LTE networks produce <3% IMSI-exposing messages. An elevated ratio indicates a likely IMSI catcher. Based on Tucker et al., NDSS 2025.";

/// The version of the analyzer; it goes up when its behaviour changes.
pub const VERSION: u32 = 1;

/// A non-negative fraction.
#[derive(Clone, Copy, Debug, PartialEq, Eq, Structural)]
pub struct Fraction {
    pub numerator: u32,
    pub denominator: u32,
}

impl Fraction {
    /// A fraction has a positive denominator.
    pub open spec fn wf(self) -> bool {
        self.denominator > 0
    }

    /// Whether `positive / total` is at least this fraction.
    pub open spec fn reached_by(self, positive: nat, total: nat) -> bool {
        positive * self.denominator >= self.numerator * total
    }

    /// This fraction as a percentage, rounded to the nearest whole number,
    /// halves up.
    pub open spec fn whole_percent(self) -> nat {
        ((200 * self.numerator + self.denominator) / (2 * self.denominator)) as nat
    }

    /// Says whether `positive / total` is at least this fraction.
    pub fn is_reached_by(self, positive: usize, total: usize) -> (b: bool)
        ensures
            b == self.reached_by(positive as nat, total as nat),
    {
        let left: u128 = positive as u128;
        let right: u128 = total as u128;
        let den: u128 = self.denominator as u128;
        let num: u128 = self.numerator as u128;
        assert(left * den <= 0xffff_ffff_ffff_ffff * 0xffff_ffff) by (nonlinear_arith)
            requires
                0 <= left <= 0xffff_ffff_ffff_ffff,
                0 <= den <= 0xffff_ffff,
        ;
        assert(num * right <= 0xffff_ffff * 0xffff_ffff_ffff_ffff) by (nonlinear_arith)
            requires
                0 <= right <= 0xffff_ffff_ffff_ffff,
                0 <= num <= 0xffff_ffff,
        ;
        left * den >= num * right
    }
}

/// The share `positive / total` in tenths of a percent, rounded to the
/// nearest, halves up.
pub open spec fn percent_tenths(positive: nat, total: nat) -> nat
    recommends
        total > 0,
{
    (2000 * positive + total) / (2 * total)
}

/// A number of tenths, written with one decimal place.
pub open spec fn tenths_text(tenths: nat) -> Seq<char> {
    decimal(tenths / 10) + seq!['.', digit_char(tenths % 10)]
}

/// The message of an alert: the share, the counts behind it, the threshold
/// it reached and the description of the message that set it off.
pub open spec fn alert_message(
    positive: nat,
    total: nat,
    severity: Seq<char>,
    threshold: Fraction,
    latest: Seq<char>,
) -> Seq<char> {
    "IMSI exposure ratio "@ + tenths_text(percent_tenths(positive, total)) + "% ("@ + decimal(
        positive,
    ) + "/"@ + decimal(total) + " messages) exceeds "@ + severity + " threshold "@ + decimal(
        threshold.whole_percent(),
    ) + "%. Latest: "@ + latest
}

/// Settings of the exposure-ratio analyzer.
#[derive(Clone, Copy, Debug, PartialEq, Eq, Structural)]
pub struct ImsiExposureConfig {
    /// Number of messages in the sliding window. Larger windows resist
    /// transient spikes better and detect short attacks more slowly.
    pub window_size: usize,
    /// The share of exposing messages expected on an honest network.
    pub baseline_ratio: Fraction,
    /// The share from which an exposing message raises a medium alert.
    pub medium_threshold: Fraction,
    /// The share from which an exposing message raises a high alert.
    pub high_threshold: Fraction,
    /// Number of messages that the window must hold before any alert, so that
    /// one exposing message at startup or in thin traffic raises none.
    pub min_sample_size: usize,
}

impl ImsiExposureConfig {
    /// The window holds at least one message and every fraction has a
    /// positive denominator.
    pub open spec fn wf(self) -> bool {
        &&& self.window_size > 0
        &&& self.baseline_ratio.wf()
        &&& self.medium_threshold.wf()
        &&& self.high_threshold.wf()
    }

    /// Says whether an analyzer can be made with these settings.
    pub fn is_valid(&self) -> (b: bool)
        ensures
            b == self.wf(),
    {
        self.window_size > 0 && self.baseline_ratio.denominator > 0
            && self.medium_threshold.denominator > 0 && self.high_threshold.denominator > 0
    }
}

/// The default settings: a window of 200 messages, a baseline of 3%, a medium
/// alert from 10%, a high alert from 25%, and no alert before 50 messages.
pub open spec fn default_config() -> ImsiExposureConfig {
    ImsiExposureConfig {
        window_size: 200,
        baseline_ratio: Fraction { numerator: 3, denominator: 100 },
        medium_threshold: Fraction { numerator: 10, denominator: 100 },
        high_threshold: Fraction { numerator: 25, denominator: 100 },
        min_sample_size: 50,
    }
}

impl Default for ImsiExposureConfig {
    fn default() -> (c: Self)
        ensures
            c == default_config(),
            c.wf(),
    {
        ImsiExposureConfig {
            window_size: 200,
            baseline_ratio: Fraction { numerator: 3, denominator: 100 },
            medium_threshold: Fraction { numerator: 10, denominator: 100 },
            high_threshold: Fraction { numerator: 25, denominator: 100 },
            min_sample_size: 50,
        }
    }
}

/// What the analyzer reports once a message that classifies as `found` has
/// entered the window, which now holds `window`.
pub open spec fn ratio_verdict(
    config: ImsiExposureConfig,
    window: Seq<bool>,
    found: Option<SpecClassification>,
) -> Option<SpecEvent> {
    let positive = count_true(window);
    let total = window.len();
    if total < config.min_sample_size {
        None
    } else {
        match found {
            None => None,
            Some((_, description)) => if config.high_threshold.reached_by(positive, total) {
                Some(
                    (
                        EventType::High,
                        alert_message(positive, total, "high"@, config.high_threshold, description),
                    ),
                )
            } else if config.medium_threshold.reached_by(positive, total) {
                Some(
                    (
                        EventType::Medium,
                        alert_message(
                            positive,
                            total,
                            "medium"@,
                            config.medium_threshold,
                            description,
                        ),
                    ),
                )
            } else {
                None
            },
        }
    }
}

/// The window after a message: a message that does not count leaves it as it
/// was, any other enters it as positive exactly when it is IMSI-exposing.
pub open spec fn ratio_window_after(
    config: ImsiExposureConfig,
    window: Seq<bool>,
    ie: InformationElement,
) -> Seq<bool> {
    if spec_is_countable_message(ie) {
        pushed(window, config.window_size as nat, spec_classify(ie) is Some)
    } else {
        window
    }
}

/// What the analyzer reports on a message, given the window before it: a
/// message that does not count is passed over, any other is judged once it
/// has entered the window.
pub open spec fn ratio_event(config: ImsiExposureConfig, window: Seq<bool>, ie: InformationElement)
    -> Option<SpecEvent> {
    if spec_is_countable_message(ie) {
        ratio_verdict(config, ratio_window_after(config, window, ie), spec_classify(ie))
    } else {
        None
    }
}

/// Alerts when the share of IMSI-exposing messages among the most recent
/// messages reaches a threshold.
pub struct ImsiExposureRatioAnalyzer {
    config: ImsiExposureConfig,
    window: SlidingWindowRatio,
    last_classification: Option<ImsiExposureClassification>,
}

impl ImsiExposureRatioAnalyzer {
    /// The settings the analyzer was made with.
    pub closed spec fn config(&self) -> ImsiExposureConfig {
        self.config
    }

    /// The window of recent messages, oldest first; `true` marks an
    /// IMSI-exposing message.
    pub closed spec fn window(&self) -> Seq<bool> {
        self.window@
    }

    /// The classification of the last message that counted.
    pub closed spec fn last_classification(&self) -> Option<SpecClassification> {
        option_view(self.last_classification)
    }

    /// An analyzer with an empty window.
    pub fn new(config: ImsiExposureConfig) -> (a: Self)
        requires
            config.wf(),
        ensures
            a.wf(),
            a.config() == config,
            a.window() == Seq::<bool>::empty(),
            a.last_classification() is None,
    {
        let window = SlidingWindowRatio::new(config.window_size);
        ImsiExposureRatioAnalyzer { config, window, last_classification: None }
    }

    /// Number of messages in the window.
    pub fn window_count(&self) -> (n: usize)
        requires
            self.wf(),
        ensures
            n == self.window().len(),
    {
        self.window.count()
    }

    /// Writes the message of an alert.
    fn write_alert(
        positive: usize,
        total: usize,
        severity: &str,
        threshold: Fraction,
        latest: &str,
    ) -> (message: String)
        requires
            total > 0,
            positive <= total,
            threshold.wf(),
        ensures
            message@ == alert_message(
                positive as nat,
                total as nat,
                severity@,
                threshold,
                latest@,
            ),
    {
        let wide_positive: u128 = positive as u128;
        let wide_total: u128 = total as u128;
        let tenths: u128 = (2000 * wide_positive + wide_total) / (2 * wide_total);
        assert(tenths <= 1000) by (nonlinear_arith)
            requires
                tenths == (2000 * wide_positive + wide_total) / (2 * wide_total),
                wide_positive <= wide_total,
                wide_total > 0,
        ;
        let whole: u64 = (200 * (threshold.numerator as u64) + threshold.denominator as u64) / (2
            * (threshold.denominator as u64));
        let mut message = String::from_str("IMSI exposure ratio ");
        append_decimal(&mut message, (tenths / 10) as u64);
        push_char(&mut message, '.');
        push_char(&mut message, digit((tenths % 10) as u8));
        message.append("% (");
        append_decimal(&mut message, positive as u64);
        message.append("/");
        append_decimal(&mut message, total as u64);
        message.append(" messages) exceeds ");
        message.append(severity);
        message.append(" threshold ");
        append_decimal(&mut message, whole);
        message.append("%. Latest: ");
        message.append(latest);
        proof {
            let t = percent_tenths(positive as nat, total as nat);
            assert(t == tenths);
            assert(decimal(t / 10) + seq!['.', digit_char(t % 10)] == decimal(t / 10).push(
                '.',
            ).push(digit_char(t % 10)));
            assert(whole == threshold.whole_percent());
        }
        message
    }
}

impl Default for ImsiExposureRatioAnalyzer {
    /// An analyzer with the default settings.
    fn default() -> (a: Self)
        ensures
            a.wf(),
            a.config() == default_config(),
            a.window() == Seq::<bool>::empty(),
    {
        ImsiExposureRatioAnalyzer::new(ImsiExposureConfig::default())
    }
}

impl Analyzer for ImsiExposureRatioAnalyzer {
    closed spec fn wf(&self) -> bool {
        &&& self.config.wf()
        &&& self.window.wf()
        &&& self.window.capacity() == self.config.window_size
    }

    fn get_name(&self) -> (name: String)
        ensures
            name@ == NAME@,
    {
        String::from_str(NAME)
    }

    fn get_description(&self) -> (description: String)
        ensures
            description@ == DESCRIPTION@,
    {
        String::from_str(DESCRIPTION)
    }

    fn get_version(&self) -> (version: u32)
        ensures
            version == VERSION,
    {
        VERSION
    }

    fn analyze_information_element(&mut self, ie: &InformationElement, packet_num: usize) -> (e:
        Option<Event>)
        ensures
            final(self).config() == old(self).config(),
            final(self).window() == ratio_window_after(old(self).config(), old(self).window(), *ie),
            super::analyzer::event_view(e) == ratio_event(
                old(self).config(),
                old(self).window(),
                *ie,
            ),
            final(self).last_classification() == if spec_is_countable_message(*ie) {
                spec_classify(*ie)
            } else {
                old(self).last_classification()
            },
    {
        if !is_countable_message(ie) {
            return None;
        }
        let classification = classify(ie);
        let is_exposing = classification.is_some();
        self.last_classification = classification;
        self.window.push(is_exposing);

        let total = self.window.count();
        if total < self.config.min_sample_size {
            return None;
        }
        let positive = self.window.positive_count();
        match &self.last_classification {
            None => None,
            Some(found) => {
                if self.config.high_threshold.is_reached_by(positive, total) {
                    let message = Self::write_alert(
                        positive,
                        total,
                        "high",
                        self.config.high_threshold,
                        found.description.as_str(),
                    );
                    Some(Event { event_type: EventType::High, message })
                } else if self.config.medium_threshold.is_reached_by(positive, total) {
                    let message = Self::write_alert(
                        positive,
                        total,
                        "medium",
                        self.config.medium_threshold,
                        found.description.as_str(),
                    );
                    Some(Event { event_type: EventType::Medium, message })
                } else {
                    None
                }
            },
        }
    }
}

/// The analyzer alerts only on a message that is itself IMSI-exposing, only
/// once the window holds enough messages, and only with medium or high
/// severity; a high alert means that the share has reached the high
/// threshold, a medium alert that it has reached the medium threshold and
/// not the high one.
pub proof fn lemma_ratio_alerts(
    config: ImsiExposureConfig,
    window: Seq<bool>,
    ie: InformationElement,
)
    ensures
        ratio_event(config, window, ie) matches Some(event) ==> {
            let after = ratio_window_after(config, window, ie);
            &&& spec_is_countable_message(ie)
            &&& spec_classify(ie) is Some
            &&& after.len() >= config.min_sample_size
            &&& event.0 is High || event.0 is Medium
            &&& event.0 is High <==> config.high_threshold.reached_by(
                count_true(after),
                after.len(),
            )
            &&& event.0 is Medium ==> config.medium_threshold.reached_by(
                count_true(after),
                after.len(),
            )
        },
{
}

/// A message that is not IMSI-exposing never raises an alert, and still
/// enters the window if it counts.
pub proof fn lemma_ratio_silent_on_benign(
    config: ImsiExposureConfig,
    window: Seq<bool>,
    ie: InformationElement,
)
    requires
        spec_classify(ie) is None,
    ensures
        ratio_event(config, window, ie) is None,
        spec_is_countable_message(ie) ==> ratio_window_after(config, window, ie) == pushed(
            window,
            config.window_size as nat,
            false,
        ),
{
}

} // verus!
