//! The harness: an ordered set of analyzers run over every decoded message,
//! one row of events per container of messages.

use super::analyzer::{event_view, Analyzer, Event, SpecEvent};
use super::connection_redirect_downgrade::{redirect_event, ConnectionRedirect2GDowngradeAnalyzer};
use super::diagnostic::{diagnostic_event, DiagnosticAnalyzer};
use super::imsi_exposure_ratio::{
    default_config, ratio_event, ratio_window_after, ImsiExposureConfig,
    ImsiExposureRatioAnalyzer,
};
use super::imsi_requested::{imsi_requested_event, ImsiRequestedAnalyzer};
use super::information_element::InformationElement;
use super::nas_null_cipher::{nas_null_cipher_event, NasNullCipherAnalyzer};
use super::null_cipher::{null_cipher_event, NullCipherAnalyzer};
use crate::hdlc::FramingError;
use vstd::prelude::*;

verus! {

/// Which analyzers a harness runs, and the settings of the exposure-ratio
/// analyzer. The switches for the system-information analyzers and the test
/// analyzer are kept so that a configuration written for the full set loads
/// unchanged; this library carries no analyzer for them and they select
/// none.
#[derive(Clone, Copy, Debug, PartialEq, Eq, Structural)]
pub struct AnalyzerConfig {
    pub diagnostic_analyzer: bool,
    pub connection_redirect_2g_downgrade: bool,
    pub lte_sib6_and_7_downgrade: bool,
    pub null_cipher: bool,
    pub nas_null_cipher: bool,
    pub incomplete_sib: bool,
    pub test_analyzer: bool,
    pub imsi_requested: bool,
    pub imsi_exposure_ratio: bool,
    pub imsi_exposure: ImsiExposureConfig,
}

/// The default configuration: every analyzer but the test analyzer, and the
/// default exposure-ratio settings.
pub open spec fn default_analyzer_config() -> AnalyzerConfig {
    AnalyzerConfig {
        diagnostic_analyzer: true,
        connection_redirect_2g_downgrade: true,
        lte_sib6_and_7_downgrade: true,
        null_cipher: true,
        nas_null_cipher: true,
        incomplete_sib: true,
        test_analyzer: false,
        imsi_requested: true,
        imsi_exposure_ratio: true,
        imsi_exposure: default_config(),
    }
}

impl AnalyzerConfig {
    /// A harness can be made from a configuration whose exposure-ratio
    /// settings are valid, or that leaves that analyzer out.
    pub open spec fn wf(self) -> bool {
        self.imsi_exposure_ratio ==> self.imsi_exposure.wf()
    }

    /// Says whether a harness can be made from this configuration.
    pub fn is_valid(&self) -> (b: bool)
        ensures
            b == self.wf(),
    {
        !self.imsi_exposure_ratio || self.imsi_exposure.is_valid()
    }
}

impl Default for AnalyzerConfig {
    fn default() -> (c: Self)
        ensures
            c == default_analyzer_config(),
            c.wf(),
    {
        AnalyzerConfig {
            diagnostic_analyzer: true,
            connection_redirect_2g_downgrade: true,
            lte_sib6_and_7_downgrade: true,
            null_cipher: true,
            nas_null_cipher: true,
            incomplete_sib: true,
            test_analyzer: false,
            imsi_requested: true,
            imsi_exposure_ratio: true,
            imsi_exposure: ImsiExposureConfig::default(),
        }
    }
}

/// One analyzer of a harness.
pub enum AnalyzerSlot {
    Diagnostic(DiagnosticAnalyzer),
    ConnectionRedirect2GDowngrade(ConnectionRedirect2GDowngradeAnalyzer),
    NullCipher(NullCipherAnalyzer),
    NasNullCipher(NasNullCipherAnalyzer),
    ImsiRequested(ImsiRequestedAnalyzer),
    ImsiExposureRatio(ImsiExposureRatioAnalyzer),
}

/// An analyzer of a harness as a mathematical value: which analyzer it is,
/// and the state that its verdicts depend on.
pub enum SlotState {
    Diagnostic,
    ConnectionRedirect2GDowngrade,
    NullCipher,
    NasNullCipher,
    ImsiRequested,
    ImsiExposureRatio { config: ImsiExposureConfig, window: Seq<bool> },
}

/// What the analyzer in a slot reports on a message.
pub open spec fn slot_event(slot: SlotState, ie: InformationElement) -> Option<SpecEvent> {
    match slot {
        SlotState::Diagnostic => diagnostic_event(ie),
        SlotState::ConnectionRedirect2GDowngrade => redirect_event(ie),
        SlotState::NullCipher => null_cipher_event(ie),
        SlotState::NasNullCipher => nas_null_cipher_event(ie),
        SlotState::ImsiRequested => imsi_requested_event(ie),
        SlotState::ImsiExposureRatio { config, window } => ratio_event(config, window, ie),
    }
}

/// The analyzer in a slot after it has seen a message.
pub open spec fn slot_after(slot: SlotState, ie: InformationElement) -> SlotState {
    match slot {
        SlotState::ImsiExposureRatio { config, window } => SlotState::ImsiExposureRatio {
            config,
            window: ratio_window_after(config, window, ie),
        },
        _ => slot,
    }
}

/// The name of the analyzer in a slot.
pub open spec fn slot_name(slot: SlotState) -> Seq<char> {
    match slot {
        SlotState::Diagnostic => super::diagnostic::NAME@,
        SlotState::ConnectionRedirect2GDowngrade => super::connection_redirect_downgrade::NAME@,
        SlotState::NullCipher => super::null_cipher::NAME@,
        SlotState::NasNullCipher => super::nas_null_cipher::NAME@,
        SlotState::ImsiRequested => super::imsi_requested::NAME@,
        SlotState::ImsiExposureRatio { .. } => super::imsi_exposure_ratio::NAME@,
    }
}

/// The description of the analyzer in a slot.
pub open spec fn slot_description(slot: SlotState) -> Seq<char> {
    match slot {
        SlotState::Diagnostic => super::diagnostic::DESCRIPTION@,
        SlotState::ConnectionRedirect2GDowngrade => {
            super::connection_redirect_downgrade::DESCRIPTION@
        },
        SlotState::NullCipher => super::null_cipher::DESCRIPTION@,
        SlotState::NasNullCipher => super::nas_null_cipher::DESCRIPTION@,
        SlotState::ImsiRequested => super::imsi_requested::DESCRIPTION@,
        SlotState::ImsiExposureRatio { .. } => super::imsi_exposure_ratio::DESCRIPTION@,
    }
}

/// The version of the analyzer in a slot.
pub open spec fn slot_version(slot: SlotState) -> u32 {
    match slot {
        SlotState::Diagnostic => super::diagnostic::VERSION,
        SlotState::ConnectionRedirect2GDowngrade => super::connection_redirect_downgrade::VERSION,
        SlotState::NullCipher => super::null_cipher::VERSION,
        SlotState::NasNullCipher => super::nas_null_cipher::VERSION,
        SlotState::ImsiRequested => super::imsi_requested::VERSION,
        SlotState::ImsiExposureRatio { .. } => super::imsi_exposure_ratio::VERSION,
    }
}

impl View for AnalyzerSlot {
    type V = SlotState;

    open spec fn view(&self) -> SlotState {
        match self {
            AnalyzerSlot::Diagnostic(_) => SlotState::Diagnostic,
            AnalyzerSlot::ConnectionRedirect2GDowngrade(_) => {
                SlotState::ConnectionRedirect2GDowngrade
            },
            AnalyzerSlot::NullCipher(_) => SlotState::NullCipher,
            AnalyzerSlot::NasNullCipher(_) => SlotState::NasNullCipher,
            AnalyzerSlot::ImsiRequested(_) => SlotState::ImsiRequested,
            AnalyzerSlot::ImsiExposureRatio(a) => SlotState::ImsiExposureRatio {
                config: a.config(),
                window: a.window(),
            },
        }
    }
}

impl Analyzer for AnalyzerSlot {
    open spec fn wf(&self) -> bool {
        match self {
            AnalyzerSlot::ImsiExposureRatio(a) => a.wf(),
            _ => true,
        }
    }

    fn get_name(&self) -> (name: String)
        ensures
            name@ == slot_name(self@),
    {
        match self {
            AnalyzerSlot::Diagnostic(a) => a.get_name(),
            AnalyzerSlot::ConnectionRedirect2GDowngrade(a) => a.get_name(),
            AnalyzerSlot::NullCipher(a) => a.get_name(),
            AnalyzerSlot::NasNullCipher(a) => a.get_name(),
            AnalyzerSlot::ImsiRequested(a) => a.get_name(),
            AnalyzerSlot::ImsiExposureRatio(a) => a.get_name(),
        }
    }

    fn get_description(&self) -> (description: String)
        ensures
            description@ == slot_description(self@),
    {
        match self {
            AnalyzerSlot::Diagnostic(a) => a.get_description(),
            AnalyzerSlot::ConnectionRedirect2GDowngrade(a) => a.get_description(),
            AnalyzerSlot::NullCipher(a) => a.get_description(),
            AnalyzerSlot::NasNullCipher(a) => a.get_description(),
            AnalyzerSlot::ImsiRequested(a) => a.get_description(),
            AnalyzerSlot::ImsiExposureRatio(a) => a.get_description(),
        }
    }

    fn get_version(&self) -> (version: u32)
        ensures
            version == slot_version(self@),
    {
        match self {
            AnalyzerSlot::Diagnostic(a) => a.get_version(),
            AnalyzerSlot::ConnectionRedirect2GDowngrade(a) => a.get_version(),
            AnalyzerSlot::NullCipher(a) => a.get_version(),
            AnalyzerSlot::NasNullCipher(a) => a.get_version(),
            AnalyzerSlot::ImsiRequested(a) => a.get_version(),
            AnalyzerSlot::ImsiExposureRatio(a) => a.get_version(),
        }
    }

    fn analyze_information_element(&mut self, ie: &InformationElement, packet_num: usize) -> (e:
        Option<Event>)
        ensures
            event_view(e) == slot_event(old(self)@, *ie),
            final(self)@ == slot_after(old(self)@, *ie),
    {
        match self {
            AnalyzerSlot::Diagnostic(a) => a.analyze_information_element(ie, packet_num),
            AnalyzerSlot::ConnectionRedirect2GDowngrade(a) => a.analyze_information_element(
                ie,
                packet_num,
            ),
            AnalyzerSlot::NullCipher(a) => a.analyze_information_element(ie, packet_num),
            AnalyzerSlot::NasNullCipher(a) => a.analyze_information_element(ie, packet_num),
            AnalyzerSlot::ImsiRequested(a) => a.analyze_information_element(ie, packet_num),
            AnalyzerSlot::ImsiExposureRatio(a) => a.analyze_information_element(ie, packet_num),
        }
    }
}

/// Why a message of a container gave no element to analyze.
#[derive(Clone, Debug, PartialEq, Eq)]
pub enum SkippedReason {
    /// The message's log code is known and its payload did not parse.
    DecodeError { log_code: u16, detail: String },
    /// A frame of the stream was damaged.
    FramingError(FramingError),
}

/// A skip reason as a mathematical value.
pub enum SpecSkippedReason {
    DecodeError { log_code: u16, detail: Seq<char> },
    FramingError(FramingError),
}

impl View for SkippedReason {
    type V = SpecSkippedReason;

    open spec fn view(&self) -> SpecSkippedReason {
        match self {
            SkippedReason::DecodeError { log_code, detail } => SpecSkippedReason::DecodeError {
                log_code: *log_code,
                detail: detail@,
            },
            SkippedReason::FramingError(how) => SpecSkippedReason::FramingError(*how),
        }
    }
}

/// What the protocol decoder made of one log item.
#[derive(Clone, Debug, PartialEq, Eq)]
pub enum DecodedItem {
    /// The log code is not one the decoder knows: nothing to analyze and
    /// nothing to report.
    Unknown,
    /// The item was skipped, for the given reason.
    Skipped(SkippedReason),
    /// The item decoded to a message.
    Element(InformationElement),
}

/// The decoded log items of one container, with the modem's timestamp.
#[derive(Clone, Debug, PartialEq, Eq)]
pub struct DecodedContainer {
    pub timestamp: u64,
    pub items: Vec<DecodedItem>,
}

/// What the harness reports for one container: one slot per analyzer, in the
/// order of the analyzers.
#[derive(Clone, Debug, PartialEq, Eq)]
pub struct Row {
    pub timestamp: u64,
    pub skipped_message_reasons: Vec<SkippedReason>,
    pub events: Vec<Option<Event>>,
}

/// A row as a mathematical value.
pub struct SpecRow {
    pub timestamp: u64,
    pub skipped_message_reasons: Seq<SpecSkippedReason>,
    pub events: Seq<Option<SpecEvent>>,
}

impl View for Row {
    type V = SpecRow;

    open spec fn view(&self) -> SpecRow {
        SpecRow {
            timestamp: self.timestamp,
            skipped_message_reasons: Seq::new(
                self.skipped_message_reasons@.len(),
                |i: int| self.skipped_message_reasons@[i]@,
            ),
            events: Seq::new(self.events@.len(), |i: int| event_view(self.events@[i])),
        }
    }
}

/// The analyzers of a harness after they have all seen a message.
pub open spec fn slots_after(slots: Seq<SlotState>, ie: InformationElement) -> Seq<SlotState> {
    Seq::new(slots.len(), |i: int| slot_after(slots[i], ie))
}

/// The events of a row after the analyzers have seen one more message: an
/// analyzer that reports an event overwrites its slot, any other leaves its
/// slot as it was.
pub open spec fn events_after(
    slots: Seq<SlotState>,
    events: Seq<Option<SpecEvent>>,
    ie: InformationElement,
) -> Seq<Option<SpecEvent>> {
    Seq::new(
        slots.len(),
        |i: int|
            match slot_event(slots[i], ie) {
                Some(e) => Some(e),
                None => events[i],
            },
    )
}

/// A harness while it works through a container: its analyzers, and the
/// skip reasons and events gathered so far.
pub struct Progress {
    pub slots: Seq<SlotState>,
    pub skipped: Seq<SpecSkippedReason>,
    pub events: Seq<Option<SpecEvent>>,
}

/// The state of a harness with the given analyzers after the first `n` of the
/// items of a container: an unknown item changes nothing, a skipped item adds
/// its reason, and a message is shown to every analyzer in order.
pub open spec fn progress_after(slots: Seq<SlotState>, items: Seq<DecodedItem>, n: nat) -> Progress
    decreases n,
{
    if n == 0 {
        Progress {
            slots,
            skipped: Seq::empty(),
            events: Seq::new(slots.len(), |i: int| None::<SpecEvent>),
        }
    } else {
        let before = progress_after(slots, items, (n - 1) as nat);
        match items[n - 1] {
            DecodedItem::Unknown => before,
            DecodedItem::Skipped(reason) => Progress {
                skipped: before.skipped.push(reason@),
                ..before
            },
            DecodedItem::Element(ie) => Progress {
                slots: slots_after(before.slots, ie),
                skipped: before.skipped,
                events: events_after(before.slots, before.events, ie),
            },
        }
    }
}

/// The row that a harness with the given analyzers reports for a container.
pub open spec fn row_of(slots: Seq<SlotState>, container: DecodedContainer) -> SpecRow {
    let done = progress_after(slots, container.items@, container.items@.len());
    SpecRow {
        timestamp: container.timestamp,
        skipped_message_reasons: done.skipped,
        events: done.events,
    }
}

/// The analyzers of a harness after a container.
pub open spec fn slots_after_container(slots: Seq<SlotState>, container: DecodedContainer) -> Seq<
    SlotState,
> {
    progress_after(slots, container.items@, container.items@.len()).slots
}

/// The analyzers that a configuration selects, in the order in which a
/// harness runs them.
pub open spec fn configured_slots(config: AnalyzerConfig) -> Seq<SlotState> {
    let none = Seq::<SlotState>::empty();
    (if config.diagnostic_analyzer {
        seq![SlotState::Diagnostic]
    } else {
        none
    }) + (if config.connection_redirect_2g_downgrade {
        seq![SlotState::ConnectionRedirect2GDowngrade]
    } else {
        none
    }) + (if config.null_cipher {
        seq![SlotState::NullCipher]
    } else {
        none
    }) + (if config.nas_null_cipher {
        seq![SlotState::NasNullCipher]
    } else {
        none
    }) + (if config.imsi_requested {
        seq![SlotState::ImsiRequested]
    } else {
        none
    }) + (if config.imsi_exposure_ratio {
        seq![
            SlotState::ImsiExposureRatio {
                config: config.imsi_exposure,
                window: Seq::<bool>::empty(),
            },
        ]
    } else {
        none
    })
}

/// The rows that a harness with the given analyzers reports for a sequence
/// of containers, one row each, in order.
pub open spec fn session_rows(slots: Seq<SlotState>, containers: Seq<DecodedContainer>) -> Seq<
    SpecRow,
>
    decreases containers.len(),
{
    if containers.len() == 0 {
        Seq::empty()
    } else {
        session_rows(slots, containers.drop_last()).push(
            row_of(session_slots(slots, containers.drop_last()), containers.last()),
        )
    }
}

/// The analyzers of a harness after a sequence of containers.
pub open spec fn session_slots(slots: Seq<SlotState>, containers: Seq<DecodedContainer>) -> Seq<
    SlotState,
>
    decreases containers.len(),
{
    if containers.len() == 0 {
        slots
    } else {
        slots_after_container(session_slots(slots, containers.drop_last()), containers.last())
    }
}

/// Number of log items in a sequence of containers.
pub open spec fn session_items(containers: Seq<DecodedContainer>) -> nat
    decreases containers.len(),
{
    if containers.len() == 0 {
        0
    } else {
        session_items(containers.drop_last()) + containers.last().items@.len()
    }
}

/// The numbers that the log items of a session get, container by container:
/// each container's items are numbered on from the count of the items before.
pub open spec fn session_packet_numbers(containers: Seq<DecodedContainer>) -> Seq<nat>
    decreases containers.len(),
{
    if containers.len() == 0 {
        Seq::empty()
    } else {
        let before = session_items(containers.drop_last());
        session_packet_numbers(containers.drop_last()) + Seq::new(
            containers.last().items@.len(),
            |k: int| (before + k) as nat,
        )
    }
}

/// Name, description and version of one analyzer, as a report's header
/// lists them.
#[derive(Clone, Debug, PartialEq, Eq)]
pub struct AnalyzerMetadata {
    pub name: String,
    pub description: String,
    pub version: u32,
}

/// Runs an ordered set of analyzers over the messages of a session.
pub struct Harness {
    analyzers: Vec<AnalyzerSlot>,
    packet_num: usize,
}

impl Harness {
    /// Every analyzer of the harness is well formed.
    pub closed spec fn wf(&self) -> bool {
        forall|i: int| 0 <= i < self.analyzers@.len() ==> (#[trigger] self.analyzers@[i]).wf()
    }

    /// The analyzers, in the order in which they run.
    pub closed spec fn slots(&self) -> Seq<SlotState> {
        Seq::new(self.analyzers@.len(), |i: int| self.analyzers@[i]@)
    }

    /// Number of log items seen so far in the session: the number that the
    /// next item gets.
    pub closed spec fn packet_num(&self) -> nat {
        self.packet_num as nat
    }

    /// A harness without analyzers, at the start of a session.
    pub fn new() -> (h: Self)
        ensures
            h.wf(),
            h.slots() == Seq::<SlotState>::empty(),
            h.packet_num() == 0,
    {
        let h = Harness { analyzers: Vec::new(), packet_num: 0 };
        assert(h.slots() == Seq::<SlotState>::empty());
        h
    }

    /// A harness with the analyzers that `config` selects, at the start of a
    /// session.
    pub fn new_with_config(config: &AnalyzerConfig) -> (h: Self)
        requires
            config.wf(),
        ensures
            h.wf(),
            h.slots() == configured_slots(*config),
            h.packet_num() == 0,
    {
        let mut h = Harness::new();
        if config.diagnostic_analyzer {
            h.add_analyzer(AnalyzerSlot::Diagnostic(DiagnosticAnalyzer::new()));
        }
        if config.connection_redirect_2g_downgrade {
            h.add_analyzer(
                AnalyzerSlot::ConnectionRedirect2GDowngrade(
                    ConnectionRedirect2GDowngradeAnalyzer::new(),
                ),
            );
        }
        if config.null_cipher {
            h.add_analyzer(AnalyzerSlot::NullCipher(NullCipherAnalyzer::new()));
        }
        if config.nas_null_cipher {
            h.add_analyzer(AnalyzerSlot::NasNullCipher(NasNullCipherAnalyzer::new()));
        }
        if config.imsi_requested {
            h.add_analyzer(AnalyzerSlot::ImsiRequested(ImsiRequestedAnalyzer::new()));
        }
        if config.imsi_exposure_ratio {
            h.add_analyzer(
                AnalyzerSlot::ImsiExposureRatio(
                    ImsiExposureRatioAnalyzer::new(config.imsi_exposure),
                ),
            );
        }
        assert(h.slots() == configured_slots(*config));
        h
    }

    /// Adds an analyzer behind those the harness has.
    pub fn add_analyzer(&mut self, analyzer: AnalyzerSlot)
        requires
            old(self).wf(),
            analyzer.wf(),
        ensures
            final(self).wf(),
            final(self).slots() == old(self).slots().push(analyzer@),
            final(self).packet_num() == old(self).packet_num(),
    {
        self.analyzers.push(analyzer);
        assert(self.slots() == old(self).slots().push(analyzer@));
    }

    /// Number of analyzers.
    pub fn analyzer_count(&self) -> (n: usize)
        ensures
            n == self.slots().len(),
    {
        self.analyzers.len()
    }

    /// Number of log items seen so far in the session.
    pub fn packets_seen(&self) -> (n: usize)
        ensures
            n == self.packet_num(),
    {
        self.packet_num
    }

    /// Name, description and version of every analyzer, in order.
    pub fn get_metadata(&self) -> (metadata: Vec<AnalyzerMetadata>)
        ensures
            metadata@.len() == self.slots().len(),
            forall|i: int|
                0 <= i < metadata@.len() ==> (#[trigger] metadata@[i]).name@ == slot_name(
                    self.slots()[i],
                ) && metadata@[i].description@ == slot_description(self.slots()[i])
                    && metadata@[i].version == slot_version(self.slots()[i]),
    {
        let mut metadata: Vec<AnalyzerMetadata> = Vec::new();
        let mut i: usize = 0;
        while i < self.analyzers.len()
            invariant
                i <= self.analyzers@.len(),
                metadata@.len() == i,
                forall|j: int|
                    0 <= j < i ==> (#[trigger] metadata@[j]).name@ == slot_name(
                        self.analyzers@[j]@,
                    ) && metadata@[j].description@ == slot_description(self.analyzers@[j]@)
                        && metadata@[j].version == slot_version(self.analyzers@[j]@),
            decreases self.analyzers@.len() - i,
        {
            let slot = &self.analyzers[i];
            metadata.push(
                AnalyzerMetadata {
                    name: slot.get_name(),
                    description: slot.get_description(),
                    version: slot.get_version(),
                },
            );
            i = i + 1;
        }
        metadata
    }

    /// Shows one message to every analyzer in order, and stores each event
    /// that is reported in that analyzer's slot of `events`.
    fn analyze_element(
        &mut self,
        ie: &InformationElement,
        events: &mut Vec<Option<Event>>,
        packet_num: usize,
    )
        requires
            old(self).wf(),
            old(events)@.len() == old(self).slots().len(),
        ensures
            final(self).wf(),
            final(self).packet_num() == old(self).packet_num(),
            final(self).slots() == slots_after(old(self).slots(), *ie),
            final(events)@.len() == old(events)@.len(),
            Seq::new(final(events)@.len(), |i: int| event_view(final(events)@[i])) == events_after(
                old(self).slots(),
                Seq::new(old(events)@.len(), |i: int| event_view(old(events)@[i])),
                *ie,
            ),
    {
        let n = self.analyzers.len();
        let mut i: usize = 0;
        while i < n
            invariant
                i <= n,
                n == self.analyzers@.len(),
                n == old(self).analyzers@.len(),
                n == events@.len(),
                n == old(events)@.len(),
                self.packet_num == old(self).packet_num,
                forall|j: int| 0 <= j < n ==> (#[trigger] self.analyzers@[j]).wf(),
                forall|j: int|
                    0 <= j < i ==> (#[trigger] self.analyzers@[j])@ == slot_after(
                        old(self).analyzers@[j]@,
                        *ie,
                    ),
                forall|j: int|
                    i <= j < n ==> #[trigger] self.analyzers@[j] == old(self).analyzers@[j],
                forall|j: int|
                    0 <= j < i ==> event_view(#[trigger] events@[j]) == match slot_event(
                        old(self).analyzers@[j]@,
                        *ie,
                    ) {
                        Some(e) => Some(e),
                        None => event_view(old(events)@[j]),
                    },
                forall|j: int| i <= j < n ==> #[trigger] events@[j] == old(events)@[j],
            decreases n - i,
        {
            let found = self.analyzers[i].analyze_information_element(ie, packet_num);
            if found.is_some() {
                events[i] = found;
            }
            i = i + 1;
        }
        assert(self.slots() =~= slots_after(old(self).slots(), *ie));
        assert(Seq::new(events@.len(), |i: int| event_view(events@[i])) =~= events_after(
            old(self).slots(),
            Seq::new(old(events)@.len(), |i: int| event_view(old(events)@[i])),
            *ie,
        ));
    }

    /// Works through one container and reports its row: the container's
    /// timestamp, the reasons of the items that were skipped, and for each
    /// analyzer the last event it reported on the container's messages.
    /// Every log item of the container takes one packet number.
    pub fn analyze_container(&mut self, container: &DecodedContainer) -> (row: Row)
        requires
            old(self).wf(),
            old(self).packet_num() + container.items@.len() <= usize::MAX,
        ensures
            final(self).wf(),
            row@ == row_of(old(self).slots(), *container),
            row.events@.len() == old(self).slots().len(),
            final(self).slots() == slots_after_container(old(self).slots(), *container),
            final(self).slots().len() == old(self).slots().len(),
            final(self).packet_num() == old(self).packet_num() + container.items@.len(),
    {
        let ghost start = self.slots();
        let analyzers = self.analyzers.len();
        let mut skipped: Vec<SkippedReason> = Vec::new();
        let mut events: Vec<Option<Event>> = Vec::new();
        let mut a: usize = 0;
        while a < analyzers
            invariant
                a <= analyzers,
                events@.len() == a,
                forall|j: int| 0 <= j < a ==> (#[trigger] events@[j]) is None,
            decreases analyzers - a,
        {
            events.push(None);
            a = a + 1;
        }
        assert(Seq::new(events@.len(), |i: int| event_view(events@[i])) =~= progress_after(
            start,
            container.items@,
            0,
        ).events);
        assert(Seq::new(skipped@.len(), |i: int| skipped@[i]@) =~= Seq::<
            SpecSkippedReason,
        >::empty());

        let mut k: usize = 0;
        while k < container.items.len()
            invariant
                k <= container.items@.len(),
                self.wf(),
                self.packet_num == old(self).packet_num + k,
                old(self).packet_num + container.items@.len() <= usize::MAX,
                start == old(self).slots(),
                start.len() == analyzers,
                self.slots() == progress_after(start, container.items@, k as nat).slots,
                self.slots().len() == start.len(),
                events@.len() == start.len(),
                Seq::new(skipped@.len(), |i: int| skipped@[i]@) == progress_after(
                    start,
                    container.items@,
                    k as nat,
                ).skipped,
                Seq::new(events@.len(), |i: int| event_view(events@[i])) == progress_after(
                    start,
                    container.items@,
                    k as nat,
                ).events,
            decreases container.items@.len() - k,
        {
            let ghost before = progress_after(start, container.items@, k as nat);
            let ghost skipped_before = Seq::new(skipped@.len(), |i: int| skipped@[i]@);
            match &container.items[k] {
                DecodedItem::Unknown => {},
                DecodedItem::Skipped(reason) => {
                    let kept = copy_reason(reason);
                    skipped.push(kept);
                    assert(Seq::new(skipped@.len(), |i: int| skipped@[i]@) =~= skipped_before.push(
                        reason@,
                    ));
                },
                DecodedItem::Element(ie) => {
                    let number = self.packet_num;
                    self.analyze_element(ie, &mut events, number);
                },
            }
            self.packet_num = self.packet_num + 1;
            k = k + 1;
        }
        Row { timestamp: container.timestamp, skipped_message_reasons: skipped, events }
    }

    /// Works through a sequence of containers in order and reports one row
    /// for each.
    pub fn analyze_containers(&mut self, containers: &Vec<DecodedContainer>) -> (rows: Vec<Row>)
        requires
            old(self).wf(),
            old(self).packet_num() + session_items(containers@) <= usize::MAX,
        ensures
            final(self).wf(),
            rows@.len() == containers@.len(),
            Seq::new(rows@.len(), |i: int| rows@[i]@) == session_rows(
                old(self).slots(),
                containers@,
            ),
            final(self).slots() == session_slots(old(self).slots(), containers@),
            final(self).packet_num() == old(self).packet_num() + session_items(containers@),
    {
        let ghost start = self.slots();
        let mut rows: Vec<Row> = Vec::new();
        let mut c: usize = 0;
        assert(containers@.take(0) =~= Seq::<DecodedContainer>::empty());
        assert(Seq::new(rows@.len(), |i: int| rows@[i]@) =~= Seq::<SpecRow>::empty());
        while c < containers.len()
            invariant
                c <= containers@.len(),
                self.wf(),
                start == old(self).slots(),
                rows@.len() == c,
                old(self).packet_num() + session_items(containers@) <= usize::MAX,
                self.packet_num() == old(self).packet_num() + session_items(
                    containers@.take(c as int),
                ),
                self.slots() == session_slots(start, containers@.take(c as int)),
                Seq::new(rows@.len(), |i: int| rows@[i]@) == session_rows(
                    start,
                    containers@.take(c as int),
                ),
            decreases containers@.len() - c,
        {
            let ghost rows_before = Seq::new(rows@.len(), |i: int| rows@[i]@);
            proof {
                assert(containers@.take(c + 1).drop_last() =~= containers@.take(c as int));
                assert(containers@.take(c + 1).last() == containers@[c as int]);
                lemma_session_items_grow(containers@, c + 1);
            }
            let row = self.analyze_container(&containers[c]);
            rows.push(row);
            assert(Seq::new(rows@.len(), |i: int| rows@[i]@) =~= rows_before.push(row@));
            c = c + 1;
        }
        assert(containers@.take(c as int) =~= containers@);
        rows
    }
}

/// A copy of a skip reason.
fn copy_reason(reason: &SkippedReason) -> (copy: SkippedReason)
    ensures
        copy@ == reason@,
{
    match reason {
        SkippedReason::DecodeError { log_code, detail } => SkippedReason::DecodeError {
            log_code: *log_code,
            detail: detail.clone(),
        },
        SkippedReason::FramingError(how) => SkippedReason::FramingError(*how),
    }
}

/// The first containers of a session hold no more log items than all of them.
pub proof fn lemma_session_items_grow(containers: Seq<DecodedContainer>, n: int)
    requires
        0 <= n <= containers.len(),
    ensures
        session_items(containers.take(n)) <= session_items(containers),
    decreases containers.len(),
{
    if n < containers.len() {
        lemma_session_items_grow(containers.drop_last(), n);
        assert(containers.drop_last().take(n) =~= containers.take(n));
    } else {
        assert(containers.take(n) =~= containers);
    }
}

/// Slot alignment: whatever a container holds, its row has one event slot
/// for each analyzer of the harness, and the harness keeps its analyzers.
pub proof fn lemma_row_has_one_slot_per_analyzer(slots: Seq<SlotState>, container: DecodedContainer)
    ensures
        row_of(slots, container).events.len() == slots.len(),
        slots_after_container(slots, container).len() == slots.len(),
{
    lemma_progress_keeps_slots(slots, container.items@, container.items@.len());
}

/// While a harness works through a container it keeps one event slot for
/// each of its analyzers.
pub proof fn lemma_progress_keeps_slots(slots: Seq<SlotState>, items: Seq<DecodedItem>, n: nat)
    ensures
        progress_after(slots, items, n).events.len() == slots.len(),
        progress_after(slots, items, n).slots.len() == slots.len(),
    decreases n,
{
    if n > 0 {
        lemma_progress_keeps_slots(slots, items, (n - 1) as nat);
    }
}

/// Slot alignment over a session: every row of a session has one event slot
/// for each analyzer that the harness started with.
pub proof fn lemma_session_rows_aligned(slots: Seq<SlotState>, containers: Seq<DecodedContainer>)
    ensures
        session_rows(slots, containers).len() == containers.len(),
        session_slots(slots, containers).len() == slots.len(),
        forall|i: int|
            0 <= i < containers.len() ==> (#[trigger] session_rows(
                slots,
                containers,
            )[i]).events.len() == slots.len(),
    decreases containers.len(),
{
    if containers.len() > 0 {
        lemma_session_rows_aligned(slots, containers.drop_last());
        lemma_row_has_one_slot_per_analyzer(
            session_slots(slots, containers.drop_last()),
            containers.last(),
        );
    }
}

/// Packet numbering: the log items of a session are numbered 0, 1, 2, ... in
/// the order in which they are seen, so the numbers start at 0 and strictly
/// increase, across the containers of the session as within each.
pub proof fn lemma_packet_numbers_count_up(containers: Seq<DecodedContainer>)
    ensures
        session_packet_numbers(containers).len() == session_items(containers),
        forall|i: int|
            0 <= i < session_items(containers) ==> #[trigger] session_packet_numbers(
                containers,
            )[i] == i,
    decreases containers.len(),
{
    if containers.len() > 0 {
        lemma_packet_numbers_count_up(containers.drop_last());
    }
}

/// Replay determinism: the rows of a session are a function of the
/// configuration and the containers, so two runs over the same containers
/// with the same configuration report the same rows.
pub proof fn lemma_replay_is_deterministic(
    config: AnalyzerConfig,
    containers: Seq<DecodedContainer>,
    first_run: Seq<SpecRow>,
    second_run: Seq<SpecRow>,
)
    requires
        first_run == session_rows(configured_slots(config), containers),
        second_run == session_rows(configured_slots(config), containers),
    ensures
        first_run == second_run,
{
}

} // verus!
