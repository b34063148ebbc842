//! An analyzer that reports every IMSI-exposing message it sees.

use super::analyzer::{Analyzer, Event, EventType, SpecEvent};
use super::imsi_exposure_classifier::{classify, spec_classify, ImsiExposureCategory};
use super::information_element::InformationElement;
use vstd::prelude::*;
use vstd::string::*;

verus! {

/// The name of the analyzer.
pub const NAME: &'static str = "Diagnostic detector for messages which might lead to IMSI exposure";

/// What the analyzer looks for.
pub const DESCRIPTION: &'static str =
    "Catches any messages that may lead to IMSI Exposure. Can be quite noisy. Useful as a diagnostic for finding out why an IMSI was sent or what the reason for a reject message was. Not a useful indicator on its own but a helpful diagnostic for understanding why another indicator was triggered. Based on the list of IMSI exposing messages identified in the Tucker et al. (NDSS 2025) paper.";

/// The version of the analyzer; it goes up when its behaviour changes.
pub const VERSION: u32 = 2;

/// The name of a category, as messages show it.
pub open spec fn category_text(c: ImsiExposureCategory) -> Seq<char> {
    match c {
        ImsiExposureCategory::DirectIdentityRequest => "DirectIdentityRequest"@,
        ImsiExposureCategory::AttachReject => "AttachReject"@,
        ImsiExposureCategory::TauReject => "TauReject"@,
        ImsiExposureCategory::ServiceReject => "ServiceReject"@,
        ImsiExposureCategory::AuthenticationReject => "AuthenticationReject"@,
        ImsiExposureCategory::DetachRequest => "DetachRequest"@,
        ImsiExposureCategory::ConnectionRedirect => "ConnectionRedirect"@,
        ImsiExposureCategory::PagingWithImsi => "PagingWithImsi"@,
    }
}

/// What the diagnostic analyzer reports on a message: an informational event
/// that names the classification, exactly when the message is IMSI-exposing.
pub open spec fn diagnostic_event(ie: InformationElement) -> Option<SpecEvent> {
    match spec_classify(ie) {
        Some((category, description)) => Some(
            (
                EventType::Informational,
                "Diagnostic: "@ + description + " ("@ + category_text(category) + ")."@,
            ),
        ),
        None => None,
    }
}

/// Appends the name of a category.
fn append_category(out: &mut String, c: ImsiExposureCategory)
    ensures
        final(out)@ == old(out)@ + category_text(c),
{
    match c {
        ImsiExposureCategory::DirectIdentityRequest => out.append("DirectIdentityRequest"),
        ImsiExposureCategory::AttachReject => out.append("AttachReject"),
        ImsiExposureCategory::TauReject => out.append("TauReject"),
        ImsiExposureCategory::ServiceReject => out.append("ServiceReject"),
        ImsiExposureCategory::AuthenticationReject => out.append("AuthenticationReject"),
        ImsiExposureCategory::DetachRequest => out.append("DetachRequest"),
        ImsiExposureCategory::ConnectionRedirect => out.append("ConnectionRedirect"),
        ImsiExposureCategory::PagingWithImsi => out.append("PagingWithImsi"),
    }
}

/// Reports every message that may lead to IMSI exposure. It keeps no state.
pub struct DiagnosticAnalyzer;

impl DiagnosticAnalyzer {
    /// The analyzer. It has no settings and keeps no state.
    pub fn new() -> (a: Self)
        ensures
            a.wf(),
    {
        DiagnosticAnalyzer
    }
}

impl Default for DiagnosticAnalyzer {
    fn default() -> (a: Self) {
        DiagnosticAnalyzer::new()
    }
}

impl Analyzer for DiagnosticAnalyzer {
    open spec fn wf(&self) -> bool {
        true
    }

    fn get_name(&self) -> (name: String)
        ensures
            name@ == NAME@,
    {
        String::from_str(NAME)
    }

    fn get_description(&self) -> (description: String)
        ensures
            description@ == DESCRIPTION@,
    {
        String::from_str(DESCRIPTION)
    }

    fn get_version(&self) -> (version: u32)
        ensures
            version == VERSION,
    {
        VERSION
    }

    fn analyze_information_element(&mut self, ie: &InformationElement, packet_num: usize) -> (e:
        Option<Event>)
        ensures
            super::analyzer::event_view(e) == diagnostic_event(*ie),
    {
        match classify(ie) {
            Some(classification) => {
                let mut message = String::from_str("Diagnostic: ");
                message.append(classification.description.as_str());
                message.append(" (");
                append_category(&mut message, classification.category);
                message.append(").");
                Some(Event { event_type: EventType::Informational, message })
            },
            None => None,
        }
    }
}

/// The diagnostic analyzer reports on exactly the IMSI-exposing messages,
/// and never with more than informational severity.
pub proof fn lemma_diagnostic_is_informational(ie: InformationElement)
    ensures
        diagnostic_event(ie) is Some <==> spec_classify(ie) is Some,
        diagnostic_event(ie) matches Some(event) ==> event.0 is Informational,
{
}

} // verus!
