//! An analyzer for identity requests that ask for the IMSI.

use super::analyzer::{Analyzer, Event, EventType, SpecEvent};
use super::information_element::{
    EmmMessage, IdentityType, InformationElement, LteInformationElement, NasMessage,
};
use vstd::prelude::*;
use vstd::string::*;

verus! {

/// The name of the analyzer.
pub const NAME: &'static str = "IMSI Requested";

/// What the analyzer looks for.
pub const DESCRIPTION: &'static str =
    "Tests whether the network sends an IMSI identity request NAS message";

/// The version of the analyzer; it goes up when its behaviour changes.
pub const VERSION: u32 = 1;

/// Whether a message is an EMM identity request for the IMSI.
pub open spec fn requests_imsi(ie: InformationElement) -> bool {
    ie matches InformationElement::LTE(
        LteInformationElement::NAS(NasMessage::EMMMessage(EmmMessage::EMMIdentityRequest(id_type))),
    ) && id_type is IMSI
}

/// What the analyzer reports on a message: a medium-severity event exactly
/// on an identity request for the IMSI.
pub open spec fn imsi_requested_event(ie: InformationElement) -> Option<SpecEvent> {
    if requests_imsi(ie) {
        Some((EventType::Medium, "NAS IMSI identity request detected"@))
    } else {
        None
    }
}

/// Reports identity requests that ask for the IMSI. It keeps no state.
pub struct ImsiRequestedAnalyzer;

impl ImsiRequestedAnalyzer {
    /// The analyzer. It has no settings and keeps no state.
    pub fn new() -> (a: Self)
        ensures
            a.wf(),
    {
        ImsiRequestedAnalyzer
    }
}

impl Analyzer for ImsiRequestedAnalyzer {
    open spec fn wf(&self) -> bool {
        true
    }

    fn get_name(&self) -> (name: String)
        ensures
            name@ == NAME@,
    {
        String::from_str(NAME)
    }

    fn get_description(&self) -> (description: String)
        ensures
            description@ == DESCRIPTION@,
    {
        String::from_str(DESCRIPTION)
    }

    fn get_version(&self) -> (version: u32)
        ensures
            version == VERSION,
    {
        VERSION
    }

    fn analyze_information_element(&mut self, ie: &InformationElement, packet_num: usize) -> (e:
        Option<Event>)
        ensures
            super::analyzer::event_view(e) == imsi_requested_event(*ie),
    {
        if let InformationElement::LTE(LteInformationElement::NAS(NasMessage::EMMMessage(
            EmmMessage::EMMIdentityRequest(id_type),
        ))) = ie {
            if let IdentityType::IMSI = id_type {
                return Some(
                    Event {
                        event_type: EventType::Medium,
                        message: String::from_str("NAS IMSI identity request detected"),
                    },
                );
            }
        }
        None
    }
}

} // verus!
