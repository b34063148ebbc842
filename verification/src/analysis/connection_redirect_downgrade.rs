//! An analyzer for connection releases that send the device to a 2G cell.

use super::analyzer::{Analyzer, Event, EventType, SpecEvent};
use super::information_element::{
    DlDcchMessage, InformationElement, LteInformationElement, RedirectedCarrierInfo,
};
use vstd::prelude::*;
use vstd::string::*;

verus! {

/// The name of the analyzer.
pub const NAME: &'static str = "Connection Release/Redirected Carrier 2G Downgrade";

/// What the analyzer looks for.
pub const DESCRIPTION: &'static str =
    "Tests if a cell releases our connection and redirects us to a 2G cell.";

/// The version of the analyzer; it goes up when its behaviour changes.
pub const VERSION: u32 = 1;

/// Whether a message is an RRC connection release that redirects to GERAN.
pub open spec fn redirects_to_2g(ie: InformationElement) -> bool {
    ie matches InformationElement::LTE(
        LteInformationElement::DlDcch(DlDcchMessage::RrcConnectionRelease(release)),
    ) && release.redirected_carrier_info == Some(RedirectedCarrierInfo::Geran)
}

/// What the analyzer reports on a message: a high-severity event exactly on a
/// connection release that redirects to GERAN.
pub open spec fn redirect_event(ie: InformationElement) -> Option<SpecEvent> {
    if redirects_to_2g(ie) {
        Some((EventType::High, "Detected 2G downgrade"@))
    } else {
        None
    }
}

/// Reports connection releases that redirect to a 2G cell. It keeps no state.
pub struct ConnectionRedirect2GDowngradeAnalyzer;

impl ConnectionRedirect2GDowngradeAnalyzer {
    /// The analyzer. It has no settings and keeps no state.
    pub fn new() -> (a: Self)
        ensures
            a.wf(),
    {
        ConnectionRedirect2GDowngradeAnalyzer
    }
}

impl Analyzer for ConnectionRedirect2GDowngradeAnalyzer {
    open spec fn wf(&self) -> bool {
        true
    }

    fn get_name(&self) -> (name: String)
        ensures
            name@ == NAME@,
    {
        String::from_str(NAME)
    }

    fn get_description(&self) -> (description: String)
        ensures
            description@ == DESCRIPTION@,
    {
        String::from_str(DESCRIPTION)
    }

    fn get_version(&self) -> (version: u32)
        ensures
            version == VERSION,
    {
        VERSION
    }

    fn analyze_information_element(&mut self, ie: &InformationElement, packet_num: usize) -> (e:
        Option<Event>)
        ensures
            super::analyzer::event_view(e) == redirect_event(*ie),
    {
        if let InformationElement::LTE(LteInformationElement::DlDcch(
            DlDcchMessage::RrcConnectionRelease(release),
        )) = ie {
            if let Some(RedirectedCarrierInfo::Geran) = release.redirected_carrier_info {
                return Some(
                    Event {
                        event_type: EventType::High,
                        message: String::from_str("Detected 2G downgrade"),
                    },
                );
            }
        }
        None
    }
}

} // verus!
