//! An analyzer for security mode commands that switch encryption off.

use super::analyzer::{Analyzer, Event, EventType, SpecEvent};
use super::information_element::{
    CipheringAlgorithm, DlDcchMessage, InformationElement, LteInformationElement,
};
use vstd::prelude::*;
use vstd::string::*;

verus! {

/// The name of the analyzer.
pub const NAME: &'static str = "Null Cipher";

/// What the analyzer looks for.
pub const DESCRIPTION: &'static str =
    "Tests whether the cell suggests using a null cipher (EEA0)";

/// The version of the analyzer; it goes up when its behaviour changes.
pub const VERSION: u32 = 1;

/// Whether a message is an RRC security mode command that selects the null
/// cipher.
pub open spec fn selects_null_cipher(ie: InformationElement) -> bool {
    ie matches InformationElement::LTE(
        LteInformationElement::DlDcch(DlDcchMessage::SecurityModeCommand(command)),
    ) && command.ciphering_algorithm is Eea0
}

/// What the analyzer reports on a message: a high-severity event exactly on a
/// security mode command that selects the null cipher.
pub open spec fn null_cipher_event(ie: InformationElement) -> Option<SpecEvent> {
    if selects_null_cipher(ie) {
        Some((EventType::High, "Cell suggested use of null cipher"@))
    } else {
        None
    }
}

/// Reports access-stratum security mode commands that select the null
/// cipher. It keeps no state.
pub struct NullCipherAnalyzer;

impl NullCipherAnalyzer {
    /// The analyzer. It has no settings and keeps no state.
    pub fn new() -> (a: Self)
        ensures
            a.wf(),
    {
        NullCipherAnalyzer
    }
}

impl Analyzer for NullCipherAnalyzer {
    open spec fn wf(&self) -> bool {
        true
    }

    fn get_name(&self) -> (name: String)
        ensures
            name@ == NAME@,
    {
        String::from_str(NAME)
    }

    fn get_description(&self) -> (description: String)
        ensures
            description@ == DESCRIPTION@,
    {
        String::from_str(DESCRIPTION)
    }

    fn get_version(&self) -> (version: u32)
        ensures
            version == VERSION,
    {
        VERSION
    }

    fn analyze_information_element(&mut self, ie: &InformationElement, packet_num: usize) -> (e:
        Option<Event>)
        ensures
            super::analyzer::event_view(e) == null_cipher_event(*ie),
    {
        if let InformationElement::LTE(LteInformationElement::DlDcch(
            DlDcchMessage::SecurityModeCommand(command),
        )) = ie {
            if let CipheringAlgorithm::Eea0 = command.ciphering_algorithm {
                return Some(
                    Event {
                        event_type: EventType::High,
                        message: String::from_str("Cell suggested use of null cipher"),
                    },
                );
            }
        }
        None
    }
}

} // verus!
