//! An analyzer for NAS security mode commands that switch protection off.

use super::analyzer::{Analyzer, Event, EventType, SpecEvent};
use super::information_element::{
    CipheringAlgorithm, EmmMessage, InformationElement, IntegrityAlgorithm,
    LteInformationElement, NasMessage, NasSecurityModeCommand,
};
use vstd::prelude::*;
use vstd::string::*;

verus! {

/// The name of the analyzer.
pub const NAME: &'static str = "NAS Null Cipher";

/// What the analyzer looks for.
pub const DESCRIPTION: &'static str =
    "Tests whether the network selects a null NAS algorithm (EEA0 or EIA0) although the device offered another";

/// The version of the analyzer; it goes up when its behaviour changes.
pub const VERSION: u32 = 1;

/// Whether a security mode command selects a null algorithm where the
/// device had offered another: the null cipher, or the null integrity
/// algorithm.
pub open spec fn downgrades(command: NasSecurityModeCommand) -> bool {
    ||| command.ciphering_algorithm is Eea0 && command.non_null_ciphering_offered
    ||| command.integrity_algorithm is Eia0 && command.non_null_integrity_offered
}

/// Whether a message is a NAS security mode command that selects a null
/// algorithm where the device had offered another.
pub open spec fn selects_null_nas_algorithm(ie: InformationElement) -> bool {
    ie matches InformationElement::LTE(
        LteInformationElement::NAS(
            NasMessage::EMMMessage(EmmMessage::EMMSecurityModeCommand(command)),
        ),
    ) && downgrades(command)
}

/// What the analyzer reports on a message: a high-severity event exactly on
/// a NAS security mode command that selects a null algorithm where the
/// device had offered another.
pub open spec fn nas_null_cipher_event(ie: InformationElement) -> Option<SpecEvent> {
    if selects_null_nas_algorithm(ie) {
        Some((EventType::High, "NAS security mode command selected a null algorithm"@))
    } else {
        None
    }
}

/// Reports NAS security mode commands that select a null algorithm where
/// the device had offered another. It keeps no state.
pub struct NasNullCipherAnalyzer;

impl NasNullCipherAnalyzer {
    /// The analyzer. It has no settings and keeps no state.
    pub fn new() -> (a: Self)
        ensures
            a.wf(),
    {
        NasNullCipherAnalyzer
    }
}

impl Analyzer for NasNullCipherAnalyzer {
    open spec fn wf(&self) -> bool {
        true
    }

    fn get_name(&self) -> (name: String)
        ensures
            name@ == NAME@,
    {
        String::from_str(NAME)
    }

    fn get_description(&self) -> (description: String)
        ensures
            description@ == DESCRIPTION@,
    {
        String::from_str(DESCRIPTION)
    }

    fn get_version(&self) -> (version: u32)
        ensures
            version == VERSION,
    {
        VERSION
    }

    fn analyze_information_element(&mut self, ie: &InformationElement, packet_num: usize) -> (e:
        Option<Event>)
        ensures
            super::analyzer::event_view(e) == nas_null_cipher_event(*ie),
    {
        if let InformationElement::LTE(LteInformationElement::NAS(NasMessage::EMMMessage(
            EmmMessage::EMMSecurityModeCommand(command),
        ))) = ie {
            let null_cipher = match command.ciphering_algorithm {
                CipheringAlgorithm::Eea0 => command.non_null_ciphering_offered,
                _ => false,
            };
            let null_integrity = match command.integrity_algorithm {
                IntegrityAlgorithm::Eia0 => command.non_null_integrity_offered,
                _ => false,
            };
            if null_cipher || null_integrity {
                return Some(
                    Event {
                        event_type: EventType::High,
                        message: String::from_str(
                            "NAS security mode command selected a null algorithm",
                        ),
                    },
                );
            }
        }
        None
    }
}

} // verus!
