//! Events, and what every analyzer offers.

use super::information_element::InformationElement;
use vstd::prelude::*;

verus! {

/// How severe an event is. The variants are declared from least to most
/// severe, so the derived order is the order of severity.
#[derive(Clone, Copy, Debug, PartialEq, Eq, PartialOrd, Ord, Structural)]
pub enum EventType {
    Informational,
    Low,
    Medium,
    High,
}

impl EventType {
    /// The rank of a severity: 0 for the least severe, 3 for the most.
    pub open spec fn spec_level(self) -> nat {
        match self {
            EventType::Informational => 0,
            EventType::Low => 1,
            EventType::Medium => 2,
            EventType::High => 3,
        }
    }

    /// The rank of a severity: 0 for the least severe, 3 for the most.
    pub fn level(self) -> (l: u8)
        ensures
            l == self.spec_level(),
    {
        match self {
            EventType::Informational => 0,
            EventType::Low => 1,
            EventType::Medium => 2,
            EventType::High => 3,
        }
    }

    /// The more severe of two severities.
    pub fn max_severity(self, other: EventType) -> (m: EventType)
        ensures
            m == if self.spec_level() >= other.spec_level() {
                self
            } else {
                other
            },
    {
        if self.level() >= other.level() {
            self
        } else {
            other
        }
    }
}

/// Something an analyzer found worth reporting.
#[derive(Clone, Debug, PartialEq, Eq)]
pub struct Event {
    pub event_type: EventType,
    pub message: String,
}

/// An event as a mathematical value: its severity and the characters of its
/// message.
pub type SpecEvent = (EventType, Seq<char>);

impl View for Event {
    type V = SpecEvent;

    open spec fn view(&self) -> SpecEvent {
        (self.event_type, self.message@)
    }
}

/// The view of an optional event.
pub open spec fn event_view(e: Option<Event>) -> Option<SpecEvent> {
    match e {
        Some(found) => Some(found@),
        None => None,
    }
}

/// What every analyzer offers: a name, a description, a version that changes
/// with its behaviour, and a verdict on each message it is shown.
pub trait Analyzer {
    /// What must hold of an analyzer's state between calls.
    spec fn wf(&self) -> bool;

    /// A user-friendly, concise name.
    fn get_name(&self) -> String;

    /// What the analyzer looks for, and how far to trust it.
    fn get_description(&self) -> String;

    /// Goes up whenever the analyzer's behaviour changes.
    fn get_version(&self) -> u32;

    /// Looks at one message, the `packet_num`-th of the session, and reports
    /// an event if it finds the message noteworthy.
    fn analyze_information_element(&mut self, ie: &InformationElement, packet_num: usize) -> (e:
        Option<Event>)
        requires
            old(self).wf(),
        ensures
            final(self).wf(),
    ;
}

} // verus!
