//! Classification of messages that make a device reveal its permanent
//! subscriber identity (IMSI), or that carry it.
//!
//! The taxonomy follows Tucker et al., "Detecting IMSI-Catchers by
//! Characterizing Identity Exposing Messages in Cellular Traffic" (NDSS 2025).
//! Both the diagnostic analyzer and the exposure-ratio analyzer build on it.

use super::information_element::{
    DetachRequest, DetachType, DlDcchMessage, EmmCause, EmmMessage, IdentityType,
    InformationElement, LteInformationElement, NasMessage, PagingRecord, PagingUeIdentity,
    PcchMessage, RedirectedCarrierInfo,
};
use crate::text::{append_decimal, decimal};
use vstd::prelude::*;
use vstd::string::*;

verus! {

/// The kinds of IMSI-exposing message.
#[derive(Clone, Copy, Debug, PartialEq, Eq, Structural)]
pub enum ImsiExposureCategory {
    /// An identity request.
    DirectIdentityRequest,
    /// An attach reject whose cause makes the device attach again with its IMSI.
    AttachReject,
    /// A tracking area update reject whose cause voids the temporary identity.
    TauReject,
    /// A service reject whose cause resets the temporary identity.
    ServiceReject,
    /// An authentication reject.
    AuthenticationReject,
    /// A network-initiated detach other than an IMSI detach.
    DetachRequest,
    /// A connection release that redirects to a 2G cell.
    ConnectionRedirect,
    /// Paging by IMSI in place of the temporary identity.
    PagingWithImsi,
}

/// What the classifier found in an IMSI-exposing message.
#[derive(Clone, Debug, PartialEq, Eq)]
pub struct ImsiExposureClassification {
    pub category: ImsiExposureCategory,
    pub description: String,
}

/// A classification as a mathematical value: its category and the characters
/// of its description.
pub type SpecClassification = (ImsiExposureCategory, Seq<char>);

impl View for ImsiExposureClassification {
    type V = SpecClassification;

    open spec fn view(&self) -> SpecClassification {
        (self.category, self.description@)
    }
}

/// The view of an optional classification.
pub open spec fn option_view(c: Option<ImsiExposureClassification>) -> Option<SpecClassification> {
    match c {
        Some(found) => Some(found@),
        None => None,
    }
}

/// The name of an identity type, as descriptions show it.
pub open spec fn identity_type_text(t: IdentityType) -> Seq<char> {
    match t {
        IdentityType::IMSI => "IMSI"@,
        IdentityType::IMEI => "IMEI"@,
        IdentityType::IMEISV => "IMEISV"@,
        IdentityType::TMSI => "TMSI"@,
        IdentityType::Reserved => "Reserved"@,
    }
}

/// The name of a cause, as descriptions show it.
pub open spec fn cause_text(c: EmmCause) -> Seq<char> {
    match c {
        EmmCause::IllegalUE => "IllegalUE"@,
        EmmCause::IllegalME => "IllegalME"@,
        EmmCause::EPSServicesNotAllowed => "EPSServicesNotAllowed"@,
        EmmCause::EPSServicesAndNonEPSServicesNotAllowed => "EPSServicesAndNonEPSServicesNotAllowed"@,
        EmmCause::UEIdentityCannotBeDerivedByTheNetwork => "UEIdentityCannotBeDerivedByTheNetwork"@,
        EmmCause::PLMNNotAllowed => "PLMNNotAllowed"@,
        EmmCause::TrackingAreaNotAllowed => "TrackingAreaNotAllowed"@,
        EmmCause::RoamingNotAllowedInThisTrackingArea => "RoamingNotAllowedInThisTrackingArea"@,
        EmmCause::EPSServicesNotAllowedInThisPLMN => "EPSServicesNotAllowedInThisPLMN"@,
        EmmCause::NoSuitableCellsInTrackingArea => "NoSuitableCellsInTrackingArea"@,
        EmmCause::RequestedServiceOptionNotAuthorizedInThisPLMN => "RequestedServiceOptionNotAuthorizedInThisPLMN"@,
        EmmCause::Other(code) => "Other("@ + decimal(code as nat) + ")"@,
    }
}

/// The name of an optional cause, as descriptions show it.
pub open spec fn optional_cause_text(c: Option<EmmCause>) -> Seq<char> {
    match c {
        Some(cause) => "Some("@ + cause_text(cause) + ")"@,
        None => "None"@,
    }
}

/// The name of a detach type, as descriptions show it.
pub open spec fn detach_type_text(t: DetachType) -> Seq<char> {
    match t {
        DetachType::ReAttachRequired => "ReAttachRequired"@,
        DetachType::ReAttachNotRequired => "ReAttachNotRequired"@,
        DetachType::IMSIDetach => "IMSIDetach"@,
        DetachType::Reserved => "Reserved"@,
    }
}

/// Whether an attach reject with this cause makes the device attach again
/// with its IMSI.
pub open spec fn attach_reject_exposes(c: EmmCause) -> bool {
    ||| c is IllegalUE
    ||| c is IllegalME
    ||| c is EPSServicesNotAllowed
    ||| c is EPSServicesAndNonEPSServicesNotAllowed
    ||| c is PLMNNotAllowed
    ||| c is TrackingAreaNotAllowed
    ||| c is RoamingNotAllowedInThisTrackingArea
    ||| c is EPSServicesNotAllowedInThisPLMN
    ||| c is NoSuitableCellsInTrackingArea
    ||| c is RequestedServiceOptionNotAuthorizedInThisPLMN
}

/// Whether a tracking area update reject with this cause voids the device's
/// temporary identity.
pub open spec fn tau_reject_exposes(c: EmmCause) -> bool {
    ||| c is IllegalUE
    ||| c is IllegalME
    ||| c is EPSServicesNotAllowed
    ||| c is EPSServicesAndNonEPSServicesNotAllowed
    ||| c is TrackingAreaNotAllowed
    ||| c is EPSServicesNotAllowedInThisPLMN
    ||| c is RequestedServiceOptionNotAuthorizedInThisPLMN
}

/// Whether a service reject with this cause resets the device's temporary
/// identity.
pub open spec fn service_reject_exposes(c: EmmCause) -> bool {
    ||| c is IllegalUE
    ||| c is IllegalME
    ||| c is EPSServicesNotAllowed
    ||| c is UEIdentityCannotBeDerivedByTheNetwork
    ||| c is TrackingAreaNotAllowed
    ||| c is EPSServicesNotAllowedInThisPLMN
    ||| c is RequestedServiceOptionNotAuthorizedInThisPLMN
}

/// The classification of a mobility-management message.
pub open spec fn spec_classify_emm(m: EmmMessage) -> Option<SpecClassification> {
    match m {
        EmmMessage::EMMIdentityRequest(id_type) => Some(
            (
                ImsiExposureCategory::DirectIdentityRequest,
                "EMM Identity Request ("@ + identity_type_text(id_type) + ")"@,
            ),
        ),
        EmmMessage::EMMAttachReject(cause) => if attach_reject_exposes(cause) {
            Some(
                (
                    ImsiExposureCategory::AttachReject,
                    "EMM Attach Reject ("@ + cause_text(cause) + ")"@,
                ),
            )
        } else {
            None
        },
        EmmMessage::EMMTrackingAreaUpdateReject(cause) => if tau_reject_exposes(cause) {
            Some(
                (ImsiExposureCategory::TauReject, "EMM TAU Reject ("@ + cause_text(cause) + ")"@),
            )
        } else {
            None
        },
        EmmMessage::EMMServiceReject(cause) => if service_reject_exposes(cause) {
            Some(
                (
                    ImsiExposureCategory::ServiceReject,
                    "EMM Service Reject ("@ + cause_text(cause) + ")"@,
                ),
            )
        } else {
            None
        },
        EmmMessage::EMMAuthenticationReject => Some(
            (ImsiExposureCategory::AuthenticationReject, "EMM Authentication Reject"@),
        ),
        EmmMessage::EMMDetachRequestMT(request) => if !(request.detach_type is IMSIDetach) {
            Some(
                (
                    ImsiExposureCategory::DetachRequest,
                    "EMM Detach Request ("@ + detach_type_text(request.detach_type) + ":"@
                        + optional_cause_text(request.emm_cause) + ")"@,
                ),
            )
        } else {
            None
        },
        EmmMessage::EMMSecurityModeCommand(_) => None,
        EmmMessage::Other => None,
    }
}

/// The classification of a NAS message: only mobility management exposes.
pub open spec fn spec_classify_nas(m: NasMessage) -> Option<SpecClassification> {
    match m {
        NasMessage::EMMMessage(emm) => spec_classify_emm(emm),
        NasMessage::ESMMessage => None,
    }
}

/// The classification of a downlink dedicated-channel message: a connection
/// release exposes when it redirects to GERAN.
pub open spec fn spec_classify_dl_dcch(m: DlDcchMessage) -> Option<SpecClassification> {
    if m matches DlDcchMessage::RrcConnectionRelease(release) && release.redirected_carrier_info
        == Some(RedirectedCarrierInfo::Geran) {
        Some(
            (
                ImsiExposureCategory::ConnectionRedirect,
                "RRC Connection Release with redirect to 2G (GERAN)"@,
            ),
        )
    } else {
        None
    }
}

/// Whether any of the paging records names its device by IMSI.
pub open spec fn pages_by_imsi(records: Seq<PagingRecord>) -> bool {
    exists|i: int| 0 <= i < records.len() && (#[trigger] records[i]).ue_identity is Imsi
}

/// The classification of a paging-channel message: paging exposes when any
/// record pages by IMSI.
pub open spec fn spec_classify_pcch(m: PcchMessage) -> Option<SpecClassification> {
    if m matches PcchMessage::Paging(paging) && paging.paging_record_list matches Some(records)
        && pages_by_imsi(records@) {
        Some((ImsiExposureCategory::PagingWithImsi, "Paging with IMSI instead of S-TMSI"@))
    } else {
        None
    }
}

/// The classification of an LTE message.
pub open spec fn spec_classify_lte(e: LteInformationElement) -> Option<SpecClassification> {
    match e {
        LteInformationElement::NAS(m) => spec_classify_nas(m),
        LteInformationElement::DlDcch(m) => spec_classify_dl_dcch(m),
        LteInformationElement::PCCH(m) => spec_classify_pcch(m),
        _ => None,
    }
}

/// The classification of a message: `None` when it is benign or of a radio
/// technology that is not classified.
pub open spec fn spec_classify(ie: InformationElement) -> Option<SpecClassification> {
    match ie {
        InformationElement::LTE(e) => spec_classify_lte(e),
        _ => None,
    }
}

/// Whether a message counts towards the total of an exposure ratio: every
/// LTE message does, and no other.
pub open spec fn spec_is_countable_message(ie: InformationElement) -> bool {
    ie is LTE
}

/// Says whether a message is IMSI-exposing, and if so of which kind and why.
pub fn classify(ie: &InformationElement) -> (c: Option<ImsiExposureClassification>)
    ensures
        option_view(c) == spec_classify(*ie),
{
    match ie {
        InformationElement::LTE(lte_ie) => classify_lte(lte_ie),
        _ => None,
    }
}

/// Says whether a message counts towards the total of an exposure ratio.
pub fn is_countable_message(ie: &InformationElement) -> (b: bool)
    ensures
        b == spec_is_countable_message(*ie),
{
    match ie {
        InformationElement::LTE(_) => true,
        _ => false,
    }
}

/// Classifies an LTE message.
pub fn classify_lte(lte_ie: &LteInformationElement) -> (c: Option<ImsiExposureClassification>)
    ensures
        option_view(c) == spec_classify_lte(*lte_ie),
{
    match lte_ie {
        LteInformationElement::NAS(nas_msg) => classify_nas(nas_msg),
        LteInformationElement::DlDcch(msg) => classify_dl_dcch(msg),
        LteInformationElement::PCCH(msg) => classify_pcch(msg),
        _ => None,
    }
}

/// Classifies a NAS message.
pub fn classify_nas(nas_msg: &NasMessage) -> (c: Option<ImsiExposureClassification>)
    ensures
        option_view(c) == spec_classify_nas(*nas_msg),
{
    match nas_msg {
        NasMessage::EMMMessage(emm_msg) => classify_emm(emm_msg),
        _ => None,
    }
}

/// Appends the name of an identity type.
fn append_identity_type(out: &mut String, t: IdentityType)
    ensures
        final(out)@ == old(out)@ + identity_type_text(t),
{
    match t {
        IdentityType::IMSI => out.append("IMSI"),
        IdentityType::IMEI => out.append("IMEI"),
        IdentityType::IMEISV => out.append("IMEISV"),
        IdentityType::TMSI => out.append("TMSI"),
        IdentityType::Reserved => out.append("Reserved"),
    }
}

/// Appends the name of a cause.
fn append_cause(out: &mut String, c: EmmCause)
    ensures
        final(out)@ == old(out)@ + cause_text(c),
{
    match c {
        EmmCause::IllegalUE => out.append("IllegalUE"),
        EmmCause::IllegalME => out.append("IllegalME"),
        EmmCause::EPSServicesNotAllowed => out.append("EPSServicesNotAllowed"),
        EmmCause::EPSServicesAndNonEPSServicesNotAllowed => out.append(
            "EPSServicesAndNonEPSServicesNotAllowed",
        ),
        EmmCause::UEIdentityCannotBeDerivedByTheNetwork => out.append(
            "UEIdentityCannotBeDerivedByTheNetwork",
        ),
        EmmCause::PLMNNotAllowed => out.append("PLMNNotAllowed"),
        EmmCause::TrackingAreaNotAllowed => out.append("TrackingAreaNotAllowed"),
        EmmCause::RoamingNotAllowedInThisTrackingArea => out.append(
            "RoamingNotAllowedInThisTrackingArea",
        ),
        EmmCause::EPSServicesNotAllowedInThisPLMN => out.append("EPSServicesNotAllowedInThisPLMN"),
        EmmCause::NoSuitableCellsInTrackingArea => out.append("NoSuitableCellsInTrackingArea"),
        EmmCause::RequestedServiceOptionNotAuthorizedInThisPLMN => out.append(
            "RequestedServiceOptionNotAuthorizedInThisPLMN",
        ),
        EmmCause::Other(code) => {
            out.append("Other(");
            append_decimal(out, code as u64);
            out.append(")");
            assert(out@ == old(out)@ + ("Other("@ + decimal(code as nat) + ")"@));
        },
    }
}

/// Appends the name of a detach type.
fn append_detach_type(out: &mut String, t: DetachType)
    ensures
        final(out)@ == old(out)@ + detach_type_text(t),
{
    match t {
        DetachType::ReAttachRequired => out.append("ReAttachRequired"),
        DetachType::ReAttachNotRequired => out.append("ReAttachNotRequired"),
        DetachType::IMSIDetach => out.append("IMSIDetach"),
        DetachType::Reserved => out.append("Reserved"),
    }
}

/// Whether an attach reject with this cause exposes.
fn is_exposing_attach_cause(c: EmmCause) -> (b: bool)
    ensures
        b == attach_reject_exposes(c),
{
    match c {
        EmmCause::IllegalUE
        | EmmCause::IllegalME
        | EmmCause::EPSServicesNotAllowed
        | EmmCause::EPSServicesAndNonEPSServicesNotAllowed
        | EmmCause::PLMNNotAllowed
        | EmmCause::TrackingAreaNotAllowed
        | EmmCause::RoamingNotAllowedInThisTrackingArea
        | EmmCause::EPSServicesNotAllowedInThisPLMN
        | EmmCause::NoSuitableCellsInTrackingArea
        | EmmCause::RequestedServiceOptionNotAuthorizedInThisPLMN => true,
        _ => false,
    }
}

/// Whether a tracking area update reject with this cause exposes.
fn is_exposing_tau_cause(c: EmmCause) -> (b: bool)
    ensures
        b == tau_reject_exposes(c),
{
    match c {
        EmmCause::IllegalUE
        | EmmCause::IllegalME
        | EmmCause::EPSServicesNotAllowed
        | EmmCause::EPSServicesAndNonEPSServicesNotAllowed
        | EmmCause::TrackingAreaNotAllowed
        | EmmCause::EPSServicesNotAllowedInThisPLMN
        | EmmCause::RequestedServiceOptionNotAuthorizedInThisPLMN => true,
        _ => false,
    }
}

/// Whether a service reject with this cause exposes.
fn is_exposing_service_cause(c: EmmCause) -> (b: bool)
    ensures
        b == service_reject_exposes(c),
{
    match c {
        EmmCause::IllegalUE
        | EmmCause::IllegalME
        | EmmCause::EPSServicesNotAllowed
        | EmmCause::UEIdentityCannotBeDerivedByTheNetwork
        | EmmCause::TrackingAreaNotAllowed
        | EmmCause::EPSServicesNotAllowedInThisPLMN
        | EmmCause::RequestedServiceOptionNotAuthorizedInThisPLMN => true,
        _ => false,
    }
}

/// A classification of a reject message: the given prefix, the cause's name,
/// and a closing bracket.
fn reject_classification(category: ImsiExposureCategory, prefix: &str, cause: EmmCause) -> (c:
    ImsiExposureClassification)
    ensures
        c@ == (category, prefix@ + cause_text(cause) + ")"@),
{
    let mut description = String::from_str(prefix);
    append_cause(&mut description, cause);
    description.append(")");
    ImsiExposureClassification { category, description }
}

/// Classifies a mobility-management message.
pub fn classify_emm(emm_msg: &EmmMessage) -> (c: Option<ImsiExposureClassification>)
    ensures
        option_view(c) == spec_classify_emm(*emm_msg),
{
    match emm_msg {
        EmmMessage::EMMIdentityRequest(id_type) => {
            let mut description = String::from_str("EMM Identity Request (");
            append_identity_type(&mut description, *id_type);
            description.append(")");
            Some(
                ImsiExposureClassification {
                    category: ImsiExposureCategory::DirectIdentityRequest,
                    description,
                },
            )
        },
        EmmMessage::EMMAttachReject(cause) => {
            if is_exposing_attach_cause(*cause) {
                Some(
                    reject_classification(
                        ImsiExposureCategory::AttachReject,
                        "EMM Attach Reject (",
                        *cause,
                    ),
                )
            } else {
                None
            }
        },
        EmmMessage::EMMTrackingAreaUpdateReject(cause) => {
            if is_exposing_tau_cause(*cause) {
                Some(
                    reject_classification(
                        ImsiExposureCategory::TauReject,
                        "EMM TAU Reject (",
                        *cause,
                    ),
                )
            } else {
                None
            }
        },
        EmmMessage::EMMServiceReject(cause) => {
            if is_exposing_service_cause(*cause) {
                Some(
                    reject_classification(
                        ImsiExposureCategory::ServiceReject,
                        "EMM Service Reject (",
                        *cause,
                    ),
                )
            } else {
                None
            }
        },
        EmmMessage::EMMAuthenticationReject => Some(
            ImsiExposureClassification {
                category: ImsiExposureCategory::AuthenticationReject,
                description: String::from_str("EMM Authentication Reject"),
            },
        ),
        EmmMessage::EMMDetachRequestMT(request) => {
            match request.detach_type {
                DetachType::IMSIDetach => None,
                _ => {
                    let mut description = String::from_str("EMM Detach Request (");
                    append_detach_type(&mut description, request.detach_type);
                    description.append(":");
                    match request.emm_cause {
                        Some(cause) => {
                            description.append("Some(");
                            append_cause(&mut description, cause);
                            description.append(")");
                        },
                        None => {
                            description.append("None");
                        },
                    }
                    description.append(")");
                    assert(description@ == "EMM Detach Request ("@ + detach_type_text(
                        request.detach_type,
                    ) + ":"@ + optional_cause_text(request.emm_cause) + ")"@);
                    Some(
                        ImsiExposureClassification {
                            category: ImsiExposureCategory::DetachRequest,
                            description,
                        },
                    )
                },
            }
        },
        EmmMessage::EMMSecurityModeCommand(_) => None,
        EmmMessage::Other => None,
    }
}

/// Classifies a downlink dedicated-channel message.
pub fn classify_dl_dcch(msg: &DlDcchMessage) -> (c: Option<ImsiExposureClassification>)
    ensures
        option_view(c) == spec_classify_dl_dcch(*msg),
{
    if let DlDcchMessage::RrcConnectionRelease(release) = msg {
        if let Some(carrier_info) = release.redirected_carrier_info {
            if let RedirectedCarrierInfo::Geran = carrier_info {
                return Some(
                    ImsiExposureClassification {
                        category: ImsiExposureCategory::ConnectionRedirect,
                        description: String::from_str(
                            "RRC Connection Release with redirect to 2G (GERAN)",
                        ),
                    },
                );
            }
        }
    }
    None
}

/// Classifies a paging-channel message.
pub fn classify_pcch(msg: &PcchMessage) -> (c: Option<ImsiExposureClassification>)
    ensures
        option_view(c) == spec_classify_pcch(*msg),
{
    if let PcchMessage::Paging(paging) = msg {
        if let Some(records) = &paging.paging_record_list {
            let mut i: usize = 0;
            while i < records.len()
                invariant
                    *msg == PcchMessage::Paging(*paging),
                    paging.paging_record_list == Some(*records),
                    i <= records.len(),
                    forall|j: int| 0 <= j < i ==> !((#[trigger] records@[j]).ue_identity is Imsi),
                decreases records.len() - i,
            {
                if let PagingUeIdentity::Imsi = records[i].ue_identity {
                    assert(records@[i as int].ue_identity is Imsi);
                    return Some(
                        ImsiExposureClassification {
                            category: ImsiExposureCategory::PagingWithImsi,
                            description: String::from_str("Paging with IMSI instead of S-TMSI"),
                        },
                    );
                }
                i = i + 1;
            }
        }
    }
    None
}

} // verus!
