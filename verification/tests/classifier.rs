use rayhunter::analysis::imsi_exposure_classifier::{
    classify, classify_lte, is_countable_message, ImsiExposureCategory,
};
use rayhunter::analysis::information_element::{
    CipheringAlgorithm, DetachRequest, DetachType, DlDcchMessage, EmmCause, EmmMessage,
    IdentityType, InformationElement, IntegrityAlgorithm, LteInformationElement, NasMessage,
    NasSecurityModeCommand, Paging, PagingRecord, PagingUeIdentity, PcchMessage,
    RedirectedCarrierInfo, RrcConnectionRelease, SecurityModeCommand,
};

fn emm(m: EmmMessage) -> InformationElement {
    InformationElement::LTE(LteInformationElement::NAS(NasMessage::EMMMessage(m)))
}

fn release(info: Option<RedirectedCarrierInfo>) -> InformationElement {
    InformationElement::LTE(LteInformationElement::DlDcch(DlDcchMessage::RrcConnectionRelease(
        RrcConnectionRelease { redirected_carrier_info: info },
    )))
}

fn paging(ids: Option<Vec<PagingUeIdentity>>) -> InformationElement {
    InformationElement::LTE(LteInformationElement::PCCH(PcchMessage::Paging(Paging {
        paging_record_list: ids
            .map(|v| v.into_iter().map(|ue_identity| PagingRecord { ue_identity }).collect()),
    })))
}

const ALL_CAUSES: [EmmCause; 13] = [
    EmmCause::IllegalUE,
    EmmCause::IllegalME,
    EmmCause::EPSServicesNotAllowed,
    EmmCause::EPSServicesAndNonEPSServicesNotAllowed,
    EmmCause::UEIdentityCannotBeDerivedByTheNetwork,
    EmmCause::PLMNNotAllowed,
    EmmCause::TrackingAreaNotAllowed,
    EmmCause::RoamingNotAllowedInThisTrackingArea,
    EmmCause::EPSServicesNotAllowedInThisPLMN,
    EmmCause::NoSuitableCellsInTrackingArea,
    EmmCause::RequestedServiceOptionNotAuthorizedInThisPLMN,
    EmmCause::Other(22),
    EmmCause::Other(0),
];

#[test]
fn test_non_lte_messages_not_classified() {
    assert!(classify(&InformationElement::GSM).is_none());
    assert!(classify(&InformationElement::UMTS).is_none());
    assert!(classify(&InformationElement::FiveG).is_none());
}

#[test]
fn test_non_lte_not_countable() {
    // Only LTE is countable: GSM, UMTS and 5G are reserved.
    assert!(!is_countable_message(&InformationElement::GSM));
    assert!(!is_countable_message(&InformationElement::UMTS));
    assert!(!is_countable_message(&InformationElement::FiveG));
}

#[test]
fn every_lte_message_is_countable() {
    assert!(is_countable_message(&emm(EmmMessage::Other)));
    assert!(is_countable_message(&InformationElement::LTE(LteInformationElement::BcchBch)));
    assert!(is_countable_message(&release(None)));
    assert!(is_countable_message(&paging(None)));
}

#[test]
fn identity_request_always_exposes() {
    for (id, text) in [
        (IdentityType::IMSI, "EMM Identity Request (IMSI)"),
        (IdentityType::IMEI, "EMM Identity Request (IMEI)"),
        (IdentityType::IMEISV, "EMM Identity Request (IMEISV)"),
        (IdentityType::TMSI, "EMM Identity Request (TMSI)"),
        (IdentityType::Reserved, "EMM Identity Request (Reserved)"),
    ] {
        let c = classify(&emm(EmmMessage::EMMIdentityRequest(id))).unwrap();
        assert_eq!(c.category, ImsiExposureCategory::DirectIdentityRequest);
        assert_eq!(c.description, text);
    }
}

#[test]
fn attach_reject_exposes_on_the_listed_causes_only() {
    let exposing = [
        EmmCause::IllegalUE,
        EmmCause::IllegalME,
        EmmCause::EPSServicesNotAllowed,
        EmmCause::EPSServicesAndNonEPSServicesNotAllowed,
        EmmCause::PLMNNotAllowed,
        EmmCause::TrackingAreaNotAllowed,
        EmmCause::RoamingNotAllowedInThisTrackingArea,
        EmmCause::EPSServicesNotAllowedInThisPLMN,
        EmmCause::NoSuitableCellsInTrackingArea,
        EmmCause::RequestedServiceOptionNotAuthorizedInThisPLMN,
    ];
    for cause in ALL_CAUSES {
        let c = classify(&emm(EmmMessage::EMMAttachReject(cause)));
        assert_eq!(c.is_some(), exposing.contains(&cause), "{:?}", cause);
        if let Some(found) = c {
            assert_eq!(found.category, ImsiExposureCategory::AttachReject);
            assert_eq!(found.description, format!("EMM Attach Reject ({:?})", cause));
        }
    }
}

#[test]
fn tau_reject_exposes_on_the_listed_causes_only() {
    let exposing = [
        EmmCause::IllegalUE,
        EmmCause::IllegalME,
        EmmCause::EPSServicesNotAllowed,
        EmmCause::EPSServicesAndNonEPSServicesNotAllowed,
        EmmCause::TrackingAreaNotAllowed,
        EmmCause::EPSServicesNotAllowedInThisPLMN,
        EmmCause::RequestedServiceOptionNotAuthorizedInThisPLMN,
    ];
    for cause in ALL_CAUSES {
        let c = classify(&emm(EmmMessage::EMMTrackingAreaUpdateReject(cause)));
        assert_eq!(c.is_some(), exposing.contains(&cause), "{:?}", cause);
        if let Some(found) = c {
            assert_eq!(found.category, ImsiExposureCategory::TauReject);
            assert_eq!(found.description, format!("EMM TAU Reject ({:?})", cause));
        }
    }
}

#[test]
fn service_reject_exposes_on_the_listed_causes_only() {
    let exposing = [
        EmmCause::IllegalUE,
        EmmCause::IllegalME,
        EmmCause::EPSServicesNotAllowed,
        EmmCause::UEIdentityCannotBeDerivedByTheNetwork,
        EmmCause::TrackingAreaNotAllowed,
        EmmCause::EPSServicesNotAllowedInThisPLMN,
        EmmCause::RequestedServiceOptionNotAuthorizedInThisPLMN,
    ];
    for cause in ALL_CAUSES {
        let c = classify(&emm(EmmMessage::EMMServiceReject(cause)));
        assert_eq!(c.is_some(), exposing.contains(&cause), "{:?}", cause);
        if let Some(found) = c {
            assert_eq!(found.category, ImsiExposureCategory::ServiceReject);
            assert_eq!(found.description, format!("EMM Service Reject ({:?})", cause));
        }
    }
}

#[test]
fn authentication_reject_always_exposes() {
    let c = classify(&emm(EmmMessage::EMMAuthenticationReject)).unwrap();
    assert_eq!(c.category, ImsiExposureCategory::AuthenticationReject);
    assert_eq!(c.description, "EMM Authentication Reject");
}

#[test]
fn detach_request_exposes_unless_imsi_detach() {
    let c = classify(&emm(EmmMessage::EMMDetachRequestMT(DetachRequest {
        detach_type: DetachType::ReAttachRequired,
        emm_cause: None,
    })))
    .unwrap();
    assert_eq!(c.category, ImsiExposureCategory::DetachRequest);
    assert_eq!(c.description, "EMM Detach Request (ReAttachRequired:None)");

    let c = classify(&emm(EmmMessage::EMMDetachRequestMT(DetachRequest {
        detach_type: DetachType::ReAttachNotRequired,
        emm_cause: Some(EmmCause::Other(207)),
    })))
    .unwrap();
    assert_eq!(c.description, "EMM Detach Request (ReAttachNotRequired:Some(Other(207)))");

    let c = classify(&emm(EmmMessage::EMMDetachRequestMT(DetachRequest {
        detach_type: DetachType::Reserved,
        emm_cause: Some(EmmCause::IllegalME),
    })))
    .unwrap();
    assert_eq!(c.description, "EMM Detach Request (Reserved:Some(IllegalME))");

    assert!(classify(&emm(EmmMessage::EMMDetachRequestMT(DetachRequest {
        detach_type: DetachType::IMSIDetach,
        emm_cause: Some(EmmCause::IllegalUE),
    })))
    .is_none());
}

#[test]
fn other_nas_messages_do_not_expose() {
    assert!(classify(&emm(EmmMessage::Other)).is_none());
    assert!(classify(&emm(EmmMessage::EMMSecurityModeCommand(NasSecurityModeCommand {
        ciphering_algorithm: CipheringAlgorithm::Eea0,
        integrity_algorithm: IntegrityAlgorithm::Eia0,
        non_null_ciphering_offered: true,
        non_null_integrity_offered: true,
    })))
    .is_none());
    assert!(classify(&InformationElement::LTE(LteInformationElement::NAS(
        NasMessage::ESMMessage
    )))
    .is_none());
}

#[test]
fn connection_release_exposes_on_geran_redirect_only() {
    let c = classify(&release(Some(RedirectedCarrierInfo::Geran))).unwrap();
    assert_eq!(c.category, ImsiExposureCategory::ConnectionRedirect);
    assert_eq!(c.description, "RRC Connection Release with redirect to 2G (GERAN)");
    for other in [
        RedirectedCarrierInfo::Eutra,
        RedirectedCarrierInfo::UtraFdd,
        RedirectedCarrierInfo::UtraTdd,
        RedirectedCarrierInfo::Cdma2000Hrpd,
        RedirectedCarrierInfo::Cdma2000OneXRtt,
    ] {
        assert!(classify(&release(Some(other))).is_none());
    }
    assert!(classify(&release(None)).is_none());
    assert!(classify(&InformationElement::LTE(LteInformationElement::DlDcch(
        DlDcchMessage::SecurityModeCommand(SecurityModeCommand {
            ciphering_algorithm: CipheringAlgorithm::Eea0
        })
    )))
    .is_none());
    assert!(classify(&InformationElement::LTE(LteInformationElement::DlDcch(
        DlDcchMessage::Other
    )))
    .is_none());
}

#[test]
fn paging_exposes_when_any_record_pages_by_imsi() {
    let c = classify(&paging(Some(vec![PagingUeIdentity::Imsi]))).unwrap();
    assert_eq!(c.category, ImsiExposureCategory::PagingWithImsi);
    assert_eq!(c.description, "Paging with IMSI instead of S-TMSI");
    assert!(classify(&paging(Some(vec![PagingUeIdentity::STmsi, PagingUeIdentity::STmsi, PagingUeIdentity::Imsi]))).is_some());
    assert!(classify(&paging(Some(vec![PagingUeIdentity::Imsi, PagingUeIdentity::STmsi]))).is_some());
    assert!(classify(&paging(Some(vec![PagingUeIdentity::STmsi, PagingUeIdentity::STmsi]))).is_none());
    assert!(classify(&paging(Some(vec![]))).is_none());
    assert!(classify(&paging(None)).is_none());
    assert!(classify(&InformationElement::LTE(LteInformationElement::PCCH(PcchMessage::Other)))
        .is_none());
}

#[test]
fn other_lte_channels_do_not_expose() {
    for e in [
        LteInformationElement::DlCcch,
        LteInformationElement::UlCcch,
        LteInformationElement::UlDcch,
        LteInformationElement::BcchBch,
        LteInformationElement::BcchDlSch,
        LteInformationElement::MCCH,
    ] {
        assert!(classify_lte(&e).is_none());
        assert!(classify(&InformationElement::LTE(e)).is_none());
    }
}

#[test]
fn identical_messages_classify_identically() {
    let a = emm(EmmMessage::EMMAttachReject(EmmCause::PLMNNotAllowed));
    let b = emm(EmmMessage::EMMAttachReject(EmmCause::PLMNNotAllowed));
    assert_eq!(classify(&a), classify(&b));
}
