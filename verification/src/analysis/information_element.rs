//! The decoded signalling messages that analyzers consume.
//!
//! Each type holds the parts of a message that the analyzers read, as plain
//! values. LTE is the only radio technology that is populated; the others are
//! reserved so that analyzers stay total when their decoders arrive.

use vstd::prelude::*;

verus! {

/// One decoded control-plane message, tagged by radio technology.
#[derive(Clone, Debug, PartialEq, Eq)]
pub enum InformationElement {
    GSM,
    UMTS,
    LTE(LteInformationElement),
    FiveG,
}

/// An LTE message, tagged by the logical channel or layer that carried it.
#[derive(Clone, Debug, PartialEq, Eq)]
pub enum LteInformationElement {
    /// Non-access-stratum signalling.
    NAS(NasMessage),
    /// Downlink dedicated control channel.
    DlDcch(DlDcchMessage),
    /// Paging control channel.
    PCCH(PcchMessage),
    DlCcch,
    UlCcch,
    UlDcch,
    BcchBch,
    BcchDlSch,
    MCCH,
}

/// A NAS message, by sublayer.
#[derive(Clone, Debug, PartialEq, Eq)]
pub enum NasMessage {
    /// EPS mobility management.
    EMMMessage(EmmMessage),
    /// EPS session management.
    ESMMessage,
}

/// The mobility-management messages that the analyzers tell apart.
#[derive(Clone, Debug, PartialEq, Eq)]
pub enum EmmMessage {
    EMMIdentityRequest(IdentityType),
    EMMAttachReject(EmmCause),
    EMMTrackingAreaUpdateReject(EmmCause),
    EMMServiceReject(EmmCause),
    EMMAuthenticationReject,
    /// Detach requested by the network.
    EMMDetachRequestMT(DetachRequest),
    EMMSecurityModeCommand(NasSecurityModeCommand),
    /// Any other mobility-management message.
    Other,
}

/// The identity that an identity request asks the device to send.
#[derive(Clone, Copy, Debug, PartialEq, Eq, Structural)]
pub enum IdentityType {
    IMSI,
    IMEI,
    IMEISV,
    TMSI,
    /// A value the standard leaves unassigned.
    Reserved,
}

/// The cause carried by a reject or detach message.
#[derive(Clone, Copy, Debug, PartialEq, Eq, Structural)]
pub enum EmmCause {
    IllegalUE,
    IllegalME,
    EPSServicesNotAllowed,
    EPSServicesAndNonEPSServicesNotAllowed,
    UEIdentityCannotBeDerivedByTheNetwork,
    PLMNNotAllowed,
    TrackingAreaNotAllowed,
    RoamingNotAllowedInThisTrackingArea,
    EPSServicesNotAllowedInThisPLMN,
    NoSuitableCellsInTrackingArea,
    RequestedServiceOptionNotAuthorizedInThisPLMN,
    /// Any other cause, by its code.
    Other(u8),
}

/// What a network-initiated detach asks of the device.
#[derive(Clone, Copy, Debug, PartialEq, Eq, Structural)]
pub enum DetachType {
    ReAttachRequired,
    ReAttachNotRequired,
    IMSIDetach,
    /// A value the standard leaves unassigned.
    Reserved,
}

/// A network-initiated detach request.
#[derive(Clone, Copy, Debug, PartialEq, Eq, Structural)]
pub struct DetachRequest {
    pub detach_type: DetachType,
    pub emm_cause: Option<EmmCause>,
}

/// A NAS security mode command: the algorithms that the network selects,
/// and whether the device had offered any other than the null algorithms.
#[derive(Clone, Copy, Debug, PartialEq, Eq, Structural)]
pub struct NasSecurityModeCommand {
    pub ciphering_algorithm: CipheringAlgorithm,
    pub integrity_algorithm: IntegrityAlgorithm,
    pub non_null_ciphering_offered: bool,
    pub non_null_integrity_offered: bool,
}

/// The integrity algorithm a security mode command selects.
#[derive(Clone, Copy, Debug, PartialEq, Eq, Structural)]
pub enum IntegrityAlgorithm {
    /// The null algorithm: messages are not protected.
    Eia0,
    Eia1,
    Eia2,
    Eia3,
    /// A value the standard leaves unassigned.
    Spare,
}

/// The downlink dedicated-channel messages that the analyzers tell apart.
#[derive(Clone, Debug, PartialEq, Eq)]
pub enum DlDcchMessage {
    RrcConnectionRelease(RrcConnectionRelease),
    SecurityModeCommand(SecurityModeCommand),
    /// Any other message on the channel.
    Other,
}

/// An RRC connection release.
#[derive(Clone, Copy, Debug, PartialEq, Eq, Structural)]
pub struct RrcConnectionRelease {
    /// Where the network sends the device next, if it says so.
    pub redirected_carrier_info: Option<RedirectedCarrierInfo>,
}

/// The radio technology a connection release redirects to.
#[derive(Clone, Copy, Debug, PartialEq, Eq, Structural)]
pub enum RedirectedCarrierInfo {
    Eutra,
    Geran,
    UtraFdd,
    UtraTdd,
    Cdma2000Hrpd,
    Cdma2000OneXRtt,
}

/// An access-stratum security mode command.
#[derive(Clone, Copy, Debug, PartialEq, Eq, Structural)]
pub struct SecurityModeCommand {
    pub ciphering_algorithm: CipheringAlgorithm,
}

/// The ciphering algorithm a security mode command selects.
#[derive(Clone, Copy, Debug, PartialEq, Eq, Structural)]
pub enum CipheringAlgorithm {
    /// The null cipher: traffic is sent in the clear.
    Eea0,
    Eea1,
    Eea2,
    Eea3,
    /// A value the standard leaves unassigned.
    Spare,
}

/// The paging-channel messages that the analyzers tell apart.
#[derive(Clone, Debug, PartialEq, Eq)]
pub enum PcchMessage {
    Paging(Paging),
    /// Any other message on the channel.
    Other,
}

/// A paging message.
#[derive(Clone, Debug, PartialEq, Eq)]
pub struct Paging {
    pub paging_record_list: Option<Vec<PagingRecord>>,
}

/// One paged device.
#[derive(Clone, Copy, Debug, PartialEq, Eq, Structural)]
pub struct PagingRecord {
    pub ue_identity: PagingUeIdentity,
}

/// How a paging record names the device it pages.
#[derive(Clone, Copy, Debug, PartialEq, Eq, Structural)]
pub enum PagingUeIdentity {
    /// The temporary identity, as a well-behaved network uses.
    STmsi,
    /// The permanent subscriber identity.
    Imsi,
}

} // verus!
