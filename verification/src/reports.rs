//! Aggregate DMARC and TLS reports (outgoing and received) and ARF feedback
//! reports: their data, labels, identifiers and text search.
use vstd::prelude::*;

use crate::directory::strs;
use crate::text::{join, join_seqs, contains, contains_seq, split_chars, split_on, spec_parse_u64, parse_u64, str_eq, spec_lowercase, to_lowercase};
use crate::time::{from_timestamp, spec_chrono_valid, UtcDateTime};
use crate::listing::{page_indices, page_positions, REPORT_PAGE_SIZE};
use crate::{maybe_plural, spec_maybe_plural, Color, Icon};

verus! {
/// DKIM/SPF identifier alignment mode of a DMARC policy.
#[derive(Debug, Clone, Copy, PartialEq, Eq, Hash, Structural, Default)]
pub enum Alignment {
    Relaxed,
    Strict,
    #[default]
    Unspecified,
}


impl Alignment {
    /// The label shown for the value.
    pub open spec fn spec_text(self) -> Seq<char> {
        match self {
            Alignment::Relaxed => "Relaxed"@,
            Alignment::Strict => "Strict"@,
            Alignment::Unspecified => "Unspecified"@,
        }
    }

    /// The label shown for the value.
    pub fn text(&self) -> (r: &'static str)
        ensures
            r@ == self.spec_text(),
    {
        match self {
            Alignment::Relaxed => "Relaxed",
            Alignment::Strict => "Strict",
            Alignment::Unspecified => "Unspecified",
        }
    }
}

/// Requested handling of failing mail.
#[derive(Debug, Clone, Copy, PartialEq, Eq, Hash, Structural, Default)]
pub enum Disposition {
    NoAction,
    Quarantine,
    Reject,
    #[default]
    Unspecified,
}


impl Disposition {
    /// The label shown for the value.
    pub open spec fn spec_text(self) -> Seq<char> {
        match self {
            Disposition::NoAction => "None"@,
            Disposition::Quarantine => "Quarantine"@,
            Disposition::Reject => "Reject"@,
            Disposition::Unspecified => "Unspecified"@,
        }
    }

    /// The label shown for the value.
    pub fn text(&self) -> (r: &'static str)
        ensures
            r@ == self.spec_text(),
    {
        match self {
            Disposition::NoAction => "None",
            Disposition::Quarantine => "Quarantine",
            Disposition::Reject => "Reject",
            Disposition::Unspecified => "Unspecified",
        }
    }
}

/// Handling applied to a message.
#[derive(Debug, Clone, Copy, PartialEq, Eq, Hash, Structural, Default)]
pub enum ActionDisposition {
    NoAction,
    Pass,
    Quarantine,
    Reject,
    #[default]
    Unspecified,
}


impl ActionDisposition {
    /// The label shown for the value.
    pub open spec fn spec_text(self) -> Seq<char> {
        match self {
            ActionDisposition::NoAction => "None"@,
            ActionDisposition::Pass => "Pass"@,
            ActionDisposition::Quarantine => "Quarantine"@,
            ActionDisposition::Reject => "Reject"@,
            ActionDisposition::Unspecified => "Unspecified"@,
        }
    }

    /// The label shown for the value.
    pub fn text(&self) -> (r: &'static str)
        ensures
            r@ == self.spec_text(),
    {
        match self {
            ActionDisposition::NoAction => "None",
            ActionDisposition::Pass => "Pass",
            ActionDisposition::Quarantine => "Quarantine",
            ActionDisposition::Reject => "Reject",
            ActionDisposition::Unspecified => "Unspecified",
        }
    }
}

/// DKIM or SPF result as DMARC evaluated it.
#[derive(Debug, Clone, Copy, PartialEq, Eq, Hash, Structural, Default)]
pub enum DmarcResult {
    Pass,
    Fail,
    #[default]
    Unspecified,
}


impl DmarcResult {
    /// The label shown for the value.
    pub open spec fn spec_text(self) -> Seq<char> {
        match self {
            DmarcResult::Pass => "Pass"@,
            DmarcResult::Fail => "Fail"@,
            DmarcResult::Unspecified => "Unspecified"@,
        }
    }

    /// The label shown for the value.
    pub fn text(&self) -> (r: &'static str)
        ensures
            r@ == self.spec_text(),
    {
        match self {
            DmarcResult::Pass => "Pass",
            DmarcResult::Fail => "Fail",
            DmarcResult::Unspecified => "Unspecified",
        }
    }
}

/// Why the applied handling differs from the policy.
#[derive(Debug, Clone, Copy, PartialEq, Eq, Hash, Structural, Default)]
pub enum PolicyOverride {
    Forwarded,
    SampledOut,
    TrustedForwarder,
    MailingList,
    LocalPolicy,
    #[default]
    Other,
}


impl PolicyOverride {
    /// The label shown for the value.
    pub open spec fn spec_text(self) -> Seq<char> {
        match self {
            PolicyOverride::Forwarded => "Forwarded"@,
            PolicyOverride::SampledOut => "Sampled Out"@,
            PolicyOverride::TrustedForwarder => "Trusted Forwarder"@,
            PolicyOverride::MailingList => "Mailing List"@,
            PolicyOverride::LocalPolicy => "Local Policy"@,
            PolicyOverride::Other => "Other"@,
        }
    }

    /// The label shown for the value.
    pub fn text(&self) -> (r: &'static str)
        ensures
            r@ == self.spec_text(),
    {
        match self {
            PolicyOverride::Forwarded => "Forwarded",
            PolicyOverride::SampledOut => "Sampled Out",
            PolicyOverride::TrustedForwarder => "Trusted Forwarder",
            PolicyOverride::MailingList => "Mailing List",
            PolicyOverride::LocalPolicy => "Local Policy",
            PolicyOverride::Other => "Other",
        }
    }
}

/// Result of a DKIM check.
#[derive(Debug, Clone, Copy, PartialEq, Eq, Hash, Structural, Default)]
pub enum DkimResult {
    #[default]
    NoResult,
    Pass,
    Fail,
    Policy,
    Neutral,
    TempError,
    PermError,
}


impl DkimResult {
    /// The label shown for the value.
    pub open spec fn spec_text(self) -> Seq<char> {
        match self {
            DkimResult::NoResult => "None"@,
            DkimResult::Pass => "Pass"@,
            DkimResult::Fail => "Fail"@,
            DkimResult::Policy => "Policy"@,
            DkimResult::Neutral => "Neutral"@,
            DkimResult::TempError => "TempError"@,
            DkimResult::PermError => "PermError"@,
        }
    }

    /// The label shown for the value.
    pub fn text(&self) -> (r: &'static str)
        ensures
            r@ == self.spec_text(),
    {
        match self {
            DkimResult::NoResult => "None",
            DkimResult::Pass => "Pass",
            DkimResult::Fail => "Fail",
            DkimResult::Policy => "Policy",
            DkimResult::Neutral => "Neutral",
            DkimResult::TempError => "TempError",
            DkimResult::PermError => "PermError",
        }
    }
}

/// Identity an SPF check covered.
#[derive(Debug, Clone, Copy, PartialEq, Eq, Hash, Structural, Default)]
pub enum SPFDomainScope {
    Helo,
    MailFrom,
    #[default]
    Unspecified,
}


impl SPFDomainScope {
    /// The label shown for the value.
    pub open spec fn spec_text(self) -> Seq<char> {
        match self {
            SPFDomainScope::Helo => "HELO"@,
            SPFDomainScope::MailFrom => "MAIL FROM"@,
            SPFDomainScope::Unspecified => "Unspecified"@,
        }
    }

    /// The label shown for the value.
    pub fn text(&self) -> (r: &'static str)
        ensures
            r@ == self.spec_text(),
    {
        match self {
            SPFDomainScope::Helo => "HELO",
            SPFDomainScope::MailFrom => "MAIL FROM",
            SPFDomainScope::Unspecified => "Unspecified",
        }
    }
}

/// Result of an SPF check.
#[derive(Debug, Clone, Copy, PartialEq, Eq, Hash, Structural, Default)]
pub enum SpfResult {
    #[default]
    NoResult,
    Neutral,
    Pass,
    Fail,
    SoftFail,
    TempError,
    PermError,
}


impl SpfResult {
    /// The label shown for the value.
    pub open spec fn spec_text(self) -> Seq<char> {
        match self {
            SpfResult::NoResult => "None"@,
            SpfResult::Neutral => "Neutral"@,
            SpfResult::Pass => "Pass"@,
            SpfResult::Fail => "Fail"@,
            SpfResult::SoftFail => "SoftFail"@,
            SpfResult::TempError => "TempError"@,
            SpfResult::PermError => "PermError"@,
        }
    }

    /// The label shown for the value.
    pub fn text(&self) -> (r: &'static str)
        ensures
            r@ == self.spec_text(),
    {
        match self {
            SpfResult::NoResult => "None",
            SpfResult::Neutral => "Neutral",
            SpfResult::Pass => "Pass",
            SpfResult::Fail => "Fail",
            SpfResult::SoftFail => "SoftFail",
            SpfResult::TempError => "TempError",
            SpfResult::PermError => "PermError",
        }
    }
}

/// Kind of TLS policy a TLS report covers.
#[derive(Debug, Clone, Copy, PartialEq, Eq, Hash, Structural, Default)]
pub enum PolicyType {
    Tlsa,
    Sts,
    NoPolicyFound,
    #[default]
    Other,
}


impl PolicyType {
    /// The label shown for the value.
    pub open spec fn spec_text(self) -> Seq<char> {
        match self {
            PolicyType::Tlsa => "TLSA"@,
            PolicyType::Sts => "MTA-STS"@,
            PolicyType::NoPolicyFound => "No Policy Found"@,
            PolicyType::Other => "Other"@,
        }
    }

    /// The label shown for the value.
    pub fn text(&self) -> (r: &'static str)
        ensures
            r@ == self.spec_text(),
    {
        match self {
            PolicyType::Tlsa => "TLSA",
            PolicyType::Sts => "MTA-STS",
            PolicyType::NoPolicyFound => "No Policy Found",
            PolicyType::Other => "Other",
        }
    }
}

/// Kind of TLS session failure.
#[derive(Debug, Clone, Copy, PartialEq, Eq, Hash, Structural, Default)]
pub enum ResultType {
    StartTlsNotSupported,
    CertificateHostMismatch,
    CertificateExpired,
    CertificateNotTrusted,
    ValidationFailure,
    TlsaInvalid,
    DnssecInvalid,
    DaneRequired,
    StsPolicyFetchError,
    StsPolicyInvalid,
    StsWebpkiInvalid,
    #[default]
    Other,
}


impl ResultType {
    /// The label shown for the value.
    pub open spec fn spec_text(self) -> Seq<char> {
        match self {
            ResultType::StartTlsNotSupported => "STARTTLS not supported"@,
            ResultType::CertificateHostMismatch => "Certificate host mismatch"@,
            ResultType::CertificateExpired => "Certificate expired"@,
            ResultType::CertificateNotTrusted => "Certificate not trusted"@,
            ResultType::ValidationFailure => "Validation failure"@,
            ResultType::TlsaInvalid => "TLSA invalid"@,
            ResultType::DnssecInvalid => "DNSSEC invalid"@,
            ResultType::DaneRequired => "DANE required"@,
            ResultType::StsPolicyFetchError => "STS policy fetch error"@,
            ResultType::StsPolicyInvalid => "STS policy invalid"@,
            ResultType::StsWebpkiInvalid => "STS webpki invalid"@,
            ResultType::Other => "Other"@,
        }
    }

    /// The label shown for the value.
    pub fn text(&self) -> (r: &'static str)
        ensures
            r@ == self.spec_text(),
    {
        match self {
            ResultType::StartTlsNotSupported => "STARTTLS not supported",
            ResultType::CertificateHostMismatch => "Certificate host mismatch",
            ResultType::CertificateExpired => "Certificate expired",
            ResultType::CertificateNotTrusted => "Certificate not trusted",
            ResultType::ValidationFailure => "Validation failure",
            ResultType::TlsaInvalid => "TLSA invalid",
            ResultType::DnssecInvalid => "DNSSEC invalid",
            ResultType::DaneRequired => "DANE required",
            ResultType::StsPolicyFetchError => "STS policy fetch error",
            ResultType::StsPolicyInvalid => "STS policy invalid",
            ResultType::StsWebpkiInvalid => "STS webpki invalid",
            ResultType::Other => "Other",
        }
    }
}

/// Kind of authentication failure an ARF report describes.
#[derive(Debug, Clone, Copy, PartialEq, Eq, Hash, Structural, Default)]
pub enum AuthFailureType {
    Adsp,
    BodyHash,
    Revoked,
    Signature,
    Spf,
    Dmarc,
    #[default]
    Unspecified,
}


impl AuthFailureType {
    /// The label shown for the value.
    pub open spec fn spec_text(self) -> Seq<char> {
        match self {
            AuthFailureType::Adsp => "ADSP"@,
            AuthFailureType::BodyHash => "Body Hash"@,
            AuthFailureType::Revoked => "Revoked"@,
            AuthFailureType::Signature => "Signature"@,
            AuthFailureType::Spf => "SPF"@,
            AuthFailureType::Dmarc => "DMARC"@,
            AuthFailureType::Unspecified => "Unspecified"@,
        }
    }

    /// The label shown for the value.
    pub fn text(&self) -> (r: &'static str)
        ensures
            r@ == self.spec_text(),
    {
        match self {
            AuthFailureType::Adsp => "ADSP",
            AuthFailureType::BodyHash => "Body Hash",
            AuthFailureType::Revoked => "Revoked",
            AuthFailureType::Signature => "Signature",
            AuthFailureType::Spf => "SPF",
            AuthFailureType::Dmarc => "DMARC",
            AuthFailureType::Unspecified => "Unspecified",
        }
    }
}

/// Identities that aligned in an ARF report.
#[derive(Debug, Clone, Copy, PartialEq, Eq, Hash, Structural, Default)]
pub enum IdentityAlignment {
    NoAlignment,
    Spf,
    Dkim,
    DkimSpf,
    #[default]
    Unspecified,
}


impl IdentityAlignment {
    /// The label shown for the value.
    pub open spec fn spec_text(self) -> Seq<char> {
        match self {
            IdentityAlignment::NoAlignment => "None"@,
            IdentityAlignment::Spf => "SPF"@,
            IdentityAlignment::Dkim => "DKIM"@,
            IdentityAlignment::DkimSpf => "DKIM+SPF"@,
            IdentityAlignment::Unspecified => "Unspecified"@,
        }
    }

    /// The label shown for the value.
    pub fn text(&self) -> (r: &'static str)
        ensures
            r@ == self.spec_text(),
    {
        match self {
            IdentityAlignment::NoAlignment => "None",
            IdentityAlignment::Spf => "SPF",
            IdentityAlignment::Dkim => "DKIM",
            IdentityAlignment::DkimSpf => "DKIM+SPF",
            IdentityAlignment::Unspecified => "Unspecified",
        }
    }
}

/// What became of the reported message.
#[derive(Debug, Clone, Copy, PartialEq, Eq, Hash, Structural, Default)]
pub enum DeliveryResult {
    Delivered,
    Spam,
    Policy,
    Reject,
    Other,
    #[default]
    Unspecified,
}


impl DeliveryResult {
    /// The label shown for the value.
    pub open spec fn spec_text(self) -> Seq<char> {
        match self {
            DeliveryResult::Delivered => "Delivered"@,
            DeliveryResult::Spam => "Spam"@,
            DeliveryResult::Policy => "Policy"@,
            DeliveryResult::Reject => "Reject"@,
            DeliveryResult::Other => "Other"@,
            DeliveryResult::Unspecified => "Unspecified"@,
        }
    }

    /// The label shown for the value.
    pub fn text(&self) -> (r: &'static str)
        ensures
            r@ == self.spec_text(),
    {
        match self {
            DeliveryResult::Delivered => "Delivered",
            DeliveryResult::Spam => "Spam",
            DeliveryResult::Policy => "Policy",
            DeliveryResult::Reject => "Reject",
            DeliveryResult::Other => "Other",
            DeliveryResult::Unspecified => "Unspecified",
        }
    }
}

/// Kind of ARF feedback report.
#[derive(Debug, Clone, Copy, PartialEq, Eq, Hash, Structural, Default)]
pub enum FeedbackType {
    Abuse,
    AuthFailure,
    Fraud,
    NotSpam,
    #[default]
    Other,
    Virus,
}


impl FeedbackType {
    /// The label shown for the value.
    pub open spec fn spec_text(self) -> Seq<char> {
        match self {
            FeedbackType::Abuse => "Abuse"@,
            FeedbackType::AuthFailure => "Authentication Failure"@,
            FeedbackType::Fraud => "Fraud"@,
            FeedbackType::NotSpam => "Not Spam"@,
            FeedbackType::Other => "Other"@,
            FeedbackType::Virus => "Virus"@,
        }
    }

    /// The label shown for the value.
    pub fn text(&self) -> (r: &'static str)
        ensures
            r@ == self.spec_text(),
    {
        match self {
            FeedbackType::Abuse => "Abuse",
            FeedbackType::AuthFailure => "Authentication Failure",
            FeedbackType::Fraud => "Fraud",
            FeedbackType::NotSpam => "Not Spam",
            FeedbackType::Other => "Other",
            FeedbackType::Virus => "Virus",
        }
    }
}

/// Period covered by a DMARC report, in seconds since the epoch.
#[derive(Debug, Clone, PartialEq, Eq, Default)]
pub struct DmarcDateRange {
    pub begin: u64,
    pub end: u64,
}

/// Who sent a DMARC report, and about which period.
#[derive(Debug, Clone, PartialEq, Eq, Default)]
pub struct ReportMetadata {
    pub org_name: String,
    pub email: String,
    pub extra_contact_info: Option<String>,
    pub report_id: String,
    pub date_range: DmarcDateRange,
    pub error: Vec<String>,
}

/// The DMARC policy the domain published. The version is carried as the bit
/// pattern of its `f32` (`f32::to_bits`).
#[derive(Debug, Clone, PartialEq, Eq, Default)]
pub struct PolicyPublished {
    pub domain: String,
    pub version_published: Option<u32>,
    pub adkim: Alignment,
    pub aspf: Alignment,
    pub p: Disposition,
    pub sp: Disposition,
    pub testing: bool,
    pub fo: Option<String>,
}

/// A reason for overriding the policy, with an optional comment.
#[derive(Debug, Clone, PartialEq, Eq, Default)]
pub struct PolicyOverrideReason {
    pub type_: PolicyOverride,
    pub comment: Option<String>,
}

/// How DMARC evaluated the messages of a record.
#[derive(Debug, Clone, PartialEq, Eq, Default)]
pub struct PolicyEvaluated {
    pub disposition: ActionDisposition,
    pub dkim: DmarcResult,
    pub spf: DmarcResult,
    pub reason: Vec<PolicyOverrideReason>,
}

/// Source address (as text) and message count of a record.
#[derive(Debug, Clone, PartialEq, Eq, Default)]
pub struct Row {
    pub source_ip: Option<String>,
    pub count: u32,
    pub policy_evaluated: PolicyEvaluated,
}

/// An extension element of a report.
#[derive(Debug, Clone, PartialEq, Eq, Default)]
pub struct Extension {
    pub name: String,
    pub definition: String,
}

/// Envelope and header identifiers of a record.
#[derive(Debug, Clone, PartialEq, Eq, Default)]
pub struct Identifier {
    pub envelope_to: Option<String>,
    pub envelope_from: String,
    pub header_from: String,
}

/// A DKIM check of a record.
#[derive(Debug, Clone, PartialEq, Eq, Default)]
pub struct DKIMAuthResult {
    pub domain: String,
    pub selector: String,
    pub result: DkimResult,
    pub human_result: Option<String>,
}

/// An SPF check of a record.
#[derive(Debug, Clone, PartialEq, Eq, Default)]
pub struct SPFAuthResult {
    pub domain: String,
    pub scope: SPFDomainScope,
    pub result: SpfResult,
    pub human_result: Option<String>,
}

/// The DKIM and SPF checks of a record.
#[derive(Debug, Clone, PartialEq, Eq, Default)]
pub struct AuthResult {
    pub dkim: Vec<DKIMAuthResult>,
    pub spf: Vec<SPFAuthResult>,
}

/// One row of a DMARC report.
#[derive(Debug, Clone, PartialEq, Eq, Default)]
pub struct Record {
    pub row: Row,
    pub identifiers: Identifier,
    pub auth_results: AuthResult,
    pub extensions: Vec<Extension>,
}

/// A DMARC aggregate report. The version is carried as the bit pattern of
/// its `f32` (`f32::to_bits`).
#[derive(Debug, Clone, PartialEq, Eq, Default)]
pub struct Report {
    pub version: u32,
    pub report_metadata: ReportMetadata,
    pub policy_published: PolicyPublished,
    pub record: Vec<Record>,
    pub extensions: Vec<Extension>,
}

/// A DMARC report destination.
#[derive(Debug, Clone, PartialEq, Eq)]
#[allow(clippy::upper_case_acronyms)]
pub struct URI {
    pub uri: String,
    pub max_size: usize,
}

/// Period covered by a TLS report.
#[derive(Debug, Clone, PartialEq, Eq)]
pub struct TlsDateRange {
    pub start_datetime: UtcDateTime,
    pub end_datetime: UtcDateTime,
}

/// A TLS (SMTP TLS reporting) report.
#[derive(Debug, Clone, PartialEq, Eq)]
pub struct TlsReport {
    pub organization_name: Option<String>,
    pub date_range: TlsDateRange,
    pub contact_info: Option<String>,
    pub report_id: String,
    pub policies: Vec<Policy>,
}

/// One policy of a TLS report, with its counts and failures.
#[derive(Debug, Clone, PartialEq, Eq)]
pub struct Policy {
    pub policy: PolicyDetails,
    pub summary: Summary,
    pub failure_details: Vec<FailureDetails>,
}

/// What a TLS policy is.
#[derive(Debug, Clone, PartialEq, Eq, Default)]
pub struct PolicyDetails {
    pub policy_type: PolicyType,
    pub policy_string: Vec<String>,
    pub policy_domain: String,
    pub mx_host: Vec<String>,
}

/// Session counts of a TLS policy.
#[derive(Debug, Clone, PartialEq, Eq)]
pub struct Summary {
    pub total_success: u32,
    pub total_failure: u32,
}

/// A kind of failed TLS session, with addresses as text.
#[derive(Debug, Clone, PartialEq, Eq, Default)]
pub struct FailureDetails {
    pub result_type: ResultType,
    pub sending_mta_ip: Option<String>,
    pub receiving_mx_hostname: Option<String>,
    pub receiving_mx_helo: Option<String>,
    pub receiving_ip: Option<String>,
    pub failed_session_count: u32,
    pub additional_information: Option<String>,
    pub failure_reason_code: Option<String>,
}

/// An ARF feedback report; the source address is carried as text.
#[derive(Debug, Clone, PartialEq, Eq, Default)]
pub struct Feedback {
    pub feedback_type: FeedbackType,
    pub arrival_date: Option<i64>,
    pub authentication_results: Vec<String>,
    pub incidents: u32,
    pub original_envelope_id: Option<String>,
    pub original_mail_from: Option<String>,
    pub original_rcpt_to: Option<String>,
    pub reported_domain: Vec<String>,
    pub reported_uri: Vec<String>,
    pub reporting_mta: Option<String>,
    pub source_ip: Option<String>,
    pub user_agent: Option<String>,
    pub version: u32,
    pub source_port: u32,
    pub auth_failure: AuthFailureType,
    pub delivery_result: DeliveryResult,
    pub dkim_adsp_dns: Option<String>,
    pub dkim_canonicalized_body: Option<String>,
    pub dkim_canonicalized_header: Option<String>,
    pub dkim_domain: Option<String>,
    pub dkim_identity: Option<String>,
    pub dkim_selector: Option<String>,
    pub dkim_selector_dns: Option<String>,
    pub spf_dns: Option<String>,
    pub identity_alignment: IdentityAlignment,
    pub message: Option<String>,
    pub headers: Option<String>,
}

/// A TLS report destination.
#[derive(Debug, Clone, PartialEq, Eq)]
pub enum ReportUri {
    Mail(String),
    Http(String),
}

impl ReportUri {
    /// `mailto:<address>` for mail destinations, the URL otherwise.
    pub fn text(&self) -> (r: String)
        ensures
            r@ == match self {
                ReportUri::Mail(uri) => "mailto:"@ + uri@,
                ReportUri::Http(uri) => uri@,
            },
    {
        match self {
            ReportUri::Mail(uri) => crate::text::concat("mailto:", uri.as_str()),
            ReportUri::Http(uri) => uri.clone(),
        }
    }
}

impl PolicyOverrideReason {
    /// The reason's label, followed by ` (<comment>)` when there is a comment.
    pub fn text(&self) -> (r: String)
        ensures
            r@ == self.type_.spec_text() + match self.comment {
                Some(c) => " ("@ + c@ + ")"@,
                None => Seq::empty(),
            },
    {
        let mut r = String::from_str(self.type_.text());
        if let Some(comment) = &self.comment {
            r.append(" (");
            r.append(comment.as_str());
            r.append(")");
        }
        r
    }
}

/// The handling applied for a requested handling.
pub open spec fn spec_action_of(value: Disposition) -> ActionDisposition {
    match value {
        Disposition::NoAction => ActionDisposition::NoAction,
        Disposition::Quarantine => ActionDisposition::Quarantine,
        Disposition::Reject => ActionDisposition::Reject,
        Disposition::Unspecified => ActionDisposition::Unspecified,
    }
}

impl From<Disposition> for ActionDisposition {
    fn from(value: Disposition) -> (r: Self) {
        match value {
            Disposition::NoAction => ActionDisposition::NoAction,
            Disposition::Quarantine => ActionDisposition::Quarantine,
            Disposition::Reject => ActionDisposition::Reject,
            Disposition::Unspecified => ActionDisposition::Unspecified,
        }
    }
}

impl vstd::std_specs::convert::FromSpecImpl<Disposition> for ActionDisposition {
    open spec fn obeys_from_spec() -> bool {
        true
    }

    open spec fn from_spec(v: Disposition) -> ActionDisposition {
        spec_action_of(v)
    }
}

// ----- text search ---------------------------------------------------------

/// The optional text contains `filter`.
pub open spec fn opt_contains(o: Option<String>, filter: Seq<char>) -> bool {
    match o {
        Some(s) => contains_seq(s@, filter),
        None => false,
    }
}

/// Whether an optional text contains `filter`.
fn opt_contains_exec(o: &Option<String>, filter: &str) -> (r: bool)
    ensures
        r == opt_contains(*o, filter@),
{
    match o {
        Some(s) => contains(s.as_str(), filter),
        None => false,
    }
}

/// A DKIM check mentions `filter`.
pub open spec fn dkim_mentions(d: DKIMAuthResult, filter: Seq<char>) -> bool {
    contains_seq(d.domain@, filter) || contains_seq(d.selector@, filter) || opt_contains(d.human_result, filter)
}

/// An SPF check mentions `filter`.
pub open spec fn spf_mentions(s: SPFAuthResult, filter: Seq<char>) -> bool {
    contains_seq(s.domain@, filter) || opt_contains(s.human_result, filter)
}

/// A record mentions `filter` in its identifiers, its checks or its source address.
pub open spec fn record_mentions(r: Record, filter: Seq<char>) -> bool {
    ||| filter.len() == 0
    ||| contains_seq(r.identifiers.envelope_from@, filter)
    ||| contains_seq(r.identifiers.header_from@, filter)
    ||| opt_contains(r.identifiers.envelope_to, filter)
    ||| exists|i: int| 0 <= i < r.auth_results.dkim@.len() && dkim_mentions(#[trigger] r.auth_results.dkim@[i], filter)
    ||| exists|i: int| 0 <= i < r.auth_results.spf@.len() && spf_mentions(#[trigger] r.auth_results.spf@[i], filter)
    ||| opt_contains(r.row.source_ip, filter)
}

impl Record {
    /// Whether the record mentions `filter` (see [`record_mentions`]).
    pub fn contains_string(&self, filter: &str) -> (r: bool)
        ensures
            r == record_mentions(*self, filter@),
    {
        if filter.is_empty() || contains(self.identifiers.envelope_from.as_str(), filter) || contains(
            self.identifiers.header_from.as_str(),
            filter,
        ) || opt_contains_exec(&self.identifiers.envelope_to, filter) {
            return true;
        }
        let dkim = &self.auth_results.dkim;
        let mut i: usize = 0;
        while i < dkim.len()
            invariant
                i <= dkim@.len(),
                dkim@ == self.auth_results.dkim@,
                forall|j: int| 0 <= j < i ==> !dkim_mentions(#[trigger] dkim@[j], filter@),
            decreases dkim.len() - i,
        {
            let d = &dkim[i];
            if contains(d.domain.as_str(), filter) || contains(d.selector.as_str(), filter) || opt_contains_exec(
                &d.human_result,
                filter,
            ) {
                assert(dkim_mentions(self.auth_results.dkim@[i as int], filter@));
                return true;
            }
            i = i + 1;
        }
        let spf = &self.auth_results.spf;
        let mut k: usize = 0;
        while k < spf.len()
            invariant
                k <= spf@.len(),
                spf@ == self.auth_results.spf@,
                forall|j: int| 0 <= j < k ==> !spf_mentions(#[trigger] spf@[j], filter@),
            decreases spf.len() - k,
        {
            let sp = &spf[k];
            if contains(sp.domain.as_str(), filter) || opt_contains_exec(&sp.human_result, filter) {
                assert(spf_mentions(self.auth_results.spf@[k as int], filter@));
                return true;
            }
            k = k + 1;
        }
        opt_contains_exec(&self.row.source_ip, filter)
    }
}

/// A failure mentions `filter` in its addresses, host names or explanations.
pub open spec fn failure_mentions(f: FailureDetails, filter: Seq<char>) -> bool {
    ||| filter.len() == 0
    ||| opt_contains(f.sending_mta_ip, filter)
    ||| opt_contains(f.receiving_ip, filter)
    ||| opt_contains(f.receiving_mx_hostname, filter)
    ||| opt_contains(f.receiving_mx_helo, filter)
    ||| opt_contains(f.additional_information, filter)
    ||| opt_contains(f.failure_reason_code, filter)
}

impl FailureDetails {
    /// Whether the failure mentions `filter` (see [`failure_mentions`]).
    pub fn contains_string(&self, filter: &str) -> (r: bool)
        ensures
            r == failure_mentions(*self, filter@),
    {
        filter.is_empty() || opt_contains_exec(&self.sending_mta_ip, filter) || opt_contains_exec(
            &self.receiving_ip,
            filter,
        ) || opt_contains_exec(&self.receiving_mx_hostname, filter) || opt_contains_exec(
            &self.receiving_mx_helo,
            filter,
        ) || opt_contains_exec(&self.additional_information, filter) || opt_contains_exec(
            &self.failure_reason_code,
            filter,
        )
    }
}

/// Some lowercased text of the list contains `filter`.
pub open spec fn any_lower_contains(items: Seq<String>, filter: Seq<char>) -> bool {
    exists|i: int| 0 <= i < items.len() && contains_seq(spec_lowercase(#[trigger] items[i]@), filter)
}

/// A TLS policy mentions `filter` in its domain, its lowercased type label,
/// policy strings or MX hosts, or in one of its failures.
pub open spec fn policy_mentions(p: Policy, filter: Seq<char>) -> bool {
    ||| filter.len() == 0
    ||| contains_seq(p.policy.policy_domain@, filter)
    ||| contains_seq(spec_lowercase(p.policy.policy_type.spec_text()), filter)
    ||| any_lower_contains(p.policy.policy_string@, filter)
    ||| any_lower_contains(p.policy.mx_host@, filter)
    ||| exists|i: int| 0 <= i < p.failure_details@.len() && failure_mentions(#[trigger] p.failure_details@[i], filter)
}

/// Whether some lowercased text of the list contains `filter`.
fn any_lower_contains_exec(items: &Vec<String>, filter: &str) -> (r: bool)
    ensures
        r == any_lower_contains(items@, filter@),
{
    let mut i: usize = 0;
    while i < items.len()
        invariant
            i <= items@.len(),
            forall|j: int| 0 <= j < i ==> !contains_seq(spec_lowercase(#[trigger] items@[j]@), filter@),
        decreases items.len() - i,
    {
        let lower = to_lowercase(items[i].as_str());
        if contains(lower.as_str(), filter) {
            return true;
        }
        i = i + 1;
    }
    false
}

impl Policy {
    /// Whether the policy mentions `filter` (see [`policy_mentions`]).
    pub fn contains_string(&self, filter: &str) -> (r: bool)
        ensures
            r == policy_mentions(*self, filter@),
    {
        if filter.is_empty() || contains(self.policy.policy_domain.as_str(), filter) {
            return true;
        }
        let label = to_lowercase(self.policy.policy_type.text());
        if contains(label.as_str(), filter) || any_lower_contains_exec(&self.policy.policy_string, filter)
            || any_lower_contains_exec(&self.policy.mx_host, filter) {
            return true;
        }
        let fd = &self.failure_details;
        let mut i: usize = 0;
        while i < fd.len()
            invariant
                i <= fd@.len(),
                fd@ == self.failure_details@,
                forall|j: int| 0 <= j < i ==> !failure_mentions(#[trigger] fd@[j], filter@),
            decreases fd.len() - i,
        {
            if fd[i].contains_string(filter) {
                assert(failure_mentions(self.failure_details@[i as int], filter@));
                return true;
            }
            i = i + 1;
        }
        false
    }
}

// ----- outgoing aggregate reports ------------------------------------------

/// An aggregate report queued for sending.
#[derive(Debug, Clone, PartialEq, Eq)]
pub enum AggregateReport {
    Tls {
        id: String,
        domain: String,
        range_from: UtcDateTime,
        range_to: UtcDateTime,
        report: TlsReport,
        rua: Vec<ReportUri>,
    },
    Dmarc {
        id: String,
        domain: String,
        range_from: UtcDateTime,
        range_to: UtcDateTime,
        report: Report,
        rua: Vec<URI>,
    },
}

/// Kind of an aggregate report.
#[derive(Debug, Clone, Copy, PartialEq, Eq, Structural)]
pub enum AggregateReportType {
    Tls,
    Dmarc,
}

/// The identifier of a queued aggregate report and what it encodes.
#[derive(Debug, Clone, PartialEq, Eq)]
pub struct AggregateReportId {
    pub id: String,
    pub domain: String,
    pub policy: u64,
    pub created: UtcDateTime,
    pub due: UtcDateTime,
    pub typ: AggregateReportType,
}

/// The instant `secs` seconds after the epoch, read from a `u64` as the
/// identifier stores it (cast to `i64`), if chrono can represent it.
pub open spec fn instant_of(secs: u64) -> Option<UtcDateTime> {
    if spec_chrono_valid(secs as i64, 0) {
        Some(UtcDateTime { secs: secs as i64, nanos: 0 })
    } else {
        None
    }
}

/// What an identifier `<t|d>!<domain>!<policy>!<created>!<due>[!...]`
/// encodes: kind, non-empty domain, policy number and the two instants.
pub open spec fn spec_parse_report_id(id: Seq<char>) -> Option<(AggregateReportType, Seq<char>, u64, UtcDateTime, UtcDateTime)> {
    let p = split_on(id, seq!['!']);
    if p.len() >= 5 && p[1].len() > 0 && spec_parse_u64(p[2]) is Some && spec_parse_u64(p[3]) is Some
        && instant_of(spec_parse_u64(p[3]).unwrap()) is Some && spec_parse_u64(p[4]) is Some && instant_of(
        spec_parse_u64(p[4]).unwrap(),
    ) is Some && (p[0] == seq!['d'] || p[0] == seq!['t']) {
        Some(
            (
                if p[0] == seq!['d'] { AggregateReportType::Dmarc } else { AggregateReportType::Tls },
                p[1],
                spec_parse_u64(p[2]).unwrap(),
                instant_of(spec_parse_u64(p[3]).unwrap()).unwrap(),
                instant_of(spec_parse_u64(p[4]).unwrap()).unwrap(),
            ),
        )
    } else {
        None
    }
}

/// Report identifier law: an identifier is read only when its first
/// `!`-separated part is `t` or `d`, and the kind read is TLS exactly for
/// `t` and DMARC exactly for `d`.
pub proof fn lemma_report_id_kind(id: Seq<char>)
    ensures
        spec_parse_report_id(id) is Some ==> split_on(id, seq!['!'])[0] == seq!['t'] || split_on(id, seq!['!'])[0]
            == seq!['d'],
        spec_parse_report_id(id) matches Some(r) ==> (r.0 == AggregateReportType::Tls <==> split_on(id, seq!['!'])[0]
            == seq!['t']),
        spec_parse_report_id(id) matches Some(r) ==> (r.0 == AggregateReportType::Dmarc <==> split_on(
            id,
            seq!['!'],
        )[0] == seq!['d']),
{
    assert(seq!['d'] != seq!['t']) by {
        assert(seq!['d'][0] != seq!['t'][0]);
    }
}

/// The instant of a stored number of seconds.
fn read_instant(secs: u64) -> (r: Option<UtcDateTime>)
    ensures
        r == instant_of(secs),
{
    from_timestamp(secs as i64)
}

/// The identifiers among `ids` that parse, in order; the others are
/// dropped.
pub open spec fn valid_report_ids(ids: Seq<Seq<char>>) -> Seq<Seq<char>> {
    ids.filter(|i: Seq<char>| spec_parse_report_id(i) is Some)
}

/// The queued reports a list page shows: the identifiers the server listed
/// that parse, in order, each with what it encodes; the others are dropped.
pub fn queued_report_ids(items: &Vec<String>) -> (r: Vec<AggregateReportId>)
    ensures
        r@.map_values(|x: AggregateReportId| x.id@) == valid_report_ids(strs(items@)),
        forall|k: int|
            0 <= k < r@.len() ==> spec_parse_report_id((#[trigger] r@[k]).id@) == Some(
                (r@[k].typ, r@[k].domain@, r@[k].policy, r@[k].created, r@[k].due),
            ),
{
    let ghost pred = |i: Seq<char>| spec_parse_report_id(i) is Some;
    let ghost all = strs(items@);
    let mut out: Vec<AggregateReportId> = Vec::new();
    let mut i: usize = 0;
    while i < items.len()
        invariant
            i <= items@.len(),
            all == strs(items@),
            pred == (|i: Seq<char>| spec_parse_report_id(i) is Some),
            out@.map_values(|x: AggregateReportId| x.id@) == all.take(i as int).filter(pred),
            forall|k: int|
                0 <= k < out@.len() ==> spec_parse_report_id((#[trigger] out@[k]).id@) == Some(
                    (out@[k].typ, out@[k].domain@, out@[k].policy, out@[k].created, out@[k].due),
                ),
        decreases items.len() - i,
    {
        assert(all.take(i + 1) =~= all.take(i as int).push(all[i as int]));
        proof {
            all.take(i as int).lemma_filter_push(all[i as int], pred);
        }
        let ghost before = out@;
        match AggregateReportId::parse(items[i].clone()) {
            Some(rid) => {
                out.push(rid);
                assert(out@.map_values(|x: AggregateReportId| x.id@) =~= before.map_values(
                    |x: AggregateReportId| x.id@,
                ).push(all[i as int]));
                assert forall|k: int|
                    0 <= k < out@.len() implies spec_parse_report_id((#[trigger] out@[k]).id@) == Some(
                        (out@[k].typ, out@[k].domain@, out@[k].policy, out@[k].created, out@[k].due),
                    ) by {
                    if k < before.len() {
                        assert(out@[k] == before[k]);
                    }
                }
            },
            None => {},
        }
        i = i + 1;
    }
    assert(all.take(items@.len() as int) =~= all);
    out
}

/// The message shown after removing queued reports; none when nothing was
/// removed.
pub fn removed_queued_reports_message(total: usize) -> (r: Option<String>)
    ensures
        total == 0 ==> r is None,
        total > 0 ==> (r matches Some(t) && t@ == "Removed "@ + spec_maybe_plural(total as nat, "report"@, "reports"@)
            + " from queue."@),
{
    if total > 0 {
        let mut t = String::from_str("Removed ");
        let n = maybe_plural(total, "report", "reports");
        t.append(n.as_str());
        t.append(" from queue.");
        Some(t)
    } else {
        None
    }
}

impl AggregateReportId {
    /// Reads an identifier (see [`spec_parse_report_id`]); the identifier
    /// itself is kept.
    pub fn parse(id: String) -> (r: Option<Self>)
        ensures
            match r {
                Some(rid) => rid.id@ == id@ && spec_parse_report_id(id@) == Some(
                    (rid.typ, rid.domain@, rid.policy, rid.created, rid.due),
                ),
                None => spec_parse_report_id(id@) is None,
            },
    {
        let mut seps: Vec<char> = Vec::new();
        seps.push('!');
        assert(seps@ =~= seq!['!']);
        let parts = split_chars(id.as_str(), &seps);
        proof {
            crate::text::lemma_split_on_nonempty(id@, seq!['!']);
            assert(crate::directory::strs(parts@).len() == parts@.len());
        }
        if parts.len() < 5 {
            return None;
        }
        assert(forall|k: int| 0 <= k < parts@.len() ==> crate::directory::strs(parts@)[k] == (#[trigger] parts@[k])@);
        if parts[1].as_str().is_empty() {
            return None;
        }
        let policy = match parse_u64(parts[2].as_str()) {
            Some(p) => p,
            None => return None,
        };
        let created = match parse_u64(parts[3].as_str()) {
            Some(c) => match read_instant(c) {
                Some(t) => t,
                None => return None,
            },
            None => return None,
        };
        let due = match parse_u64(parts[4].as_str()) {
            Some(d) => match read_instant(d) {
                Some(t) => t,
                None => return None,
            },
            None => return None,
        };
        proof {
            reveal_strlit("d");
            reveal_strlit("t");
        }
        assert("d"@ =~= seq!['d']);
        assert("t"@ =~= seq!['t']);
        let typ = if str_eq(parts[0].as_str(), "d") {
            AggregateReportType::Dmarc
        } else if str_eq(parts[0].as_str(), "t") {
            AggregateReportType::Tls
        } else {
            return None;
        };
        let domain = parts[1].clone();
        Some(AggregateReportId { domain, policy, created, due, typ, id })
    }
}


// ----- report pages -------------------------------------------------------------

/// Number of records of each evaluated disposition: passed, quarantined,
/// rejected, and neither (none or unspecified).
pub open spec fn disposition_counts(rs: Seq<Record>) -> (nat, nat, nat, nat)
    decreases rs.len(),
{
    if rs.len() == 0 {
        (0, 0, 0, 0)
    } else {
        let c = disposition_counts(rs.drop_last());
        match rs.last().row.policy_evaluated.disposition {
            ActionDisposition::Pass => ((c.0 + 1) as nat, c.1, c.2, c.3),
            ActionDisposition::Quarantine => (c.0, (c.1 + 1) as nat, c.2, c.3),
            ActionDisposition::Reject => (c.0, c.1, (c.2 + 1) as nat, c.3),
            _ => (c.0, c.1, c.2, (c.3 + 1) as nat),
        }
    }
}

/// The name an aggregate report is shown under: its organization, or `N/A`.
pub open spec fn spec_reporter(org_name: Seq<char>) -> Seq<char> {
    if org_name.len() > 0 {
        org_name
    } else {
        "N/A"@
    }
}

impl Report {
    /// How many records were passed, quarantined, rejected or neither.
    pub fn disposition_totals(&self) -> (r: (u64, u64, u64, u64))
        ensures
            (r.0 as nat, r.1 as nat, r.2 as nat, r.3 as nat) == disposition_counts(self.record@),
    {
        let mut pass: u64 = 0;
        let mut quarantine: u64 = 0;
        let mut reject: u64 = 0;
        let mut none: u64 = 0;
        let mut i: usize = 0;
        while i < self.record.len()
            invariant
                i <= self.record@.len(),
                (pass as nat, quarantine as nat, reject as nat, none as nat) == disposition_counts(
                    self.record@.take(i as int),
                ),
                pass + quarantine + reject + none == i,
            decreases self.record.len() - i,
        {
            assert(self.record@.take(i + 1).drop_last() =~= self.record@.take(i as int));
            match self.record[i].row.policy_evaluated.disposition {
                ActionDisposition::Pass => pass = pass + 1,
                ActionDisposition::Quarantine => quarantine = quarantine + 1,
                ActionDisposition::Reject => reject = reject + 1,
                _ => none = none + 1,
            }
            i = i + 1;
        }
        assert(self.record@.take(self.record@.len() as int) =~= self.record@);
        (pass, quarantine, reject, none)
    }

    /// The name the report is shown under.
    pub fn reporter(&self) -> (r: String)
        ensures
            r@ == spec_reporter(self.report_metadata.org_name@),
    {
        if self.report_metadata.org_name.as_str().unicode_len() > 0 {
            self.report_metadata.org_name.clone()
        } else {
            String::from_str("N/A")
        }
    }

    /// The positions of the records on page `page` of those that mention
    /// the search text `filter`.
    pub fn record_page(&self, filter: &str, page: u32) -> (r: Vec<usize>)
        requires
            page == 0 || (page - 1) * REPORT_PAGE_SIZE <= u32::MAX,
        ensures
            r@.map_values(|k: usize| k as int) == page_positions(
                self.record@.map_values(|x: Record| record_mentions(x, filter@)),
                page as int,
                REPORT_PAGE_SIZE as int,
            ),
    {
        let mut flags: Vec<bool> = Vec::new();
        let mut i: usize = 0;
        while i < self.record.len()
            invariant
                i <= self.record@.len(),
                flags@ == self.record@.take(i as int).map_values(|x: Record| record_mentions(x, filter@)),
            decreases self.record.len() - i,
        {
            let m = self.record[i].contains_string(filter);
            flags.push(m);
            assert(flags@ =~= self.record@.take(i + 1).map_values(|x: Record| record_mentions(x, filter@)));
            i = i + 1;
        }
        assert(self.record@.take(self.record@.len() as int) =~= self.record@);
        page_indices(&flags, page)
    }
}

/// Total successful and failed sessions over the policies.
pub open spec fn session_counts(ps: Seq<Policy>) -> (nat, nat)
    decreases ps.len(),
{
    if ps.len() == 0 {
        (0, 0)
    } else {
        let c = session_counts(ps.drop_last());
        ((c.0 + ps.last().summary.total_success) as nat, (c.1 + ps.last().summary.total_failure) as nat)
    }
}

proof fn lemma_session_counts_prefix(ps: Seq<Policy>, i: int)
    requires
        0 <= i <= ps.len(),
    ensures
        session_counts(ps.take(i)).0 <= session_counts(ps).0,
        session_counts(ps.take(i)).1 <= session_counts(ps).1,
    decreases ps.len(),
{
    if i == ps.len() {
        assert(ps.take(i) =~= ps);
    } else {
        assert(ps.drop_last().take(i) =~= ps.take(i));
        lemma_session_counts_prefix(ps.drop_last(), i);
    }
}

impl TlsReport {
    /// Total successful and failed sessions of the report.
    pub fn session_totals(&self) -> (r: (u64, u64))
        requires
            session_counts(self.policies@).0 <= u64::MAX,
            session_counts(self.policies@).1 <= u64::MAX,
        ensures
            (r.0 as nat, r.1 as nat) == session_counts(self.policies@),
    {
        let mut success: u64 = 0;
        let mut failure: u64 = 0;
        let mut i: usize = 0;
        while i < self.policies.len()
            invariant
                i <= self.policies@.len(),
                session_counts(self.policies@).0 <= u64::MAX,
                session_counts(self.policies@).1 <= u64::MAX,
                (success as nat, failure as nat) == session_counts(self.policies@.take(i as int)),
            decreases self.policies.len() - i,
        {
            assert(self.policies@.take(i + 1).drop_last() =~= self.policies@.take(i as int));
            proof {
                lemma_session_counts_prefix(self.policies@, i + 1);
            }
            success = success + self.policies[i].summary.total_success as u64;
            failure = failure + self.policies[i].summary.total_failure as u64;
            i = i + 1;
        }
        assert(self.policies@.take(self.policies@.len() as int) =~= self.policies@);
        (success, failure)
    }

    /// The positions of the policies on page `page` of those that mention
    /// the search text `filter`.
    pub fn policy_page(&self, filter: &str, page: u32) -> (r: Vec<usize>)
        requires
            page == 0 || (page - 1) * REPORT_PAGE_SIZE <= u32::MAX,
        ensures
            r@.map_values(|k: usize| k as int) == page_positions(
                self.policies@.map_values(|x: Policy| policy_mentions(x, filter@)),
                page as int,
                REPORT_PAGE_SIZE as int,
            ),
    {
        let mut flags: Vec<bool> = Vec::new();
        let mut i: usize = 0;
        while i < self.policies.len()
            invariant
                i <= self.policies@.len(),
                flags@ == self.policies@.take(i as int).map_values(|x: Policy| policy_mentions(x, filter@)),
            decreases self.policies.len() - i,
        {
            let m = self.policies[i].contains_string(filter);
            flags.push(m);
            assert(flags@ =~= self.policies@.take(i + 1).map_values(|x: Policy| policy_mentions(x, filter@)));
            i = i + 1;
        }
        assert(self.policies@.take(self.policies@.len() as int) =~= self.policies@);
        page_indices(&flags, page)
    }
}

impl Policy {
    /// The positions of the failures on page `page` of those that mention
    /// the search text `filter`.
    pub fn failure_page(&self, filter: &str, page: u32) -> (r: Vec<usize>)
        requires
            page == 0 || (page - 1) * REPORT_PAGE_SIZE <= u32::MAX,
        ensures
            r@.map_values(|k: usize| k as int) == page_positions(
                self.failure_details@.map_values(|x: FailureDetails| failure_mentions(x, filter@)),
                page as int,
                REPORT_PAGE_SIZE as int,
            ),
    {
        let mut flags: Vec<bool> = Vec::new();
        let mut i: usize = 0;
        while i < self.failure_details.len()
            invariant
                i <= self.failure_details@.len(),
                flags@ == self.failure_details@.take(i as int).map_values(
                    |x: FailureDetails| failure_mentions(x, filter@),
                ),
            decreases self.failure_details.len() - i,
        {
            let m = self.failure_details[i].contains_string(filter);
            flags.push(m);
            assert(flags@ =~= self.failure_details@.take(i + 1).map_values(
                |x: FailureDetails| failure_mentions(x, filter@),
            ));
            i = i + 1;
        }
        assert(self.failure_details@.take(self.failure_details@.len() as int) =~= self.failure_details@);
        page_indices(&flags, page)
    }
}

/// The extra report details that are shown: those with a value.
pub fn shown_extras(extra: Vec<(String, String)>) -> (r: Vec<(String, String)>)
    ensures
        r@ == extra@.filter(|p: (String, String)| p.1@.len() > 0),
{
    let mut out: Vec<(String, String)> = Vec::new();
    let mut extra = extra;
    let ghost all = extra@;
    let n = extra.len();
    let mut i: usize = 0;
    while i < n
        invariant
            n == all.len(),
            i <= n,
            extra@ == all.skip(i as int),
            out@ == all.take(i as int).filter(|p: (String, String)| p.1@.len() > 0),
        decreases n - i,
    {
        let item = extra.remove(0);
        proof {
            assert(item == all[i as int]);
            assert(extra@ =~= all.skip(i + 1));
            assert(all.take(i + 1).drop_last() =~= all.take(i as int));
            reveal(Seq::filter);
        }
        if item.1.as_str().unicode_len() > 0 {
            out.push(item);
        }
        i = i + 1;
    }
    assert(all.take(n as int) =~= all);
    out
}


// ----- badges -------------------------------------------------------------------

impl ActionDisposition {
    /// Colour and icon of the badge that shows the disposition.
    pub fn badge(&self) -> (r: (Color, Icon))
        ensures
            r == (match *self {
                ActionDisposition::Pass => (Color::Green, Icon::CheckCircle),
                ActionDisposition::Quarantine => (Color::Yellow, Icon::AlertTriangle),
                ActionDisposition::Reject => (Color::Red, Icon::Cancel),
                _ => (Color::Blue, Icon::ArrowRightCircle),
            }),
    {
        match self {
            ActionDisposition::Pass => (Color::Green, Icon::CheckCircle),
            ActionDisposition::Quarantine => (Color::Yellow, Icon::AlertTriangle),
            ActionDisposition::Reject => (Color::Red, Icon::Cancel),
            _ => (Color::Blue, Icon::ArrowRightCircle),
        }
    }
}

impl DmarcResult {
    /// Colour and icon of the badge that shows the result.
    pub fn badge(&self) -> (r: (Color, Icon))
        ensures
            r == (match *self {
                DmarcResult::Pass => (Color::Green, Icon::CheckCircle),
                DmarcResult::Fail => (Color::Red, Icon::AlertTriangle),
                DmarcResult::Unspecified => (Color::Blue, Icon::ArrowRightCircle),
            }),
    {
        match self {
            DmarcResult::Pass => (Color::Green, Icon::CheckCircle),
            DmarcResult::Fail => (Color::Red, Icon::AlertTriangle),
            DmarcResult::Unspecified => (Color::Blue, Icon::ArrowRightCircle),
        }
    }
}

impl DkimResult {
    /// Colour and icon of the badge that shows the result.
    pub fn badge(&self) -> (r: (Color, Icon))
        ensures
            r == (match *self {
                DkimResult::Pass => (Color::Green, Icon::CheckCircle),
                DkimResult::Fail => (Color::Red, Icon::AlertTriangle),
                DkimResult::TempError => (Color::Yellow, Icon::Clock),
                DkimResult::PermError => (Color::Red, Icon::Cancel),
                _ => (Color::Blue, Icon::Cancel),
            }),
    {
        match self {
            DkimResult::Pass => (Color::Green, Icon::CheckCircle),
            DkimResult::Fail => (Color::Red, Icon::AlertTriangle),
            DkimResult::TempError => (Color::Yellow, Icon::Clock),
            DkimResult::PermError => (Color::Red, Icon::Cancel),
            _ => (Color::Blue, Icon::Cancel),
        }
    }
}

impl SpfResult {
    /// Colour and icon of the badge that shows the result.
    pub fn badge(&self) -> (r: (Color, Icon))
        ensures
            r == (match *self {
                SpfResult::Pass => (Color::Green, Icon::CheckCircle),
                SpfResult::Fail | SpfResult::SoftFail => (Color::Red, Icon::AlertTriangle),
                SpfResult::TempError => (Color::Yellow, Icon::Clock),
                SpfResult::PermError => (Color::Red, Icon::Cancel),
                _ => (Color::Blue, Icon::Cancel),
            }),
    {
        match self {
            SpfResult::Pass => (Color::Green, Icon::CheckCircle),
            SpfResult::Fail | SpfResult::SoftFail => (Color::Red, Icon::AlertTriangle),
            SpfResult::TempError => (Color::Yellow, Icon::Clock),
            SpfResult::PermError => (Color::Red, Icon::Cancel),
            _ => (Color::Blue, Icon::Cancel),
        }
    }
}

impl PolicyType {
    /// Colour of the badge that shows the policy type.
    pub fn color(&self) -> (r: Color)
        ensures
            r == (match *self {
                PolicyType::Tlsa => Color::Green,
                PolicyType::Sts => Color::Blue,
                _ => Color::Red,
            }),
    {
        match self {
            PolicyType::Tlsa => Color::Green,
            PolicyType::Sts => Color::Blue,
            _ => Color::Red,
        }
    }
}


/// The text of a TLS report destination.
pub open spec fn report_uri_text(u: ReportUri) -> Seq<char> {
    match u {
        ReportUri::Mail(uri) => "mailto:"@ + uri@,
        ReportUri::Http(uri) => uri@,
    }
}

/// Where an aggregate report is sent, as the report page lists it.
pub open spec fn spec_report_uris(r: AggregateReport) -> Seq<char> {
    match r {
        AggregateReport::Tls { rua, .. } => join_seqs(rua@.map_values(|u: ReportUri| report_uri_text(u)), ", "@),
        AggregateReport::Dmarc { rua, .. } => join_seqs(rua@.map_values(|u: URI| u.uri@), ", "@),
    }
}

impl AggregateReport {
    /// The report's destinations, separated by commas.
    pub fn report_uris(&self) -> (r: String)
        ensures
            r@ == spec_report_uris(*self),
    {
        let mut texts: Vec<String> = Vec::new();
        match self {
            AggregateReport::Tls { rua, .. } => {
                let mut i: usize = 0;
                while i < rua.len()
                    invariant
                        i <= rua@.len(),
                        strs(texts@) == rua@.take(i as int).map_values(|u: ReportUri| report_uri_text(u)),
                    decreases rua.len() - i,
                {
                    let t = rua[i].text();
                    let ghost before = strs(texts@);
                    texts.push(t);
                    assert(strs(texts@) =~= before.push(report_uri_text(rua@[i as int])));
                    assert(rua@.take(i + 1).map_values(|u: ReportUri| report_uri_text(u)) =~= rua@.take(
                        i as int,
                    ).map_values(|u: ReportUri| report_uri_text(u)).push(report_uri_text(rua@[i as int])));
                    i = i + 1;
                }
                assert(rua@.take(rua@.len() as int) =~= rua@);
            },
            AggregateReport::Dmarc { rua, .. } => {
                let mut i: usize = 0;
                while i < rua.len()
                    invariant
                        i <= rua@.len(),
                        strs(texts@) == rua@.take(i as int).map_values(|u: URI| u.uri@),
                    decreases rua.len() - i,
                {
                    let t = rua[i].uri.clone();
                    let ghost before = strs(texts@);
                    texts.push(t);
                    assert(strs(texts@) =~= before.push(rua@[i as int].uri@));
                    assert(rua@.take(i + 1).map_values(|u: URI| u.uri@) =~= rua@.take(i as int).map_values(
                        |u: URI| u.uri@,
                    ).push(rua@[i as int].uri@));
                    i = i + 1;
                }
                assert(rua@.take(rua@.len() as int) =~= rua@);
            },
        }
        join(&texts, ", ")
    }
}

} // verus!
