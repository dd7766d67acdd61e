//! Stages of a delivery test and results of a DMARC test, and how each is
//! described to the administrator.
use vstd::prelude::*;

use crate::directory::strs;
use crate::{Color, Icon};
use crate::text::{concat, dec, join, join_seqs, spec_trim, trim, u64_to_string};
use crate::time::{humanize_ms, spec_humanize_ms};

verus! {

/// An MX record: exchanges and their preference.
#[derive(Debug, Clone, PartialEq, Eq)]
pub struct MX {
    pub exchanges: Vec<String>,
    pub preference: u16,
}

/// A TLS reporting destination.
#[derive(Debug, Clone, PartialEq, Eq)]
pub enum ReportUri {
    Mail { email: String },
    Http { url: String },
}

/// A TLSA record entry.
#[derive(Debug, Clone, PartialEq, Eq)]
pub struct TlsaEntry {
    pub is_end_entity: bool,
    pub is_sha256: bool,
    pub is_spki: bool,
    pub data: Vec<u8>,
}

/// The TLSA records of a host.
#[derive(Debug, Clone, PartialEq, Eq)]
pub struct Tlsa {
    pub entries: Vec<TlsaEntry>,
    pub has_end_entities: bool,
    pub has_intermediates: bool,
}

/// Mode of an MTA-STS policy.
#[derive(Debug, Clone, Copy, PartialEq, Eq, Default, Structural)]
pub enum Mode {
    Enforce,
    Testing,
    #[default]
    NoMode,
}

/// An MX host pattern of an MTA-STS policy.
#[derive(Debug, Clone, PartialEq, Eq)]
pub enum MxPattern {
    Equals(String),
    StartsWith(String),
}

/// An MTA-STS policy.
#[derive(Debug, Clone, PartialEq, Eq)]
pub struct Policy {
    pub id: String,
    pub mode: Mode,
    pub mx: Vec<MxPattern>,
    pub max_age: u64,
}

/// A stage of a delivery test. Addresses are carried as text.
#[derive(Debug, Clone, PartialEq, Eq)]
pub enum DeliveryStage {
    MxLookupStart { domain: String },
    MxLookupSuccess { mxs: Vec<MX>, elapsed: u64 },
    MxLookupError { reason: String, elapsed: u64 },
    MtaStsFetchStart,
    MtaStsFetchSuccess { policy: Policy, elapsed: u64 },
    MtaStsFetchError { reason: String, elapsed: u64 },
    MtaStsNotFound { elapsed: u64 },
    TlsRptLookupStart,
    TlsRptLookupSuccess { rua: Vec<ReportUri>, elapsed: u64 },
    TlsRptLookupError { reason: String, elapsed: u64 },
    TlsRptNotFound { elapsed: u64 },
    DeliveryAttemptStart { hostname: String },
    MtaStsVerifySuccess,
    MtaStsVerifyError { reason: String },
    TlsaLookupStart,
    TlsaLookupSuccess { record: Tlsa, elapsed: u64 },
    TlsaNotFound { elapsed: u64, reason: String },
    TlsaLookupError { elapsed: u64, reason: String },
    IpLookupStart,
    IpLookupSuccess { remote_ips: Vec<String>, elapsed: u64 },
    IpLookupError { reason: String, elapsed: u64 },
    ConnectionStart { remote_ip: String },
    ConnectionSuccess { elapsed: u64 },
    ConnectionError { elapsed: u64, reason: String },
    ReadGreetingStart,
    ReadGreetingSuccess { elapsed: u64 },
    ReadGreetingError { elapsed: u64, reason: String },
    EhloStart,
    EhloSuccess { elapsed: u64 },
    EhloError { elapsed: u64, reason: String },
    StartTlsStart,
    StartTlsSuccess { elapsed: u64 },
    StartTlsError { elapsed: u64, reason: String },
    DaneVerifySuccess,
    DaneVerifyError { reason: String },
    MailFromStart,
    MailFromSuccess { elapsed: u64 },
    MailFromError { reason: String, elapsed: u64 },
    RcptToStart,
    RcptToSuccess { elapsed: u64 },
    RcptToError { reason: String, elapsed: u64 },
    QuitStart,
    QuitCompleted { elapsed: u64 },
    Completed,
}

/// What is shown of a stage: title, subtitle, items and, in milliseconds,
/// how long the stage took.
#[derive(Debug, Clone, PartialEq, Eq, Default)]
pub struct Details {
    pub title: String,
    pub subtitle: String,
    pub items: Vec<String>,
    pub elapsed: Option<u64>,
}

/// The plain value of [`Details`].
pub struct DetailsView {
    pub title: Seq<char>,
    pub subtitle: Seq<char>,
    pub items: Seq<Seq<char>>,
    pub elapsed: Option<u64>,
}

impl View for Details {
    type V = DetailsView;

    open spec fn view(&self) -> DetailsView {
        DetailsView { title: self.title@, subtitle: self.subtitle@, items: strs(self.items@), elapsed: self.elapsed }
    }
}

impl Details {
    pub fn new(title: String, subtitle: String) -> (d: Details)
        ensures
            d@ == (DetailsView { title: title@, subtitle: subtitle@, items: Seq::empty(), elapsed: None }),
    {
        let d = Details { title, subtitle, items: Vec::new(), elapsed: None };
        assert(strs(d.items@) =~= Seq::empty());
        d
    }

    pub fn items(self, items: Vec<String>) -> (d: Details)
        ensures
            d@ == (DetailsView { items: strs(items@), ..self@ }),
    {
        Details { items, ..self }
    }

    /// Records how long the stage took (the duration must fit a `chrono` time delta).
    pub fn elapsed(self, elapsed: u64) -> (d: Details)
        requires
            elapsed <= i64::MAX,
        ensures
            d@ == (DetailsView { elapsed: Some(elapsed), ..self@ }),
    {
        Details { elapsed: Some(elapsed), ..self }
    }

    pub fn with_items(self, items: Vec<String>) -> (d: Details)
        ensures
            d@ == (DetailsView { items: strs(items@), ..self@ }),
    {
        Details { items, ..self }
    }
}

// ----- items ---------------------------------------------------------------

/// Lowercase hexadecimal digit of `d` (`0 <= d < 16`).
pub open spec fn hex_digit(d: nat) -> char {
    if d < 10 {
        ((d + 48) as u8) as char
    } else {
        ((d + 87) as u8) as char
    }
}

/// Lowercase hexadecimal text of `n` without leading zeros, as `{:x}` writes it.
pub open spec fn hex(n: nat) -> Seq<char>
    decreases n,
{
    if n < 16 {
        seq![hex_digit(n)]
    } else {
        hex(n / 16).push(hex_digit(n % 16))
    }
}

/// The hexadecimal texts of the bytes, one after the other.
pub open spec fn hex_bytes(b: Seq<u8>) -> Seq<char>
    decreases b.len(),
{
    if b.len() == 0 {
        Seq::empty()
    } else {
        hex_bytes(b.drop_last()) + hex(b.last() as nat)
    }
}

/// Appends the hexadecimal text of a byte.
fn push_hex(s: &mut String, b: u8)
    ensures
        final(s)@ == old(s)@ + hex(b as nat),
{
    let hi = b / 16;
    let lo = b % 16;
    let hc: char = if hi < 10 { ((hi + 48) as char) } else { ((hi + 87) as char) };
    let lc: char = if lo < 10 { ((lo + 48) as char) } else { ((lo + 87) as char) };
    let mut v: Vec<char> = Vec::new();
    if hi > 0 {
        v.push(hc);
    }
    v.push(lc);
    let t = crate::text::string_of(&v);
    assert(hex(b as nat) =~= v@) by {
        if b >= 16 {
            assert(hex((b / 16) as nat) == seq![hex_digit((b / 16) as nat)]);
        }
    }
    s.append(t.as_str());
}

/// The item of a TLSA entry.
pub open spec fn tlsa_item(e: TlsaEntry) -> Seq<char> {
    (if e.is_end_entity { "End entity"@ } else { "Intermediate entity"@ }) + " with "@ + (if e.is_sha256 {
        "SHA-256"@
    } else {
        "SHA-512"@
    }) + " hash "@ + hex_bytes(e.data@)
}

impl Tlsa {
    /// One item per entry: its kind, its hash and its data in hexadecimal.
    pub fn items(self) -> (r: Vec<String>)
        ensures
            strs(r@) == self.entries@.map_values(|e: TlsaEntry| tlsa_item(e)),
    {
        let mut items: Vec<String> = Vec::new();
        let mut i: usize = 0;
        while i < self.entries.len()
            invariant
                i <= self.entries@.len(),
                strs(items@) == self.entries@.take(i as int).map_values(|e: TlsaEntry| tlsa_item(e)),
            decreases self.entries.len() - i,
        {
            let entry = &self.entries[i];
            let mut item = String::from_str(if entry.is_end_entity { "End entity" } else { "Intermediate entity" });
            item.append(" with ");
            item.append(if entry.is_sha256 { "SHA-256" } else { "SHA-512" });
            item.append(" hash ");
            let ghost head = item@;
            let mut k: usize = 0;
            while k < entry.data.len()
                invariant
                    k <= entry.data@.len(),
                    item@ == head + hex_bytes(entry.data@.take(k as int)),
                decreases entry.data.len() - k,
            {
                assert(entry.data@.take(k + 1).drop_last() =~= entry.data@.take(k as int));
                push_hex(&mut item, entry.data[k]);
                k = k + 1;
            }
            assert(entry.data@.take(entry.data@.len() as int) =~= entry.data@);
            let ghost before = strs(items@);
            items.push(item);
            assert(strs(items@) =~= before.push(tlsa_item(*entry)));
            assert(self.entries@.take(i + 1).map_values(|e: TlsaEntry| tlsa_item(e)) =~= self.entries@.take(
                i as int,
            ).map_values(|e: TlsaEntry| tlsa_item(e)).push(tlsa_item(*entry)));
            i = i + 1;
        }
        assert(self.entries@.take(self.entries@.len() as int) =~= self.entries@);
        items
    }
}

/// The item of an MX pattern.
pub open spec fn mx_item(p: MxPattern) -> Seq<char> {
    match p {
        MxPattern::Equals(host) => "Policy authorizes MX "@ + host@,
        MxPattern::StartsWith(host) => "Policy authorizes MXs *."@ + host@,
    }
}

/// The label of a policy mode.
pub open spec fn mode_item(m: Mode) -> Seq<char> {
    match m {
        Mode::Enforce => "Enforce policy"@,
        Mode::Testing => "Testing policy"@,
        Mode::NoMode => "Other or unknown policy"@,
    }
}

/// The items of an MTA-STS policy: its mode, the MX hosts it authorizes,
/// its identifier and its maximum age.
pub open spec fn spec_policy_items(p: Policy) -> Seq<Seq<char>> {
    seq![mode_item(p.mode)] + p.mx@.map_values(|m: MxPattern| mx_item(m)) + seq![
        "Policy ID is "@ + p.id@,
        "Policy max-age is "@ + dec(p.max_age as nat),
    ]
}

impl Policy {
    pub fn items(self) -> (r: Vec<String>)
        ensures
            strs(r@) == spec_policy_items(self),
    {
        let mut items: Vec<String> = Vec::new();
        items.push(
            String::from_str(
                match self.mode {
                    Mode::Enforce => "Enforce policy",
                    Mode::Testing => "Testing policy",
                    Mode::NoMode => "Other or unknown policy",
                },
            ),
        );
        let ghost first = strs(items@);
        let mut i: usize = 0;
        while i < self.mx.len()
            invariant
                i <= self.mx@.len(),
                strs(items@) == first + self.mx@.take(i as int).map_values(|m: MxPattern| mx_item(m)),
            decreases self.mx.len() - i,
        {
            let item = match &self.mx[i] {
                MxPattern::Equals(host) => concat("Policy authorizes MX ", host.as_str()),
                MxPattern::StartsWith(host) => concat("Policy authorizes MXs *.", host.as_str()),
            };
            let ghost before = strs(items@);
            items.push(item);
            assert(strs(items@) =~= before.push(mx_item(self.mx@[i as int])));
            assert(self.mx@.take(i + 1).map_values(|m: MxPattern| mx_item(m)) =~= self.mx@.take(
                i as int,
            ).map_values(|m: MxPattern| mx_item(m)).push(mx_item(self.mx@[i as int])));
            i = i + 1;
        }
        assert(self.mx@.take(self.mx@.len() as int) =~= self.mx@);
        let ghost mid = strs(items@);
        items.push(concat("Policy ID is ", self.id.as_str()));
        let age = u64_to_string(self.max_age);
        items.push(concat("Policy max-age is ", age.as_str()));
        assert(strs(items@) =~= mid.push("Policy ID is "@ + self.id@).push("Policy max-age is "@ + dec(self.max_age as nat)));
        assert(strs(items@) =~= spec_policy_items(self));
        items
    }
}


// ----- stage details --------------------------------------------------------

/// A stage's details with no items and no duration.
pub open spec fn titled(title: Seq<char>, subtitle: Seq<char>) -> DetailsView {
    DetailsView { title, subtitle, items: Seq::empty(), elapsed: None }
}

/// `d` with the duration `elapsed`.
pub open spec fn timed(d: DetailsView, elapsed: u64) -> DetailsView {
    DetailsView { elapsed: Some(elapsed), ..d }
}

/// `d` with the items `items`.
pub open spec fn listed(d: DetailsView, items: Seq<Seq<char>>) -> DetailsView {
    DetailsView { items, ..d }
}

/// The item of an MX record: its exchanges and preference.
pub open spec fn mx_line(mx: MX) -> Seq<char> {
    join_seqs(strs(mx.exchanges@), ", "@) + " with preference "@ + dec(mx.preference as nat)
}

/// The item of a TLS reporting destination.
pub open spec fn rua_item(u: ReportUri) -> Seq<char> {
    match u {
        ReportUri::Mail { email } => "Send TLS report to e-mail "@ + email@,
        ReportUri::Http { url } => "Submit TLS report to URL "@ + url@,
    }
}

/// How long a stage took, for the stages that report it.
pub open spec fn stage_elapsed(s: DeliveryStage) -> Option<u64> {
    match s {
        DeliveryStage::MxLookupSuccess { elapsed, .. } => Some(elapsed),
        DeliveryStage::MxLookupError { elapsed, .. } => Some(elapsed),
        DeliveryStage::MtaStsFetchSuccess { elapsed, .. } => Some(elapsed),
        DeliveryStage::MtaStsFetchError { elapsed, .. } => Some(elapsed),
        DeliveryStage::MtaStsNotFound { elapsed } => Some(elapsed),
        DeliveryStage::TlsRptLookupSuccess { elapsed, .. } => Some(elapsed),
        DeliveryStage::TlsRptLookupError { elapsed, .. } => Some(elapsed),
        DeliveryStage::TlsRptNotFound { elapsed } => Some(elapsed),
        DeliveryStage::TlsaLookupSuccess { elapsed, .. } => Some(elapsed),
        DeliveryStage::TlsaNotFound { elapsed, .. } => Some(elapsed),
        DeliveryStage::TlsaLookupError { elapsed, .. } => Some(elapsed),
        DeliveryStage::IpLookupSuccess { elapsed, .. } => Some(elapsed),
        DeliveryStage::IpLookupError { elapsed, .. } => Some(elapsed),
        DeliveryStage::ConnectionSuccess { elapsed } => Some(elapsed),
        DeliveryStage::ConnectionError { elapsed, .. } => Some(elapsed),
        DeliveryStage::ReadGreetingSuccess { elapsed } => Some(elapsed),
        DeliveryStage::ReadGreetingError { elapsed, .. } => Some(elapsed),
        DeliveryStage::EhloSuccess { elapsed } => Some(elapsed),
        DeliveryStage::EhloError { elapsed, .. } => Some(elapsed),
        DeliveryStage::StartTlsSuccess { elapsed } => Some(elapsed),
        DeliveryStage::StartTlsError { elapsed, .. } => Some(elapsed),
        DeliveryStage::MailFromSuccess { elapsed } => Some(elapsed),
        DeliveryStage::MailFromError { elapsed, .. } => Some(elapsed),
        DeliveryStage::RcptToSuccess { elapsed } => Some(elapsed),
        DeliveryStage::RcptToError { elapsed, .. } => Some(elapsed),
        DeliveryStage::QuitCompleted { elapsed } => Some(elapsed),
        _ => None,
    }
}

/// What is shown of a stage (`Completed` is never shown).
pub open spec fn spec_stage_details(s: DeliveryStage) -> DetailsView {
    match s {
        DeliveryStage::MxLookupStart { domain } => titled(
            "MX Lookup for "@ + domain@,
            "Querying MX records for domain "@ + domain@ + ".."@,
        ),
        DeliveryStage::MxLookupSuccess { mxs, elapsed } => listed(
            timed(titled("MX Lookup Successful"@, "Successfully fetched MX records for domain."@), elapsed),
            mxs@.map_values(|m: MX| mx_line(m)),
        ),
        DeliveryStage::MxLookupError { reason, elapsed } => timed(titled("MX Lookup Failed"@, reason@), elapsed),
        DeliveryStage::MtaStsFetchStart => titled(
            "MTA-STS Policy Fetch"@,
            "Fetching MTA-STS policy for domain..."@,
        ),
        DeliveryStage::MtaStsFetchSuccess { policy, elapsed } => listed(
            timed(
                titled("MTA-STS Policy Fetched Successfully"@, "Successfully fetched MTA-STS policy for domain"@),
                elapsed,
            ),
            spec_policy_items(policy),
        ),
        DeliveryStage::MtaStsFetchError { reason, elapsed } => timed(
            titled("MTA-STS Policy Fetch Failed"@, reason@),
            elapsed,
        ),
        DeliveryStage::MtaStsNotFound { elapsed } => timed(
            titled("MTA-STS Policy Unavailable"@, MTA_STS_NOT_FOUND@),
            elapsed,
        ),
        DeliveryStage::TlsRptLookupStart => titled(
            "TLS-RPT Record Fetch"@,
            "Fetching TLS Reporting record for host..."@,
        ),
        DeliveryStage::TlsRptLookupSuccess { rua, elapsed } => listed(
            timed(
                titled(
                    "TLS-RPT Record Fetched Successfully"@,
                    "TLS Reporting record for host fetched successfully."@,
                ),
                elapsed,
            ),
            rua@.map_values(|u: ReportUri| rua_item(u)),
        ),
        DeliveryStage::TlsRptLookupError { reason, elapsed } => timed(
            titled("TLS-RPT Record Fetch Failed"@, reason@),
            elapsed,
        ),
        DeliveryStage::TlsRptNotFound { elapsed } => timed(
            titled("TLS-RPT Record Not Found"@, TLS_RPT_NOT_FOUND@),
            elapsed,
        ),
        DeliveryStage::DeliveryAttemptStart { hostname } => titled(
            "Delivery attempt to host "@ + hostname@,
            "Attempting to deliver message to host "@ + hostname@ + "..."@,
        ),
        DeliveryStage::MtaStsVerifySuccess => titled(
            "MTA-STS Verification Successful"@,
            "This host is authorized by the published MTA-STS policy."@,
        ),
        DeliveryStage::MtaStsVerifyError { reason } => titled("MTA-STS Verification Failed"@, reason@),
        DeliveryStage::TlsaLookupStart => titled("TLSA Record Lookup"@, "Looking up TLSA records for host..."@),
        DeliveryStage::TlsaLookupSuccess { record, elapsed } => timed(
            listed(
                titled("TLSA Record Lookup Successful"@, "TLSA record for host fetched successfully."@),
                record.entries@.map_values(|e: TlsaEntry| tlsa_item(e)),
            ),
            elapsed,
        ),
        DeliveryStage::TlsaNotFound { elapsed, reason } => timed(titled("TLSA Record Not Found"@, reason@), elapsed),
        DeliveryStage::TlsaLookupError { elapsed, reason } => timed(
            titled("TLSA Record Lookup Failed"@, reason@),
            elapsed,
        ),
        DeliveryStage::IpLookupStart => titled("IP Address Lookup"@, "Looking up A and AAAA records for host..."@),
        DeliveryStage::IpLookupSuccess { remote_ips, elapsed } => listed(
            timed(
                titled("IP Address Lookup Successful"@, "Successfully fetched A/AAAA records for host."@),
                elapsed,
            ),
            strs(remote_ips@),
        ),
        DeliveryStage::IpLookupError { reason, elapsed } => timed(
            titled("IP Address Lookup Failed"@, reason@),
            elapsed,
        ),
        DeliveryStage::ConnectionStart { remote_ip } => titled(
            "Connecting to "@ + remote_ip@,
            "Attempting to establish TCP connection to "@ + remote_ip@ + " on port 25..."@,
        ),
        DeliveryStage::ConnectionSuccess { elapsed } => timed(
            titled("Connection Established"@, "Successfully connected to remote SMTP server."@),
            elapsed,
        ),
        DeliveryStage::ConnectionError { elapsed, reason } => timed(titled("Connection Failed"@, reason@), elapsed),
        DeliveryStage::ReadGreetingStart => titled(
            "SMTP Greeting Read"@,
            "Reading SMTP greeting from remote host..."@,
        ),
        DeliveryStage::ReadGreetingSuccess { elapsed } => timed(
            titled("SMTP Greeting Read Successfully"@, "Successfully read SMTP greeting."@),
            elapsed,
        ),
        DeliveryStage::ReadGreetingError { elapsed, reason } => timed(
            titled("SMTP Greeting Read Error"@, reason@),
            elapsed,
        ),
        DeliveryStage::EhloStart => titled("EHLO Stage"@, "Sending EHLO command to remote host..."@),
        DeliveryStage::EhloSuccess { elapsed } => timed(
            titled("EHLO Command Accepted"@, "EHLO command accepted by remote host."@),
            elapsed,
        ),
        DeliveryStage::EhloError { elapsed, reason } => timed(titled("EHLO Command Rejected"@, reason@), elapsed),
        DeliveryStage::StartTlsStart => titled(
            "Starting TLS"@,
            "Attempting to upgrade clear-text connection to TLS..."@,
        ),
        DeliveryStage::StartTlsSuccess { elapsed } => timed(
            titled("TLS Handshake Successful"@, "Successfully upgraded the connection to TLS."@),
            elapsed,
        ),
        DeliveryStage::StartTlsError { elapsed, reason } => timed(
            titled("STARTTLS Command Failed"@, reason@),
            elapsed,
        ),
        DeliveryStage::DaneVerifySuccess => titled(
            "DANE Verification Successful"@,
            "Matching TLSA record found for the provided TLS certificate."@,
        ),
        DeliveryStage::DaneVerifyError { reason } => titled("DANE Verification Failed"@, reason@),
        DeliveryStage::MailFromStart => titled("MAIL FROM Stage"@, "Sending MAIL FROM command to remote host..."@),
        DeliveryStage::MailFromSuccess { elapsed } => timed(
            titled("MAIL FROM Command Accepted"@, "Message sender accepted by remote host."@),
            elapsed,
        ),
        DeliveryStage::MailFromError { reason, elapsed } => timed(
            titled("MAIL FROM Command Rejected"@, reason@),
            elapsed,
        ),
        DeliveryStage::RcptToStart => titled("RCPT TO Stage"@, "Sending RCPT TO command to remote host..."@),
        DeliveryStage::RcptToSuccess { elapsed } => timed(
            titled("RCPT TO Accepted"@, "Message recipient accepted by remote host."@),
            elapsed,
        ),
        DeliveryStage::RcptToError { reason, elapsed } => timed(
            titled("RCPT TO Command Rejected"@, reason@),
            elapsed,
        ),
        DeliveryStage::QuitStart => titled("Close Connection"@, "Sending QUIT command and closing connection..."@),
        DeliveryStage::QuitCompleted { elapsed } => timed(
            titled("Connection Closed"@, "SMTP Transaction finished."@),
            elapsed,
        ),
        DeliveryStage::Completed => titled(Seq::empty(), Seq::empty()),
    }
}

/// Subtitle of a stage that found no MTA-STS policy.
pub const MTA_STS_NOT_FOUND: &'static str = "The domain does not publish an MTA-STS policy. Publishing an MTA-STS policy is recommended but not required for a successful message delivery.";

/// Subtitle of a stage that found no TLS-RPT record.
pub const TLS_RPT_NOT_FOUND: &'static str = "A TLS Reporting record was not found for this domain. TLS-RPT Records are optional and not required for a successful message delivery.";

fn text(s: &str) -> (r: String)
    ensures
        r@ == s@,
{
    String::from_str(s)
}

fn mx_lines(mxs: Vec<MX>) -> (r: Vec<String>)
    ensures
        strs(r@) == mxs@.map_values(|m: MX| mx_line(m)),
{
    let mut items: Vec<String> = Vec::new();
    let mut i: usize = 0;
    while i < mxs.len()
        invariant
            i <= mxs@.len(),
            strs(items@) == mxs@.take(i as int).map_values(|m: MX| mx_line(m)),
        decreases mxs.len() - i,
    {
        let mut line = join(&mxs[i].exchanges, ", ");
        line.append(" with preference ");
        let pref = u64_to_string(mxs[i].preference as u64);
        line.append(pref.as_str());
        let ghost before = strs(items@);
        items.push(line);
        assert(strs(items@) =~= before.push(mx_line(mxs@[i as int])));
        assert(mxs@.take(i + 1).map_values(|m: MX| mx_line(m)) =~= mxs@.take(i as int).map_values(
            |m: MX| mx_line(m),
        ).push(mx_line(mxs@[i as int])));
        i = i + 1;
    }
    assert(mxs@.take(mxs@.len() as int) =~= mxs@);
    items
}

fn rua_items(rua: Vec<ReportUri>) -> (r: Vec<String>)
    ensures
        strs(r@) == rua@.map_values(|u: ReportUri| rua_item(u)),
{
    let mut items: Vec<String> = Vec::new();
    let mut i: usize = 0;
    while i < rua.len()
        invariant
            i <= rua@.len(),
            strs(items@) == rua@.take(i as int).map_values(|u: ReportUri| rua_item(u)),
        decreases rua.len() - i,
    {
        let line = match &rua[i] {
            ReportUri::Mail { email } => concat("Send TLS report to e-mail ", email.as_str()),
            ReportUri::Http { url } => concat("Submit TLS report to URL ", url.as_str()),
        };
        let ghost before = strs(items@);
        items.push(line);
        assert(strs(items@) =~= before.push(rua_item(rua@[i as int])));
        assert(rua@.take(i + 1).map_values(|u: ReportUri| rua_item(u)) =~= rua@.take(i as int).map_values(
            |u: ReportUri| rua_item(u),
        ).push(rua_item(rua@[i as int])));
        i = i + 1;
    }
    assert(rua@.take(rua@.len() as int) =~= rua@);
    items
}

fn titled_with(a: &str, b: &str, c: &str) -> (r: String)
    ensures
        r@ == a@ + b@ + c@,
{
    let mut r = concat(a, b);
    r.append(c);
    r
}

impl DeliveryStage {
    /// What is shown of the stage: its title, subtitle, items and duration.
    /// Durations must fit a `chrono` time delta; `Completed` has no details.
    pub fn details(self) -> (d: Details)
        requires
            !(self is Completed),
            stage_elapsed(self) matches Some(e) ==> e <= i64::MAX,
        ensures
            d@ == spec_stage_details(self),
    {
        match self {
            DeliveryStage::MxLookupStart { domain } => Details::new(
                concat("MX Lookup for ", domain.as_str()),
                titled_with("Querying MX records for domain ", domain.as_str(), ".."),
            ),
            DeliveryStage::MxLookupSuccess { mxs, elapsed } => Details::new(
                text("MX Lookup Successful"),
                text("Successfully fetched MX records for domain."),
            ).elapsed(elapsed).items(mx_lines(mxs)),
            DeliveryStage::MxLookupError { reason, elapsed } => Details::new(text("MX Lookup Failed"), reason).elapsed(
                elapsed,
            ),
            DeliveryStage::MtaStsFetchStart => Details::new(
                text("MTA-STS Policy Fetch"),
                text("Fetching MTA-STS policy for domain..."),
            ),
            DeliveryStage::MtaStsFetchSuccess { policy, elapsed } => Details::new(
                text("MTA-STS Policy Fetched Successfully"),
                text("Successfully fetched MTA-STS policy for domain"),
            ).elapsed(elapsed).with_items(policy.items()),
            DeliveryStage::MtaStsFetchError { reason, elapsed } => Details::new(
                text("MTA-STS Policy Fetch Failed"),
                reason,
            ).elapsed(elapsed),
            DeliveryStage::MtaStsNotFound { elapsed } => Details::new(
                text("MTA-STS Policy Unavailable"),
                text(MTA_STS_NOT_FOUND),
            ).elapsed(elapsed),
            DeliveryStage::TlsRptLookupStart => Details::new(
                text("TLS-RPT Record Fetch"),
                text("Fetching TLS Reporting record for host..."),
            ),
            DeliveryStage::TlsRptLookupSuccess { rua, elapsed } => Details::new(
                text("TLS-RPT Record Fetched Successfully"),
                text("TLS Reporting record for host fetched successfully."),
            ).elapsed(elapsed).items(rua_items(rua)),
            DeliveryStage::TlsRptLookupError { reason, elapsed } => Details::new(
                text("TLS-RPT Record Fetch Failed"),
                reason,
            ).elapsed(elapsed),
            DeliveryStage::TlsRptNotFound { elapsed } => Details::new(
                text("TLS-RPT Record Not Found"),
                text(TLS_RPT_NOT_FOUND),
            ).elapsed(elapsed),
            DeliveryStage::DeliveryAttemptStart { hostname } => Details::new(
                concat("Delivery attempt to host ", hostname.as_str()),
                titled_with("Attempting to deliver message to host ", hostname.as_str(), "..."),
            ),
            DeliveryStage::MtaStsVerifySuccess => Details::new(
                text("MTA-STS Verification Successful"),
                text("This host is authorized by the published MTA-STS policy."),
            ),
            DeliveryStage::MtaStsVerifyError { reason } => Details::new(text("MTA-STS Verification Failed"), reason),
            DeliveryStage::TlsaLookupStart => Details::new(
                text("TLSA Record Lookup"),
                text("Looking up TLSA records for host..."),
            ),
            DeliveryStage::TlsaLookupSuccess { record, elapsed } => Details::new(
                text("TLSA Record Lookup Successful"),
                text("TLSA record for host fetched successfully."),
            ).with_items(record.items()).elapsed(elapsed),
            DeliveryStage::TlsaNotFound { elapsed, reason } => Details::new(
                text("TLSA Record Not Found"),
                reason,
            ).elapsed(elapsed),
            DeliveryStage::TlsaLookupError { elapsed, reason } => Details::new(
                text("TLSA Record Lookup Failed"),
                reason,
            ).elapsed(elapsed),
            DeliveryStage::IpLookupStart => Details::new(
                text("IP Address Lookup"),
                text("Looking up A and AAAA records for host..."),
            ),
            DeliveryStage::IpLookupSuccess { remote_ips, elapsed } => Details::new(
                text("IP Address Lookup Successful"),
                text("Successfully fetched A/AAAA records for host."),
            ).elapsed(elapsed).items(remote_ips),
            DeliveryStage::IpLookupError { reason, elapsed } => Details::new(
                text("IP Address Lookup Failed"),
                reason,
            ).elapsed(elapsed),
            DeliveryStage::ConnectionStart { remote_ip } => Details::new(
                concat("Connecting to ", remote_ip.as_str()),
                titled_with("Attempting to establish TCP connection to ", remote_ip.as_str(), " on port 25..."),
            ),
            DeliveryStage::ConnectionSuccess { elapsed } => Details::new(
                text("Connection Established"),
                text("Successfully connected to remote SMTP server."),
            ).elapsed(elapsed),
            DeliveryStage::ConnectionError { elapsed, reason } => Details::new(
                text("Connection Failed"),
                reason,
            ).elapsed(elapsed),
            DeliveryStage::ReadGreetingStart => Details::new(
                text("SMTP Greeting Read"),
                text("Reading SMTP greeting from remote host..."),
            ),
            DeliveryStage::ReadGreetingSuccess { elapsed } => Details::new(
                text("SMTP Greeting Read Successfully"),
                text("Successfully read SMTP greeting."),
            ).elapsed(elapsed),
            DeliveryStage::ReadGreetingError { elapsed, reason } => Details::new(
                text("SMTP Greeting Read Error"),
                reason,
            ).elapsed(elapsed),
            DeliveryStage::EhloStart => Details::new(
                text("EHLO Stage"),
                text("Sending EHLO command to remote host..."),
            ),
            DeliveryStage::EhloSuccess { elapsed } => Details::new(
                text("EHLO Command Accepted"),
                text("EHLO command accepted by remote host."),
            ).elapsed(elapsed),
            DeliveryStage::EhloError { elapsed, reason } => Details::new(
                text("EHLO Command Rejected"),
                reason,
            ).elapsed(elapsed),
            DeliveryStage::StartTlsStart => Details::new(
                text("Starting TLS"),
                text("Attempting to upgrade clear-text connection to TLS..."),
            ),
            DeliveryStage::StartTlsSuccess { elapsed } => Details::new(
                text("TLS Handshake Successful"),
                text("Successfully upgraded the connection to TLS."),
            ).elapsed(elapsed),
            DeliveryStage::StartTlsError { elapsed, reason } => Details::new(
                text("STARTTLS Command Failed"),
                reason,
            ).elapsed(elapsed),
            DeliveryStage::DaneVerifySuccess => Details::new(
                text("DANE Verification Successful"),
                text("Matching TLSA record found for the provided TLS certificate."),
            ),
            DeliveryStage::DaneVerifyError { reason } => Details::new(text("DANE Verification Failed"), reason),
            DeliveryStage::MailFromStart => Details::new(
                text("MAIL FROM Stage"),
                text("Sending MAIL FROM command to remote host..."),
            ),
            DeliveryStage::MailFromSuccess { elapsed } => Details::new(
                text("MAIL FROM Command Accepted"),
                text("Message sender accepted by remote host."),
            ).elapsed(elapsed),
            DeliveryStage::MailFromError { reason, elapsed } => Details::new(
                text("MAIL FROM Command Rejected"),
                reason,
            ).elapsed(elapsed),
            DeliveryStage::RcptToStart => Details::new(
                text("RCPT TO Stage"),
                text("Sending RCPT TO command to remote host..."),
            ),
            DeliveryStage::RcptToSuccess { elapsed } => Details::new(
                text("RCPT TO Accepted"),
                text("Message recipient accepted by remote host."),
            ).elapsed(elapsed),
            DeliveryStage::RcptToError { reason, elapsed } => Details::new(
                text("RCPT TO Command Rejected"),
                reason,
            ).elapsed(elapsed),
            DeliveryStage::QuitStart => Details::new(
                text("Close Connection"),
                text("Sending QUIT command and closing connection..."),
            ),
            DeliveryStage::QuitCompleted { elapsed } => Details::new(
                text("Connection Closed"),
                text("SMTP Transaction finished."),
            ).elapsed(elapsed),
            DeliveryStage::Completed => Details::new(String::new(), String::new()),
        }
    }
}


// ----- icons, results and policies --------------------------------------------

/// A started stage is shown with a clock, a success with a check, a missing
/// optional record with a warning and a failure with a cross.
pub open spec fn spec_stage_icon(s: DeliveryStage) -> Icon {
    match s {
        DeliveryStage::MxLookupStart { .. } | DeliveryStage::MtaStsFetchStart | DeliveryStage::TlsRptLookupStart
        | DeliveryStage::DeliveryAttemptStart { .. } | DeliveryStage::TlsaLookupStart | DeliveryStage::IpLookupStart
        | DeliveryStage::ConnectionStart { .. } | DeliveryStage::ReadGreetingStart | DeliveryStage::EhloStart
        | DeliveryStage::StartTlsStart | DeliveryStage::MailFromStart | DeliveryStage::RcptToStart
        | DeliveryStage::QuitStart => Icon::Clock,
        DeliveryStage::MxLookupSuccess { .. } | DeliveryStage::MtaStsFetchSuccess { .. }
        | DeliveryStage::TlsRptLookupSuccess { .. } | DeliveryStage::MtaStsVerifySuccess
        | DeliveryStage::TlsaLookupSuccess { .. } | DeliveryStage::IpLookupSuccess { .. }
        | DeliveryStage::ConnectionSuccess { .. } | DeliveryStage::ReadGreetingSuccess { .. }
        | DeliveryStage::EhloSuccess { .. } | DeliveryStage::StartTlsSuccess { .. } | DeliveryStage::DaneVerifySuccess
        | DeliveryStage::MailFromSuccess { .. } | DeliveryStage::RcptToSuccess { .. }
        | DeliveryStage::QuitCompleted { .. } => Icon::CheckCircle,
        DeliveryStage::MtaStsNotFound { .. } | DeliveryStage::TlsRptNotFound { .. }
        | DeliveryStage::TlsaNotFound { .. } => Icon::ExclamationTriangle,
        _ => Icon::Cancel,
    }
}

impl DeliveryStage {
    /// The icon of the stage (`Completed` is never shown).
    pub fn icon(&self) -> (r: Icon)
        requires
            !(*self is Completed),
        ensures
            r == spec_stage_icon(*self),
    {
        match self {
            DeliveryStage::MxLookupStart { .. } | DeliveryStage::MtaStsFetchStart | DeliveryStage::TlsRptLookupStart
            | DeliveryStage::DeliveryAttemptStart { .. } | DeliveryStage::TlsaLookupStart
            | DeliveryStage::IpLookupStart | DeliveryStage::ConnectionStart { .. }
            | DeliveryStage::ReadGreetingStart | DeliveryStage::EhloStart | DeliveryStage::StartTlsStart
            | DeliveryStage::MailFromStart | DeliveryStage::RcptToStart | DeliveryStage::QuitStart => Icon::Clock,
            DeliveryStage::MxLookupSuccess { .. } | DeliveryStage::MtaStsFetchSuccess { .. }
            | DeliveryStage::TlsRptLookupSuccess { .. } | DeliveryStage::MtaStsVerifySuccess
            | DeliveryStage::TlsaLookupSuccess { .. } | DeliveryStage::IpLookupSuccess { .. }
            | DeliveryStage::ConnectionSuccess { .. } | DeliveryStage::ReadGreetingSuccess { .. }
            | DeliveryStage::EhloSuccess { .. } | DeliveryStage::StartTlsSuccess { .. }
            | DeliveryStage::DaneVerifySuccess | DeliveryStage::MailFromSuccess { .. }
            | DeliveryStage::RcptToSuccess { .. } | DeliveryStage::QuitCompleted { .. } => Icon::CheckCircle,
            DeliveryStage::MtaStsNotFound { .. } | DeliveryStage::TlsRptNotFound { .. }
            | DeliveryStage::TlsaNotFound { .. } => Icon::ExclamationTriangle,
            _ => Icon::Cancel,
        }
    }

    /// Whether this is the stage that ends a delivery test.
    pub fn is_completed(&self) -> (r: bool)
        ensures
            r == (*self is Completed),
    {
        matches!(self, DeliveryStage::Completed)
    }
}

/// The stages of `batch` that are shown: all but `Completed`, in order.
pub open spec fn shown_stages(batch: Seq<DeliveryStage>) -> Seq<DeliveryStage> {
    batch.filter(|s: DeliveryStage| !(s is Completed))
}

/// Adds a batch of stages received from the server to the history: every
/// stage but `Completed` is appended in order. Returns how many stages of
/// the batch were `Completed`: the event stream is closed once for each.
pub fn absorb_stages(history: &mut Vec<DeliveryStage>, batch: Vec<DeliveryStage>) -> (closes: usize)
    ensures
        final(history)@ == old(history)@ + shown_stages(batch@),
        closes == batch@.len() - shown_stages(batch@).len(),
        closes > 0 <==> (exists|i: int| 0 <= i < batch@.len() && (#[trigger] batch@[i]) is Completed),
{
    let ghost start = history@;
    let mut closes: usize = 0;
    let mut batch = batch;
    let ghost all = batch@;
    let mut i: usize = 0;
    let n = batch.len();
    while i < n
        invariant
            n == all.len(),
            batch@ == all.skip(i as int),
            i <= n,
            history@ == start + shown_stages(all.take(i as int)),
            closes == i - shown_stages(all.take(i as int)).len(),
            shown_stages(all.take(i as int)).len() <= i,
            closes > 0 <==> (exists|j: int| 0 <= j < i && (#[trigger] all[j]) is Completed),
        decreases n - i,
    {
        let stage = batch.remove(0);
        proof {
            assert(stage == all[i as int]);
            assert(batch@ =~= all.skip(i + 1));
            assert(all.take(i + 1).drop_last() =~= all.take(i as int));
            assert(all.take(i + 1).last() == all[i as int]);
            reveal(Seq::filter);
        }
        if stage.is_completed() {
            closes = closes + 1;
        } else {
            history.push(stage);
        }
        assert(history@ =~= start + shown_stages(all.take(i + 1)));
        i = i + 1;
    }
    assert(all.take(n as int) =~= all);
    closes
}

/// A result of SPF, DKIM, ARC, reverse IP or DMARC authentication.
#[derive(Debug, Clone, PartialEq, Eq)]
pub enum AuthResult {
    Pass,
    Fail { details: Option<String> },
    SoftFail { details: Option<String> },
    TempError { details: Option<String> },
    PermError { details: Option<String> },
    Neutral { details: Option<String> },
    NoResult,
}

/// The name of an authentication result.
pub open spec fn spec_auth_text(r: AuthResult) -> Seq<char> {
    match r {
        AuthResult::Pass => "Pass"@,
        AuthResult::Fail { .. } => "Fail"@,
        AuthResult::SoftFail { .. } => "SoftFail"@,
        AuthResult::TempError { .. } => "TempError"@,
        AuthResult::PermError { .. } => "PermError"@,
        AuthResult::Neutral { .. } => "Neutral"@,
        AuthResult::NoResult => "None"@,
    }
}

/// The details that came with a result that is neither a pass nor empty.
pub open spec fn spec_auth_error(r: AuthResult) -> Option<Seq<char>> {
    match r {
        AuthResult::Fail { details } => opt_text(details),
        AuthResult::SoftFail { details } => opt_text(details),
        AuthResult::TempError { details } => opt_text(details),
        AuthResult::PermError { details } => opt_text(details),
        AuthResult::Neutral { details } => opt_text(details),
        AuthResult::Pass | AuthResult::NoResult => None,
    }
}

/// The characters of an optional text.
pub open spec fn opt_text(o: Option<String>) -> Option<Seq<char>> {
    match o {
        Some(s) => Some(s@),
        None => None,
    }
}

/// The icon of a result: a check for a pass, a cross for a failure and a
/// warning otherwise.
pub open spec fn spec_auth_icon(r: AuthResult) -> Icon {
    match r {
        AuthResult::Pass => Icon::CheckCircle,
        AuthResult::Fail { .. } | AuthResult::SoftFail { .. } | AuthResult::PermError { .. } => Icon::Cancel,
        _ => Icon::ExclamationTriangle,
    }
}

/// The badge of a result: its colour and icon.
pub open spec fn spec_auth_badge(r: AuthResult) -> (Color, Icon) {
    match r {
        AuthResult::Pass => (Color::Green, Icon::CheckCircle),
        AuthResult::Fail { .. } => (Color::Red, Icon::AlertTriangle),
        AuthResult::TempError { .. } | AuthResult::SoftFail { .. } => (Color::Yellow, Icon::Clock),
        AuthResult::PermError { .. } => (Color::Red, Icon::Cancel),
        AuthResult::NoResult | AuthResult::Neutral { .. } => (Color::Blue, Icon::Cancel),
    }
}

fn clone_opt(o: &Option<String>) -> (r: Option<String>)
    ensures
        opt_text(r) == opt_text(*o),
{
    match o {
        Some(s) => Some(s.clone()),
        None => None,
    }
}

impl AuthResult {
    pub fn text(&self) -> (r: &'static str)
        ensures
            r@ == spec_auth_text(*self),
    {
        match self {
            AuthResult::Pass => "Pass",
            AuthResult::Fail { .. } => "Fail",
            AuthResult::SoftFail { .. } => "SoftFail",
            AuthResult::TempError { .. } => "TempError",
            AuthResult::PermError { .. } => "PermError",
            AuthResult::Neutral { .. } => "Neutral",
            AuthResult::NoResult => "None",
        }
    }

    pub fn error(&self) -> (r: Option<String>)
        ensures
            opt_text(r) == spec_auth_error(*self),
    {
        match self {
            AuthResult::Fail { details } => clone_opt(details),
            AuthResult::SoftFail { details } => clone_opt(details),
            AuthResult::TempError { details } => clone_opt(details),
            AuthResult::PermError { details } => clone_opt(details),
            AuthResult::Neutral { details } => clone_opt(details),
            AuthResult::Pass | AuthResult::NoResult => None,
        }
    }

    pub fn icon(&self) -> (r: Icon)
        ensures
            r == spec_auth_icon(*self),
    {
        match self {
            AuthResult::Pass => Icon::CheckCircle,
            AuthResult::Fail { .. } | AuthResult::SoftFail { .. } | AuthResult::PermError { .. } => Icon::Cancel,
            _ => Icon::ExclamationTriangle,
        }
    }

    /// Colour and icon of the badge that shows the result.
    pub fn badge(&self) -> (r: (Color, Icon))
        ensures
            r == spec_auth_badge(*self),
    {
        match self {
            AuthResult::Pass => (Color::Green, Icon::CheckCircle),
            AuthResult::Fail { .. } => (Color::Red, Icon::AlertTriangle),
            AuthResult::TempError { .. } | AuthResult::SoftFail { .. } => (Color::Yellow, Icon::Clock),
            AuthResult::PermError { .. } => (Color::Red, Icon::Cancel),
            AuthResult::NoResult | AuthResult::Neutral { .. } => (Color::Blue, Icon::Cancel),
        }
    }

    fn clone_result(&self) -> (r: AuthResult)
        ensures
            spec_auth_text(r) == spec_auth_text(*self),
            spec_auth_error(r) == spec_auth_error(*self),
            r is Pass <==> *self is Pass,
            r is NoResult <==> *self is NoResult,
    {
        match self {
            AuthResult::Pass => AuthResult::Pass,
            AuthResult::Fail { details } => AuthResult::Fail { details: clone_opt(details) },
            AuthResult::SoftFail { details } => AuthResult::SoftFail { details: clone_opt(details) },
            AuthResult::TempError { details } => AuthResult::TempError { details: clone_opt(details) },
            AuthResult::PermError { details } => AuthResult::PermError { details: clone_opt(details) },
            AuthResult::Neutral { details } => AuthResult::Neutral { details: clone_opt(details) },
            AuthResult::NoResult => AuthResult::NoResult,
        }
    }
}

/// A published DMARC policy.
#[derive(Debug, Clone, Copy, PartialEq, Eq, Structural)]
pub enum DmarcPolicy {
    NoPolicy,
    Quarantine,
    Reject,
    Unspecified,
}

impl DmarcPolicy {
    /// Colour, icon and label of the badge that shows the policy; an
    /// unspecified policy is shown as none.
    pub fn badge(&self) -> (r: (Color, Icon, &'static str))
        ensures
            r.0 == (match *self {
                DmarcPolicy::Quarantine => Color::Yellow,
                DmarcPolicy::Reject => Color::Red,
                _ => Color::Blue,
            }),
            r.1 == (match *self {
                DmarcPolicy::Quarantine => Icon::AlertTriangle,
                DmarcPolicy::Reject => Icon::Cancel,
                _ => Icon::ArrowRightCircle,
            }),
            r.2@ == (match *self {
                DmarcPolicy::Quarantine => "Quarantine"@,
                DmarcPolicy::Reject => "Reject"@,
                _ => "None"@,
            }),
    {
        match self {
            DmarcPolicy::Quarantine => (Color::Yellow, Icon::AlertTriangle, "Quarantine"),
            DmarcPolicy::Reject => (Color::Red, Icon::Cancel, "Reject"),
            _ => (Color::Blue, Icon::ArrowRightCircle, "None"),
        }
    }
}

/// The outcome of a DMARC test as the server reports it.
#[derive(Debug, Clone, PartialEq, Eq)]
pub struct DmarcTroubleshootResponse {
    pub spf_ehlo_domain: String,
    pub spf_ehlo_result: AuthResult,
    pub spf_mail_from_domain: String,
    pub spf_mail_from_result: AuthResult,
    pub ip_rev_result: AuthResult,
    pub ip_rev_ptr: Vec<String>,
    pub dkim_results: Vec<AuthResult>,
    pub dkim_pass: bool,
    pub arc_result: AuthResult,
    pub dmarc_result: AuthResult,
    pub dmarc_pass: bool,
    pub dmarc_policy: DmarcPolicy,
    pub elapsed: u64,
}

impl DmarcTroubleshootResponse {
    /// The DKIM verdict that is summarised: a pass when any signature
    /// passed, else the first signature's result, else none.
    pub fn dkim_result(&self) -> (r: AuthResult)
        ensures
            self.dkim_pass ==> r is Pass,
            !self.dkim_pass && self.dkim_results@.len() > 0 ==> spec_auth_text(r) == spec_auth_text(
                self.dkim_results@[0],
            ) && spec_auth_error(r) == spec_auth_error(self.dkim_results@[0]),
            !self.dkim_pass && self.dkim_results@.len() == 0 ==> r is NoResult,
    {
        if self.dkim_pass {
            AuthResult::Pass
        } else if self.dkim_results.len() > 0 {
            self.dkim_results[0].clone_result()
        } else {
            AuthResult::NoResult
        }
    }
}

/// The headers of a DMARC test request: none when the field is absent or
/// blank, else the field as written.
pub fn request_headers(field: Option<&str>) -> (r: Option<String>)
    ensures
        r matches Some(h) ==> field matches Some(f) && h@ == f@ && spec_trim(f@).len() > 0,
        r is None ==> (field matches Some(f) ==> spec_trim(f@).len() == 0),
{
    match field {
        Some(h) => {
            let t = trim(h);
            if t.as_str().unicode_len() == 0 {
                None
            } else {
                Some(String::from_str(h))
            }
        },
        None => None,
    }
}

/// "Completed in" and the precise English text of the stage's duration.
pub open spec fn spec_completed_in(ms: u64) -> Seq<char> {
    "Completed in "@ + spec_humanize_ms(ms)
}

impl Details {
    /// The line that says how long the stage took, where it reports it.
    pub fn completed_in(&self) -> (r: Option<String>)
        requires
            self.elapsed matches Some(e) ==> e <= i64::MAX,
        ensures
            r matches Some(t) ==> self.elapsed matches Some(e) && t@ == spec_completed_in(e),
            r is None <==> self.elapsed is None,
    {
        match self.elapsed {
            Some(e) => {
                let h = humanize_ms(e);
                Some(concat("Completed in ", h.as_str()))
            },
            None => None,
        }
    }
}


/// Stage history law: a history without the closing stage keeps none after
/// any batch is absorbed, and grows by exactly the other stages of the batch.
pub proof fn lemma_history_never_completed(history: Seq<DeliveryStage>, batch: Seq<DeliveryStage>)
    requires
        forall|i: int| 0 <= i < history.len() ==> !((#[trigger] history[i]) is Completed),
    ensures
        forall|i: int|
            0 <= i < (history + shown_stages(batch)).len() ==> !((#[trigger] (history + shown_stages(batch))[i]) is Completed),
        (history + shown_stages(batch)).len() <= history.len() + batch.len(),
{
    let f = |s: DeliveryStage| !(s is Completed);
    batch.lemma_filter_len(f);
    let all = history + shown_stages(batch);
    assert forall|i: int| 0 <= i < all.len() implies !((#[trigger] all[i]) is Completed) by {
        if i >= history.len() {
            batch.lemma_filter_pred(f, i - history.len());
        }
    }
}

} // verus!
