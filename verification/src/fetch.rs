//! Downloads into a workspace: which URLs and hosts may be asked, and how much
//! may come.
use vstd::pervasive::unreached;
use vstd::prelude::*;

use crate::config::FetchConfig;
use crate::error::{other, outcome, Error, ErrorView, Result};
use crate::text::{decimal, decimal_text, join2, join3, same_text};

verus! {

/// How many redirects a download follows. The client follows them on its own:
/// the host that is checked is that of the URL asked for.
pub const MAX_REDIRECTS: usize = 5;

/// What came of a download.
#[derive(Debug, Clone, PartialEq, Eq)]
pub struct FetchOutcome {
    pub bytes_written: u64,
    pub content_type: String,
    pub http_status: u16,
}

/// The parts of a URL that a download is judged by.
#[derive(Debug, Clone, PartialEq, Eq)]
pub struct UrlParts {
    pub scheme: String,
    pub host: Option<String>,
    /// As in the URL, or else the one that goes with the scheme.
    pub port: Option<u16>,
}

/// A `UrlParts`, over mathematical text.
pub struct UrlPartsView {
    pub scheme: Seq<char>,
    pub host: Option<Seq<char>>,
    pub port: Option<u16>,
}

impl View for UrlParts {
    type V = UrlPartsView;

    open spec fn view(&self) -> UrlPartsView {
        UrlPartsView {
            scheme: self.scheme@,
            host: match self.host {
                Some(host) => Some(host@),
                None => None,
            },
            port: self.port,
        }
    }
}

/// What came of reading a URL, over mathematical text.
pub open spec fn reading(parsed: std::result::Result<UrlParts, String>) -> std::result::Result<
    UrlPartsView,
    Seq<char>,
> {
    match parsed {
        Ok(parts) => Ok(parts@),
        Err(error) => Err(error@),
    }
}

/// What the text of a URL reads as: its parts, or what is wrong with it in
/// words.
pub uninterp spec fn url_reading(url: Seq<char>) -> std::result::Result<UrlPartsView, Seq<char>>;

/// Calls `reqwest::Url::parse`, and on the URL its `scheme`, `host_str` and
/// `port_or_known_default`. What they say depends on the text alone; it has a
/// name and is not stated further.
#[verifier::external_body]
fn read_url(url: &str) -> (parsed: std::result::Result<UrlParts, String>)
    ensures
        reading(parsed) == url_reading(url@),
{
    match reqwest::Url::parse(url) {
        Ok(url) => Ok(
            UrlParts {
                scheme: url.scheme().to_string(),
                host: url.host_str().map(String::from),
                port: url.port_or_known_default(),
            },
        ),
        Err(error) => Err(error.to_string()),
    }
}

/// What to do about the host of a URL before it is asked.
#[derive(Debug, Clone, PartialEq, Eq)]
pub enum HostCheck {
    /// Nothing: any host may be asked.
    AnyHost,
    /// See that it is a public one.
    MustBePublic { host: String, port: u16 },
}

/// A `HostCheck`, over mathematical text.
pub enum HostCheckView {
    AnyHost,
    MustBePublic { host: Seq<char>, port: u16 },
}

impl View for HostCheck {
    type V = HostCheckView;

    open spec fn view(&self) -> HostCheckView {
        match *self {
            HostCheck::AnyHost => HostCheckView::AnyHost,
            HostCheck::MustBePublic { host, port } => HostCheckView::MustBePublic {
                host: host@,
                port,
            },
        }
    }
}

/// What is to be done about a URL that reads like this.
pub open spec fn url_verdict(
    allow_private_network: bool,
    parsed: std::result::Result<UrlPartsView, Seq<char>>,
) -> std::result::Result<HostCheckView, ErrorView> {
    match parsed {
        Err(error) => Err(ErrorView::Other("bad url: "@ + error)),
        Ok(parts) => if parts.scheme != "http"@ && parts.scheme != "https"@ {
            Err(
                ErrorView::Other(
                    "unsupported url scheme: "@ + parts.scheme + " — only http/https allowed"@,
                ),
            )
        } else if allow_private_network {
            Ok(HostCheckView::AnyHost)
        } else {
            match parts.host {
                None => Err(ErrorView::Other("url has no host"@)),
                Some(host) => Ok(
                    HostCheckView::MustBePublic {
                        host,
                        port: match parts.port {
                            Some(port) => port,
                            None => 80,
                        },
                    },
                ),
            }
        },
    }
}

/// What came of judging a URL, over mathematical text.
pub open spec fn judged(r: Result<HostCheck>) -> std::result::Result<HostCheckView, ErrorView> {
    match r {
        Ok(check) => Ok(check@),
        Err(e) => Err(e@),
    }
}

/// What to do about a URL that was read.
pub fn judge_url(cfg: &FetchConfig, parsed: std::result::Result<UrlParts, String>) -> (r: Result<
    HostCheck,
>)
    ensures
        judged(r) == url_verdict(cfg.allow_private_network, reading(parsed)),
{
    let parts = match parsed {
        Ok(parts) => parts,
        Err(error) => {
            return Err(other(join2("bad url: ", error.as_str()).as_str()));
        },
    };
    let scheme: &str = parts.scheme.as_str();
    if !same_text(scheme, "http") && !same_text(scheme, "https") {
        let message = join3("unsupported url scheme: ", scheme, " — only http/https allowed");
        return Err(other(message.as_str()));
    }
    if cfg.allow_private_network {
        return Ok(HostCheck::AnyHost);
    }
    match parts.host {
        None => Err(other("url has no host")),
        Some(host) => {
            let port: u16 = match parts.port {
                Some(port) => port,
                None => 80,
            };
            Ok(HostCheck::MustBePublic { host: host, port: port })
        },
    }
}

/// What to do about a URL before it is asked: only HTTP and HTTPS will do, and
/// unless the settings say otherwise only public hosts.
pub fn check_url(cfg: &FetchConfig, url: &str) -> (r: Result<HostCheck>)
    ensures
        judged(r) == url_verdict(cfg.allow_private_network, url_reading(url@)),
{
    judge_url(cfg, read_url(url))
}

/// What to look up to find the addresses of a host.
pub fn lookup_target(host: &str, port: u16) -> (target: String)
    ensures
        target@ == host@ + ":"@ + decimal(port as nat),
{
    join3(host, ":", decimal_text(port as u64).as_str())
}

/// An address on the network.
#[derive(Debug, Clone, Copy, PartialEq, Eq)]
pub enum IpAddr {
    /// Four octets.
    V4([u8; 4]),
    /// Eight segments of 16 bits.
    V6([u16; 8]),
}

/// Whether an IPv4 address is one that is not asked: loopback, private,
/// link-local, broadcast, documentation, shared (100.64.0.0/10) and "this
/// network" (0.0.0.0/8).
pub open spec fn disallowed_v4(a: u8, b: u8, c: u8, d: u8) -> bool {
    ||| a == 0
    ||| a == 10
    ||| a == 127
    ||| a == 100 && 64 <= b <= 127
    ||| a == 169 && b == 254
    ||| a == 172 && 16 <= b <= 31
    ||| a == 192 && b == 168
    ||| a == 192 && b == 0 && c == 2
    ||| a == 198 && b == 51 && c == 100
    ||| a == 203 && b == 0 && c == 113
    ||| a == 255 && b == 255 && c == 255 && d == 255
}

/// Whether an IPv6 address is one that is not asked: unspecified, loopback,
/// unique local (fc00::/7), link-local (fe80::/10) and multicast (ff00::/8).
pub open spec fn disallowed_v6(s: Seq<u16>) -> bool {
    ||| (forall|i: int| 0 <= i < 7 ==> #[trigger] s[i] == 0) && (s[7] == 0 || s[7] == 1)
    ||| 0xfc00 <= s[0] <= 0xfdff
    ||| 0xfe80 <= s[0] <= 0xfebf
    ||| 0xff00 <= s[0]
}

/// Whether an address is one that is not asked.
pub open spec fn disallowed(ip: IpAddr) -> bool {
    match ip {
        IpAddr::V4(o) => disallowed_v4(o@[0], o@[1], o@[2], o@[3]),
        IpAddr::V6(s) => disallowed_v6(s@),
    }
}

/// Whether an address is one that is not asked.
pub fn is_disallowed(ip: &IpAddr) -> (no: bool)
    ensures
        no == disallowed(*ip),
{
    match ip {
        IpAddr::V4(o) => {
            let a: u8 = o[0];
            let b: u8 = o[1];
            let c: u8 = o[2];
            let d: u8 = o[3];
            a == 0 || a == 10 || a == 127 || (a == 100 && 64 <= b && b <= 127) || (a == 169 && b
                == 254) || (a == 172 && 16 <= b && b <= 31) || (a == 192 && b == 168) || (a == 192
                && b == 0 && c == 2) || (a == 198 && b == 51 && c == 100) || (a == 203 && b == 0 && c
                == 113) || (a == 255 && b == 255 && c == 255 && d == 255)
        },
        IpAddr::V6(s) => {
            let first: u16 = s[0];
            let leading_zeros: bool = s[0] == 0 && s[1] == 0 && s[2] == 0 && s[3] == 0 && s[4] == 0
                && s[5] == 0 && s[6] == 0;
            assert(leading_zeros == (forall|i: int| 0 <= i < 7 ==> #[trigger] s@[i] == 0)) by {
                if forall|i: int| 0 <= i < 7 ==> #[trigger] s@[i] == 0 {
                    assert(s@[0] == 0 && s@[1] == 0 && s@[2] == 0 && s@[3] == 0 && s@[4] == 0
                        && s@[5] == 0 && s@[6] == 0);
                }
            }
            (leading_zeros && (s[7] == 0 || s[7] == 1)) || (0xfc00 <= first && first <= 0xfdff) || (
            0xfe80 <= first && first <= 0xfebf) || 0xff00 <= first
        },
    }
}

/// What the text of a host says of its addresses.
#[derive(Debug, Clone, Copy, PartialEq, Eq, Structural)]
pub enum LiteralCheck {
    /// It is a public address.
    Public,
    /// It is a name, which has to be looked up.
    NeedsLookup,
}

/// Judges a host whose text is an address, and leaves names to a lookup.
pub fn check_literal(host: &str, literal: Option<IpAddr>) -> (r: Result<LiteralCheck>)
    ensures
        outcome(r) == (match literal {
            None => Ok::<LiteralCheck, ErrorView>(LiteralCheck::NeedsLookup),
            Some(ip) => if disallowed(ip) {
                Err(
                    ErrorView::Other(
                        "refusing to fetch disallowed literal address: "@ + host@,
                    ),
                )
            } else {
                Ok(LiteralCheck::Public)
            },
        }),
{
    match literal {
        None => Ok(LiteralCheck::NeedsLookup),
        Some(ip) => {
            if is_disallowed(&ip) {
                let message = join2("refusing to fetch disallowed literal address: ", host);
                return Err(other(message.as_str()));
            }
            Ok(LiteralCheck::Public)
        },
    }
}

/// An address that a lookup gave.
#[derive(Debug, Clone, PartialEq, Eq)]
pub struct Resolved {
    pub ip: IpAddr,
    /// The address as text.
    pub text: String,
}

/// What is said of a host with the given addresses: the first one that is not
/// asked is named.
pub open spec fn lookup_verdict(host: Seq<char>, found: Seq<Resolved>) -> std::result::Result<
    (),
    ErrorView,
> {
    if found.len() == 0 {
        Err(ErrorView::Other("dns: no records for "@ + host))
    } else {
        first_refusal(host, found)
    }
}

/// The refusal of the first address that is not asked, where there is one.
pub open spec fn first_refusal(host: Seq<char>, found: Seq<Resolved>) -> std::result::Result<
    (),
    ErrorView,
>
    decreases found.len(),
{
    if found.len() == 0 {
        Ok(())
    } else if disallowed(found[0].ip) {
        Err(
            ErrorView::Other(
                "refusing to fetch "@ + host + ": resolved to disallowed address "@
                    + found[0].text@,
            ),
        )
    } else {
        first_refusal(host, found.skip(1))
    }
}

/// What is said of a host by what came of looking it up.
pub open spec fn looked_up(
    host: Seq<char>,
    found: std::result::Result<Vec<Resolved>, String>,
) -> std::result::Result<(), ErrorView> {
    match found {
        Err(error) => Err(ErrorView::Other("dns resolve "@ + host + ": "@ + error@)),
        Ok(found) => lookup_verdict(host, found@),
    }
}

/// Judges a host by the addresses that a lookup gave: there has to be one, and
/// all have to be public. An error of the lookup is in its own words.
pub fn check_resolved(
    host: &str,
    found: std::result::Result<Vec<Resolved>, String>,
) -> (r: Result<()>)
    ensures
        outcome(r) == looked_up(host@, found),
{
    let list = match found {
        Ok(list) => list,
        Err(error) => {
            let front = join3("dns resolve ", host, ": ");
            return Err(other(join2(front.as_str(), error.as_str()).as_str()));
        },
    };
    if list.len() == 0 {
        return Err(other(join2("dns: no records for ", host).as_str()));
    }
    let mut i: usize = 0;
    assert(list@.skip(0) =~= list@);
    while i < list.len()
        invariant
            found == Ok::<Vec<Resolved>, String>(list),
            list@.len() > 0,
            i <= list@.len(),
            first_refusal(host@, list@) == first_refusal(host@, list@.skip(i as int)),
        decreases list@.len() - i,
    {
        assert(list@.skip(i as int)[0] == list@[i as int]);
        assert(list@.skip(i as int).skip(1) =~= list@.skip(i + 1));
        if is_disallowed(&list[i].ip) {
            let front = join3("refusing to fetch ", host, ": resolved to disallowed address ");
            return Err(other(join2(front.as_str(), list[i].text.as_str()).as_str()));
        }
        i = i + 1;
    }
    Ok(())
}

/// A host passes a lookup only with public addresses, one at least.
pub proof fn law_lookup_admits_public_hosts_only(host: Seq<char>, found: Seq<Resolved>)
    ensures
        lookup_verdict(host, found) is Ok <==> found.len() > 0 && forall|i: int|
            0 <= i < found.len() ==> !disallowed((#[trigger] found[i]).ip),
{
    lemma_first_refusal(host, found);
}

/// There is no refusal exactly where no address is one that is not asked.
proof fn lemma_first_refusal(host: Seq<char>, found: Seq<Resolved>)
    ensures
        first_refusal(host, found) is Ok <==> forall|i: int|
            0 <= i < found.len() ==> !disallowed((#[trigger] found[i]).ip),
    decreases found.len(),
{
    if found.len() > 0 {
        let rest = found.skip(1);
        lemma_first_refusal(host, rest);
        if first_refusal(host, found) is Ok {
            assert forall|i: int| 0 <= i < found.len() implies !disallowed(
                (#[trigger] found[i]).ip,
            ) by {
                if i > 0 {
                    assert(rest[i - 1] == found[i]);
                }
            }
        }
        if forall|i: int| 0 <= i < found.len() ==> !disallowed((#[trigger] found[i]).ip) {
            assert(!disallowed(found[0].ip));
            assert forall|i: int| 0 <= i < rest.len() implies !disallowed(
                (#[trigger] rest[i]).ip,
            ) by {
                assert(rest[i] == found[i + 1]);
            }
        }
    }
}

/// Where a download can go wrong outside.
#[derive(Debug, Clone, Copy, PartialEq, Eq, Structural)]
pub enum FetchStage {
    /// Making ready to ask.
    Client,
    /// Asking.
    Send,
    /// Taking in what comes.
    Body,
}

/// What stands in front of the words of what failed.
pub open spec fn stage_words(stage: FetchStage) -> Seq<char> {
    match stage {
        FetchStage::Client => "http client build: "@,
        FetchStage::Send => "fetch: "@,
        FetchStage::Body => "fetch body: "@,
    }
}

/// The error of a download that went wrong outside, from the words of what
/// failed.
pub fn fetch_failed(stage: FetchStage, error: &str) -> (e: Error)
    ensures
        e@ == ErrorView::Other(stage_words(stage) + error@),
{
    let front: &str = match stage {
        FetchStage::Client => "http client build: ",
        FetchStage::Send => "fetch: ",
        FetchStage::Body => "fetch body: ",
    };
    other(join2(front, error).as_str())
}

/// Accepts the status of an answer: success is 2xx.
pub fn check_status(http_status: u16) -> (r: Result<()>)
    ensures
        outcome(r) == (if 200 <= http_status <= 299 {
            Ok::<(), ErrorView>(())
        } else {
            Err(
                ErrorView::Other(
                    "fetch returned non-2xx status: "@ + decimal(http_status as nat),
                ),
            )
        }),
{
    if 200 <= http_status && http_status <= 299 {
        Ok(())
    } else {
        let status = decimal_text(http_status as u64);
        Err(other(join2("fetch returned non-2xx status: ", status.as_str()).as_str()))
    }
}

/// The content type of an answer, from its header where that is text.
pub open spec fn type_or_default(header: Option<String>) -> Seq<char> {
    match header {
        Some(header) => header@,
        None => "application/octet-stream"@,
    }
}

/// The content type of an answer, from its header where that is text.
pub fn answered_type(header: Option<String>) -> (content_type: String)
    ensures
        content_type@ == type_or_default(header),
{
    match header {
        Some(header) => header,
        None => "application/octet-stream".to_string(),
    }
}

/// Counts what comes, and stops it at the limit.
#[derive(Debug, Clone, Copy, PartialEq, Eq, Structural)]
pub struct BodyMeter {
    pub max: u64,
    pub written: u64,
}

/// A meter after it has let a piece of the given length through; none where it
/// stops the piece.
pub open spec fn metered(meter: BodyMeter, len: nat) -> Option<BodyMeter> {
    if meter.written + len <= meter.max {
        Some(BodyMeter { max: meter.max, written: (meter.written + len) as u64 })
    } else {
        None
    }
}

/// Why a piece of the given length is stopped.
pub open spec fn too_much(meter: BodyMeter, len: nat) -> ErrorView {
    ErrorView::Other(
        "fetch body exceeded max_body_bytes ("@ + decimal(meter.written as nat + len) + " > "@
            + decimal(meter.max as nat) + ")"@,
    )
}

impl BodyMeter {
    /// What every meter keeps: what it let through is within the limit.
    pub open spec fn wf(&self) -> bool {
        self.written <= self.max
    }

    /// A meter with the configured limit.
    pub fn new(cfg: &FetchConfig) -> (meter: Self)
        ensures
            meter.wf(),
            meter.max == cfg.max_body_bytes,
            meter.written == 0,
    {
        BodyMeter { max: cfg.max_body_bytes, written: 0 }
    }

    /// Lets a piece of the given length through, or stops it where there would
    /// be too much.
    pub fn let_through(&mut self, len: u64) -> (r: Result<()>)
        requires
            old(self).wf(),
            old(self).written + len <= u64::MAX,
        ensures
            final(self).wf(),
            match metered(*old(self), len as nat) {
                Some(after) => outcome(r) == Ok::<(), ErrorView>(()) && *final(self) == after,
                None => outcome(r) == Err::<(), ErrorView>(too_much(*old(self), len as nat))
                    && *final(self) == *old(self),
            },
    {
        let sum: u64 = self.written + len;
        if sum > self.max {
            let front = join3(
                "fetch body exceeded max_body_bytes (",
                decimal_text(sum).as_str(),
                " > ",
            );
            let message = join3(front.as_str(), decimal_text(self.max).as_str(), ")");
            return Err(other(message.as_str()));
        }
        self.written = sum;
        Ok(())
    }

    /// What came of a download of which all was let through.
    pub fn finish(self, content_type: String, http_status: u16) -> (outcome: FetchOutcome)
        ensures
            outcome.bytes_written == self.written,
            outcome.content_type == content_type,
            outcome.http_status == http_status,
    {
        FetchOutcome {
            bytes_written: self.written,
            content_type: content_type,
            http_status: http_status,
        }
    }
}

/// The sum of a list of lengths.
pub open spec fn total(lens: Seq<nat>) -> nat
    decreases lens.len(),
{
    if lens.len() == 0 {
        0
    } else {
        total(lens.drop_last()) + lens.last()
    }
}

/// A meter with the given limit after it has let pieces of the given lengths
/// through, one behind the other; none where it stops one of them.
pub open spec fn metered_all(max: u64, lens: Seq<nat>) -> Option<BodyMeter>
    decreases lens.len(),
{
    if lens.len() == 0 {
        Some(BodyMeter { max: max, written: 0 })
    } else {
        match metered_all(max, lens.drop_last()) {
            Some(meter) => metered(meter, lens.last()),
            None => None,
        }
    }
}

/// A download goes through exactly where the whole of it is within the limit,
/// and then its length is the sum of its pieces.
pub proof fn law_body_limit_is_on_the_whole(max: u64, lens: Seq<nat>)
    ensures
        metered_all(max, lens) == (if total(lens) <= max {
            Some(BodyMeter { max: max, written: total(lens) as u64 })
        } else {
            None
        }),
    decreases lens.len(),
{
    if lens.len() > 0 {
        law_body_limit_is_on_the_whole(max, lens.drop_last());
    }
}

/// Only HTTP and HTTPS are asked, and unless the settings say otherwise no host
/// is asked before it was seen to be a public one.
pub proof fn law_hosts_are_checked_unless_switched_off(
    allow_private_network: bool,
    parsed: std::result::Result<UrlPartsView, Seq<char>>,
)
    requires
        url_verdict(allow_private_network, parsed) is Ok,
    ensures
        parsed is Ok,
        parsed->Ok_0.scheme == "http"@ || parsed->Ok_0.scheme == "https"@,
        url_verdict(allow_private_network, parsed)->Ok_0 is AnyHost <==> allow_private_network,
        !allow_private_network ==> parsed->Ok_0.host is Some && url_verdict(
            allow_private_network,
            parsed,
        )->Ok_0->host == parsed->Ok_0.host->0,
{
}

/// How far a download has come.
#[derive(Debug, Clone, PartialEq, Eq)]
pub enum FetchPhase {
    /// The host is seen to: is its text an address?
    Reading { host: String, port: u16 },
    /// The host is seen to: which addresses has it?
    LookingUp { host: String },
    /// The host is asked.
    Asking,
    /// The answer comes.
    Receiving { http_status: u16, content_type: String },
    /// It is over.
    Over,
}

/// A `FetchPhase`, over mathematical text.
pub enum FetchPhaseView {
    Reading { host: Seq<char>, port: u16 },
    LookingUp { host: Seq<char> },
    Asking,
    Receiving { http_status: u16, content_type: Seq<char> },
    Over,
}

impl View for FetchPhase {
    type V = FetchPhaseView;

    open spec fn view(&self) -> FetchPhaseView {
        match *self {
            FetchPhase::Reading { host, port } => FetchPhaseView::Reading { host: host@, port },
            FetchPhase::LookingUp { host } => FetchPhaseView::LookingUp { host: host@ },
            FetchPhase::Asking => FetchPhaseView::Asking,
            FetchPhase::Receiving { http_status, content_type } => FetchPhaseView::Receiving {
                http_status,
                content_type: content_type@,
            },
            FetchPhase::Over => FetchPhaseView::Over,
        }
    }
}

/// What happens in a download. Failures outside are in the words of what
/// failed.
#[derive(Debug, PartialEq, Eq)]
pub enum FetchEvent {
    /// The text of the host is this address, or none.
    Read(Option<IpAddr>),
    /// The host has these addresses.
    LookedUp(std::result::Result<Vec<Resolved>, String>),
    /// The host answers with this status, and this content type where it gives
    /// one as text.
    Answered { http_status: u16, content_type: Option<String> },
    /// A piece of the answer of this length came.
    Chunk(u64),
    /// There is no more to come.
    Ended,
    /// Something failed outside.
    Failed(FetchStage, String),
}

/// What is to be done next in a download.
#[derive(Debug, Clone, PartialEq, Eq)]
pub enum FetchAction {
    /// Read the text of this host as an address.
    Read(String),
    /// Look this up.
    LookUp(String),
    /// Ask the host.
    Ask,
    /// Make the file, and take the answer in.
    Receive,
    /// Write the piece that came.
    Write,
    /// The download is complete.
    Done(FetchOutcome),
    /// Leave it at that.
    Fail(Error),
}

/// A `FetchAction`, over mathematical text.
pub enum FetchActionView {
    Read(Seq<char>),
    LookUp(Seq<char>),
    Ask,
    Receive,
    Write,
    Done { bytes_written: u64, content_type: Seq<char>, http_status: u16 },
    Fail(ErrorView),
}

impl View for FetchAction {
    type V = FetchActionView;

    open spec fn view(&self) -> FetchActionView {
        match *self {
            FetchAction::Read(host) => FetchActionView::Read(host@),
            FetchAction::LookUp(target) => FetchActionView::LookUp(target@),
            FetchAction::Ask => FetchActionView::Ask,
            FetchAction::Receive => FetchActionView::Receive,
            FetchAction::Write => FetchActionView::Write,
            FetchAction::Done(outcome) => FetchActionView::Done {
                bytes_written: outcome.bytes_written,
                content_type: outcome.content_type@,
                http_status: outcome.http_status,
            },
            FetchAction::Fail(e) => FetchActionView::Fail(e@),
        }
    }
}

/// A download under way.
#[derive(Debug, Clone, PartialEq, Eq)]
pub struct Fetch {
    pub phase: FetchPhase,
    pub meter: BodyMeter,
}

/// A `Fetch`, over mathematical text.
pub struct FetchView {
    pub phase: FetchPhaseView,
    pub meter: BodyMeter,
}

impl View for Fetch {
    type V = FetchView;

    open spec fn view(&self) -> FetchView {
        FetchView { phase: self.phase@, meter: self.meter }
    }
}

/// Whether an event can come in a phase. Failures outside can come once the
/// host is asked.
pub open spec fn fetch_fits(fetch: FetchView, event: FetchEvent) -> bool {
    match event {
        FetchEvent::Read(_) => fetch.phase is Reading,
        FetchEvent::LookedUp(_) => fetch.phase is LookingUp,
        FetchEvent::Answered { .. } => fetch.phase is Asking,
        FetchEvent::Chunk(len) => fetch.phase is Receiving && fetch.meter.wf()
            && fetch.meter.written + len <= u64::MAX,
        FetchEvent::Ended => fetch.phase is Receiving,
        FetchEvent::Failed(_, _) => fetch.phase is Asking || fetch.phase is Receiving,
    }
}

/// A download that is over, and why it failed.
pub open spec fn fetch_fails(fetch: FetchView, e: ErrorView) -> (FetchView, FetchActionView) {
    (FetchView { phase: FetchPhaseView::Over, ..fetch }, FetchActionView::Fail(e))
}

/// What the start of a download leads to.
pub open spec fn fetch_start(
    max_body_bytes: u64,
    verdict: std::result::Result<HostCheckView, ErrorView>,
) -> (FetchView, FetchActionView) {
    let meter = BodyMeter { max: max_body_bytes, written: 0 };
    match verdict {
        Err(e) => (FetchView { phase: FetchPhaseView::Over, meter }, FetchActionView::Fail(e)),
        Ok(HostCheckView::AnyHost) => (
            FetchView { phase: FetchPhaseView::Asking, meter },
            FetchActionView::Ask,
        ),
        Ok(HostCheckView::MustBePublic { host, port }) => (
            FetchView { phase: FetchPhaseView::Reading { host, port }, meter },
            FetchActionView::Read(host),
        ),
    }
}

/// What an event in a download leads to.
pub open spec fn fetch_next(fetch: FetchView, event: FetchEvent) -> (FetchView, FetchActionView) {
    match (fetch.phase, event) {
        (FetchPhaseView::Reading { host, port }, FetchEvent::Read(literal)) => match literal {
            None => (
                FetchView { phase: FetchPhaseView::LookingUp { host }, ..fetch },
                FetchActionView::LookUp(host + ":"@ + decimal(port as nat)),
            ),
            Some(ip) => if disallowed(ip) {
                fetch_fails(
                    fetch,
                    ErrorView::Other("refusing to fetch disallowed literal address: "@ + host),
                )
            } else {
                (FetchView { phase: FetchPhaseView::Asking, ..fetch }, FetchActionView::Ask)
            },
        },
        (FetchPhaseView::LookingUp { host }, FetchEvent::LookedUp(found)) => match looked_up(
            host,
            found,
        ) {
            Ok(_) => (FetchView { phase: FetchPhaseView::Asking, ..fetch }, FetchActionView::Ask),
            Err(e) => fetch_fails(fetch, e),
        },
        (FetchPhaseView::Asking, FetchEvent::Answered { http_status, content_type }) => if 200
            <= http_status <= 299 {
            (
                FetchView {
                    phase: FetchPhaseView::Receiving {
                        http_status,
                        content_type: type_or_default(content_type),
                    },
                    ..fetch
                },
                FetchActionView::Receive,
            )
        } else {
            fetch_fails(
                fetch,
                ErrorView::Other("fetch returned non-2xx status: "@ + decimal(http_status as nat)),
            )
        },
        (FetchPhaseView::Receiving { .. }, FetchEvent::Chunk(len)) => match metered(
            fetch.meter,
            len as nat,
        ) {
            Some(meter) => (FetchView { meter, ..fetch }, FetchActionView::Write),
            None => fetch_fails(fetch, too_much(fetch.meter, len as nat)),
        },
        (FetchPhaseView::Receiving { http_status, content_type }, FetchEvent::Ended) => (
            FetchView { phase: FetchPhaseView::Over, ..fetch },
            FetchActionView::Done {
                bytes_written: fetch.meter.written,
                content_type,
                http_status,
            },
        ),
        (_, FetchEvent::Failed(stage, error)) => fetch_fails(
            fetch,
            ErrorView::Other(stage_words(stage) + error@),
        ),
        _ => arbitrary(),
    }
}

impl Fetch {
    /// Starts a download of a URL.
    pub fn start(cfg: &FetchConfig, url: &str) -> (r: (Self, FetchAction))
        ensures
            (r.0@, r.1@) == fetch_start(
                cfg.max_body_bytes,
                url_verdict(cfg.allow_private_network, url_reading(url@)),
            ),
            r.0.meter.wf(),
    {
        Self::start_checked(cfg, check_url(cfg, url))
    }

    /// Starts a download of a URL that was judged like this.
    pub fn start_checked(cfg: &FetchConfig, check: Result<HostCheck>) -> (r: (Self, FetchAction))
        ensures
            (r.0@, r.1@) == fetch_start(cfg.max_body_bytes, judged(check)),
            r.0.meter.wf(),
    {
        let meter = BodyMeter::new(cfg);
        match check {
            Err(e) => (Fetch { phase: FetchPhase::Over, meter: meter }, FetchAction::Fail(e)),
            Ok(HostCheck::AnyHost) => (
                Fetch { phase: FetchPhase::Asking, meter: meter },
                FetchAction::Ask,
            ),
            Ok(HostCheck::MustBePublic { host, port }) => {
                let text = host.clone();
                (
                    Fetch { phase: FetchPhase::Reading { host: host, port: port }, meter: meter },
                    FetchAction::Read(text),
                )
            },
        }
    }

    /// Takes note of an event and says what is to be done.
    pub fn step(self, event: FetchEvent) -> (r: (Self, FetchAction))
        requires
            fetch_fits(self@, event),
        ensures
            (r.0@, r.1@) == fetch_next(self@, event),
            self.meter.wf() ==> r.0.meter.wf(),
    {
        let mut meter = self.meter;
        let over = Fetch { phase: FetchPhase::Over, meter: meter };
        match (self.phase, event) {
            (FetchPhase::Reading { host, port }, FetchEvent::Read(literal)) => {
                match check_literal(host.as_str(), literal) {
                    Err(e) => (over, FetchAction::Fail(e)),
                    Ok(LiteralCheck::Public) => (
                        Fetch { phase: FetchPhase::Asking, meter: meter },
                        FetchAction::Ask,
                    ),
                    Ok(LiteralCheck::NeedsLookup) => {
                        let target = lookup_target(host.as_str(), port);
                        (
                            Fetch { phase: FetchPhase::LookingUp { host: host }, meter: meter },
                            FetchAction::LookUp(target),
                        )
                    },
                }
            },
            (FetchPhase::LookingUp { host }, FetchEvent::LookedUp(found)) => {
                match check_resolved(host.as_str(), found) {
                    Err(e) => (over, FetchAction::Fail(e)),
                    Ok(()) => (
                        Fetch { phase: FetchPhase::Asking, meter: meter },
                        FetchAction::Ask,
                    ),
                }
            },
            (FetchPhase::Asking, FetchEvent::Answered { http_status, content_type }) => {
                match check_status(http_status) {
                    Err(e) => (over, FetchAction::Fail(e)),
                    Ok(()) => {
                        let phase = FetchPhase::Receiving {
                            http_status: http_status,
                            content_type: answered_type(content_type),
                        };
                        (Fetch { phase: phase, meter: meter }, FetchAction::Receive)
                    },
                }
            },
            (FetchPhase::Receiving { http_status, content_type }, FetchEvent::Chunk(len)) => {
                match meter.let_through(len) {
                    Err(e) => (over, FetchAction::Fail(e)),
                    Ok(()) => {
                        let phase = FetchPhase::Receiving {
                            http_status: http_status,
                            content_type: content_type,
                        };
                        (Fetch { phase: phase, meter: meter }, FetchAction::Write)
                    },
                }
            },
            (FetchPhase::Receiving { http_status, content_type }, FetchEvent::Ended) => (
                over,
                FetchAction::Done(meter.finish(content_type, http_status)),
            ),
            (_, FetchEvent::Failed(stage, error)) => (
                over,
                FetchAction::Fail(fetch_failed(stage, error.as_str())),
            ),
            _ => unreached(),
        }
    }
}

/// The host of the URL is not asked before it was seen to be a public one,
/// unless the settings say that any may be: where a download starts by asking,
/// they do, and where a step leads to asking, the text of the host was a public
/// address or the lookup gave nothing but public ones. This is on the host that
/// the URL names; those that its answers redirect to are followed by the client.
pub proof fn law_host_of_the_url_is_checked_first(
    max_body_bytes: u64,
    allow_private_network: bool,
    parsed: std::result::Result<UrlPartsView, Seq<char>>,
    fetch: FetchView,
    event: FetchEvent,
)
    requires
        fetch_fits(fetch, event),
    ensures
        fetch_start(max_body_bytes, url_verdict(allow_private_network, parsed)).1 is Ask
            ==> allow_private_network,
        fetch_next(fetch, event).1 is Ask ==> match event {
            FetchEvent::Read(Some(ip)) => !disallowed(ip),
            FetchEvent::LookedUp(Ok(found)) => found@.len() > 0 && forall|i: int|
                0 <= i < found@.len() ==> !disallowed((#[trigger] found@[i]).ip),
            _ => false,
        },
{
    match event {
        FetchEvent::LookedUp(Ok(found)) => match fetch.phase {
            FetchPhaseView::LookingUp { host } => {
                law_lookup_admits_public_hosts_only(host, found@);
            },
            _ => {},
        },
        _ => {},
    }
}

/// What a download writes is within the limit, and what it reports is what it
/// wrote.
pub proof fn law_download_stays_within_the_limit(fetch: FetchView, event: FetchEvent)
    requires
        fetch_fits(fetch, event),
        fetch.meter.wf(),
    ensures
        fetch_next(fetch, event).0.meter.max == fetch.meter.max,
        fetch_next(fetch, event).0.meter.wf(),
        fetch_next(fetch, event).1 is Write ==> event is Chunk && fetch_next(
            fetch,
            event,
        ).0.meter.written == fetch.meter.written + event->Chunk_0,
        !(fetch_next(fetch, event).1 is Write) ==> fetch_next(fetch, event).0.meter == fetch.meter,
        fetch_next(fetch, event).1 is Done ==> fetch_next(fetch, event).1->bytes_written
            == fetch.meter.written,
{
}

/// An answer is taken in exactly where it is a success, one of 200 to 299; with
/// any other the download fails and says which it was, and nothing is written.
pub proof fn law_only_success_is_taken_in(
    fetch: Fetch,
    http_status: u16,
    content_type: Option<String>,
    r: (Fetch, FetchAction),
)
    requires
        fetch.phase is Asking,
        call_ensures(
            Fetch::step,
            (fetch, FetchEvent::Answered { http_status, content_type }),
            r,
        ),
    ensures
        r.1 is Receive <==> http_status / 100 == 2,
        r.1 is Fail <==> http_status / 100 != 2,
        r.1 matches FetchAction::Fail(e) ==> r.0.phase is Over && (e matches Error::Other(m) && m@
            == "fetch returned non-2xx status: "@ + decimal(http_status as nat)),
        r.1 is Receive ==> (r.0.phase matches FetchPhase::Receiving { http_status: s, content_type: t }
            && s == http_status && t@ == (match content_type {
            Some(given) => given@,
            None => "application/octet-stream"@,
        })),
        r.0.meter == fetch.meter,
{
    assert(fetch@.phase is Asking);
    assert(r.1@ is Receive <==> r.1 is Receive);
    assert(r.1@ is Fail <==> r.1 is Fail);
    assert(r.0@.phase is Receiving <==> r.0.phase is Receiving);
    assert(r.0@.phase is Over <==> r.0.phase is Over);
}

/// A piece is written exactly where all that came is within the limit with it,
/// and then it counts in full; else the download fails and says by how much.
pub proof fn law_pieces_are_written_within_the_limit(
    fetch: Fetch,
    len: u64,
    r: (Fetch, FetchAction),
)
    requires
        fetch.phase is Receiving,
        call_ensures(Fetch::step, (fetch, FetchEvent::Chunk(len)), r),
    ensures
        r.1 is Write <==> fetch.meter.written + len <= fetch.meter.max,
        r.1 is Write ==> r.0.meter.written as int == fetch.meter.written + len && r.0.meter.max
            == fetch.meter.max && r.0.phase@ == fetch.phase@,
        !(r.1 is Write) ==> r.0.phase is Over && (r.1 matches FetchAction::Fail(e) && (
        e matches Error::Other(m) && m@ == "fetch body exceeded max_body_bytes ("@ + decimal(
            (fetch.meter.written + len) as nat,
        ) + " > "@ + decimal(fetch.meter.max as nat) + ")"@)),
{
    assert(fetch@.phase is Receiving);
    assert(r.1@ is Write <==> r.1 is Write);
    assert(r.0@.phase is Over <==> r.0.phase is Over);
}

/// A download that is complete reports the status and the type of the answer and
/// all that was let through; a failure outside is told in its own words behind
/// what was being done.
pub proof fn law_download_reports_what_came(
    fetch: Fetch,
    done: (Fetch, FetchAction),
    stage: FetchStage,
    error: String,
    failed: (Fetch, FetchAction),
)
    requires
        fetch.phase is Receiving,
        call_ensures(Fetch::step, (fetch, FetchEvent::Ended), done),
        call_ensures(Fetch::step, (fetch, FetchEvent::Failed(stage, error)), failed),
    ensures
        done.0.phase is Over,
        done.1 matches FetchAction::Done(outcome) && {
            &&& outcome.bytes_written == fetch.meter.written
            &&& outcome.http_status == fetch.phase->http_status
            &&& outcome.content_type@ == fetch.phase->content_type@
        },
        failed.0.phase is Over,
        failed.1 matches FetchAction::Fail(e) && (e matches Error::Other(m) && m@ == (match stage {
            FetchStage::Client => "http client build: "@,
            FetchStage::Send => "fetch: "@,
            FetchStage::Body => "fetch body: "@,
        }) + error@),
{
    assert(fetch@.phase is Receiving);
    assert(done.0@.phase is Over <==> done.0.phase is Over);
    assert(failed.0@.phase is Over <==> failed.0.phase is Over);
    assert(done.1@ is Done);
    assert(failed.1@ is Fail);
}

/// A download that is done had a success for an answer: whatever comes, the
/// status it reports is the one it was answered with, from 200 to 299.
pub proof fn law_done_means_success(events: Seq<FetchEvent>, max: u64, check: Result<HostCheck>)
    requires
        fetch_possible(max, check, events),
        events.len() > 0,
        fetch_run(max, check, events).1 is Done,
    ensures
        200 <= fetch_run(max, check, events).1->http_status <= 299,
{
    let front = events.drop_last();
    lemma_receiving_means_success(front, max, check);
}

/// A download after some events, one behind the other, and what is to be done
/// then.
pub open spec fn fetch_run(max: u64, check: Result<HostCheck>, events: Seq<FetchEvent>) -> (
    FetchView,
    FetchActionView,
)
    decreases events.len(),
{
    if events.len() == 0 {
        fetch_start(max, judged(check))
    } else {
        fetch_next(fetch_run(max, check, events.drop_last()).0, events.last())
    }
}

/// Whether some events can come in a download, one behind the other.
pub open spec fn fetch_possible(
    max: u64,
    check: Result<HostCheck>,
    events: Seq<FetchEvent>,
) -> bool
    decreases events.len(),
{
    events.len() == 0 || (fetch_possible(max, check, events.drop_last()) && fetch_fits(
        fetch_run(max, check, events.drop_last()).0,
        events.last(),
    ))
}

/// What is being received has a success for an answer.
proof fn lemma_receiving_means_success(events: Seq<FetchEvent>, max: u64, check: Result<HostCheck>)
    requires
        fetch_possible(max, check, events),
    ensures
        fetch_run(max, check, events).0.phase matches FetchPhaseView::Receiving { http_status, .. }
            ==> 200 <= http_status <= 299,
    decreases events.len(),
{
    if events.len() > 0 {
        lemma_receiving_means_success(events.drop_last(), max, check);
    }
}

/// A host whose text is an address is asked exactly where the address is a
/// public one; one that is a name is looked up under its port.
pub proof fn law_host_is_read_before_it_is_asked(
    fetch: Fetch,
    literal: Option<IpAddr>,
    r: (Fetch, FetchAction),
)
    requires
        fetch.phase is Reading,
        call_ensures(Fetch::step, (fetch, FetchEvent::Read(literal)), r),
    ensures
        literal is None ==> (r.1 matches FetchAction::LookUp(target) && target@
            == fetch.phase->Reading_host@ + ":"@ + decimal(fetch.phase->port as nat)) && (
        r.0.phase matches FetchPhase::LookingUp { host } && host@ == fetch.phase->Reading_host@),
        literal matches Some(ip) ==> (r.1 is Ask <==> !disallowed(ip)) && (r.1 is Ask
            <==> r.0.phase is Asking),
        literal matches Some(ip) ==> (disallowed(ip) ==> r.0.phase is Over && (
        r.1 matches FetchAction::Fail(e) && (e matches Error::Other(m) && m@
            == "refusing to fetch disallowed literal address: "@ + fetch.phase->Reading_host@))),
        r.0.meter == fetch.meter,
{
    assert(fetch@.phase is Reading);
    assert(r.1@ is Ask <==> r.1 is Ask);
    assert(r.1@ is LookUp <==> r.1 is LookUp);
    assert(r.1@ is Fail <==> r.1 is Fail);
    assert(r.0@.phase is Asking <==> r.0.phase is Asking);
    assert(r.0@.phase is LookingUp <==> r.0.phase is LookingUp);
    assert(r.0@.phase is Over <==> r.0.phase is Over);
}

/// A host that was looked up is asked exactly where it has addresses and all of
/// them are public ones.
pub proof fn law_host_is_asked_only_with_public_addresses(
    fetch: Fetch,
    found: std::result::Result<Vec<Resolved>, String>,
    r: (Fetch, FetchAction),
)
    requires
        fetch.phase is LookingUp,
        call_ensures(Fetch::step, (fetch, FetchEvent::LookedUp(found)), r),
    ensures
        r.1 is Ask <==> found is Ok && found->Ok_0@.len() > 0 && forall|i: int|
            0 <= i < found->Ok_0@.len() ==> !disallowed((#[trigger] found->Ok_0@[i]).ip),
        r.1 is Ask <==> r.0.phase is Asking,
        !(r.1 is Ask) ==> r.1 is Fail && r.0.phase is Over,
        found matches Err(error) ==> (r.1 matches FetchAction::Fail(e) && (e matches Error::Other(m)
            && m@ == "dns resolve "@ + fetch.phase->LookingUp_host@ + ": "@ + error@)),
        found is Ok && found->Ok_0@.len() == 0 ==> (r.1 matches FetchAction::Fail(e) && (
        e matches Error::Other(m) && m@ == "dns: no records for "@ + fetch.phase->LookingUp_host@)),
        r.0.meter == fetch.meter,
{
    assert(fetch@.phase is LookingUp);
    assert(r.1@ is Ask <==> r.1 is Ask);
    assert(r.1@ is Fail <==> r.1 is Fail);
    assert(r.0@.phase is Asking <==> r.0.phase is Asking);
    assert(r.0@.phase is Over <==> r.0.phase is Over);
    match found {
        Ok(list) => law_lookup_admits_public_hosts_only(fetch.phase->LookingUp_host@, list@),
        Err(_) => {},
    }
}

/// A refusal names the first address that is not asked, and no later one.
pub proof fn law_first_bad_address_is_named(host: Seq<char>, found: Seq<Resolved>, k: int)
    requires
        0 <= k < found.len(),
        disallowed(found[k].ip),
        forall|i: int| 0 <= i < k ==> !disallowed((#[trigger] found[i]).ip),
    ensures
        lookup_verdict(host, found) == Err::<(), ErrorView>(
            ErrorView::Other(
                "refusing to fetch "@ + host + ": resolved to disallowed address "@
                    + found[k].text@,
            ),
        ),
    decreases k,
{
    lemma_first_bad_address(host, found, k);
}

/// The refusal is that of the first address that is not asked.
proof fn lemma_first_bad_address(host: Seq<char>, found: Seq<Resolved>, k: int)
    requires
        0 <= k < found.len(),
        disallowed(found[k].ip),
        forall|i: int| 0 <= i < k ==> !disallowed((#[trigger] found[i]).ip),
    ensures
        first_refusal(host, found) == Err::<(), ErrorView>(
            ErrorView::Other(
                "refusing to fetch "@ + host + ": resolved to disallowed address "@
                    + found[k].text@,
            ),
        ),
    decreases k,
{
    if k > 0 {
        let rest = found.skip(1);
        assert(!disallowed(found[0].ip));
        assert(rest[k - 1] == found[k]);
        assert forall|i: int| 0 <= i < k - 1 implies !disallowed((#[trigger] rest[i]).ip) by {
            assert(rest[i] == found[i + 1]);
        }
        lemma_first_bad_address(host, rest, k - 1);
    }
}

/// A download starts with nothing written, under the configured limit. It asks
/// at once where any host will do, reads the text of the host where only public
/// ones will, and fails where the URL will not do.
pub proof fn law_download_starts_with_the_host(
    cfg: &FetchConfig,
    check: Result<HostCheck>,
    r: (Fetch, FetchAction),
)
    requires
        call_ensures(Fetch::start_checked, (cfg, check), r),
    ensures
        r.0.meter.written == 0,
        r.0.meter.max == cfg.max_body_bytes,
        match check {
            Err(e) => r.0.phase is Over && r.1 is Fail && r.1->Fail_0@ == e@,
            Ok(HostCheck::AnyHost) => r.0.phase is Asking && r.1 is Ask,
            Ok(HostCheck::MustBePublic { host, port }) => {
                &&& r.1 matches FetchAction::Read(text)
                &&& text@ == host@
                &&& r.0.phase matches FetchPhase::Reading { host: h, port: p }
                &&& h@ == host@
                &&& p == port
            },
        },
{
    assert(r.0@.meter == r.0.meter);
    assert(r.0@.phase is Over <==> r.0.phase is Over);
    assert(r.0@.phase is Asking <==> r.0.phase is Asking);
    assert(r.0@.phase is Reading <==> r.0.phase is Reading);
    assert(r.1@ is Fail <==> r.1 is Fail);
    assert(r.1@ is Ask <==> r.1 is Ask);
    assert(r.1@ is Read <==> r.1 is Read);
}

/// A URL will do exactly where it can be read, is one of HTTP or HTTPS, and names
/// a host or need not; where only public hosts will do, the host is checked that
/// the URL names, on the port that it names or on 80.
pub proof fn law_url_will_do_or_not(
    cfg: &FetchConfig,
    parsed: std::result::Result<UrlParts, String>,
    r: Result<HostCheck>,
)
    requires
        call_ensures(judge_url, (cfg, parsed), r),
    ensures
        r is Ok <==> parsed is Ok && (parsed->Ok_0.scheme@ == "http"@ || parsed->Ok_0.scheme@
            == "https"@) && (cfg.allow_private_network || parsed->Ok_0.host is Some),
        r is Ok && cfg.allow_private_network ==> r->Ok_0 is AnyHost,
        r is Ok && !cfg.allow_private_network ==> (r->Ok_0 matches HostCheck::MustBePublic {
            host,
            port,
        } && host@ == parsed->Ok_0.host->0@ && port == (match parsed->Ok_0.port {
            Some(named) => named,
            None => 80u16,
        })),
        parsed matches Err(error) ==> (r matches Err(e) && (e matches Error::Other(m) && m@
            == "bad url: "@ + error@)),
        parsed is Ok && parsed->Ok_0.scheme@ != "http"@ && parsed->Ok_0.scheme@ != "https"@ ==> (
        r matches Err(e) && (e matches Error::Other(m) && m@ == "unsupported url scheme: "@
            + parsed->Ok_0.scheme@ + " — only http/https allowed"@)),
{
    match r {
        Ok(check) => {
            assert(check@ is AnyHost <==> check is AnyHost);
        },
        Err(e) => {
            assert(judged(r) == Err::<HostCheckView, ErrorView>(e@));
        },
    }
}

/// The IPv4 addresses that are not asked are those of these ranges: 0.0.0.0/8,
/// 10.0.0.0/8, 100.64.0.0/10, 127.0.0.0/8, 169.254.0.0/16, 172.16.0.0/12,
/// 192.0.2.0/24, 192.168.0.0/16, 198.51.100.0/24, 203.0.113.0/24, and the
/// broadcast address.
pub proof fn law_v4_addresses_that_are_not_asked(ip: &IpAddr, octets: [u8; 4], no: bool)
    requires
        *ip == IpAddr::V4(octets),
        call_ensures(is_disallowed, (ip,), no),
    ensures
        disallowed(*ip) == no,
        ({
            let n = octets@[0] * 0x100_0000 + octets@[1] * 0x1_0000 + octets@[2] * 0x100
                + octets@[3];
            no <==> {
                ||| 0x0000_0000 <= n <= 0x00ff_ffff
                ||| 0x0a00_0000 <= n <= 0x0aff_ffff
                ||| 0x6440_0000 <= n <= 0x647f_ffff
                ||| 0x7f00_0000 <= n <= 0x7fff_ffff
                ||| 0xa9fe_0000 <= n <= 0xa9fe_ffff
                ||| 0xac10_0000 <= n <= 0xac1f_ffff
                ||| 0xc000_0200 <= n <= 0xc000_02ff
                ||| 0xc0a8_0000 <= n <= 0xc0a8_ffff
                ||| 0xc633_6400 <= n <= 0xc633_64ff
                ||| 0xcb00_7100 <= n <= 0xcb00_71ff
                ||| n == 0xffff_ffff
            }
        }),
{
}

/// The IPv6 addresses that are not asked are the unspecified one and loopback,
/// and those that start with the seven bits of fc00::/7, the ten of fe80::/10 or
/// the eight of ff00::/8.
pub proof fn law_v6_addresses_that_are_not_asked(ip: &IpAddr, segments: [u16; 8], no: bool)
    requires
        *ip == IpAddr::V6(segments),
        call_ensures(is_disallowed, (ip,), no),
    ensures
        disallowed(*ip) == no,
        ({
            let first = segments@[0] as int;
            no <==> {
                ||| first / 0x200 == 0x7e
                ||| first / 0x40 == 0x3fa
                ||| first / 0x100 == 0xff
                ||| {
                    &&& segments@[0] == 0 && segments@[1] == 0 && segments@[2] == 0 && segments@[3]
                        == 0 && segments@[4] == 0 && segments@[5] == 0 && segments@[6] == 0
                    &&& segments@[7] <= 1
                }
            }
        }),
{
}

/// What is let through is what came, up to the limit and no further.
pub proof fn law_meter_counts_what_came(len: u64, r: Result<()>)
    ensures
        forall|meter: &mut BodyMeter| #[trigger]
            call_ensures(BodyMeter::let_through, (meter, len), r) ==> {
                &&& r is Ok <==> meter.written + len <= meter.max
                &&& r is Ok ==> final(meter).written as int == meter.written + len
                &&& r is Err ==> final(meter).written == meter.written
                &&& final(meter).max == meter.max
            },
{
}

/// An event can come exactly in its phase: reading a host, looking it up, an
/// answer while the host is asked, pieces and the end while the answer comes, and
/// failures outside while one of the last two goes on.
pub proof fn law_when_download_events_come(fetch: FetchView, event: FetchEvent)
    requires
        fetch.meter.written <= fetch.meter.max,
    ensures
        event is Read ==> (fetch_fits(fetch, event) <==> fetch.phase is Reading),
        event is LookedUp ==> (fetch_fits(fetch, event) <==> fetch.phase is LookingUp),
        event is Answered ==> (fetch_fits(fetch, event) <==> fetch.phase is Asking),
        event is Ended ==> (fetch_fits(fetch, event) <==> fetch.phase is Receiving),
        event is Failed ==> (fetch_fits(fetch, event) <==> fetch.phase is Asking
            || fetch.phase is Receiving),
        event is Chunk ==> (fetch_fits(fetch, event) <==> fetch.phase is Receiving
            && fetch.meter.written + event->Chunk_0 <= 0xffff_ffff_ffff_ffff),
{
}

/// A host whose text is an address is judged by it, and any other is looked up.
pub proof fn law_literal_addresses_are_judged(
    host: &str,
    literal: Option<IpAddr>,
    r: Result<LiteralCheck>,
)
    requires
        call_ensures(check_literal, (host, literal), r),
    ensures
        r is Ok && r->Ok_0 is NeedsLookup <==> literal is None,
        r is Ok && r->Ok_0 is Public <==> literal is Some && !disallowed(literal->0),
        r is Err <==> literal is Some && disallowed(literal->0),
        r matches Err(e) ==> (e matches Error::Other(m) && m@
            == "refusing to fetch disallowed literal address: "@ + host@),
{
}

/// A host is let through by a lookup exactly where it has addresses and each of
/// them may be asked.
pub proof fn law_lookups_are_judged(
    host: &str,
    found: std::result::Result<Vec<Resolved>, String>,
    r: Result<()>,
)
    requires
        call_ensures(check_resolved, (host, found), r),
    ensures
        r is Ok <==> found is Ok && found->Ok_0@.len() > 0 && forall|i: int|
            0 <= i < found->Ok_0@.len() ==> !disallowed((#[trigger] found->Ok_0@[i]).ip),
        found matches Err(error) ==> (r matches Err(e) && (e matches Error::Other(m) && m@
            == "dns resolve "@ + host@ + ": "@ + error@)),
        found is Ok && found->Ok_0@.len() == 0 ==> (r matches Err(e) && (e matches Error::Other(m)
            && m@ == "dns: no records for "@ + host@)),
{
    match found {
        Ok(list) => law_lookup_admits_public_hosts_only(host@, list@),
        Err(_) => {},
    }
}

/// A failure is told in the words of what failed, behind what was being done.
pub proof fn law_fetch_failures_are_told(stage: FetchStage, error: &str, e: Error)
    requires
        call_ensures(fetch_failed, (stage, error), e),
    ensures
        e is Other,
        stage is Client ==> e->Other_0@ == "http client build: "@ + error@,
        stage is Send ==> e->Other_0@ == "fetch: "@ + error@,
        stage is Body ==> e->Other_0@ == "fetch body: "@ + error@,
{
}

/// A status is accepted exactly where it is one of success, and named otherwise.
pub proof fn law_status_is_success_or_named(http_status: u16, r: Result<()>)
    requires
        call_ensures(check_status, (http_status,), r),
    ensures
        r is Ok <==> http_status / 100 == 2,
        r matches Err(e) ==> (e matches Error::Other(m) && m@ == "fetch returned non-2xx status: "@
            + decimal(http_status as nat)),
{
}

/// The content type of an answer is the one it names, and what is looked up is the
/// host with its port.
pub proof fn law_answers_are_taken_at_their_word(
    header: Option<String>,
    content_type: String,
    host: &str,
    port: u16,
    target: String,
)
    requires
        call_ensures(answered_type, (header,), content_type),
        call_ensures(lookup_target, (host, port), target),
    ensures
        header matches Some(named) ==> content_type@ == named@,
        header is None ==> content_type@ == "application/octet-stream"@,
        content_type@ == type_or_default(header),
        target@ == host@ + ":"@ + decimal(port as nat),
{
}

/// A meter starts at nothing, with the limit that is set, and at the end tells
/// what went through.
pub proof fn law_meter_tells_what_went_through(
    cfg: &FetchConfig,
    fresh: BodyMeter,
    meter: BodyMeter,
    content_type: String,
    http_status: u16,
    outcome: FetchOutcome,
)
    requires
        call_ensures(BodyMeter::new, (cfg,), fresh),
        call_ensures(BodyMeter::finish, (meter, content_type, http_status), outcome),
    ensures
        fresh.written == 0,
        fresh.max == cfg.max_body_bytes,
        outcome.bytes_written == meter.written,
        outcome.content_type@ == content_type@,
        outcome.http_status == http_status,
{
}

/// A download starts as its URL is judged: it fails with what is wrong with the
/// URL, and otherwise goes on to the host or to its address.
pub proof fn law_download_starts_as_its_url_is_judged(
    cfg: &FetchConfig,
    url: &str,
    check: Result<HostCheck>,
    r: (Fetch, FetchAction),
)
    requires
        call_ensures(check_url, (cfg, url), check),
        call_ensures(Fetch::start, (cfg, url), r),
    ensures
        r.0.meter.written == 0,
        r.0.meter.max == cfg.max_body_bytes,
        judged(check) == url_verdict(cfg.allow_private_network, url_reading(url@)),
        r.1 is Fail <==> check is Err,
        r.1 is Ask <==> check is Ok && cfg.allow_private_network,
        r.1 is Read <==> check is Ok && !cfg.allow_private_network,
        check matches Err(e) ==> r.1->Fail_0@ == e@ && r.0.phase is Over,
        check is Ok && cfg.allow_private_network ==> check->Ok_0 is AnyHost && r.0.phase is Asking,
        check is Ok && !cfg.allow_private_network ==> (check->Ok_0 matches HostCheck::MustBePublic {
            host,
            port,
        } && r.1->Read_0@ == host@ && (r.0.phase matches FetchPhase::Reading { host: h, port: p }
            && h@ == host@ && p == port)),
{
    assert(r.0@.meter == r.0.meter);
    assert(r.0@.phase is Over <==> r.0.phase is Over);
    assert(r.0@.phase is Asking <==> r.0.phase is Asking);
    assert(r.0@.phase is Reading <==> r.0.phase is Reading);
    assert(r.1@ is Fail <==> r.1 is Fail);
    assert(r.1@ is Ask <==> r.1 is Ask);
    assert(r.1@ is Read <==> r.1 is Read);
    match check {
        Ok(c) => {
            assert(c@ is AnyHost <==> c is AnyHost);
        },
        Err(e) => {},
    }
}

/// A URL that names no host is refused where the host has to be a public one.
pub proof fn law_url_needs_a_host(cfg: &FetchConfig, parts: UrlParts, r: Result<HostCheck>)
    requires
        call_ensures(judge_url, (cfg, Ok(parts)), r),
        parts.scheme@ == "http"@ || parts.scheme@ == "https"@,
        parts.host is None,
        !cfg.allow_private_network,
    ensures
        r matches Err(e) && (e matches Error::Other(m) && m@ == "url has no host"@),
{
    match r {
        Ok(check) => {
            assert(check@ is AnyHost <==> check is AnyHost);
        },
        Err(e) => {
            assert(judged(r) == Err::<HostCheckView, ErrorView>(e@));
        },
    }
}

/// A download is led on five times and no more.
pub proof fn law_redirects_are_limited()
    ensures
        MAX_REDIRECTS == 5,
{
}

} // verus!
