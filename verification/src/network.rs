//! The network side of the station: the policy for bringing up the Wi-Fi
//! link and the requests sent to the sensor server.

use vstd::prelude::*;
use crate::text::{decimal, push_decimal, is_decimal_of, lemma_decimal_is_numeral};

verus! {

/// Retries of the connection request after which the link gives up; the
/// connection is requested once more than this before giving up.
pub const WIFI_MAX_TRIES: u8 = 10;

/// Pause between two connection attempts, in milliseconds.
pub const WIFI_RETRY_DELAY_MS: u32 = 1000;

/// Most connection requests of one link bring-up.
pub const WIFI_MAX_CONNECT_REQUESTS: u8 = 12;

/// The state of a link bring-up.
#[derive(Debug, Clone, Copy, PartialEq, Eq, Structural)]
pub enum LinkPhase {
    /// Waiting for the driver to report that it has started.
    Starting,
    /// Waiting for the connection; the number of retries so far.
    Connecting(u8),
    /// The driver reported a connection.
    Connected,
    /// The bring-up gave up.
    GaveUp,
}

/// What the driver has to do next.
#[derive(Debug, Clone, Copy, PartialEq, Eq, Structural)]
pub enum WifiAction {
    /// Ask whether the driver has started, and report the answer.
    CheckStarted,
    /// Ask whether the driver is connected, and report the answer.
    CheckConnected,
    /// Request a connection, wait `WIFI_RETRY_DELAY_MS`, then ask whether
    /// the driver is connected and report the answer.
    ConnectAndWait,
    /// Request a connection, then give up.
    ConnectAndGiveUp,
    /// The link is up.
    Connected,
    /// The bring-up has given up.
    GaveUp,
}

/// One step of the bring-up: the next phase and action after a status
/// report (`None` when the driver could not be asked).
pub open spec fn link_next(phase: LinkPhase, status: Option<bool>) -> (LinkPhase, WifiAction) {
    match phase {
        LinkPhase::Starting => if status == Some(true) {
            (LinkPhase::Connecting(0), WifiAction::CheckConnected)
        } else {
            (LinkPhase::Starting, WifiAction::CheckStarted)
        },
        LinkPhase::Connecting(tries) => if status == Some(true) {
            (LinkPhase::Connected, WifiAction::Connected)
        } else if tries > WIFI_MAX_TRIES {
            (LinkPhase::GaveUp, WifiAction::ConnectAndGiveUp)
        } else {
            (LinkPhase::Connecting((tries + 1) as u8), WifiAction::ConnectAndWait)
        },
        LinkPhase::Connected => (LinkPhase::Connected, WifiAction::Connected),
        LinkPhase::GaveUp => (LinkPhase::GaveUp, WifiAction::GaveUp),
    }
}

/// A Wi-Fi link bring-up: wait until the driver has started, then wait for
/// the connection, requesting it again after each negative report, and
/// give up once the retries exceed `WIFI_MAX_TRIES`.
pub struct WifiLink {
    phase: LinkPhase,
}

impl View for WifiLink {
    type V = LinkPhase;

    closed spec fn view(&self) -> LinkPhase {
        self.phase
    }
}

/// The tries count of a bring-up never passes the point of giving up.
pub open spec fn link_phase_valid(phase: LinkPhase) -> bool {
    phase matches LinkPhase::Connecting(tries) ==> tries <= WIFI_MAX_TRIES + 1
}

impl WifiLink {
    #[verifier::type_invariant]
    spec fn valid(self) -> bool {
        link_phase_valid(self.phase)
    }

    /// A bring-up that waits for the driver to start.
    pub fn new() -> (l: WifiLink)
        ensures
            l@ == LinkPhase::Starting,
    {
        WifiLink { phase: LinkPhase::Starting }
    }

    /// The first action of a bring-up.
    pub fn first_action(&self) -> (a: WifiAction)
        ensures
            a == (match self@ {
                LinkPhase::Starting => WifiAction::CheckStarted,
                LinkPhase::Connecting(_) => WifiAction::CheckConnected,
                LinkPhase::Connected => WifiAction::Connected,
                LinkPhase::GaveUp => WifiAction::GaveUp,
            }),
    {
        match self.phase {
            LinkPhase::Starting => WifiAction::CheckStarted,
            LinkPhase::Connecting(_) => WifiAction::CheckConnected,
            LinkPhase::Connected => WifiAction::Connected,
            LinkPhase::GaveUp => WifiAction::GaveUp,
        }
    }

    /// The current phase.
    pub fn phase(&self) -> (p: LinkPhase)
        ensures
            p == self@,
            link_phase_valid(p),
    {
        proof {
            use_type_invariant(self);
        }
        self.phase
    }

    /// Takes the driver's answer to the last status question (`None` when
    /// it failed) and returns the next action.
    pub fn on_status(&mut self, status: Option<bool>) -> (a: WifiAction)
        ensures
            (final(self)@, a) == link_next(old(self)@, status),
            old(self)@ matches LinkPhase::Connecting(_) && status == Some(true) ==> final(self)@
                == LinkPhase::Connected && a == WifiAction::Connected,
    {
        proof {
            use_type_invariant(&*self);
        }
        let (phase, action) = match self.phase {
            LinkPhase::Starting => {
                if status == Some(true) {
                    (LinkPhase::Connecting(0), WifiAction::CheckConnected)
                } else {
                    (LinkPhase::Starting, WifiAction::CheckStarted)
                }
            },
            LinkPhase::Connecting(tries) => {
                if status == Some(true) {
                    (LinkPhase::Connected, WifiAction::Connected)
                } else if tries > WIFI_MAX_TRIES {
                    (LinkPhase::GaveUp, WifiAction::ConnectAndGiveUp)
                } else {
                    (LinkPhase::Connecting(tries + 1), WifiAction::ConnectAndWait)
                }
            },
            LinkPhase::Connected => (LinkPhase::Connected, WifiAction::Connected),
            LinkPhase::GaveUp => (LinkPhase::GaveUp, WifiAction::GaveUp),
        };
        self.phase = phase;
        action
    }
}

/// The number of reports in `statuses` that say yes.
pub open spec fn yes_reports(statuses: Seq<Option<bool>>) -> nat
    decreases statuses.len(),
{
    if statuses.len() == 0 {
        0
    } else {
        (if statuses[0] == Some(true) {
            1nat
        } else {
            0nat
        }) + yes_reports(statuses.drop_first())
    }
}

proof fn lemma_connected_needs_reports(phase: LinkPhase, statuses: Seq<Option<bool>>)
    ensures
        phase == LinkPhase::Starting && link_run(phase, statuses) == LinkPhase::Connected
            ==> yes_reports(statuses) >= 2,
        phase matches LinkPhase::Connecting(_) ==> (link_run(phase, statuses)
            == LinkPhase::Connected ==> yes_reports(statuses) >= 1),
        phase == LinkPhase::GaveUp ==> link_run(phase, statuses) == LinkPhase::GaveUp,
    decreases statuses.len(),
{
    if statuses.len() > 0 {
        lemma_connected_needs_reports(link_next(phase, statuses[0]).0, statuses.drop_first());
    }
}

/// The link is only up after the driver has reported that it started and
/// then that it is connected: a bring-up that ends connected has received
/// at least two positive reports.
pub proof fn lemma_wifi_up_only_after_reports(statuses: Seq<Option<bool>>)
    ensures
        link_run(LinkPhase::Starting, statuses) == LinkPhase::Connected ==> yes_reports(statuses)
            >= 2,
{
    lemma_connected_needs_reports(LinkPhase::Starting, statuses);
}

/// After the driver has started, up to eleven negative or failed
/// connection reports followed by a positive one bring the link up: from
/// any number of tries `t`, `n` further negative reports with
/// `t + n <= 11` keep the bring-up going, and the next positive report
/// ends it connected.
pub proof fn lemma_wifi_connects_within_budget(tries: u8, statuses: Seq<Option<bool>>)
    requires
        tries + statuses.len() <= 11,
        forall|i: int| 0 <= i < statuses.len() ==> statuses[i] != Some(true),
    ensures
        link_run(LinkPhase::Connecting(tries), statuses.push(Some(true))) == LinkPhase::Connected,
        connects_in_run(LinkPhase::Connecting(tries), statuses.push(Some(true))) == statuses.len(),
    decreases statuses.len(),
{
    let all = statuses.push(Some(true));
    if statuses.len() == 0 {
        assert(all.drop_first() =~= Seq::<Option<bool>>::empty());
        assert(all[0] == Some(true));
        assert(link_next(LinkPhase::Connecting(tries), Some(true)).0 == LinkPhase::Connected);
        assert(link_run(LinkPhase::Connected, all.drop_first()) == LinkPhase::Connected);
        assert(connects_in_run(LinkPhase::Connected, all.drop_first()) == 0);
    } else {
        let rest = statuses.drop_first();
        assert(forall|i: int| 0 <= i < rest.len() ==> rest[i] == statuses[i + 1]);
        assert(all.drop_first() =~= rest.push(Some(true)));
        assert(all[0] == statuses[0]);
        assert(statuses[0] != Some(true));
        let next = LinkPhase::Connecting((tries + 1) as u8);
        assert(link_next(LinkPhase::Connecting(tries), all[0]) == (next, WifiAction::ConnectAndWait));
        lemma_wifi_connects_within_budget((tries + 1) as u8, rest);
        assert(link_run(LinkPhase::Connecting(tries), all) == link_run(next, all.drop_first()));
        assert(connects_in_run(LinkPhase::Connecting(tries), all) == 1 + connects_in_run(
            next,
            all.drop_first(),
        ));
    }
}

/// A report that the driver is connected is accepted at every point of
/// the connection phase, whatever the number of tries so far: the link is
/// then up.
pub proof fn lemma_wifi_connected_report_accepted(tries: u8)
    requires
        tries <= WIFI_MAX_TRIES + 1,
    ensures
        link_next(LinkPhase::Connecting(tries), Some(true)) == (
            LinkPhase::Connected,
            WifiAction::Connected,
        ),
{
}

/// Whether an action requests a connection.
pub open spec fn requests_connection(a: WifiAction) -> bool {
    a == WifiAction::ConnectAndWait || a == WifiAction::ConnectAndGiveUp
}

/// The phase reached from `phase` after the status reports `statuses`.
pub open spec fn link_run(phase: LinkPhase, statuses: Seq<Option<bool>>) -> LinkPhase
    decreases statuses.len(),
{
    if statuses.len() == 0 {
        phase
    } else {
        link_run(link_next(phase, statuses[0]).0, statuses.drop_first())
    }
}

/// The number of connection requests from `phase` on, after the status
/// reports `statuses`.
pub open spec fn connects_in_run(phase: LinkPhase, statuses: Seq<Option<bool>>) -> nat
    decreases statuses.len(),
{
    if statuses.len() == 0 {
        0
    } else {
        let (next, action) = link_next(phase, statuses[0]);
        (if requests_connection(action) {
            1nat
        } else {
            0nat
        }) + connects_in_run(next, statuses.drop_first())
    }
}

proof fn lemma_connects_bounded_from(phase: LinkPhase, statuses: Seq<Option<bool>>)
    requires
        link_phase_valid(phase),
    ensures
        phase == LinkPhase::Starting ==> connects_in_run(phase, statuses)
            <= WIFI_MAX_CONNECT_REQUESTS,
        phase == LinkPhase::Starting && link_run(phase, statuses) == LinkPhase::GaveUp
            ==> connects_in_run(phase, statuses) == WIFI_MAX_CONNECT_REQUESTS,
        phase matches LinkPhase::Connecting(t) ==> connects_in_run(phase, statuses)
            <= WIFI_MAX_CONNECT_REQUESTS - t,
        phase matches LinkPhase::Connecting(t) ==> (link_run(phase, statuses) == LinkPhase::GaveUp
            ==> connects_in_run(phase, statuses) == WIFI_MAX_CONNECT_REQUESTS - t),
        phase == LinkPhase::Connected ==> connects_in_run(phase, statuses) == 0
            && link_run(phase, statuses) == LinkPhase::Connected,
        phase == LinkPhase::GaveUp ==> connects_in_run(phase, statuses) == 0,
    decreases statuses.len(),
{
    if statuses.len() > 0 {
        let next = link_next(phase, statuses[0]).0;
        lemma_connects_bounded_from(next, statuses.drop_first());
    }
}

/// A bring-up requests the connection at most twelve times, whatever the
/// driver reports, and when it gives up it has requested it exactly twelve
/// times.
pub proof fn lemma_wifi_connect_requests_bounded(statuses: Seq<Option<bool>>)
    ensures
        connects_in_run(LinkPhase::Starting, statuses) <= 12,
        link_run(LinkPhase::Starting, statuses) == LinkPhase::GaveUp ==> connects_in_run(
            LinkPhase::Starting,
            statuses,
        ) == 12,
{
    lemma_connects_bounded_from(LinkPhase::Starting, statuses);
}

/// While the driver has not reported that it started, the bring-up keeps
/// waiting for it and never requests a connection or gives up.
pub proof fn lemma_wifi_waits_for_start(statuses: Seq<Option<bool>>)
    requires
        forall|i: int| 0 <= i < statuses.len() ==> statuses[i] != Some(true),
    ensures
        link_run(LinkPhase::Starting, statuses) == LinkPhase::Starting,
        connects_in_run(LinkPhase::Starting, statuses) == 0,
    decreases statuses.len(),
{
    if statuses.len() > 0 {
        let rest = statuses.drop_first();
        assert(forall|i: int| 0 <= i < rest.len() ==> rest[i] == statuses[i + 1]);
        lemma_wifi_waits_for_start(rest);
    }
}

/// The address of the server's log endpoint for a temperature and a
/// capacitance reading.
pub open spec fn put_request_url_spec(server: Seq<char>, temperature: u16, capacitance: u16) -> Seq<
    char,
> {
    server + "/api/addsensorlog/?sensor_id=1&temperature="@ + decimal(temperature as nat)
        + "&capacitance="@ + decimal(capacitance as nat) + "&api_key=w23cs190bherbfarmproject"@
}

/// The log address carries the temperature in its `temperature`
/// parameter and the capacitance in its `capacitance` parameter, each as a
/// decimal numeral that reads back as the value given.
pub proof fn lemma_put_request_url_reads_back(server: Seq<char>, temperature: u16, capacitance: u16)
    ensures
        exists|x: Seq<char>, y: Seq<char>|
            #![trigger is_decimal_of(x, temperature as nat), is_decimal_of(y, capacitance as nat)]
            put_request_url_spec(server, temperature, capacitance) == server
                + "/api/addsensorlog/?sensor_id=1&temperature="@ + x + "&capacitance="@ + y
                + "&api_key=w23cs190bherbfarmproject"@ && is_decimal_of(x, temperature as nat)
                && is_decimal_of(y, capacitance as nat),
{
    let x = decimal(temperature as nat);
    let y = decimal(capacitance as nat);
    lemma_decimal_is_numeral(temperature as nat);
    lemma_decimal_is_numeral(capacitance as nat);
    assert(put_request_url_spec(server, temperature, capacitance) == server
        + "/api/addsensorlog/?sensor_id=1&temperature="@ + x + "&capacitance="@ + y
        + "&api_key=w23cs190bherbfarmproject"@);
}

/// Builds the address that logs `temperature` and `capacitance` on the
/// server at `server`.
pub fn put_request_url(server: &str, temperature: u16, capacitance: u16) -> (url: String)
    ensures
        url@ == put_request_url_spec(server@, temperature, capacitance),
        exists|x: Seq<char>, y: Seq<char>|
            #![trigger is_decimal_of(x, temperature as nat), is_decimal_of(y, capacitance as nat)]
            url@ == server@ + "/api/addsensorlog/?sensor_id=1&temperature="@ + x
                + "&capacitance="@ + y + "&api_key=w23cs190bherbfarmproject"@ && is_decimal_of(
                x,
                temperature as nat,
            ) && is_decimal_of(y, capacitance as nat),
{
    proof {
        lemma_put_request_url_reads_back(server@, temperature, capacitance);
    }
    let mut url = String::from_str(server);
    url.append("/api/addsensorlog/?sensor_id=1&temperature=");
    push_decimal(&mut url, temperature as u32);
    url.append("&capacitance=");
    push_decimal(&mut url, capacitance as u32);
    url.append("&api_key=w23cs190bherbfarmproject");
    url
}

/// Builds the address of the server's data endpoint.
pub fn get_request_url(server: &str) -> (url: String)
    ensures
        url@ == server@ + "/data"@,
{
    let mut url = String::from_str(server);
    url.append("/data");
    url
}

/// The headers of the data request.
pub fn get_request_headers() -> (h: Vec<(&'static str, &'static str)>)
    ensures
        h@ == seq![("accept", "text/plain"), ("connection", "close")],
{
    let h = vec![("accept", "text/plain"), ("connection", "close")];
    assert(h@ =~= seq![("accept", "text/plain"), ("connection", "close")]);
    h
}

/// The headers of the log request.
pub fn put_request_headers() -> (h: Vec<(&'static str, &'static str)>)
    ensures
        h@ == seq![
            ("accept", "text/plain"),
            ("content-type", "text/plain"),
            ("connection", "close"),
        ],
{
    let h = vec![("accept", "text/plain"), ("content-type", "text/plain"), ("connection", "close")];
    assert(h@ =~= seq![
        ("accept", "text/plain"),
        ("content-type", "text/plain"),
        ("connection", "close"),
    ]);
    h
}

} // verus!
