use herbfarm_sensor::network::{
    get_request_headers, get_request_url, put_request_headers, put_request_url, LinkPhase,
    WifiAction, WifiLink,
};

/// Drives a bring-up with the given answers, recording the actions.
fn run_link(answers: &[Option<bool>]) -> Vec<WifiAction> {
    let mut link = WifiLink::new();
    let mut actions = vec![link.first_action()];
    for a in answers {
        let action = link.on_status(*a);
        actions.push(action);
        if action == WifiAction::Connected || action == WifiAction::ConnectAndGiveUp {
            break;
        }
    }
    actions
}

fn connects(actions: &[WifiAction]) -> usize {
    actions
        .iter()
        .filter(|a| **a == WifiAction::ConnectAndWait || **a == WifiAction::ConnectAndGiveUp)
        .count()
}

#[test]
fn wifi_connects_when_driver_is_ready() {
    let actions = run_link(&[Some(true), Some(true)]);
    assert_eq!(
        actions,
        vec![WifiAction::CheckStarted, WifiAction::CheckConnected, WifiAction::Connected]
    );
}

#[test]
fn wifi_waits_for_driver_start() {
    let actions = run_link(&[None, Some(false), None, Some(true), Some(false), Some(true)]);
    assert_eq!(
        actions,
        vec![
            WifiAction::CheckStarted,
            WifiAction::CheckStarted,
            WifiAction::CheckStarted,
            WifiAction::CheckStarted,
            WifiAction::CheckConnected,
            WifiAction::ConnectAndWait,
            WifiAction::Connected,
        ]
    );
}

#[test]
fn wifi_gives_up_after_twelve_connection_requests() {
    let mut answers = vec![Some(true)];
    answers.extend(std::iter::repeat(Some(false)).take(20));
    let actions = run_link(&answers);
    assert_eq!(connects(&actions), 12);
    assert_eq!(*actions.last().unwrap(), WifiAction::ConnectAndGiveUp);
    assert_eq!(actions.len(), 1 + 1 + 12);
}

#[test]
fn wifi_connects_on_last_chance() {
    let mut answers = vec![Some(true)];
    answers.extend(std::iter::repeat(None).take(11));
    answers.push(Some(true));
    let actions = run_link(&answers);
    assert_eq!(connects(&actions), 11);
    assert_eq!(*actions.last().unwrap(), WifiAction::Connected);
}

#[test]
fn wifi_terminal_phases_stay() {
    let mut link = WifiLink::new();
    assert_eq!(link.phase(), LinkPhase::Starting);
    link.on_status(Some(true));
    assert_eq!(link.phase(), LinkPhase::Connecting(0));
    link.on_status(Some(false));
    assert_eq!(link.phase(), LinkPhase::Connecting(1));
    link.on_status(Some(true));
    assert_eq!(link.phase(), LinkPhase::Connected);
    assert_eq!(link.on_status(Some(false)), WifiAction::Connected);
    assert_eq!(link.first_action(), WifiAction::Connected);
}

#[test]
fn request_urls() {
    assert_eq!(
        put_request_url("http://10.0.0.2:5000", 23, 812),
        "http://10.0.0.2:5000/api/addsensorlog/?sensor_id=1&temperature=23&capacitance=812&api_key=w23cs190bherbfarmproject"
    );
    assert_eq!(
        put_request_url("http://h", 0, 65535),
        "http://h/api/addsensorlog/?sensor_id=1&temperature=0&capacitance=65535&api_key=w23cs190bherbfarmproject"
    );
    assert_eq!(get_request_url("http://10.0.0.2"), "http://10.0.0.2/data");
}

#[test]
fn request_headers() {
    assert_eq!(
        get_request_headers(),
        vec![("accept", "text/plain"), ("connection", "close")]
    );
    assert_eq!(
        put_request_headers(),
        vec![("accept", "text/plain"), ("content-type", "text/plain"), ("connection", "close")]
    );
}
