use ntp_clock::link::{start_link, link_step, LinkAction, LinkEvent, LinkState, RECONNECT_DELAY_SECS};
use ntp_clock::net::{network_seed, ntp_server, NTP_PORT};
use ntp_clock::ssid::SsidRegistry;

fn beacon(ssid: &[u8]) -> Vec<u8> {
    let mut frame = vec![0x80, 0x00, 0x00, 0x00];
    frame.extend_from_slice(&[0xff; 6]);
    frame.extend_from_slice(&[0x02, 0x11, 0x22, 0x33, 0x44, 0x55]);
    frame.extend_from_slice(&[0x02, 0x11, 0x22, 0x33, 0x44, 0x55]);
    frame.extend_from_slice(&[0x10, 0x00]);
    frame.extend_from_slice(&[0, 0, 0, 0, 0, 0, 0, 0]);
    frame.extend_from_slice(&[0x64, 0x00]);
    frame.extend_from_slice(&[0x01, 0x04]);
    frame.push(0x00);
    frame.push(ssid.len() as u8);
    frame.extend_from_slice(ssid);
    frame
}

#[test]
fn registry_reports_a_name_once() {
    let mut reg = SsidRegistry::new();
    assert_eq!(reg.len(), 0);
    assert!(reg.insert(String::from("home")));
    assert!(!reg.insert(String::from("home")));
    assert!(reg.insert(String::from("office")));
    assert_eq!(reg.len(), 2);
    assert!(reg.contains(&String::from("office")));
    assert!(!reg.contains(&String::from("cafe")));
}

#[test]
fn observe_ssid_reports_new_names_only() {
    let mut reg = SsidRegistry::new();
    assert_eq!(reg.observe_ssid(Some(String::from("net"))), Some(String::from("net")));
    assert_eq!(reg.observe_ssid(Some(String::from("net"))), None);
    assert_eq!(reg.observe_ssid(None), None);
    assert_eq!(reg.len(), 1);
}

#[test]
fn observe_frame_reads_the_beacon_ssid() {
    let mut reg = SsidRegistry::new();
    let frame = beacon(b"CafeNet");
    assert_eq!(reg.observe_frame(&frame), Some(String::from("CafeNet")));
    assert_eq!(reg.observe_frame(&frame), None);
    assert!(reg.contains(&String::from("CafeNet")));
    assert_eq!(reg.observe_frame(&beacon(b"Other")), Some(String::from("Other")));
    assert_eq!(reg.len(), 2);
}

#[test]
fn observe_frame_ignores_what_is_no_beacon() {
    let mut reg = SsidRegistry::new();
    assert_eq!(reg.observe_frame(&[0u8; 5]), None);
    let mut data = beacon(b"x");
    data[0] = 0x08; // a data frame
    assert_eq!(reg.observe_frame(&data), None);
    assert_eq!(reg.len(), 0);
}

#[test]
fn link_connects_after_start() {
    let (state, action) = start_link();
    assert_eq!((state, action), (LinkState::Starting, LinkAction::StartRadio));
    let (state, action) = link_step(state, LinkEvent::Started);
    assert_eq!((state, action), (LinkState::Connecting, LinkAction::Connect));
    let (state, action) = link_step(state, LinkEvent::Connected);
    assert_eq!((state, action), (LinkState::Online, LinkAction::WaitForDisconnect));
}

#[test]
fn link_backs_off_before_reconnecting() {
    let (state, _) = link_step(LinkState::Online, LinkEvent::Disconnected);
    assert_eq!(state, LinkState::Backoff);
    let (state2, action) = link_step(LinkState::Connecting, LinkEvent::ConnectFailed);
    assert_eq!(state2, LinkState::Backoff);
    assert_eq!(action, LinkAction::Sleep { seconds: RECONNECT_DELAY_SECS });
    assert_eq!(RECONNECT_DELAY_SECS, 3);
    let (state, action) = link_step(state, LinkEvent::BackoffElapsed);
    assert_eq!((state, action), (LinkState::Connecting, LinkAction::Connect));
}

#[test]
fn link_ignores_unrelated_events() {
    assert_eq!(
        link_step(LinkState::Backoff, LinkEvent::Connected),
        (LinkState::Backoff, LinkAction::Nothing)
    );
    assert_eq!(
        link_step(LinkState::Starting, LinkEvent::BackoffElapsed),
        (LinkState::Starting, LinkAction::Nothing)
    );
}

#[test]
fn ntp_server_takes_first_address() {
    assert_eq!(ntp_server(&[]), None);
    assert_eq!(
        ntp_server(&[[162, 159, 200, 1], [1, 2, 3, 4]]),
        Some(([162, 159, 200, 1], NTP_PORT))
    );
    assert_eq!(NTP_PORT, 123);
}

#[test]
fn network_seed_puts_first_draw_high() {
    assert_eq!(network_seed(1, 2), 0x1_0000_0002);
    assert_eq!(network_seed(0, u32::MAX), u32::MAX as u64);
    assert_eq!(network_seed(u32::MAX, u32::MAX), u64::MAX);
}
