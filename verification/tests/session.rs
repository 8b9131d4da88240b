use ironwire::directory::{Directory, MessageReceiver};
use ironwire::messages::{AppMessage, Outbound};
use ironwire::session::Session;

fn expect_frame(out: Option<Outbound>) -> String {
    match out {
        Some(Outbound::Frame(s)) => s,
        _ => panic!("expected a text frame"),
    }
}

fn expect_text(rx: &mut MessageReceiver) -> String {
    match rx.try_recv() {
        Ok(AppMessage::Text(s)) => s,
        _ => panic!("expected a delivered text envelope"),
    }
}

#[test]
fn rejects_frames_before_auth_and_keeps_the_connection() {
    let mut dir = Directory::new();
    let (mut session, _rx) = Session::new();

    // Garbage, a well-formed but wrong frame, and a premature text frame
    // all draw auth_required and leave the connection open.
    for input in [
        "not json",
        "{\"type\":\"ping\",\"payload\":{}}",
        "{\"type\":\"text\",\"payload\":{\"to\":\"bob\",\"text\":\"hi\"}}",
    ] {
        let (cont, out) = session.handle_incoming_text(&mut dir, input);
        assert!(cont);
        assert_eq!(
            expect_frame(out),
            "{\"type\":\"error\",\"payload\":{\"msg\":\"auth_required\"}}",
        );
    }

    // The directory never saw a registration.
    assert!(dir.lookup("bob").is_none());
}

#[test]
fn closes_the_connection_on_an_empty_token() {
    let mut dir = Directory::new();
    let (mut session, _rx) = Session::new();
    let (cont, out) = session.handle_incoming_text(
        &mut dir,
        "{\"type\":\"auth\",\"payload\":{\"token\":\"\"}}",
    );
    assert!(!cont);
    assert!(matches!(out, Some(Outbound::CloseInvalid)));

    // A fresh connection can still authenticate afterwards.
    let (mut session2, _rx2) = Session::new();
    let (cont2, out2) = session2.handle_incoming_text(
        &mut dir,
        "{\"type\":\"auth\",\"payload\":{\"token\":\"carol\"}}",
    );
    assert!(cont2);
    assert_eq!(expect_frame(out2), "{\"type\":\"auth_ok\",\"payload\":{}}");
}

#[test]
fn registers_a_handle_that_reaches_the_session() {
    let mut dir = Directory::new();
    let (mut session, mut rx) = Session::new();
    let (cont, out) = session.handle_incoming_text(
        &mut dir,
        "{\"type\":\"auth\",\"payload\":{\"token\":\"alice\"}}",
    );
    assert!(cont);
    assert_eq!(expect_frame(out), "{\"type\":\"auth_ok\",\"payload\":{}}");

    // A message routed to alice arrives on this session's queue verbatim.
    assert!(dir.lookup("alice").is_some());
    let (mut probe, _rx_probe) = Session::new();
    probe.handle_incoming_text(&mut dir, "{\"type\":\"auth\",\"payload\":{\"token\":\"probe\"}}");
    probe.handle_incoming_text(
        &mut dir,
        "{\"type\":\"text\",\"payload\":{\"to\":\"alice\",\"text\":\"hello\"}}",
    );
    assert_eq!(
        expect_text(&mut rx),
        "{\"type\":\"text\",\"payload\":{\"from\":\"probe\",\"text\":\"hello\"}}",
    );
}

#[test]
fn removes_the_entry_on_termination() {
    let mut dir = Directory::new();
    let (mut session, _rx) = Session::new();
    session.handle_incoming_text(&mut dir, "{\"type\":\"auth\",\"payload\":{\"token\":\"dave\"}}");
    assert!(dir.lookup("dave").is_some());

    session.finish(&mut dir);
    assert!(dir.lookup("dave").is_none());
}

#[test]
fn reports_offline_users_and_delivers_nothing() {
    let mut dir = Directory::new();
    let (mut alice, mut rx_alice) = Session::new();
    alice.handle_incoming_text(&mut dir, "{\"type\":\"auth\",\"payload\":{\"token\":\"alice\"}}");

    let (cont, out) = alice.handle_incoming_text(
        &mut dir,
        "{\"type\":\"text\",\"payload\":{\"to\":\"nobody\",\"text\":\"hi\"}}",
    );
    assert!(cont);
    assert_eq!(
        expect_frame(out),
        "{\"type\":\"error\",\"payload\":{\"msg\":\"user_offline\",\"user\":\"nobody\"}}",
    );
    // Nothing was delivered to anyone, the sender included.
    assert!(rx_alice.try_recv().is_err());
}

#[test]
fn removal_is_idempotent() {
    let mut dir = Directory::new();
    let (mut session, _rx) = Session::new();
    session.handle_incoming_text(&mut dir, "{\"type\":\"auth\",\"payload\":{\"token\":\"erin\"}}");

    dir.remove("erin");
    dir.remove("erin");
    assert!(dir.lookup("erin").is_none());

    // Removing an identity that never registered is also a no-op.
    dir.remove("nobody");
    assert!(dir.lookup("nobody").is_none());
}

#[test]
fn relays_between_two_clients_and_reports_a_disconnect() {
    let mut dir = Directory::new();

    let (mut alice, mut rx_alice) = Session::new();
    let (cont, out) = alice.handle_incoming_text(
        &mut dir,
        "{\"type\":\"auth\",\"payload\":{\"token\":\"alice\"}}",
    );
    assert!(cont);
    assert_eq!(expect_frame(out), "{\"type\":\"auth_ok\",\"payload\":{}}");

    let (mut bob, mut rx_bob) = Session::new();
    let (cont, out) = bob.handle_incoming_text(
        &mut dir,
        "{\"type\":\"auth\",\"payload\":{\"token\":\"bob\"}}",
    );
    assert!(cont);
    assert_eq!(expect_frame(out), "{\"type\":\"auth_ok\",\"payload\":{}}");

    // Alice sends to bob: no reply to alice, one delivery to bob.
    let (cont, out) = alice.handle_incoming_text(
        &mut dir,
        "{\"type\":\"text\",\"payload\":{\"to\":\"bob\",\"text\":\"hi\"}}",
    );
    assert!(cont);
    assert!(out.is_none());
    assert_eq!(
        expect_text(&mut rx_bob),
        "{\"type\":\"text\",\"payload\":{\"from\":\"alice\",\"text\":\"hi\"}}",
    );
    assert!(rx_alice.try_recv().is_err());

    // Bob disconnects; the same message now draws user_offline, and nothing
    // is delivered anywhere.
    bob.finish(&mut dir);
    let (cont, out) = alice.handle_incoming_text(
        &mut dir,
        "{\"type\":\"text\",\"payload\":{\"to\":\"bob\",\"text\":\"hi\"}}",
    );
    assert!(cont);
    assert_eq!(
        expect_frame(out),
        "{\"type\":\"error\",\"payload\":{\"msg\":\"user_offline\",\"user\":\"bob\"}}",
    );
    assert!(rx_bob.try_recv().is_err());
    assert!(rx_alice.try_recv().is_err());
}

#[test]
fn ignores_a_second_auth_and_garbage_after_auth() {
    let mut dir = Directory::new();
    let (mut session, mut rx) = Session::new();
    session.handle_incoming_text(&mut dir, "{\"type\":\"auth\",\"payload\":{\"token\":\"frank\"}}");

    // A second authentication is dropped with no reply and no state change.
    let (cont, out) = session.handle_incoming_text(
        &mut dir,
        "{\"type\":\"auth\",\"payload\":{\"token\":\"other\"}}",
    );
    assert!(cont);
    assert!(out.is_none());
    assert!(dir.lookup("other").is_none());
    assert!(dir.lookup("frank").is_some());

    // Unparseable input after authentication is also dropped silently.
    let (cont, out) = session.handle_incoming_text(&mut dir, "garbage");
    assert!(cont);
    assert!(out.is_none());
    assert!(rx.try_recv().is_err());
}

#[test]
fn routes_identities_and_text_that_need_escaping() {
    let mut dir = Directory::new();
    let (mut quoter, _rx_q) = Session::new();
    // The identity itself contains a quote and a non-ASCII character.
    let (cont, out) = quoter.handle_incoming_text(
        &mut dir,
        "{\"type\":\"auth\",\"payload\":{\"token\":\"a\\\"é\"}}",
    );
    assert!(cont);
    assert_eq!(expect_frame(out), "{\"type\":\"auth_ok\",\"payload\":{}}");
    assert!(dir.lookup("a\"é").is_some());

    let (mut plain, mut rx_plain) = Session::new();
    plain.handle_incoming_text(&mut dir, "{\"type\":\"auth\",\"payload\":{\"token\":\"plain\"}}");

    // A message from the quoted identity arrives with its name re-escaped.
    quoter.handle_incoming_text(
        &mut dir,
        "{\"type\":\"text\",\"payload\":{\"to\":\"plain\",\"text\":\"one\\ntwo\"}}",
    );
    assert_eq!(
        expect_text(&mut rx_plain),
        "{\"type\":\"text\",\"payload\":{\"from\":\"a\\\"é\",\"text\":\"one\\ntwo\"}}",
    );
}

#[test]
fn a_later_registration_shadows_an_earlier_one() {
    let mut dir = Directory::new();
    let (mut first, mut rx_first) = Session::new();
    first.handle_incoming_text(&mut dir, "{\"type\":\"auth\",\"payload\":{\"token\":\"grace\"}}");
    let (mut second, mut rx_second) = Session::new();
    second.handle_incoming_text(&mut dir, "{\"type\":\"auth\",\"payload\":{\"token\":\"grace\"}}");

    // Last write wins: deliveries now reach the second session.
    let (mut probe, _rx_probe) = Session::new();
    probe.handle_incoming_text(&mut dir, "{\"type\":\"auth\",\"payload\":{\"token\":\"probe\"}}");
    probe.handle_incoming_text(
        &mut dir,
        "{\"type\":\"text\",\"payload\":{\"to\":\"grace\",\"text\":\"ping\"}}",
    );
    assert_eq!(
        expect_text(&mut rx_second),
        "{\"type\":\"text\",\"payload\":{\"from\":\"probe\",\"text\":\"ping\"}}",
    );
    assert!(rx_first.try_recv().is_err());
}
