use channel_relay::hub::RecvOutcome;
use channel_relay::registry::ChannelRegistry;
use channel_relay::relay::ConnectionRelay;
use channel_relay::relay::RelayAction;
use channel_relay::relay::RelayEvent;

const REJECTION: &str = "Invalid channel ID or password";

#[test]
fn two_participants_relay_hello() {
    // Create a channel with password "secret", join it twice, send once.
    let mut reg = ChannelRegistry::new();
    let c1 = reg.create("secret".to_string());

    let ia = reg
        .lookup_and_authorize(&c1, &"secret".to_string())
        .expect("A presents the right id and password");
    let mut relay_a = ConnectionRelay::begin(true).expect("authorized join starts relaying");
    let mut sub_a = reg.channel(ia).subscribe();

    let ib = reg
        .lookup_and_authorize(&c1, &"secret".to_string())
        .expect("B presents the right id and password");
    let mut relay_b = ConnectionRelay::begin(true).expect("authorized join starts relaying");
    let mut sub_b = reg.channel(ib).subscribe();

    // A's inbound direction receives "hello" and publishes it.
    match relay_a.step(RelayEvent::InboundText("hello".to_string())) {
        RelayAction::Publish(m) => reg.publish_message(ia, m),
        _ => panic!("an inbound text frame must be published"),
    }

    // B's outbound direction is handed the message and forwards it once.
    let outcome = sub_b.poll(reg.channel(ib).hub());
    assert!(matches!(outcome, RecvOutcome::Message(_)));
    match relay_b.step(RelayEvent::Delivery(outcome)) {
        RelayAction::Forward(text) => assert_eq!(text, "hello"),
        _ => panic!("someone else's message must be forwarded"),
    }
    // ... and exactly once: nothing further is pending for B.
    let again = sub_b.poll(reg.channel(ib).hub());
    assert!(matches!(again, RecvOutcome::Pending));

    // A's outbound direction sees its own message and drops it silently.
    let own = sub_a.poll(reg.channel(ia).hub());
    assert!(matches!(own, RecvOutcome::Message(_)));
    assert!(matches!(
        relay_a.step(RelayEvent::Delivery(own)),
        RelayAction::Wait
    ));
    let nothing = sub_a.poll(reg.channel(ia).hub());
    assert!(matches!(nothing, RecvOutcome::Pending));
}

#[test]
fn fan_out_reaches_every_other_participant_exactly_once() {
    let mut reg = ChannelRegistry::new();
    let c1 = reg.create("pw".to_string());
    let i = reg.lookup_and_authorize(&c1, &"pw".to_string()).unwrap();

    let mut sender = ConnectionRelay::begin(true).unwrap();
    let mut _sender_sub = reg.channel(i).subscribe();
    let mut receivers: Vec<_> = (0..3)
        .map(|_| {
            (
                ConnectionRelay::begin(true).unwrap(),
                reg.channel(i).subscribe(),
            )
        })
        .collect();

    match sender.step(RelayEvent::InboundText("fan".to_string())) {
        RelayAction::Publish(m) => reg.publish_message(i, m),
        _ => panic!("an inbound text frame must be published"),
    }

    for (relay, sub) in receivers.iter_mut() {
        let outcome = sub.poll(reg.channel(i).hub());
        match relay.step(RelayEvent::Delivery(outcome)) {
            RelayAction::Forward(text) => assert_eq!(text, "fan"),
            _ => panic!("every other participant must get the message"),
        }
        assert!(matches!(sub.poll(reg.channel(i).hub()), RecvOutcome::Pending));
    }
}

#[test]
fn channels_are_isolated_from_each_other() {
    let mut reg = ChannelRegistry::new();
    let x = reg.create("px".to_string());
    let y = reg.create("py".to_string());
    let ix = reg.lookup_and_authorize(&x, &"px".to_string()).unwrap();
    let iy = reg.lookup_and_authorize(&y, &"py".to_string()).unwrap();

    let mut on_x = ConnectionRelay::begin(true).unwrap();
    let mut sub_y = reg.channel(iy).subscribe();

    match on_x.step(RelayEvent::InboundText("only for x".to_string())) {
        RelayAction::Publish(m) => reg.publish_message(ix, m),
        _ => panic!("an inbound text frame must be published"),
    }

    // The connection joined only to Y observes nothing.
    assert!(matches!(sub_y.poll(reg.channel(iy).hub()), RecvOutcome::Pending));
}

#[test]
fn bogus_id_gets_exactly_one_rejection_frame() {
    let mut reg = ChannelRegistry::new();
    let _ = reg.create("secret".to_string());
    let r = reg.lookup_and_authorize(&"bogus".to_string(), &"whatever".to_string());
    assert!(r.is_none());
    match ConnectionRelay::begin(r.is_some()) {
        Err(frame) => assert_eq!(frame, REJECTION),
        Ok(_) => panic!("an unauthorized join must not start relaying"),
    }
}

#[test]
fn wrong_password_is_indistinguishable_from_bogus_id() {
    let mut reg = ChannelRegistry::new();
    let c1 = reg.create("secret".to_string());
    let r = reg.lookup_and_authorize(&c1, &"wrong".to_string());
    assert!(r.is_none());
    match ConnectionRelay::begin(r.is_some()) {
        Err(frame) => assert_eq!(frame, REJECTION),
        Ok(_) => panic!("an unauthorized join must not start relaying"),
    }
}

#[test]
fn inbound_end_stops_the_whole_relay() {
    let mut relay = ConnectionRelay::begin(true).unwrap();
    assert!(!relay.is_closed());
    assert!(matches!(
        relay.step(RelayEvent::InboundEnded),
        RelayAction::Stop
    ));
    assert!(relay.is_closed());
}

#[test]
fn write_failure_stops_the_whole_relay() {
    let mut relay = ConnectionRelay::begin(true).unwrap();
    assert!(matches!(
        relay.step(RelayEvent::WriteFailed),
        RelayAction::Stop
    ));
    assert!(relay.is_closed());
}

#[test]
fn hub_closure_stops_the_relay() {
    let mut relay = ConnectionRelay::begin(true).unwrap();
    assert!(matches!(
        relay.step(RelayEvent::Delivery(RecvOutcome::Closed)),
        RelayAction::Stop
    ));
    assert!(relay.is_closed());
}

#[test]
fn lag_is_tolerated_and_the_relay_stays_alive() {
    let mut relay = ConnectionRelay::begin(true).unwrap();
    assert!(matches!(
        relay.step(RelayEvent::Delivery(RecvOutcome::Lagged)),
        RelayAction::Wait
    ));
    assert!(!relay.is_closed());
    assert!(matches!(
        relay.step(RelayEvent::Delivery(RecvOutcome::Pending)),
        RelayAction::Wait
    ));
    assert!(!relay.is_closed());
}
