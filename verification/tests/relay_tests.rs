use tv_bridge::relay::CommandRelay;
use tv_bridge::relay::RelayError;
use tv_bridge::relay::YouTube;

#[test]
fn second_submission_is_refused_while_one_waits() {
    let mut relay = CommandRelay::new();
    assert!(relay.submit(YouTube { video_id: String::from("first") }).is_ok());
    let second = relay.submit(YouTube { video_id: String::from("second") });
    assert_eq!(second, Err(RelayError::RelayFull));
    // the first command is still the one consumed
    let frame = relay.next_outbound().expect("a command was waiting");
    assert!(frame.contains("https://youtube.com/watch?v=first"));
}

#[test]
fn submission_after_close_is_refused() {
    let mut relay = CommandRelay::new();
    relay.close();
    let r = relay.submit(YouTube { video_id: String::from("late") });
    assert_eq!(r, Err(RelayError::RelayClosed));
    assert!(relay.next_outbound().is_none());
}

#[test]
fn empty_relay_yields_nothing() {
    let mut relay = CommandRelay::new();
    assert!(relay.take_pending().is_none());
    assert!(relay.next_outbound().is_none());
}

#[test]
fn consumption_frees_the_slot() {
    let mut relay = CommandRelay::new();
    relay.submit(YouTube { video_id: String::from("one") }).unwrap();
    assert!(relay.next_outbound().is_some());
    assert!(relay.submit(YouTube { video_id: String::from("two") }).is_ok());
    let taken = relay.take_pending().expect("second command waits");
    assert_eq!(taken.video_id, "two");
}
