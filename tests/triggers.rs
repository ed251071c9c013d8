use reaction_sequencer::trigger::{
    get_available_trigger_sources, FeedInput, Source, QueueEvent, TriggerError, TriggerSource, TwitchChat, TwitchPubSub, WatchError, WatchStep, Watcher,
};

fn s(x: &str) -> String {
    x.to_string()
}

#[test]
fn source_ids_round_trip() {
    assert_eq!(TriggerSource::TwitchChat.as_str(), "twitch_chat");
    assert_eq!(TriggerSource::TwitchPubSub.as_str(), "twitch_pub_sub");
    assert_eq!(TriggerSource::from_str("twitch_chat"), TriggerSource::TwitchChat);
    assert_eq!(TriggerSource::from_str("twitch_pub_sub"), TriggerSource::TwitchPubSub);
}

#[test]
fn chat_declares_the_empty_event_kind() {
    let c = TwitchChat::new(s("somechannel"));
    assert_eq!(c.target_channel(), &s("somechannel"));
    assert_eq!(c.get_events().len(), 1);
    assert_eq!(c.get_events()[0].id, s(""));
}

#[test]
fn pub_sub_needs_a_credential() {
    assert_eq!(TwitchPubSub::new(s("chan"), s("")), Err(TriggerError::MissingCredential));
    let p = TwitchPubSub::new(s("chan"), s("SECRET-REDACTED")).unwrap();
    assert_eq!(p.token(), &s("SECRET-REDACTED"));
    assert_eq!(p.get_events()[0].id, s("redeem"));
}

#[test]
fn watcher_emits_one_event_per_message() {
    let mut w = Watcher::for_source(TriggerSource::TwitchPubSub);
    for _ in 0..3 {
        assert_eq!(
            w.on_input(FeedInput::Message),
            WatchStep::Emit(QueueEvent::new(s("twitch_pub_sub"), s("redeem")))
        );
    }
    assert!(!w.done);
}

#[test]
fn watcher_stops_on_cancellation() {
    let mut w = Watcher::new(s("pubsub"), s("redeem"));
    assert_eq!(w.on_input(FeedInput::Cancelled), WatchStep::Finish);
    assert!(w.done);
    assert_eq!(w.on_input(FeedInput::Message), WatchStep::Finish);
}

#[test]
fn watcher_fails_alone_when_the_feed_ends() {
    let mut w = Watcher::for_source(TriggerSource::TwitchChat);
    assert_eq!(w.on_input(FeedInput::Closed), WatchStep::Fail(WatchError::TransportEnded));
    assert_eq!(w.on_input(FeedInput::Message), WatchStep::Finish);
}

#[test]
fn duplicate_copies_the_event() {
    let e = QueueEvent::new(s("a"), s("b"));
    assert_eq!(e.duplicate(), e);
}

#[test]
fn available_sources_are_the_feed_and_the_chat() {
    let v = get_available_trigger_sources(s("chan"), s("216053282"), s("SECRET-REDACTED")).unwrap();
    assert_eq!(v.len(), 2);
    assert_eq!(v[0].kind(), TriggerSource::TwitchPubSub);
    assert_eq!(v[1].kind(), TriggerSource::TwitchChat);
    match &v[0] {
        Source::PubSub(p) => assert_eq!(p.target_channel, s("216053282")),
        _ => panic!("expected the redemption feed first"),
    }
    match &v[1] {
        Source::Chat(c) => assert_eq!(c.target_channel, s("chan")),
        _ => panic!("expected the chat second"),
    }
}

#[test]
fn available_sources_need_a_credential() {
    assert_eq!(get_available_trigger_sources(s("chan"), s("1"), s("")), Err(TriggerError::MissingCredential));
}

#[test]
fn chat_watcher_tags_lines_with_the_empty_event_kind() {
    let mut w = Watcher::for_source(TriggerSource::TwitchChat);
    assert_eq!(w.on_input(FeedInput::Message), WatchStep::Emit(QueueEvent::new(s("twitch_chat"), s(""))));
    assert_eq!(w.on_input(FeedInput::Message), WatchStep::Emit(QueueEvent::new(s("twitch_chat"), s(""))));
    assert_eq!(w.on_input(FeedInput::Cancelled), WatchStep::Finish);
}
