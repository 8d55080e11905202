use can_recorder::relay::{
    on_upstream_read, should_publish, StopReason, Subscriber, SubscriberAction, SubscriberEvent,
    UpstreamAction,
};
use tokio::sync::broadcast;
use tokio::sync::broadcast::error::TryRecvError;

fn event(outcome: Result<Vec<u8>, TryRecvError>) -> Option<SubscriberEvent> {
    match outcome {
        Ok(message) => Some(SubscriberEvent::Message(message)),
        Err(TryRecvError::Lagged(count)) => Some(SubscriberEvent::Lagged(count)),
        Err(TryRecvError::Closed) => Some(SubscriberEvent::Closed),
        Err(TryRecvError::Empty) => None,
    }
}

#[test]
fn slow_subscriber_is_told_what_it_missed() {
    let (publisher, mut channel) = broadcast::channel::<Vec<u8>>(2);
    let mut writer = Subscriber::new();
    for n in 1..=3u8 {
        publisher.send(vec![n]).unwrap();
    }
    let first = writer.step(event(channel.try_recv()).unwrap());
    assert_eq!(first, SubscriberAction::ReportLag(1));
    assert!(writer.active);
    let second = writer.step(event(channel.try_recv()).unwrap());
    assert_eq!(second, SubscriberAction::Forward(vec![2]));
    let third = writer.step(event(channel.try_recv()).unwrap());
    assert_eq!(third, SubscriberAction::Forward(vec![3]));
    assert!(event(channel.try_recv()).is_none());
    assert_eq!(writer, Subscriber { active: true, forwarded: 2, missed: 1 });
}

#[test]
fn subscriber_that_misses_three_messages() {
    let (publisher, mut channel) = broadcast::channel::<Vec<u8>>(2);
    let mut writer = Subscriber::new();
    for n in 1..=5u8 {
        publisher.send(vec![n]).unwrap();
    }
    assert_eq!(writer.step(event(channel.try_recv()).unwrap()), SubscriberAction::ReportLag(3));
    assert_eq!(writer.step(event(channel.try_recv()).unwrap()), SubscriberAction::Forward(vec![4]));
    assert_eq!(writer.step(event(channel.try_recv()).unwrap()), SubscriberAction::Forward(vec![5]));
    assert_eq!(writer.missed, 3);
}

#[test]
fn one_slow_subscriber_does_not_disturb_another() {
    let (publisher, mut slow) = broadcast::channel::<Vec<u8>>(2);
    let mut quick = publisher.subscribe();
    let mut quick_writer = Subscriber::new();
    let mut slow_writer = Subscriber::new();
    let mut quick_got = Vec::new();
    for n in 1..=4u8 {
        publisher.send(vec![n]).unwrap();
        if let SubscriberAction::Forward(bytes) = quick_writer.step(event(quick.try_recv()).unwrap()) {
            quick_got.push(bytes[0]);
        }
    }
    assert_eq!(quick_got, vec![1, 2, 3, 4]);
    assert_eq!(quick_writer.missed, 0);
    assert_eq!(slow_writer.step(event(slow.try_recv()).unwrap()), SubscriberAction::ReportLag(2));
    assert_eq!(slow_writer.step(event(slow.try_recv()).unwrap()), SubscriberAction::Forward(vec![3]));
}

#[test]
fn closed_channel_ends_the_writer_after_what_is_left() {
    let (publisher, mut channel) = broadcast::channel::<Vec<u8>>(4);
    let mut writer = Subscriber::new();
    publisher.send(vec![9]).unwrap();
    drop(publisher);
    assert_eq!(writer.step(event(channel.try_recv()).unwrap()), SubscriberAction::Forward(vec![9]));
    assert_eq!(writer.step(event(channel.try_recv()).unwrap()), SubscriberAction::Stop);
    assert!(!writer.active);
}

#[test]
fn failed_write_ends_the_writer() {
    let mut writer = Subscriber::new();
    assert_eq!(writer.step(SubscriberEvent::Message(vec![1])), SubscriberAction::Forward(vec![1]));
    assert_eq!(writer.step(SubscriberEvent::WriteFailed), SubscriberAction::Stop);
    assert_eq!(writer, Subscriber { active: false, forwarded: 1, missed: 0 });
}

#[test]
fn ended_writer_stays_ended() {
    let mut writer = Subscriber::new();
    writer.step(SubscriberEvent::Closed);
    let ended = writer;
    assert_eq!(writer.step(SubscriberEvent::Message(vec![1])), SubscriberAction::Stop);
    assert_eq!(writer.step(SubscriberEvent::Lagged(4)), SubscriberAction::Stop);
    assert_eq!(writer.step(SubscriberEvent::WriteFailed), SubscriberAction::Stop);
    assert_eq!(writer, ended);
}

#[test]
fn counts_stop_at_the_largest_number() {
    let mut writer = Subscriber { active: true, forwarded: u64::MAX, missed: u64::MAX - 1 };
    writer.step(SubscriberEvent::Message(vec![]));
    writer.step(SubscriberEvent::Lagged(5));
    assert_eq!(writer, Subscriber { active: true, forwarded: u64::MAX, missed: u64::MAX });
}

#[test]
fn upstream_read_is_published_as_read() {
    let buffer = [1u8, 2, 3, 4, 5];
    assert_eq!(on_upstream_read(Some(3), &buffer), UpstreamAction::Publish(vec![1, 2, 3]));
    assert_eq!(on_upstream_read(Some(5), &buffer), UpstreamAction::Publish(vec![1, 2, 3, 4, 5]));
    assert_eq!(on_upstream_read(Some(9), &buffer), UpstreamAction::Publish(vec![1, 2, 3, 4, 5]));
}

#[test]
fn upstream_end_stops_publishing() {
    let buffer = [1u8, 2, 3];
    assert_eq!(on_upstream_read(Some(0), &buffer), UpstreamAction::Stop(StopReason::Closed));
    assert_eq!(on_upstream_read(None, &buffer), UpstreamAction::Stop(StopReason::Failed));
}

#[test]
fn frames_are_published_only_to_listeners() {
    assert!(!should_publish(0));
    assert!(should_publish(1));
    assert!(should_publish(usize::MAX));
}
