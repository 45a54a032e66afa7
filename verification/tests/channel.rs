use server::channel::Channel;
use server::message::Message;

fn job_of(message: Option<Message<u32>>) -> Option<u32> {
    match message {
        Some(Message::NewJob(job)) => Some(job),
        _ => None,
    }
}

#[test]
fn new_channel_is_empty_and_unlocked() {
    let channel: Channel<u32> = Channel::new();
    assert_eq!(channel.len(), 0);
    assert_eq!(channel.holder(), None);
}

#[test]
fn send_grows_the_queue_by_one() {
    let mut channel: Channel<u32> = Channel::new();
    channel.send(Message::NewJob(5));
    assert_eq!(channel.len(), 1);
    channel.send(Message::Terminate);
    assert_eq!(channel.len(), 2);
    assert_eq!(channel.holder(), None);
}

#[test]
fn lock_is_granted_to_one_worker_at_a_time() {
    let mut channel: Channel<u32> = Channel::new();
    assert!(channel.lock(3));
    assert_eq!(channel.holder(), Some(3));
    assert!(!channel.lock(4));
    assert_eq!(channel.holder(), Some(3));
    assert!(!channel.lock(3));
    assert_eq!(channel.holder(), Some(3));
}

#[test]
fn recv_needs_the_lock() {
    let mut channel: Channel<u32> = Channel::new();
    channel.send(Message::NewJob(1));
    assert!(channel.recv(0).is_none());
    assert_eq!(channel.len(), 1);
    assert!(channel.lock(1));
    assert!(channel.recv(0).is_none());
    assert_eq!(channel.len(), 1);
    assert_eq!(channel.holder(), Some(1));
}

#[test]
fn recv_on_empty_queue_keeps_the_lock() {
    let mut channel: Channel<u32> = Channel::new();
    assert!(channel.lock(0));
    assert!(channel.recv(0).is_none());
    assert_eq!(channel.holder(), Some(0));
    channel.send(Message::NewJob(9));
    assert_eq!(job_of(channel.recv(0)), Some(9));
    assert_eq!(channel.holder(), None);
    assert_eq!(channel.len(), 0);
}

#[test]
fn recv_releases_the_lock() {
    let mut channel: Channel<u32> = Channel::new();
    channel.send(Message::NewJob(1));
    channel.send(Message::NewJob(2));
    assert!(channel.lock(0));
    assert_eq!(job_of(channel.recv(0)), Some(1));
    assert_eq!(channel.holder(), None);
    assert!(channel.recv(0).is_none());
    assert!(channel.lock(1));
    assert_eq!(job_of(channel.recv(1)), Some(2));
}

#[test]
fn messages_come_out_in_the_order_sent() {
    let mut channel: Channel<u32> = Channel::new();
    for job in 0..50u32 {
        channel.send(Message::NewJob(job));
    }
    channel.send(Message::Terminate);
    for job in 0..50u32 {
        assert!(channel.lock(7));
        assert_eq!(job_of(channel.recv(7)), Some(job));
    }
    assert!(channel.lock(7));
    assert!(matches!(channel.recv(7), Some(Message::Terminate)));
    assert_eq!(channel.len(), 0);
}

#[test]
fn message_knows_whether_it_carries_a_job() {
    let job: Message<u32> = Message::NewJob(3);
    let stop: Message<u32> = Message::Terminate;
    assert!(job.is_job());
    assert!(!stop.is_job());
}
