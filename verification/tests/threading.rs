use muc::server::error::ChannelError;
use muc::server::threading::{wait_step, Channel, WaitStep};
use std::time::Duration;

#[test]
fn pair_carries_both_ways() {
    let (a, b) = Channel::<u32>::new_pair();
    a.send(1).unwrap();
    a.send(2).unwrap();
    b.send(10).unwrap();
    assert_eq!(b.recv().unwrap(), 1);
    assert_eq!(b.try_recv().unwrap(), 2);
    assert_eq!(a.recv_timeout(Duration::from_millis(50)).unwrap(), 10);
    assert!(matches!(a.try_recv(), Err(ChannelError::TryRecv(_))));
    assert!(matches!(a.recv_timeout(Duration::from_millis(5)), Err(ChannelError::RecvTimeout(_))));
}

#[test]
fn closed_ends_fail() {
    let (a, b) = Channel::<u32>::new_pair();
    drop(b);
    assert!(matches!(a.send(3), Err(ChannelError::Send(_))));
    assert!(matches!(a.recv(), Err(ChannelError::Recv(_))));
}

#[test]
fn iterators() {
    let (a, b) = Channel::<u32>::new_pair();
    a.send(4).unwrap();
    a.send(5).unwrap();
    let waiting: Vec<u32> = b.try_iter().collect();
    assert_eq!(waiting, vec![4, 5]);
    a.send(6).unwrap();
    drop(a);
    let rest: Vec<u32> = b.iter().collect();
    assert_eq!(rest, vec![6]);
}

#[test]
fn wait_step_judges_each_outcome() {
    assert!(matches!(wait_step(Ok(3u8), &3), WaitStep::Arrived));
    assert!(matches!(wait_step(Ok(4u8), &3), WaitStep::KeepWaiting));
    let timed_out: Result<u8, ChannelError<u8>> =
        Err(ChannelError::RecvTimeout(std::sync::mpsc::RecvTimeoutError::Timeout));
    assert!(matches!(wait_step(timed_out, &3), WaitStep::KeepWaiting));
    let gone: Result<u8, ChannelError<u8>> = Err(ChannelError::Recv(std::sync::mpsc::RecvError));
    assert!(matches!(wait_step(gone, &3), WaitStep::Failed(ChannelError::Recv(_))));
}
