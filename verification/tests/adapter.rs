use session_runtime::terminal::{FlushError, TerminalHandle};
use tokio::sync::mpsc::error::TryRecvError;
use tokio::sync::mpsc::unbounded_channel;

#[test]
fn write_takes_everything_and_sends_nothing() {
    let (sender, mut receiver) = unbounded_channel::<Vec<u8>>();
    let mut handle = TerminalHandle::start(sender);
    assert_eq!(handle.pending(), 0);
    assert_eq!(handle.write(b"hello"), 5);
    assert_eq!(handle.write(b""), 0);
    assert_eq!(handle.write(b", world"), 7);
    assert_eq!(handle.pending(), 12);
    assert_eq!(receiver.try_recv(), Err(TryRecvError::Empty));
}

#[test]
fn flush_hands_over_one_frame_and_empties_the_sink() {
    let (sender, mut receiver) = unbounded_channel::<Vec<u8>>();
    let mut handle = TerminalHandle::start(sender);
    handle.write(b"ab");
    handle.write(b"cd");
    assert_eq!(handle.flush(), Ok(()));
    assert_eq!(handle.pending(), 0);
    assert_eq!(receiver.try_recv(), Ok(b"abcd".to_vec()));
    assert_eq!(receiver.try_recv(), Err(TryRecvError::Empty));
}

#[test]
fn frames_arrive_in_flush_order() {
    let (sender, mut receiver) = unbounded_channel::<Vec<u8>>();
    let mut handle = TerminalHandle::start(sender);
    handle.write(b"first");
    assert_eq!(handle.flush(), Ok(()));
    handle.write(b"sec");
    handle.write(b"ond");
    assert_eq!(handle.flush(), Ok(()));
    handle.write(b"third");
    assert_eq!(handle.flush(), Ok(()));
    assert_eq!(receiver.try_recv(), Ok(b"first".to_vec()));
    assert_eq!(receiver.try_recv(), Ok(b"second".to_vec()));
    assert_eq!(receiver.try_recv(), Ok(b"third".to_vec()));
    assert_eq!(receiver.try_recv(), Err(TryRecvError::Empty));
}

#[test]
fn flush_of_an_empty_sink_hands_over_an_empty_frame() {
    let (sender, mut receiver) = unbounded_channel::<Vec<u8>>();
    let mut handle = TerminalHandle::start(sender);
    assert_eq!(handle.flush(), Ok(()));
    assert_eq!(receiver.try_recv(), Ok(Vec::new()));
}

#[test]
fn flush_fails_with_broken_pipe_once_nobody_reads() {
    let (sender, receiver) = unbounded_channel::<Vec<u8>>();
    let mut handle = TerminalHandle::start(sender);
    drop(receiver);
    handle.write(b"lost?");
    assert_eq!(handle.flush(), Err(FlushError::BrokenPipe));
}

#[test]
fn a_refused_frame_stays_in_the_sink() {
    let (sender, receiver) = unbounded_channel::<Vec<u8>>();
    let mut handle = TerminalHandle::start(sender);
    drop(receiver);
    handle.write(b"abc");
    assert_eq!(handle.flush(), Err(FlushError::BrokenPipe));
    assert_eq!(handle.pending(), 3);
    handle.write(b"de");
    assert_eq!(handle.flush(), Err(FlushError::BrokenPipe));
    assert_eq!(handle.pending(), 5);
}

#[test]
fn flush_fails_after_the_receiver_was_closed() {
    let (sender, mut receiver) = unbounded_channel::<Vec<u8>>();
    let mut handle = TerminalHandle::start(sender);
    handle.write(b"one");
    assert_eq!(handle.flush(), Ok(()));
    receiver.close();
    handle.write(b"two");
    assert_eq!(handle.flush(), Err(FlushError::BrokenPipe));
    assert_eq!(receiver.try_recv(), Ok(b"one".to_vec()));
    assert_eq!(receiver.try_recv(), Err(TryRecvError::Disconnected));
}

#[test]
fn two_adapters_do_not_mix_their_frames() {
    let (sender_a, mut receiver_a) = unbounded_channel::<Vec<u8>>();
    let (sender_b, mut receiver_b) = unbounded_channel::<Vec<u8>>();
    let mut a = TerminalHandle::start(sender_a);
    let mut b = TerminalHandle::start(sender_b);
    a.write(b"a1");
    b.write(b"b1");
    assert_eq!(b.flush(), Ok(()));
    a.write(b"a2");
    assert_eq!(a.flush(), Ok(()));
    assert_eq!(receiver_a.try_recv(), Ok(b"a1a2".to_vec()));
    assert_eq!(receiver_b.try_recv(), Ok(b"b1".to_vec()));
}

#[test]
fn frames_and_sink_together_are_the_bytes_written() {
    let (sender, mut receiver) = unbounded_channel::<Vec<u8>>();
    let mut handle = TerminalHandle::start(sender);
    let writes: [&[u8]; 6] = [b"ab", b"", b"cde", b"f", b"gh", b"i"];
    let mut written: Vec<u8> = Vec::new();
    for (index, bytes) in writes.iter().enumerate() {
        handle.write(bytes);
        written.extend_from_slice(bytes);
        if index == 1 || index == 3 {
            assert_eq!(handle.flush(), Ok(()));
        }
        if index == 3 {
            receiver.close();
        }
        if index == 5 {
            assert_eq!(handle.flush(), Err(FlushError::BrokenPipe));
        }
    }
    handle.write(b"jk");
    written.extend_from_slice(b"jk");
    assert_eq!(handle.flush(), Err(FlushError::BrokenPipe));

    let mut taken: Vec<u8> = Vec::new();
    let mut frames = 0;
    while let Ok(frame) = receiver.try_recv() {
        taken.extend_from_slice(&frame);
        frames += 1;
    }
    assert_eq!(frames, 2);
    assert_eq!(taken, b"abcdef".to_vec());
    assert_eq!(taken.len() + handle.pending(), written.len());
    assert_eq!(handle.pending(), 5);
}
