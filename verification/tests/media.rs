//! The segment writer's decision core and the peer bookkeeping.

use busline::{FrameInfo, Peer, PeerSet, Writer, WriterAction};

#[test]
fn writer_ignores_audio_and_sequence_headers() {
    let mut w = Writer::new();
    let r = w.step(FrameInfo::Audio);
    assert_eq!(r, WriterAction::Ignore);
    let r = w.step(FrameInfo::Video { timestamp: 100, sequence_header: true, keyframe: false });
    assert_eq!(r, WriterAction::Ignore);
}

#[test]
fn writer_buffers_ordinary_video_frames() {
    let mut w = Writer::new();
    let r = w.step(FrameInfo::Video { timestamp: 100, sequence_header: false, keyframe: false });
    assert_eq!(r, WriterAction::Buffer);
}

#[test]
fn writer_flushes_on_keyframes_at_the_deadline() {
    let mut w = Writer::new();
    // an early keyframe only counts; the deadline (2000 ms) is not due
    let r = w.step(FrameInfo::Video { timestamp: 500, sequence_header: false, keyframe: true });
    assert_eq!(r, WriterAction::Buffer);
    // a keyframe at the deadline orders a write stamped with the count so far
    let r = w.step(FrameInfo::Video { timestamp: 2000, sequence_header: false, keyframe: true });
    assert_eq!(r, WriterAction::WriteAndBuffer { timestamp: 2000, index: 1 });
    // the deadline moved to 4000 ms: a keyframe before it only buffers
    let r = w.step(FrameInfo::Video { timestamp: 2100, sequence_header: false, keyframe: true });
    assert_eq!(r, WriterAction::Buffer);
    // and one past it writes again, with the counter advanced
    let r = w.step(FrameInfo::Video { timestamp: 4500, sequence_header: false, keyframe: true });
    assert_eq!(r, WriterAction::WriteAndBuffer { timestamp: 4500, index: 3 });
}

#[test]
fn peer_ids_live_exactly_as_long_as_their_handles() {
    let mut peers = PeerSet::new();
    let p1 = Peer::new(7, &mut peers);
    let p2 = Peer::new(9, &mut peers);
    assert_eq!(p1.id(), 7);
    assert!(peers.holds(7));
    assert!(peers.holds(9));
    assert!(!peers.holds(8));
    p1.release(&mut peers);
    assert!(!peers.holds(7));
    assert!(peers.holds(9));
    p2.release(&mut peers);
    assert!(!peers.holds(9));
}
