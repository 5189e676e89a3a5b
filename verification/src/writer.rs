//! The segment writer's decision core.
//!
//! The surrounding media loop (parsing video packets, buffering
//! transport-stream data, writing segment files) performs I/O and is
//! driven by collaborators outside this crate; what is verified here is
//! the decision it takes for each incoming frame: which frames are
//! ignored, when the buffered segment is flushed to a file, and how the
//! write deadline and keyframe counter advance.

use vstd::prelude::*;

verus! {

/// What the media loop learned about one incoming frame.
pub enum FrameInfo {
    /// A video frame: its timestamp in milliseconds, and whether the
    /// parsed packet is a sequence header or a keyframe.
    Video { timestamp: u64, sequence_header: bool, keyframe: bool },
    /// An audio frame; the writer ignores these.
    Audio,
}

/// What the media loop must do with the frame it handed in.
#[derive(PartialEq, Eq, Structural, Debug, Clone, Copy)]
pub enum WriterAction {
    /// Drop the frame: audio, or a video sequence header.
    Ignore,
    /// Append the frame's packet to the segment buffer.
    Buffer,
    /// Flush the buffered segment to a file stamped with `timestamp`
    /// and the running keyframe `index`, then append the packet.
    WriteAndBuffer { timestamp: u64, index: usize },
}

/// The spec-level writer state.
pub ghost struct WriterKey {
    /// Milliseconds between segment writes.
    pub write_interval: u64,
    /// The timestamp at which the next segment write falls due.
    pub next_write: u64,
    /// How many keyframes have been seen so far.
    pub keyframe_counter: usize,
}

/// The writer's segmenting state: a fixed write interval, the next
/// write deadline, and a keyframe counter.
pub struct Writer {
    write_interval: u64,
    next_write: u64,
    keyframe_counter: usize,
}

impl View for Writer {
    type V = WriterKey;

    closed spec fn view(&self) -> WriterKey {
        WriterKey {
            write_interval: self.write_interval,
            next_write: self.next_write,
            keyframe_counter: self.keyframe_counter,
        }
    }
}

/// The default write interval, in milliseconds.
pub const WRITE_INTERVAL_MS: u64 = 2000;

impl Writer {
    /// A fresh writer: the first segment write falls due one write
    /// interval in, and no keyframe has been seen.
    pub fn new() -> (r: Writer)
        ensures
            r@.write_interval == WRITE_INTERVAL_MS,
            r@.next_write == WRITE_INTERVAL_MS,
            r@.keyframe_counter == 0,
    {
        Writer {
            write_interval: WRITE_INTERVAL_MS,
            next_write: WRITE_INTERVAL_MS,
            keyframe_counter: 0,
        }
    }

    /// Decides what to do with one frame and advances the state.
    ///
    /// Audio frames and video sequence headers are ignored. Any other
    /// video frame is buffered; a keyframe additionally bumps the
    /// keyframe counter, and a keyframe at or past the write deadline
    /// orders the buffered segment written and pushes the deadline one
    /// interval further out.
    pub fn step(&mut self, frame: FrameInfo) -> (r: WriterAction)
        requires
            old(self)@.keyframe_counter < usize::MAX,
            old(self)@.next_write + old(self)@.write_interval <= u64::MAX,
        ensures
            final(self)@.write_interval == old(self)@.write_interval,
            ({
                let pre = old(self)@;
                let post = final(self)@;
                match frame {
                    FrameInfo::Audio => r == WriterAction::Ignore && post == pre,
                    FrameInfo::Video { timestamp, sequence_header, keyframe } => {
                        if sequence_header {
                            r == WriterAction::Ignore && post == pre
                        } else if !keyframe {
                            r == WriterAction::Buffer && post == pre
                        } else if timestamp < pre.next_write {
                            &&& r == WriterAction::Buffer
                            &&& post.keyframe_counter == pre.keyframe_counter + 1
                            &&& post.next_write == pre.next_write
                        } else {
                            &&& r == (WriterAction::WriteAndBuffer {
                                timestamp,
                                index: pre.keyframe_counter,
                            })
                            &&& post.keyframe_counter == pre.keyframe_counter + 1
                            &&& post.next_write == pre.next_write + pre.write_interval
                        }
                    },
                }
            }),
    {
        match frame {
            FrameInfo::Audio => WriterAction::Ignore,
            FrameInfo::Video { timestamp, sequence_header, keyframe } => {
                if sequence_header {
                    return WriterAction::Ignore;
                }
                if !keyframe {
                    return WriterAction::Buffer;
                }
                let index = self.keyframe_counter;
                self.keyframe_counter = self.keyframe_counter + 1;
                if timestamp >= self.next_write {
                    self.next_write = self.next_write + self.write_interval;
                    WriterAction::WriteAndBuffer { timestamp, index }
                } else {
                    WriterAction::Buffer
                }
            },
        }
    }
}

} // verus!
