use vstd::prelude::*;

verus! {

/// What happened to the frame last handed out, or to the stream.
#[derive(Clone, Copy, Debug, PartialEq, Eq, Structural)]
pub enum FrameEvent {
    /// The frame went through ingestion and recognition: `true` when that
    /// completed without error.
    Processed(bool),
    /// The stream could not be decoded further.
    DecodeFailed,
    /// The stream has no more frames.
    StreamEnded,
}

#[derive(Clone, Copy, Debug, PartialEq, Eq, Structural)]
pub enum ScanOutcome {
    /// The frame with this index was processed without error.
    FrameProcessed(usize),
    /// Every frame failed, or there was none.
    NoFrameProcessed,
    /// Decoding failed while this frame index was next.
    DecodeError(usize),
}

#[derive(Clone, Copy, Debug, PartialEq, Eq, Structural)]
pub enum ScanAction {
    /// Decode the next frame and process it under this index.
    NextFrame(usize),
    /// Stop reading the stream, with this outcome.
    Stop(ScanOutcome),
}

/// Drives the scan of a video: frames are processed in order until one
/// completes without error; the rest of the stream is not read.
#[derive(Clone, Copy, Debug)]
pub struct FrameScanner {
    pub frame_index: usize,
    pub finished: bool,
}

impl FrameScanner {
    pub fn new() -> (r: FrameScanner)
        ensures
            r.frame_index == 0,
            !r.finished,
    {
        FrameScanner { frame_index: 0, finished: false }
    }

    /// Decides what follows an event. A frame that failed moves the scan to
    /// the next index; any other event ends it.
    pub fn step(&mut self, event: FrameEvent) -> (r: ScanAction)
        requires
            !old(self).finished,
            event == FrameEvent::Processed(false) ==> old(self).frame_index < usize::MAX,
        ensures
            match event {
                FrameEvent::Processed(true) => r == ScanAction::Stop(
                    ScanOutcome::FrameProcessed(old(self).frame_index),
                ) && final(self).finished && final(self).frame_index == old(self).frame_index,
                FrameEvent::Processed(false) => r == ScanAction::NextFrame(
                    (old(self).frame_index + 1) as usize,
                ) && !final(self).finished && final(self).frame_index == old(self).frame_index + 1,
                FrameEvent::DecodeFailed => r == ScanAction::Stop(
                    ScanOutcome::DecodeError(old(self).frame_index),
                ) && final(self).finished && final(self).frame_index == old(self).frame_index,
                FrameEvent::StreamEnded => r == ScanAction::Stop(ScanOutcome::NoFrameProcessed)
                    && final(self).finished && final(self).frame_index == old(self).frame_index,
            },
    {
        match event {
            FrameEvent::Processed(true) => {
                self.finished = true;
                ScanAction::Stop(ScanOutcome::FrameProcessed(self.frame_index))
            },
            FrameEvent::Processed(false) => {
                self.frame_index = self.frame_index + 1;
                ScanAction::NextFrame(self.frame_index)
            },
            FrameEvent::DecodeFailed => {
                self.finished = true;
                ScanAction::Stop(ScanOutcome::DecodeError(self.frame_index))
            },
            FrameEvent::StreamEnded => {
                self.finished = true;
                ScanAction::Stop(ScanOutcome::NoFrameProcessed)
            },
        }
    }
}

} // verus!
