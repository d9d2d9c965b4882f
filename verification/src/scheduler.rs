//! The single writer of the framebuffer. Workers send finished pixels in no
//! particular order; the consumer stores each one at once, asks for a display
//! refresh at most once per time slice, and stops when the user cancels.

use vstd::prelude::*;
use crate::framebuffer::{word_of, written, Framebuffer, PixelResult};
use crate::settings::MICRO_BETWEEN_FRAME;

verus! {

/// Slack added to a time slice before a refresh is due, in microseconds.
pub const REFRESH_SLACK: u64 = 100;

/// What the caller does after handing a pixel result to the consumer.
#[derive(Debug, Clone, Copy, PartialEq, Eq, Structural)]
pub enum Action {
    /// Wait for the next result.
    Wait,
    /// Show the framebuffer, restart the clock, and report back with
    /// `refreshed`. `done` results had arrived before this one, of `total`.
    Refresh { done: usize, total: usize },
    /// The render was cancelled: the result was dropped.
    Stopped,
}

/// The microseconds since the last refresh, as the consumer counts them: the
/// low 64 bits of the clock's reading.
pub open spec fn counted_micros(elapsed_micros: u128) -> int {
    elapsed_micros as int % 0x1_0000_0000_0000_0000
}

/// A refresh is due once more than a time slice and its slack have passed.
pub open spec fn refresh_is_due(elapsed_micros: u128) -> bool {
    counted_micros(elapsed_micros) > MICRO_BETWEEN_FRAME + REFRESH_SLACK
}

/// Whether the display is to be refreshed, given the time since it last was.
pub fn refresh_due(elapsed_micros: u128) -> (due: bool)
    ensures
        due == refresh_is_due(elapsed_micros),
{
    let counted: u64 = #[verifier::truncate]
    (elapsed_micros as u64);
    proof {
        assert(elapsed_micros as u64 == elapsed_micros % 0x1_0000_0000_0000_0000) by (bit_vector);
    }
    counted > MICRO_BETWEEN_FRAME + REFRESH_SLACK
}

/// The one task that writes to the framebuffer. It owns the image, counts
/// the results it has stored, and remembers a cancellation.
pub struct Consumer {
    frame: Framebuffer,
    received: usize,
    stopped: bool,
}

impl Consumer {
    /// The consumer's framebuffer is well formed.
    pub closed spec fn wf(&self) -> bool {
        self.frame.wf()
    }

    /// The framebuffer that the consumer owns.
    pub closed spec fn spec_frame(&self) -> Framebuffer {
        self.frame
    }

    /// The number of results stored so far.
    pub closed spec fn spec_received(&self) -> usize {
        self.received
    }

    /// Whether the render was cancelled.
    pub closed spec fn spec_stopped(&self) -> bool {
        self.stopped
    }

    /// A consumer that has stored nothing yet.
    pub fn new(frame: Framebuffer) -> (consumer: Consumer)
        requires
            frame.wf(),
        ensures
            consumer.wf(),
            consumer.spec_frame() == frame,
            consumer.spec_received() == 0,
            !consumer.spec_stopped(),
    {
        Consumer { frame, received: 0, stopped: false }
    }

    /// The framebuffer as it is now, finished or not.
    pub fn frame(&self) -> (frame: &Framebuffer)
        ensures
            *frame == self.spec_frame(),
    {
        &self.frame
    }

    /// Gives the framebuffer back, finished or not.
    pub fn into_frame(self) -> (frame: Framebuffer)
        ensures
            frame == self.spec_frame(),
    {
        self.frame
    }

    /// The number of results stored so far.
    pub fn received(&self) -> (received: usize)
        ensures
            received == self.spec_received(),
    {
        self.received
    }

    /// Whether the render was cancelled.
    pub fn stopped(&self) -> (stopped: bool)
        ensures
            stopped == self.spec_stopped(),
    {
        self.stopped
    }

    /// Takes one pixel result, with the time since the display was last
    /// refreshed. While the render runs the pixel is stored at once, whether
    /// or not a refresh is due; after a cancellation it is dropped.
    pub fn update_buffer(&mut self, result: PixelResult, elapsed_micros: u128) -> (action: Action)
        requires
            old(self).wf(),
            result.0 < old(self).spec_frame()@.len(),
        ensures
            final(self).wf(),
            final(self).spec_frame().spec_width() == old(self).spec_frame().spec_width(),
            final(self).spec_frame().spec_height() == old(self).spec_frame().spec_height(),
            final(self).spec_stopped() == old(self).spec_stopped(),
            old(self).spec_stopped() ==> {
                &&& action == Action::Stopped
                &&& final(self).spec_frame()@ == old(self).spec_frame()@
                &&& final(self).spec_received() == old(self).spec_received()
            },
            !old(self).spec_stopped() ==> {
                &&& final(self).spec_frame()@ == old(self).spec_frame()@.update(
                    result.0 as int,
                    word_of(result),
                )
                &&& final(self).spec_frame()@ == written(old(self).spec_frame()@, seq![result])
                &&& final(self).spec_received() == if old(self).spec_received() < usize::MAX {
                    old(self).spec_received() + 1
                } else {
                    usize::MAX as int
                }
                &&& action == if refresh_is_due(elapsed_micros) {
                    Action::Refresh {
                        done: old(self).spec_received(),
                        total: old(self).spec_frame()@.len() as usize,
                    }
                } else {
                    Action::Wait
                }
            },
    {
        if self.stopped {
            return Action::Stopped;
        }
        let done: usize = self.received;
        self.frame.write(result.0, result.1);
        if self.received < usize::MAX {
            self.received = self.received + 1;
        }
        if refresh_due(elapsed_micros) {
            Action::Refresh { done, total: self.frame.len() }
        } else {
            Action::Wait
        }
    }

    /// Reports that the display was refreshed, and whether the user asked to
    /// cancel meanwhile. Returns whether the consumer goes on: a cancelled
    /// render stays cancelled.
    pub fn refreshed(&mut self, cancel: bool) -> (go_on: bool)
        ensures
            final(self).spec_frame() == old(self).spec_frame(),
            final(self).spec_received() == old(self).spec_received(),
            final(self).spec_stopped() == (old(self).spec_stopped() || cancel),
            go_on == !final(self).spec_stopped(),
            final(self).wf() == old(self).wf(),
    {
        if cancel {
            self.stopped = true;
        }
        !self.stopped
    }
}

} // verus!
