use vstd::prelude::*;

verus! {

/// What acquiring the drawable target of a frame gave.
#[derive(Clone, Copy, Debug, PartialEq, Eq, Structural)]
pub enum SurfaceStatus {
    Acquired,
    /// The surface must be configured again before it can be used.
    Lost,
    /// The surface no longer matches the window; a resize is on its way.
    Outdated,
    Timeout,
    OutOfMemory,
}

/// What the frame driver does next after an acquisition.
#[derive(Clone, Copy, Debug, PartialEq, Eq, Structural)]
pub enum SurfaceAction {
    /// Draw the frame on the acquired target.
    Render,
    /// Configure the surface again and retry the acquisition; the pending
    /// samples are kept.
    Reconfigure,
    /// Skip this frame; the next refresh tries again with the samples kept.
    Skip,
    /// Abandon the frame and report the error.
    Fail,
}

pub open spec fn surface_action_spec(s: SurfaceStatus) -> SurfaceAction {
    match s {
        SurfaceStatus::Acquired => SurfaceAction::Render,
        SurfaceStatus::Lost => SurfaceAction::Reconfigure,
        SurfaceStatus::Outdated | SurfaceStatus::Timeout => SurfaceAction::Skip,
        SurfaceStatus::OutOfMemory => SurfaceAction::Fail,
    }
}

/// The decision after an acquisition: a lost surface is reconfigured and
/// acquired again, a transient failure skips the frame, and running out of
/// memory ends the frame with an error.
pub fn surface_action(s: SurfaceStatus) -> (a: SurfaceAction)
    ensures
        a == surface_action_spec(s),
{
    match s {
        SurfaceStatus::Acquired => SurfaceAction::Render,
        SurfaceStatus::Lost => SurfaceAction::Reconfigure,
        SurfaceStatus::Outdated | SurfaceStatus::Timeout => SurfaceAction::Skip,
        SurfaceStatus::OutOfMemory => SurfaceAction::Fail,
    }
}

/// Whether a frame is under way, and the window size of a resize that must
/// wait for the frame's end.
#[derive(Clone, Copy, Debug)]
pub struct FrameDriver {
    pub in_frame: bool,
    pub pending_resize: Option<(u32, u32)>,
}

impl FrameDriver {
    pub fn new() -> (r: FrameDriver)
        ensures
            r == (FrameDriver { in_frame: false, pending_resize: None }),
    {
        FrameDriver { in_frame: false, pending_resize: None }
    }

    /// A resize to `width` by `height`: returned at once to be applied
    /// between frames, or kept (replacing an earlier one) until the frame
    /// under way ends.
    pub fn resize(&mut self, width: u32, height: u32) -> (now: Option<(u32, u32)>)
        ensures
            final(self).in_frame == old(self).in_frame,
            !old(self).in_frame ==> now == Some((width, height)) && final(self).pending_resize
                == old(self).pending_resize,
            old(self).in_frame ==> now is None && final(self).pending_resize == Some(
                (width, height),
            ),
    {
        if self.in_frame {
            self.pending_resize = Some((width, height));
            None
        } else {
            Some((width, height))
        }
    }

    /// Starts a frame.
    pub fn begin_frame(&mut self)
        ensures
            final(self).in_frame,
            final(self).pending_resize == old(self).pending_resize,
    {
        self.in_frame = true;
    }

    /// Ends the frame and hands back the resize that waited for it, if any.
    pub fn end_frame(&mut self) -> (r: Option<(u32, u32)>)
        ensures
            !final(self).in_frame,
            final(self).pending_resize is None,
            r == old(self).pending_resize,
    {
        self.in_frame = false;
        let r = self.pending_resize;
        self.pending_resize = None;
        r
    }
}

} // verus!
