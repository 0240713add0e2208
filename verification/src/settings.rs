//! The passes of a frame and the process-wide switches that turn each of
//! them into a no-op.

use vstd::prelude::*;

verus! {

/// The kinds of pass that a frame is made of.
#[derive(Clone, Copy, PartialEq, Eq, Structural, Debug)]
pub enum PassKind {
    /// Zeroes the transient state of the voxel world.
    Clear,
    /// One cellular-automaton step over the voxel world.
    Automata,
    /// Applies the animation buffer to the voxel world.
    Animation,
    /// Hands over to the per-view graphs.
    CameraDriver,
    /// Provides a view's normal and position targets.
    Attachments,
    /// Rebuilds the acceleration structure over the voxel world.
    Rebuild,
    /// Advances every physics slot.
    Physics,
    /// Ray-marches the voxel world into the view's target.
    Trace,
    Tonemapping,
    Fxaa,
    Ui,
    Upscaling,
}

/// Seven switches, one per pass that can be turned off. A pass that is
/// turned off stays in the graph and does nothing.
#[derive(Clone, Copy, PartialEq, Eq, Structural, Debug)]
pub struct RenderGraphSettings {
    pub clear: bool,
    pub automata: bool,
    pub animation: bool,
    pub voxelization: bool,
    pub rebuild: bool,
    pub physics: bool,
    pub trace: bool,
}

impl Default for RenderGraphSettings {
    /// Every pass is on.
    fn default() -> (settings: RenderGraphSettings)
        ensures
            settings.clear,
            settings.automata,
            settings.animation,
            settings.voxelization,
            settings.rebuild,
            settings.physics,
            settings.trace,
    {
        RenderGraphSettings {
            clear: true,
            automata: true,
            animation: true,
            voxelization: true,
            rebuild: true,
            physics: true,
            trace: true,
        }
    }
}

impl RenderGraphSettings {
    /// Whether `pass` does its work: a pass without a switch always does.
    pub open spec fn enables(&self, pass: PassKind) -> bool {
        match pass {
            PassKind::Clear => self.clear,
            PassKind::Automata => self.automata,
            PassKind::Animation => self.animation,
            PassKind::Rebuild => self.rebuild,
            PassKind::Physics => self.physics,
            PassKind::Trace => self.trace,
            _ => true,
        }
    }

    /// Whether `pass` does its work this frame.
    pub fn is_enabled(&self, pass: PassKind) -> (enabled: bool)
        ensures
            enabled == self.enables(pass),
    {
        match pass {
            PassKind::Clear => self.clear,
            PassKind::Automata => self.automata,
            PassKind::Animation => self.animation,
            PassKind::Rebuild => self.rebuild,
            PassKind::Physics => self.physics,
            PassKind::Trace => self.trace,
            _ => true,
        }
    }
}

} // verus!
