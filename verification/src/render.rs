//! The GPU rendering pipeline's lifecycle.
use vstd::prelude::*;

verus! {

/// The GPU rendering pipeline.
#[derive(Debug)]
pub struct RenderPipeline {
    /// Whether the pipeline is initialized.
    initialized: bool,
}

impl RenderPipeline {
    /// Whether the pipeline is ready to render.
    pub closed spec fn ready(&self) -> bool {
        self.initialized
    }

    /// Create a new, initialized rendering pipeline.
    pub fn new() -> (r: Self)
        ensures
            r.ready(),
    {
        RenderPipeline { initialized: true }
    }

    /// Render a display list of `command_count` commands; returns whether
    /// the list was submitted (an uninitialized pipeline skips it).
    pub fn render(&self, command_count: usize) -> (r: bool)
        ensures
            r == self.ready(),
    {
        if !self.initialized {
            return false;
        }
        true
    }

    /// Whether the pipeline is initialized.
    pub fn is_initialized(&self) -> (r: bool)
        ensures
            r == self.ready(),
    {
        self.initialized
    }
}

impl Default for RenderPipeline {
    fn default() -> (r: Self)
        ensures
            r.ready(),
    {
        Self::new()
    }
}

/// How a node of the layout tree lays out its children.
#[derive(Debug, Clone, Copy, PartialEq, Eq, Structural)]
pub enum LayoutType {
    Block,
    Inline,
    Flex,
    Grid,
    NoLayout,
}

} // verus!
