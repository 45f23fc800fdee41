//! Region configuration: an ordered list of rectangular screen areas, each
//! with the stabilization strategy that processes its recognized text.

use vstd::prelude::*;

verus! {

/// How the text recognized in a region is debounced into discrete events.
#[derive(Clone, Copy, PartialEq, Eq, Structural, Debug)]
pub enum ProcessorStrategy {
    /// A caption line at a fixed position, re-recognized with small jitter.
    FixedLine,
    /// A dialog box whose text is revealed glyph by glyph and scrolls away.
    DialogScroll,
}

/// A configured rectangle of the captured frame, in source-frame pixels,
/// immutable after configuration load.
#[derive(Clone, Copy, PartialEq, Eq, Structural, Debug)]
pub struct Region {
    pub x: u32,
    pub y: u32,
    pub width: u32,
    pub height: u32,
    pub processor: ProcessorStrategy,
}

/// The externally loaded processing configuration: the ordered region list.
pub struct ProcessorConfig {
    pub region: Vec<Region>,
}

} // verus!
