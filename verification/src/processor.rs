//! The recognition-and-composition tick's computable parts: building one
//! stabilizer per configured region, and the vertical layout of the debug
//! canvas, where each region's cropped image is drawn below the previous
//! regions with a fixed margin.

use vstd::prelude::*;

verus! {

use crate::config::Region;
use crate::text_processor::{StabState, TextModel, TextProcessor};

/// The vertical gap left under each region's cropped image for its boxes
/// and recognized text.
pub const REGION_MARGIN_PX: u64 = 48;

/// The vertical offset at which region `i`'s cropped image is drawn: the
/// sum of all prior regions' heights plus one margin per prior region.
pub open spec fn draw_offset(regions: Seq<Region>, i: int) -> int
    decreases i,
{
    if i <= 0 {
        0
    } else {
        draw_offset(regions, i - 1) + regions[i - 1].height + REGION_MARGIN_PX
    }
}

/// Offsets never shrink as regions are added.
proof fn lemma_draw_offset_monotonic(regions: Seq<Region>, i: int, j: int)
    requires
        0 <= i <= j,
    ensures
        draw_offset(regions, i) <= draw_offset(regions, j),
    decreases j - i,
{
    if i < j {
        lemma_draw_offset_monotonic(regions, i, j - 1);
    }
}

/// The vertical draw offset of every region, in order.  Nothing if the
/// canvas these offsets address would be taller than a 64-bit offset can
/// say, which no real canvas is.
pub fn region_draw_offsets(regions: &Vec<Region>) -> (r: Option<Vec<u64>>)
    ensures
        match r {
            Some(offsets) => {
                &&& offsets@.len() == regions@.len()
                &&& forall|i: int| 0 <= i < regions@.len() ==> offsets@[i] == draw_offset(
                    regions@,
                    i,
                )
            },
            None => regions@.len() > 0 && draw_offset(regions@, regions@.len() - 1) > u64::MAX,
        },
{
    let mut offsets: Vec<u64> = Vec::new();
    let mut acc: u128 = 0;
    let n = regions.len();
    for i in 0..n
        invariant
            n == regions@.len(),
            offsets@.len() == i,
            acc == draw_offset(regions@, i as int),
            forall|j: int| 0 <= j < i ==> offsets@[j] == draw_offset(regions@, j),
            acc <= u64::MAX + 0x1_0000_0000u128 + REGION_MARGIN_PX,
    {
        if acc > u64::MAX as u128 {
            proof {
                lemma_draw_offset_monotonic(regions@, i as int, regions@.len() - 1);
            }
            return None;
        }
        offsets.push(acc as u64);
        acc = acc + regions[i].height as u128 + REGION_MARGIN_PX as u128;
    }
    Some(offsets)
}

/// One stabilizer per configured region, each of the region's selected
/// strategy and each starting empty, in the regions' order.
pub fn build_stabilizers(regions: &Vec<Region>) -> (r: Vec<TextProcessor>)
    ensures
        r@.len() == regions@.len(),
        forall|i: int| 0 <= i < regions@.len() ==> (#[trigger] r@[i])@ == initial_model(
            regions@[i],
        ),
{
    let mut r: Vec<TextProcessor> = Vec::new();
    let n = regions.len();
    for i in 0..n
        invariant
            n == regions@.len(),
            r@.len() == i,
            forall|j: int| 0 <= j < i ==> (#[trigger] r@[j])@ == initial_model(regions@[j]),
    {
        r.push(TextProcessor::new(regions[i]));
    }
    r
}

/// The starting state of the stabilizer a region's strategy selects.
pub open spec fn initial_model(region: Region) -> TextModel {
    match region.processor {
        crate::config::ProcessorStrategy::FixedLine => TextModel::FixedLine(
            StabState {
                region,
                buffer: Seq::empty(),
                output: Seq::empty(),
            },
        ),
        crate::config::ProcessorStrategy::DialogScroll => TextModel::DialogScroll(region),
    }
}

} // verus!
