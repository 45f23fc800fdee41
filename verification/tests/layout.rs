use tppocr::config::{ProcessorConfig, ProcessorStrategy, Region};
use tppocr::processor::{build_stabilizers, region_draw_offsets};
use tppocr::text_processor::BoundingBox;

fn region(height: u32, processor: ProcessorStrategy) -> Region {
    Region { x: 0, y: 0, width: 200, height, processor }
}

#[test]
fn draw_offsets_stack_regions_with_margin() {
    let regions = vec![
        region(40, ProcessorStrategy::FixedLine),
        region(100, ProcessorStrategy::FixedLine),
        region(25, ProcessorStrategy::DialogScroll),
    ];
    let offsets = region_draw_offsets(&regions).unwrap();
    assert_eq!(offsets, vec![0, 88, 236]);
}

#[test]
fn no_regions_mean_no_offsets() {
    let config = ProcessorConfig { region: Vec::new() };
    let offsets = region_draw_offsets(&config.region).unwrap();
    assert!(offsets.is_empty());
}

#[test]
fn stabilizers_follow_each_region_strategy() {
    let regions = vec![
        region(40, ProcessorStrategy::FixedLine),
        region(40, ProcessorStrategy::DialogScroll),
    ];
    let mut stabilizers = build_stabilizers(&regions);
    assert_eq!(stabilizers.len(), 2);
    let boxes = vec![BoundingBox { confidence: 900, x1: 0, y1: 0, x2: 10, y2: 10 }];
    stabilizers[0].process(1000, "CAPTION", &boxes);
    stabilizers[1].process(1000, "CAPTION", &boxes);
    // The fixed-line stabilizer buffers and eventually emits; the dialog
    // strategy is a stub that never does.
    assert_eq!(stabilizers[0].poll_result(60_000).len(), 1);
    assert_eq!(stabilizers[1].poll_result(60_000).len(), 0);
    assert_eq!(stabilizers[0].region(), regions[0]);
    assert_eq!(stabilizers[1].region(), regions[1]);
}
