use tppocr::config::{ProcessorStrategy, Region};
use tppocr::text_processor::{BoundingBox, FixedLineProcessor, TextItem, TextProcessor};

fn region_fixed() -> Region {
    Region { x: 0, y: 0, width: 200, height: 40, processor: ProcessorStrategy::FixedLine }
}

fn anchored_box(confidence: u32) -> Vec<BoundingBox> {
    vec![BoundingBox { confidence, x1: 2, y1: 1, x2: 150, y2: 30 }]
}

#[test]
fn similar_run_yields_single_event_with_max_confidence() {
    let mut p = FixedLineProcessor::new(region_fixed());
    p.process(1000, "HELLO", &anchored_box(700));
    p.process(1100, "HELL0", &anchored_box(900));
    p.process(1200, "HELLO", &anchored_box(850));
    // Nothing is emitted while the observations stay similar.
    assert!(p.poll_result(1300).is_empty());
    // A dissimilar line flushes exactly one event: the highest confidence.
    p.process(1400, "BYE", &anchored_box(800));
    let events = p.poll_result(1500);
    assert_eq!(events.len(), 1);
    assert_eq!(events[0].text, "HELL0");
    assert_eq!(events[0].confidence, 900);
    assert_eq!(events[0].timestamp_ms, 1100);
}

#[test]
fn flush_keeps_first_entry_on_confidence_ties() {
    let mut p = FixedLineProcessor::new(region_fixed());
    p.process(1000, "AAAAA", &anchored_box(700));
    p.process(1100, "AAAAB", &anchored_box(700));
    p.process(1200, "ZZZZZZZZZZ", &anchored_box(650));
    let events = p.poll_result(1300);
    assert_eq!(events.len(), 1);
    assert_eq!(events[0].text, "AAAAA");
    assert_eq!(events[0].confidence, 700);
    assert_eq!(events[0].timestamp_ms, 1000);
}

#[test]
fn dissimilar_observation_flushes_before_buffering() {
    let mut p = FixedLineProcessor::new(region_fixed());
    p.process(1000, "HELLO", &anchored_box(700));
    p.process(1100, "HELL0", &anchored_box(900));
    p.process(1200, "BYE", &anchored_box(800));
    // Polling immediately after yields exactly one event: the old line's.
    let events = p.poll_result(1250);
    assert_eq!(events.len(), 1);
    assert_eq!(events[0].text, "HELL0");
    assert_eq!(events[0].confidence, 900);
    // A later flush yields the new line's event.
    p.process(1300, "WELCOME BACK", &anchored_box(750));
    let later = p.poll_result(1350);
    assert_eq!(later.len(), 1);
    assert_eq!(later[0].text, "BYE");
    assert_eq!(later[0].confidence, 800);
}

#[test]
fn idle_buffer_flushes_after_five_seconds_only() {
    let mut p = FixedLineProcessor::new(region_fixed());
    p.process(1000, "LAST LINE", &anchored_box(700));
    // Four seconds after the newest entry: not flushed yet.
    let early = p.poll_result(5000);
    assert!(early.is_empty());
    // Exactly five seconds is not *more* than five seconds: still waiting.
    assert!(p.poll_result(6000).is_empty());
    // Six seconds after the newest entry: flushed even with no successor.
    let late = p.poll_result(7000);
    assert_eq!(late.len(), 1);
    assert_eq!(late[0].text, "LAST LINE");
    assert_eq!(late[0].confidence, 700);
    assert_eq!(late[0].timestamp_ms, 1000);
}

#[test]
fn idle_clock_runs_from_newest_entry() {
    let mut p = FixedLineProcessor::new(region_fixed());
    p.process(1000, "HELLO", &anchored_box(700));
    p.process(4000, "HELLO", &anchored_box(710));
    // 8000 is seven seconds after the first entry but only four after the
    // newest one: not idle yet.
    assert!(p.poll_result(8000).is_empty());
    assert_eq!(p.poll_result(9001).len(), 1);
}

#[test]
fn low_confidence_observation_is_never_buffered() {
    let mut p = FixedLineProcessor::new(region_fixed());
    p.process(1000, "NOISE", &anchored_box(590));
    // Not buffered: no idle flush can ever emit it.
    assert!(p.poll_result(60_000).is_empty());
    // A confidence of exactly 600 meets the threshold.
    p.process(1000, "REAL", &anchored_box(600));
    let events = p.poll_result(60_000);
    assert_eq!(events.len(), 1);
    assert_eq!(events[0].text, "REAL");
}

#[test]
fn unanchored_observation_is_never_buffered() {
    let mut p = FixedLineProcessor::new(region_fixed());
    // Region is 200 wide, 40 tall: the block's corner must sit within
    // 40 px horizontally and 8 px vertically of the region's corner.
    let off_x = vec![BoundingBox { confidence: 900, x1: 41, y1: 0, x2: 150, y2: 30 }];
    p.process(1000, "STRAY X", &off_x);
    let off_y = vec![BoundingBox { confidence: 900, x1: 0, y1: 9, x2: 150, y2: 30 }];
    p.process(1100, "STRAY Y", &off_y);
    assert!(p.poll_result(60_000).is_empty());
    // Exactly at the 20% edge, the observation is accepted.
    let edge = vec![BoundingBox { confidence: 900, x1: 40, y1: 8, x2: 150, y2: 30 }];
    p.process(1200, "EDGE", &edge);
    let events = p.poll_result(60_000);
    assert_eq!(events.len(), 1);
    assert_eq!(events[0].text, "EDGE");
}

#[test]
fn empty_box_list_is_rejected() {
    let mut p = FixedLineProcessor::new(region_fixed());
    let no_boxes: Vec<BoundingBox> = Vec::new();
    p.process(1000, "GHOST", &no_boxes);
    assert!(p.poll_result(60_000).is_empty());
}

#[test]
fn end_to_end_fixed_line_scenario() {
    // Region (x=0, y=0, w=200, h=40, FixedLine); three ticks produce
    // "HELLO" (0.7), "HELL0" (0.9, similar to the first), "BYE" (0.8,
    // dissimilar to "HELLO").
    let mut p = TextProcessor::new(region_fixed());
    p.process(0, "HELLO", &anchored_box(700));
    assert!(p.poll_result(100).is_empty());
    p.process(1000, "HELL0", &anchored_box(900));
    assert!(p.poll_result(1100).is_empty());
    p.process(2000, "BYE", &anchored_box(800));
    // One event is emitted when "BYE" arrives: text "HELL0" at 0.9.
    let first: Vec<TextItem> = p.poll_result(2100);
    assert_eq!(first.len(), 1);
    assert_eq!(first[0].text, "HELL0");
    assert_eq!(first[0].confidence, 900);
    // After the idle timeout, "BYE" at 0.8 follows.
    let second = p.poll_result(8000);
    assert_eq!(second.len(), 1);
    assert_eq!(second[0].text, "BYE");
    assert_eq!(second[0].confidence, 800);
    assert!(p.poll_result(60_000).is_empty());
}

#[test]
fn dialog_scroll_strategy_emits_nothing() {
    let region =
        Region { x: 0, y: 0, width: 200, height: 40, processor: ProcessorStrategy::DialogScroll };
    let mut p = TextProcessor::new(region);
    p.process(1000, "SOME DIALOG", &anchored_box(900));
    assert!(p.poll_result(60_000).is_empty());
}

#[test]
fn events_drain_in_first_in_first_out_order() {
    let mut p = FixedLineProcessor::new(region_fixed());
    p.process(1000, "ONE", &anchored_box(700));
    p.process(1100, "TWO TWO TWO", &anchored_box(800));
    p.process(1200, "THREE THREE THREE X", &anchored_box(900));
    let events = p.poll_result(1300);
    assert_eq!(events.len(), 2);
    assert_eq!(events[0].text, "ONE");
    assert_eq!(events[1].text, "TWO TWO TWO");
    // The third line is still pending; the queue was drained.
    let later = p.poll_result(30_000);
    assert_eq!(later.len(), 1);
    assert_eq!(later[0].text, "THREE THREE THREE X");
}
