use tppocr::shared_memory::{SharedMemory, ShmNamespace};
use tppocr::vnc::{change_rect, fetch_canvas, publish_canvas};

#[test]
fn identical_frames_have_no_change_rect() {
    let frame = vec![7u32; 12];
    assert_eq!(change_rect(&frame, &frame, 4, 3), None);
}

#[test]
fn single_changed_pixel_gives_unit_rect() {
    let previous = vec![0u32; 12];
    let mut current = vec![0u32; 12];
    // Pixel (x=2, y=1) in a 4-wide frame sits at flat index 6.
    current[6] = 0xFFFF_FFFF;
    assert_eq!(change_rect(&previous, &current, 4, 3), Some((2, 1, 3, 2)));
}

#[test]
fn change_rect_bounds_all_changed_pixels() {
    let previous = vec![0u32; 20];
    let mut current = vec![0u32; 20];
    // A 5-wide, 4-tall frame with changes at (1,0), (3,2) and (2,3).
    current[1] = 1;
    current[13] = 1;
    current[17] = 1;
    assert_eq!(change_rect(&previous, &current, 5, 4), Some((1, 0, 4, 4)));
}

#[test]
fn published_canvas_is_fetched_word_for_word() {
    let mut ns = ShmNamespace::new();
    let shm = SharedMemory::open_or_create(&mut ns, 8855, 16).unwrap();
    let canvas: Vec<u32> = vec![0xAA00_0001, 0x0BB0_0002, 0x00CC_0003, 0x000D_0004];
    publish_canvas(&shm, &mut ns, &canvas);
    let fetched = fetch_canvas(&shm, &mut ns);
    assert_eq!(fetched, canvas);
    // The reader may poll again before the writer publishes anew: it sees
    // the same canvas, never a half-written one.
    assert_eq!(fetch_canvas(&shm, &mut ns), canvas);
}
