use tppocr::frame::{
    frame_buffer_size, has_frame_format_changed, pts_to_millis, receive_frame_decision,
    DecodeOutcome, FrameFormat, FramePacer, PublishOutcome, ReceiveDecision,
};
use tppocr::message_socket::SyncChannel;
use tppocr::shared_memory::{SharedMemory, ShmNamespace};

#[test]
fn buffer_size_is_four_bytes_per_pixel() {
    assert_eq!(frame_buffer_size(1280, 720), Some(3_686_400));
    assert_eq!(frame_buffer_size(0, 720), Some(0));
    // The largest dimensions overflow the address width and are refused.
    assert_eq!(frame_buffer_size(u32::MAX, u32::MAX), None);
}

#[test]
fn decode_outcomes_sort_into_three_reactions() {
    assert_eq!(receive_frame_decision(&DecodeOutcome::FrameReady), ReceiveDecision::ProcessFrame);
    assert_eq!(receive_frame_decision(&DecodeOutcome::EndOfStream), ReceiveDecision::NoFrame);
    // The decoder asking for more input is transient ...
    assert_eq!(receive_frame_decision(&DecodeOutcome::SystemError(11)), ReceiveDecision::NoFrame);
    // ... any other system error is not.
    assert_eq!(receive_frame_decision(&DecodeOutcome::SystemError(5)), ReceiveDecision::Fatal);
    assert_eq!(receive_frame_decision(&DecodeOutcome::DecodeFault), ReceiveDecision::Fatal);
}

#[test]
fn format_change_is_any_field_difference() {
    let base = FrameFormat { pixel_format: 1, width: 1280, height: 720 };
    assert!(!has_frame_format_changed(&base, &base));
    assert!(has_frame_format_changed(&base, &FrameFormat { pixel_format: 2, ..base }));
    assert!(has_frame_format_changed(&base, &FrameFormat { width: 640, ..base }));
    assert!(has_frame_format_changed(&base, &FrameFormat { height: 480, ..base }));
}

#[test]
fn presentation_time_scales_by_the_time_base() {
    // 900 ticks at 1/90000 s per tick: 10 ms.
    assert_eq!(pts_to_millis(900, 1, 90000), Some(10));
    // 3 ticks at 1/30 s per tick: 100 ms.
    assert_eq!(pts_to_millis(3, 1, 30), Some(100));
    assert_eq!(pts_to_millis(0, 1, 30), Some(0));
    // 1 tick at 1/3 s per tick: 333 ms, rounded down.
    assert_eq!(pts_to_millis(1, 1, 3), Some(333));
}

#[test]
fn pacing_delivers_first_frame_and_throttles_repeats() {
    let pacer = FramePacer::new();
    assert!(pacer.should_deliver(0));
    assert!(pacer.should_deliver(50));
    let mut ns = ShmNamespace::new();
    let shm = SharedMemory::open_or_create(&mut ns, 1, 4).unwrap();
    let mut channel = SyncChannel::new(1);
    channel.open_server();
    channel.open_client().unwrap();
    let mut pacer = FramePacer::new();
    let frame = vec![1, 2, 3, 4];

    // Pacing would allow the first frame, but no request is pending: the
    // frame is dropped without a copy.
    assert_eq!(
        pacer.publish_frame(&mut channel, &mut ns, &shm, 0, &frame),
        PublishOutcome::NoRequest
    );
    assert_eq!(shm.read_bytes(&ns), vec![0, 0, 0, 0]);

    // With a pending request the frame is written and the reply follows.
    channel.client_send(&Vec::new()).unwrap();
    assert_eq!(
        pacer.publish_frame(&mut channel, &mut ns, &shm, 1000, &frame),
        PublishOutcome::Delivered
    );
    assert_eq!(shm.read_bytes(&ns), vec![1, 2, 3, 4]);
    let mut scratch: Vec<u8> = Vec::new();
    assert!(channel.client_receive(&mut scratch).is_ok());

    // 100 ms later is not yet past the interval: throttled even though a
    // request waits.
    channel.client_send(&Vec::new()).unwrap();
    let frame2 = vec![5, 6, 7, 8];
    assert_eq!(
        pacer.publish_frame(&mut channel, &mut ns, &shm, 1100, &frame2),
        PublishOutcome::Throttled
    );
    assert_eq!(shm.read_bytes(&ns), vec![1, 2, 3, 4]);

    // 101 ms later is past it: delivered.
    assert_eq!(
        pacer.publish_frame(&mut channel, &mut ns, &shm, 1101, &frame2),
        PublishOutcome::Delivered
    );
    assert_eq!(shm.read_bytes(&ns), vec![5, 6, 7, 8]);
}

#[test]
fn stream_end_restarts_only_in_looping_mode() {
    let mut pacer = FramePacer::new();
    let mut ns = ShmNamespace::new();
    let shm = SharedMemory::open_or_create(&mut ns, 8, 4).unwrap();
    let mut channel = SyncChannel::new(8);
    channel.open_server();
    channel.open_client().unwrap();
    channel.client_send(&Vec::new()).unwrap();
    pacer.publish_frame(&mut channel, &mut ns, &shm, 5000, &vec![0, 0, 0, 0]);

    assert!(!pacer.on_stream_end());

    pacer.set_infinite_loop(true);
    assert!(pacer.infinite_loop());
    // The restart resets the timing state: the next frame counts as the
    // first again, whatever its timestamp.
    assert!(pacer.on_stream_end());
    assert!(pacer.should_deliver(1));
}

#[test]
fn run_mode_switches_are_independent() {
    let mut pacer = FramePacer::new();
    assert!(!pacer.skip_sleep());
    pacer.set_skip_sleep(true);
    assert!(pacer.skip_sleep());
    assert!(!pacer.infinite_loop());
    pacer.set_infinite_loop(true);
    assert!(pacer.skip_sleep());
    assert!(pacer.infinite_loop());
}
