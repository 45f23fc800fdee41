use tppocr::shared_memory::{SharedMemory, ShmError, ShmNamespace};

#[test]
fn test_read_write() {
    let mut ns = ShmNamespace::new();
    let shared_memory = SharedMemory::open_or_create(&mut ns, 123, 100).unwrap();

    shared_memory.lock(&mut ns);
    shared_memory.write_byte(&mut ns, 4, 2);
    assert_eq!(shared_memory.read_byte(&ns, 4), 2);
    shared_memory.unlock(&mut ns);
    shared_memory.unlink(&mut ns).unwrap();
}

#[test]
fn write_is_visible_through_second_attachment() {
    let mut ns = ShmNamespace::new();
    let writer = SharedMemory::open_or_create(&mut ns, 7, 64).unwrap();
    let reader = SharedMemory::open(&mut ns, 7, 64).unwrap();
    writer.write_byte(&mut ns, 10, 0xAB);
    assert_eq!(reader.read_byte(&ns, 10), 0xAB);
    // Visible until the segment is unlinked; afterwards late binders fail.
    writer.unlink(&mut ns).unwrap();
    assert_eq!(SharedMemory::open(&mut ns, 7, 64).err(), Some(ShmError::NotFound));
}

#[test]
fn segment_is_zero_filled_at_creation() {
    let mut ns = ShmNamespace::new();
    let m = SharedMemory::open_or_create(&mut ns, 1, 16).unwrap();
    for k in 0..16 {
        assert_eq!(m.read_byte(&ns, k), 0);
    }
}

#[test]
fn reopening_attaches_to_the_same_bytes() {
    let mut ns = ShmNamespace::new();
    let first = SharedMemory::open_or_create(&mut ns, 9, 32).unwrap();
    first.write_byte(&mut ns, 0, 42);
    // A process restart re-runs open_or_create under the same id and sees
    // the committed data instead of a fresh segment.
    let again = SharedMemory::open_or_create(&mut ns, 9, 32).unwrap();
    assert_eq!(again.read_byte(&ns, 0), 42);
}

#[test]
fn open_requires_existing_segment_of_matching_size() {
    let mut ns = ShmNamespace::new();
    assert_eq!(SharedMemory::open(&mut ns, 5, 100).err(), Some(ShmError::NotFound));
    let _keep = SharedMemory::open_or_create(&mut ns, 5, 100).unwrap();
    assert_eq!(SharedMemory::open(&mut ns, 5, 64).err(), Some(ShmError::SizeMismatch));
    assert_eq!(SharedMemory::open_or_create(&mut ns, 5, 64).err(), Some(ShmError::SizeMismatch));
    assert!(SharedMemory::open(&mut ns, 5, 100).is_ok());
}

#[test]
fn double_unlink_is_reported() {
    let mut ns = ShmNamespace::new();
    let a = SharedMemory::open_or_create(&mut ns, 3, 8).unwrap();
    let b = SharedMemory::open(&mut ns, 3, 8).unwrap();
    assert!(a.unlink(&mut ns).is_ok());
    assert_eq!(b.unlink(&mut ns).err(), Some(ShmError::AlreadyUnlinked));
}

#[test]
fn only_an_owning_handle_cleans_up_on_detach() {
    let mut ns = ShmNamespace::new();
    let mut owner = SharedMemory::open_or_create(&mut ns, 11, 8).unwrap();
    assert!(!owner.unlink_on_drop());
    owner.set_unlink_on_drop(true);
    assert!(owner.unlink_on_drop());
    let attacher = SharedMemory::open(&mut ns, 11, 8).unwrap();
    // The attaching handle leaves the name in place.
    attacher.detach(&mut ns);
    assert!(SharedMemory::open(&mut ns, 11, 8).is_ok());
    // The owning handle removes it.
    owner.detach(&mut ns);
    assert_eq!(SharedMemory::open(&mut ns, 11, 8).err(), Some(ShmError::NotFound));
}

#[test]
fn lock_roundtrip_reenables_second_locker() {
    let mut ns = ShmNamespace::new();
    let first = SharedMemory::open_or_create(&mut ns, 2, 8).unwrap();
    let second = SharedMemory::open(&mut ns, 2, 8).unwrap();
    first.lock(&mut ns);
    first.unlock(&mut ns);
    // Once the first critical section completes, another attachment's
    // lock proceeds.
    second.lock(&mut ns);
    second.unlock(&mut ns);
    first.lock(&mut ns);
    first.unlock(&mut ns);
}

#[test]
fn word_view_reads_little_endian_bytes() {
    let mut ns = ShmNamespace::new();
    let m = SharedMemory::open_or_create(&mut ns, 4, 8).unwrap();
    assert_eq!(m.word_len(), 2);
    m.write_byte(&mut ns, 0, 0x78);
    m.write_byte(&mut ns, 1, 0x56);
    m.write_byte(&mut ns, 2, 0x34);
    m.write_byte(&mut ns, 3, 0x12);
    assert_eq!(m.read_word(&ns, 0), 0x1234_5678);
    m.write_word(&mut ns, 1, 0xAABB_CCDD);
    assert_eq!(m.read_byte(&ns, 4), 0xDD);
    assert_eq!(m.read_byte(&ns, 5), 0xCC);
    assert_eq!(m.read_byte(&ns, 6), 0xBB);
    assert_eq!(m.read_byte(&ns, 7), 0xAA);
    assert_eq!(m.read_word(&ns, 1), 0xAABB_CCDD);
}

#[test]
fn bulk_views_roundtrip() {
    let mut ns = ShmNamespace::new();
    let m = SharedMemory::open_or_create(&mut ns, 6, 8).unwrap();
    m.write_bytes(&mut ns, &vec![1, 2, 3, 4, 5, 6, 7, 8]);
    assert_eq!(m.read_bytes(&ns), vec![1, 2, 3, 4, 5, 6, 7, 8]);
    let words = m.read_words(&ns);
    assert_eq!(words, vec![0x0403_0201, 0x0807_0605]);
    m.write_words(&mut ns, &vec![0x1111_2222, 0x3333_4444]);
    assert_eq!(m.read_bytes(&ns), vec![0x22, 0x22, 0x11, 0x11, 0x44, 0x44, 0x33, 0x33]);
}

#[test]
fn segments_under_different_ids_are_independent() {
    let mut ns = ShmNamespace::new();
    let a = SharedMemory::open_or_create(&mut ns, 100, 4).unwrap();
    let b = SharedMemory::open_or_create(&mut ns, 200, 4).unwrap();
    a.write_byte(&mut ns, 0, 1);
    b.write_byte(&mut ns, 0, 2);
    assert_eq!(a.read_byte(&ns, 0), 1);
    assert_eq!(b.read_byte(&ns, 0), 2);
    b.unlink(&mut ns).unwrap();
    assert_eq!(a.read_byte(&ns, 0), 1);
}
