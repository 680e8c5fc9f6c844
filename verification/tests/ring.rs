use macos_bridge::shared_memory::{
    frame_offset, total_size, FrameHeader, FrameState, SharedMemory, MAX_FRAME_SIZE, NUM_BUFFERS,
    SHM_MAGIC, SHM_VERSION, STATE_EMPTY, STATE_ENCODING, STATE_READY, STATE_WRITING,
};

fn small_header() -> FrameHeader {
    FrameHeader {
        width: 2,
        height: 2,
        stride: 8,
        timestamp_ns: 42,
        frame_number: 1,
        is_idr: 1,
        pose: [0u32; 12],
    }
}

#[test]
fn total_size_formula() {
    // align_up(sizeof(header), 4096) + NUM_BUFFERS * MAX_FRAME_SIZE
    assert_eq!(MAX_FRAME_SIZE, 4096 * 2048 * 4);
    assert_eq!(NUM_BUFFERS, 3);
    assert_eq!(total_size(), 4096 + 3 * MAX_FRAME_SIZE);
    assert_eq!(total_size(), 100_667_392);
}

#[test]
fn frame_offsets_are_page_aligned() {
    assert_eq!(frame_offset(0), 4096);
    assert_eq!(frame_offset(1), 4096 + MAX_FRAME_SIZE);
    assert_eq!(frame_offset(2), 4096 + 2 * MAX_FRAME_SIZE);
    assert_eq!(frame_offset(3), total_size());
    for i in 0..=3 {
        assert_eq!(frame_offset(i) % 4096, 0);
    }
}

#[test]
fn frame_state_words() {
    assert_eq!(FrameState::Empty.as_u32(), STATE_EMPTY);
    assert_eq!(FrameState::Writing.as_u32(), STATE_WRITING);
    assert_eq!(FrameState::Ready.as_u32(), STATE_READY);
    assert_eq!(FrameState::Encoding.as_u32(), STATE_ENCODING);
    assert_eq!(FrameState::from_u32(2), Some(FrameState::Ready));
    assert_eq!(FrameState::from_u32(7), None);
}

#[test]
fn create_initial_state() {
    let shm = SharedMemory::create();
    let h = shm.header();
    assert_eq!(h.magic, SHM_MAGIC);
    assert_eq!(h.version, SHM_VERSION);
    assert_eq!(h.initialized, 1);
    assert_eq!(h.shutdown, 0);
    assert_eq!(h.config_set, 0);
    assert_eq!(h.frames_written, 0);
    assert_eq!(h.frames_encoded, 0);
    assert_eq!(h.frames_dropped, 0);
    assert!(!shm.is_configured());
    assert!(shm.get_config().is_none());
    assert_eq!(shm.states, vec![STATE_EMPTY; 3]);
}

#[test]
fn config_snapshot() {
    let mut shm = SharedMemory::create();
    shm.set_config(1920, 1080, 0x27);
    assert!(shm.is_configured());
    assert_eq!(shm.get_config(), Some((1920, 1080, 0x27)));
}

#[test]
fn acquire_on_all_empty_returns_none() {
    let mut shm = SharedMemory::create();
    let states_before = shm.states.clone();
    assert!(shm.try_acquire_frame().is_none());
    assert_eq!(shm.states, states_before);
}

#[test]
fn acquire_single_ready_buffer() {
    let mut shm = SharedMemory::create();
    let fh = small_header();
    let data: Vec<u8> = (0u8..16).collect();
    assert!(shm.producer_try_write(1));
    shm.producer_publish(1, fh, data.clone());
    assert_eq!(shm.states[1], STATE_READY);

    let (idx, got, pixels) = shm.try_acquire_frame().expect("one buffer is ready");
    assert_eq!(idx, 1);
    assert_eq!(got.width, 2);
    assert_eq!(got.height, 2);
    assert_eq!(got.stride, 8);
    assert_eq!(got.timestamp_ns, 42);
    assert_eq!(got.frame_number, 1);
    assert_eq!(got.is_idr, 1);
    // Round trip: the bytes read equal the bytes published.
    assert_eq!(pixels, data);
    assert_eq!(shm.states[1], STATE_ENCODING);
}

#[test]
fn acquire_scans_in_fixed_order() {
    let mut shm = SharedMemory::create();
    let fh = small_header();
    for i in [0usize, 2usize] {
        assert!(shm.producer_try_write(i));
        shm.producer_publish(i, fh, vec![7u8; 16]);
    }
    let (idx, _, _) = shm.try_acquire_frame().unwrap();
    assert_eq!(idx, 0);
    let (idx2, _, _) = shm.try_acquire_frame().unwrap();
    assert_eq!(idx2, 2);
}

#[test]
fn release_frame_updates_counters() {
    let mut shm = SharedMemory::create();
    let fh = small_header();
    assert!(shm.producer_try_write(0));
    shm.producer_publish(0, fh, vec![1u8; 16]);
    let (idx, _, _) = shm.try_acquire_frame().unwrap();
    shm.release_frame(idx);
    assert_eq!(shm.states[0], STATE_EMPTY);
    assert_eq!(shm.header().frames_encoded, 1);
    assert_eq!(shm.header().read_sequence, 1);
}

#[test]
fn shutdown_is_idempotent() {
    let mut shm = SharedMemory::create();
    shm.shutdown();
    assert_eq!(shm.header().shutdown, 1);
    shm.shutdown();
    assert_eq!(shm.header().shutdown, 1);
}

#[test]
fn unknown_state_word_is_skipped() {
    // A state word outside the protocol is ignored by the scan and nothing
    // is mutated.
    let mut shm = SharedMemory::create();
    shm.producer_store_state(0, 7);
    assert!(shm.try_acquire_frame().is_none());
    assert_eq!(shm.states[0], 7);
    assert_eq!(shm.states[1], STATE_EMPTY);
}

#[test]
fn no_double_owner() {
    // The two claims compare against different state words, so a buffer one
    // side holds never matches the other side's compare-exchange.
    let mut shm = SharedMemory::create();
    let fh = small_header();
    assert!(shm.producer_try_write(0));
    // While the producer holds buffer 0 (Writing), the consumer cannot
    // acquire it.
    assert!(shm.try_acquire_frame().is_none());
    shm.producer_publish(0, fh, vec![0u8; 16]);
    let (idx, _, _) = shm.try_acquire_frame().unwrap();
    assert_eq!(idx, 0);
    // While the consumer holds buffer 0 (Encoding), the producer cannot
    // claim it.
    assert!(!shm.producer_try_write(0));
    shm.release_frame(0);
    assert!(shm.producer_try_write(0));
}

#[test]
fn producer_drop_counter() {
    let mut shm = SharedMemory::create();
    shm.producer_add_dropped(5);
    assert_eq!(shm.header().frames_dropped, 5);
    shm.producer_add_dropped(3);
    assert_eq!(shm.header().frames_dropped, 8);
}

#[test]
fn publish_bumps_producer_counters() {
    let mut shm = SharedMemory::create();
    let fh = small_header();
    assert!(shm.producer_try_write(2));
    shm.producer_publish(2, fh, vec![9u8; 16]);
    assert_eq!(shm.header().frames_written, 1);
    assert_eq!(shm.header().write_sequence, 1);
}

#[test]
fn full_buffer_cycle_repeats() {
    // Empty -> Writing -> Ready -> Encoding -> Empty, twice over the same
    // buffer.
    let mut shm = SharedMemory::create();
    for round in 1..=2u64 {
        let mut fh = small_header();
        fh.frame_number = round;
        assert!(shm.producer_try_write(0));
        assert_eq!(shm.states[0], STATE_WRITING);
        shm.producer_publish(0, fh, vec![round as u8; 16]);
        assert_eq!(shm.states[0], STATE_READY);
        let (idx, got, pixels) = shm.try_acquire_frame().unwrap();
        assert_eq!(idx, 0);
        assert_eq!(got.frame_number, round);
        assert_eq!(pixels, vec![round as u8; 16]);
        assert_eq!(shm.states[0], STATE_ENCODING);
        shm.release_frame(0);
        assert_eq!(shm.states[0], STATE_EMPTY);
    }
    assert_eq!(shm.header().frames_encoded, 2);
    assert_eq!(shm.header().frames_written, 2);
}

#[test]
fn oversized_ready_buffer_is_passed_over() {
    // A Ready buffer advertising more than one pixel region holds is a
    // protocol violation: the scan passes it over without touching it.
    let mut shm = SharedMemory::create();
    let oversized = FrameHeader {
        width: 4096,
        height: 3000,
        stride: 20000,
        timestamp_ns: 1,
        frame_number: 1,
        is_idr: 0,
        pose: [0u32; 12],
    };
    assert!((oversized.height as u64) * (oversized.stride as u64) > MAX_FRAME_SIZE as u64);
    shm.producer_store_header(0, oversized);
    shm.producer_store_state(0, STATE_READY);
    assert!(shm.try_acquire_frame().is_none());
    assert_eq!(shm.states[0], STATE_READY);
}

#[test]
fn scan_continues_past_oversized_buffer() {
    // The violating buffer is skipped and a later well-formed Ready buffer
    // is still claimed.
    let mut shm = SharedMemory::create();
    let oversized = FrameHeader {
        width: 4096,
        height: 3000,
        stride: 20000,
        timestamp_ns: 1,
        frame_number: 1,
        is_idr: 0,
        pose: [0u32; 12],
    };
    shm.producer_store_header(0, oversized);
    shm.producer_store_state(0, STATE_READY);
    assert!(shm.producer_try_write(2));
    shm.producer_publish(2, small_header(), vec![3u8; 16]);

    let (idx, got, pixels) = shm.try_acquire_frame().unwrap();
    assert_eq!(idx, 2);
    assert_eq!(got.frame_number, 1);
    assert_eq!(pixels, vec![3u8; 16]);
    assert_eq!(shm.states[0], STATE_READY);
    assert_eq!(shm.states[2], STATE_ENCODING);
}

#[test]
fn new_encoder_planes_start_zeroed() {
    let enc = macos_bridge::encoder::HevcEncoder::new(4, 4);
    assert!(enc.y_plane.iter().all(|&b| b == 0));
    assert!(enc.u_plane.iter().all(|&b| b == 0));
    assert!(enc.v_plane.iter().all(|&b| b == 0));
}
