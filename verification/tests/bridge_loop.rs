use macos_bridge::bridge::{
    flush_sends, handle_encode_result, should_exit, BridgeError, BridgeState, SessionEvent,
    DEFAULT_BITRATE_BPS, DEFAULT_FPS,
};
use macos_bridge::encoder::{EncodedFrameData, EncodedOutput, HevcEncoder};
use macos_bridge::shared_memory::{FrameHeader, SharedMemory, STATE_EMPTY};

fn keyframe_data(payload: &[u8]) -> EncodedFrameData {
    let mut data = (payload.len() as u32).to_be_bytes().to_vec();
    data.extend_from_slice(payload);
    EncodedFrameData {
        data,
        keyframe: true,
        vps_list: vec![vec![0x40, 0x01]],
        sps_list: vec![vec![0x42, 0x01]],
        pps_list: vec![vec![0x44, 0x01]],
    }
}

fn pframe_data(payload: &[u8]) -> EncodedFrameData {
    let mut data = (payload.len() as u32).to_be_bytes().to_vec();
    data.extend_from_slice(payload);
    EncodedFrameData {
        data,
        keyframe: false,
        vps_list: vec![],
        sps_list: vec![],
        pps_list: vec![],
    }
}

#[test]
fn defaults_match_session_settings() {
    assert_eq!(DEFAULT_BITRATE_BPS, 30_000_000);
    assert_eq!(DEFAULT_FPS, 72);
}

#[test]
fn initial_state_forces_idr() {
    let s = BridgeState::new();
    assert!(!s.client_connected);
    assert!(s.force_idr);
}

#[test]
fn event_handling() {
    let mut s = BridgeState::new();
    s.handle_event(SessionEvent::ClientConnected);
    assert!(s.client_connected);
    assert!(s.force_idr);
    s.force_idr = false;
    s.handle_event(SessionEvent::Other);
    assert!(!s.force_idr);
    s.handle_event(SessionEvent::RequestIDR);
    assert!(s.force_idr);
    s.handle_event(SessionEvent::ClientDisconnected);
    assert!(!s.client_connected);
}

#[test]
fn reconnect_triggers_idr() {
    // While streaming P-frames, a disconnect followed by a connect demands
    // an IDR: the next encode request carries it, and the next output is
    // forwarded as a keyframe.
    let mut s = BridgeState::new();
    let mut enc = HevcEncoder::new(2, 2);
    enc.mark_config_sent();
    s.handle_event(SessionEvent::ClientConnected);
    let p = enc.process_encoded_frame(&pframe_data(&[1, 2]));
    handle_encode_result(&mut s, &mut enc, Some(p), 10);
    assert!(!s.force_idr);

    s.handle_event(SessionEvent::ClientDisconnected);
    s.handle_event(SessionEvent::ClientConnected);
    assert!(s.force_idr);
    assert!(s.want_idr(0));
    let k = enc.process_encoded_frame(&keyframe_data(&[3, 4]));
    let actions = handle_encode_result(&mut s, &mut enc, Some(k), 20);
    let sent = actions.nal_to_send.expect("client connected");
    assert!(sent.is_keyframe);
    assert!(!s.force_idr);
}

#[test]
fn drop_accounting_warns_once_per_delta() {
    // The producer reports 5 more drops between two iterations: exactly one
    // warning delta of 5, and the baseline moves up.
    let mut s = BridgeState::new();
    let mut shm = SharedMemory::create();
    shm.producer_add_dropped(5);
    assert_eq!(s.note_drops(shm.header().frames_dropped), Some(5));
    assert_eq!(s.note_drops(shm.header().frames_dropped), None);
    shm.producer_add_dropped(3);
    assert_eq!(s.note_drops(shm.header().frames_dropped), Some(3));
    assert_eq!(s.frames_dropped_seen, 8);
}

#[test]
fn shutdown_flag_exits_loop() {
    let mut shm = SharedMemory::create();
    assert!(!should_exit(shm.header().shutdown));
    shm.shutdown();
    assert!(should_exit(shm.header().shutdown));
}

#[test]
fn flush_forwards_only_while_connected() {
    let outputs = vec![
        EncodedOutput { nal_data: vec![0, 0, 0, 1, 5], is_keyframe: false, config_nals: None },
        EncodedOutput { nal_data: vec![0, 0, 0, 1, 6], is_keyframe: true, config_nals: None },
    ];
    let sends = flush_sends(outputs, true);
    assert_eq!(sends.len(), 2);
    assert_eq!(sends[0].timestamp_ns, 0);
    assert_eq!(sends[0].nal_data, vec![0, 0, 0, 1, 5]);
    assert!(!sends[0].is_keyframe);
    assert!(sends[1].is_keyframe);

    let outputs2 = vec![
        EncodedOutput { nal_data: vec![0, 0, 0, 1, 5], is_keyframe: false, config_nals: None },
    ];
    assert!(flush_sends(outputs2, false).is_empty());
}

#[test]
fn pre_client_grace_keeps_idr_latch() {
    // Frames flow before any client connects: the encoder runs, nothing is
    // sent, and the force-IDR latch stays set.
    let mut s = BridgeState::new();
    let mut enc = HevcEncoder::new(2, 2);
    let k = enc.process_encoded_frame(&keyframe_data(&[1]));
    let actions = handle_encode_result(&mut s, &mut enc, Some(k), 5);
    assert!(actions.nal_to_send.is_none());
    assert!(s.force_idr);
}

#[test]
fn warmup_none_output_changes_nothing() {
    let mut s = BridgeState::new();
    s.handle_event(SessionEvent::ClientConnected);
    let mut enc = HevcEncoder::new(2, 2);
    let actions = handle_encode_result(&mut s, &mut enc, None, 5);
    assert!(actions.config_to_send.is_none());
    assert!(actions.nal_to_send.is_none());
    assert!(s.force_idr);
    assert!(!enc.config_sent);
}

#[test]
fn config_sent_latch_fires_once() {
    // Two consecutive keyframes both carry config NALs; the config channel
    // is used exactly once, on the first.
    let mut s = BridgeState::new();
    s.handle_event(SessionEvent::ClientConnected);
    let mut enc = HevcEncoder::new(2, 2);

    let k1 = enc.process_encoded_frame(&keyframe_data(&[1]));
    assert!(k1.config_nals.is_some());
    let a1 = handle_encode_result(&mut s, &mut enc, Some(k1), 1);
    assert!(a1.config_to_send.is_some());
    assert!(enc.config_sent());

    let k2 = enc.process_encoded_frame(&keyframe_data(&[2]));
    assert!(k2.config_nals.is_some());
    let a2 = handle_encode_result(&mut s, &mut enc, Some(k2), 2);
    assert!(a2.config_to_send.is_none());
    assert!(a2.nal_to_send.is_some());
}

#[test]
fn configured_single_frame_end_to_end() {
    // Producer configures, publishes one gray IDR-flagged frame; the bridge
    // acquires it, converts it, processes a drained keyframe, sends config
    // and frame, and the buffer returns to Empty.
    let mut shm = SharedMemory::create();
    shm.set_config(2, 2, 0);
    let (w, h, _) = shm.get_config().unwrap();
    let mut enc = HevcEncoder::new(w, h);
    let mut s = BridgeState::new();
    s.handle_event(SessionEvent::ClientConnected);

    let gray = [128u8, 128, 128, 255].repeat(4);
    let fh = FrameHeader {
        width: 2,
        height: 2,
        stride: 8,
        timestamp_ns: 777,
        frame_number: 1,
        is_idr: 1,
        pose: [0u32; 12],
    };
    assert!(shm.producer_try_write(0));
    shm.producer_publish(0, fh, gray);

    let (idx, header, pixels) = shm.try_acquire_frame().unwrap();
    assert!(s.want_idr(header.is_idr));
    enc.bgra_to_i420(&pixels);
    assert_eq!(enc.y_plane, vec![126; 4]);

    let drained = keyframe_data(&[0x26, 0x01]);
    let output = enc.process_encoded_frame(&drained);
    assert!(output.is_keyframe);
    let actions = handle_encode_result(&mut s, &mut enc, Some(output), header.timestamp_ns);

    let config = actions.config_to_send.expect("first keyframe carries config");
    assert!(!config.is_empty());
    assert_eq!(
        config,
        vec![0, 0, 0, 1, 0x40, 0x01, 0, 0, 0, 1, 0x42, 0x01, 0, 0, 0, 1, 0x44, 0x01]
    );
    let sent = actions.nal_to_send.expect("client connected");
    assert_eq!(sent.timestamp_ns, 777);
    assert_eq!(sent.nal_data, vec![0, 0, 0, 1, 0x26, 0x01]);
    assert!(sent.is_keyframe);

    shm.release_frame(idx);
    assert_eq!(shm.states[idx], STATE_EMPTY);
    s.count_frame();
    assert_eq!(s.frames_processed, 1);
}

#[test]
fn error_kinds_fatality() {
    assert!(BridgeError::RingCreate.is_fatal());
    assert!(BridgeError::ProducerTimeout.is_fatal());
    assert!(BridgeError::EncoderInit.is_fatal());
    assert!(!BridgeError::EncodeSubmit.is_fatal());
    assert!(!BridgeError::EncodeDrain.is_fatal());
    assert!(!BridgeError::MalformedBitstream.is_fatal());
    assert!(!BridgeError::ProtocolViolation.is_fatal());
}

#[test]
fn non_keyframe_carries_no_config() {
    let enc = HevcEncoder::new(2, 2);
    let out = enc.process_encoded_frame(&pframe_data(&[9]));
    assert!(!out.is_keyframe);
    assert!(out.config_nals.is_none());
    assert_eq!(out.nal_data, vec![0, 0, 0, 1, 9]);
}
