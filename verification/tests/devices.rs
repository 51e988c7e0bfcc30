use lib::drivers::audio::{
    bdl_control, bdl_entries, codec_ready, contract_self_check as audio_self_check, pcm_bytes,
    poll_action, valid_samples, AudioError, PcmFormat, PollAction, BDL_IOC,
};
use lib::drivers::network::{
    check_queue_size, check_queue_sizes, contract_self_check as net_self_check, negotiate,
    queue_layout, valid_packet, NetError, NetState, QueueIndex,
};

#[test]
fn network_self_check_runs() {
    net_self_check();
}

#[test]
fn audio_self_check_runs() {
    audio_self_check();
}

#[test]
fn network_frames_and_queues() {
    assert!(valid_packet(14) && valid_packet(1514));
    assert!(!valid_packet(13) && !valid_packet(1515));
    assert_eq!(queue_layout(256), Some((4096, 8192, 8192 + 4 + 2048)));
    assert_eq!(check_queue_size(3), Err(NetError::InvalidQueue));
    assert_eq!(check_queue_sizes(2, 1), Err(NetError::InvalidQueue));
    assert_eq!(check_queue_sizes(4, 1), Ok(()));
    assert_eq!(negotiate(0x1_0020 | 0x4), Ok(0x1_0020));
    assert_eq!(negotiate(0x20), Err(NetError::UnsupportedFeatures));
}

#[test]
fn network_queue_indices() {
    let mut queue = QueueIndex::new(4);
    assert_eq!(queue.publish(), (0, 1));
    assert_eq!(queue.publish(), (1, 2));
    assert_eq!(queue.take_used(0), Ok(None));
    assert_eq!(queue.take_used(9), Err(NetError::InvalidQueue));
    assert_eq!(queue.take_used(2), Ok(Some(0)));
    assert_eq!(queue.take_used(2), Ok(Some(1)));
    assert_eq!(queue.take_used(2), Ok(None));
}

#[test]
fn network_transmit_and_receive() {
    let mut state = NetState::new(true);
    assert_eq!(state.start_transmit(10), Err(NetError::InvalidPacket));
    assert_eq!(state.start_transmit(20), Ok(60));
    assert_eq!(state.start_transmit(100), Err(NetError::Busy));
    state.tx_completed(3);
    assert!(state.tx_busy);
    state.tx_completed(0);
    assert!(!state.tx_busy);
    assert_eq!(state.tx_packets, 1);
    assert_eq!(state.start_transmit(100), Ok(100));
    assert_eq!(state.received(4, 100, 2048), Err(NetError::InvalidPacket));
    assert_eq!(state.received(0, 5, 2048), Err(NetError::InvalidPacket));
    assert_eq!(state.received(0, 110, 50), Err(NetError::BufferTooSmall));
    assert_eq!(state.received(1, 110, 2048), Ok(100));
    assert_eq!((state.rx_packets, state.rx_dropped), (1, 3));
}

#[test]
fn audio_buffers() {
    let format = PcmFormat::stereo_s16_48k();
    assert_eq!((format.sample_rate, format.channels, format.bits), (48_000, 2, 16));
    assert_eq!(bdl_control(4096), BDL_IOC | 2048);
    assert!(valid_samples(2) && valid_samples(2048));
    assert!(!valid_samples(1) && !valid_samples(0) && !valid_samples(2050));
    assert_eq!(bdl_entries(&[0x1000, 0x2000]), vec![(0x1000, BDL_IOC | 2048), (0x2000, BDL_IOC | 2048)]);
    assert_eq!(pcm_bytes(&[1, -2]), vec![1, 0, 0xfe, 0xff]);
    assert_eq!(poll_action(0x10), (PollAction::RecoverFifo, false));
    assert_eq!(poll_action(0x01), (PollAction::RecoverHalted, false));
    assert_eq!(poll_action(0x04), (PollAction::RecoverHalted, false));
    assert_eq!(poll_action(0x08), (PollAction::Acknowledge, false));
    assert_eq!(poll_action(0), (PollAction::Idle, true));
    assert_eq!(codec_ready(0x100), Ok(()));
    assert_eq!(codec_ready(0), Err(AudioError::CodecUnavailable));
}
