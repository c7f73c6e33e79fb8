use phtm::transport::{accept_frame, is_topic_frame, BrokerConfig, TOPIC_FRAME_MARKER};

#[test]
fn topic_frames_are_discarded_by_the_reader() {
    assert_eq!(TOPIC_FRAME_MARKER, b'T');
    let topic_frame = vec![b'T', b'0', b'0', b'2', b'.', b'0', b'0', b'2'];
    assert!(is_topic_frame(&topic_frame));
    assert!(accept_frame(topic_frame).is_none());
}

#[test]
fn data_frames_are_handed_on_verbatim() {
    let data_frame = vec![0u8, 7, 0, 2, 0, 2, 0, 0, 0b0000_1000];
    assert!(!is_topic_frame(&data_frame));
    let message = accept_frame(data_frame.clone()).unwrap();
    assert_eq!(message.data, data_frame);
    // an empty frame is not a topic frame
    let message = accept_frame(vec![]).unwrap();
    assert!(message.data.is_empty());
}

#[test]
fn broker_config_holds_the_default_topology() {
    let config = BrokerConfig::new();
    assert_eq!(config.inbound, "tcp://*:6000");
    assert_eq!(config.outbound, "tcp://*:5555");
    assert_eq!(config.capture, "inproc://trace");
}
