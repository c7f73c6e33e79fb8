use phtm::message::Message;
use phtm::msg::{
    CMD_OFFSET, DEF_PL_SIZE, ID_OFFSET, KEY_OFFSET, MessageCommand, MessageKey, MessageType,
    PAYLOAD_OFFSET, TYPE_OFFSET,
};

#[test]
fn test_set_payload_bit() {
    let byte = 3;
    let offset = PAYLOAD_OFFSET + byte;
    let input: u8 = 0b0000_1111;
    let idx = (byte << 3) + 5;
    let expected: u8 = 0b0010_1111;
    let mut m = Message {
        data: vec![0; DEF_PL_SIZE + PAYLOAD_OFFSET],
    };
    m.data[offset] = input;
    m.set_payload_bit(&(idx as usize)); // Set 0 to 1
    assert_eq!(m.data[offset], expected);
    m.set_payload_bit(&((idx - 3) as usize)); // 1 remains set
    assert_eq!(m.data[offset], expected);
}

#[test]
fn test_unset_payload_bit() {
    let byte = 3;
    let offset = PAYLOAD_OFFSET + byte;
    let input: u8 = 0b0000_1111;
    let idx = (byte << 3) + 0;
    let expected: u8 = 0b0000_1110;
    let mut m = Message {
        data: vec![0; DEF_PL_SIZE + PAYLOAD_OFFSET],
    };
    m.data[offset] = input;
    m.clear_payload_bit(&(idx as usize)); // Set 1 to 0
    assert_eq!(m.data[offset], expected);
    m.clear_payload_bit(&((idx + 5) as usize)); // 0 remains set
    assert_eq!(m.data[offset], expected);
}

#[test]
fn encode_header_and_decode_yields_type_cmd_topic() {
    let mut m = Message { data: vec![] };
    m.create_header(
        MessageType::DATA,
        MessageCommand::WRITE,
        MessageKey::UNDEFINED,
    );
    m.set_prop(&ID_OFFSET, &7u16);
    let bits: Vec<bool> = vec![
        true, false, true, true, false, false, true, false, false, true, false, false, true, true,
        false, true,
    ];
    m.encode_payload(&bits);
    assert_eq!(m.data.len(), PAYLOAD_OFFSET + DEF_PL_SIZE);
    assert_eq!(m.get_prop(&ID_OFFSET), 7);
    assert_eq!(m.get_type(), Some(MessageType::DATA));
    assert_eq!(m.get_cmd(), Some(MessageCommand::WRITE));
    assert_eq!(m.get_key(), Some(MessageKey::UNDEFINED));
    assert_eq!(m.get_topic(), "T002.002");
    let mut decoded = vec![false; 16];
    m.parse_to(&mut decoded);
    assert_eq!(decoded, bits);
}

#[test]
fn set_payload_bit_three_sets_first_payload_byte() {
    let mut m = Message {
        data: vec![0; PAYLOAD_OFFSET + DEF_PL_SIZE],
    };
    m.set_payload_bit(&3usize);
    assert_eq!(m.data[PAYLOAD_OFFSET], 0b0000_1000);
    m.clear_payload_bit(&3usize);
    assert_eq!(m.data[PAYLOAD_OFFSET], 0b0000_0000);
}

#[test]
fn round_trip_of_a_sparse_pattern() {
    let mut m = Message { data: vec![] };
    m.create_header(
        MessageType::DATA,
        MessageCommand::INPUT,
        MessageKey::D_INPUT,
    );
    let mut bits = vec![false; 512 * 8];
    bits[0] = true;
    bits[7] = true;
    bits[8] = true;
    bits[100] = true;
    bits[511 * 8 + 7] = true;
    m.encode_payload(&bits);
    let mut decoded = vec![false; 512 * 8];
    m.parse_to(&mut decoded);
    assert_eq!(decoded, bits);
}

#[test]
fn topic_depends_only_on_type_and_cmd() {
    let mut a = Message { data: vec![] };
    a.create_header(
        MessageType::CONFIGURATION,
        MessageCommand::INPUT,
        MessageKey::C_ACTBTS,
    );
    a.set_prop(&ID_OFFSET, &1u16);
    let mut b = Message { data: vec![] };
    b.create_header(
        MessageType::CONFIGURATION,
        MessageCommand::INPUT,
        MessageKey::D_SPOOL,
    );
    b.set_prop(&ID_OFFSET, &9999u16);
    b.set_payload_bit(&5usize);
    assert_eq!(a.get_topic(), "T001.005");
    assert_eq!(a.get_topic(), b.get_topic());
    b.set_cmd(MessageCommand::READ);
    assert_eq!(b.get_topic(), "T001.001");
}

#[test]
fn out_of_range_bit_writes_are_dropped() {
    let mut m = Message {
        data: vec![0xAA; PAYLOAD_OFFSET + 1],
    };
    let before = m.data.clone();
    // byte offset (8 >> 3) + 8 == 9 == len: dropped
    m.set_payload_bit(&8usize);
    assert_eq!(m.data, before);
    m.clear_payload_bit(&8usize);
    assert_eq!(m.data, before);
    m.set_payload_bit(&usize::MAX);
    assert_eq!(m.data, before);
    // bit 7 still lands in the one payload byte
    m.set_payload_bit(&7usize);
    assert_eq!(m.data[PAYLOAD_OFFSET], 0xAA | 0x80);
}

#[test]
fn unknown_enum_values_decode_to_none() {
    assert_eq!(MessageType::from_u16(9), None);
    assert_eq!(MessageCommand::from_u16(7), None);
    assert_eq!(MessageKey::from_u16(4), None);
    assert_eq!(MessageKey::from_u16(1001), Some(MessageKey::D_INPUT));
    let mut m = Message { data: vec![0; 64] };
    m.set_prop(&TYPE_OFFSET, &9u16);
    assert_eq!(m.get_type(), None);
    let short = Message { data: vec![0; 3] };
    assert_eq!(short.get_type(), None);
    assert_eq!(short.get_cmd(), None);
    assert_eq!(short.get_key(), None);
}

#[test]
fn set_headers_writes_key_cmd_type() {
    let mut m = Message { data: vec![0; 64] };
    m.set_headers(&vec![1001, 2, 2]);
    assert_eq!(m.get_key(), Some(MessageKey::D_INPUT));
    assert_eq!(m.get_cmd(), Some(MessageCommand::WRITE));
    assert_eq!(m.get_type(), Some(MessageType::DATA));
    let mut partial = Message { data: vec![0; 64] };
    partial.set_headers(&vec![3]);
    assert_eq!(partial.get_key(), Some(MessageKey::C_SDRLEN));
    assert_eq!(partial.get_cmd(), Some(MessageCommand::RESERVED));
}

#[test]
fn set_payload_replaces_payload_and_drains_argument() {
    let mut m = Message { data: vec![0; 64] };
    m.set_prop(&KEY_OFFSET, &3u16);
    let mut payload = vec![9u8, 8, 7];
    m.set_payload(&mut payload);
    assert_eq!(m.data.len(), PAYLOAD_OFFSET + 3);
    assert_eq!(&m.data[PAYLOAD_OFFSET..], &[9u8, 8, 7]);
    assert_eq!(m.get_prop(&KEY_OFFSET), 3);
    assert!(payload.is_empty());
    // an undersized buffer is zero-padded up to the header first
    let mut small = Message { data: vec![1, 2] };
    let mut body = vec![5u8];
    small.set_payload(&mut body);
    assert_eq!(small.data, vec![1, 2, 0, 0, 0, 0, 0, 0, 5]);
}

#[test]
fn print_renders_header_fields_and_bytes() {
    let m = Message {
        data: vec![0, 7, 0, 2, 0, 2, 0, 0, 1, 2],
    };
    assert_eq!(
        m.print(),
        ">> MSG - ID: 7, TYPE: 2, CMD: 2, KEY: 0\nPAYLOAD: [0, 7, 0, 2, 0, 2, 0, 0, 1, 2]"
    );
    let short = Message { data: vec![0; 9] };
    assert_eq!(short.print(), "UNDEFINED");
}

#[test]
fn header_enums_carry_their_wire_values() {
    assert_eq!(MessageType::DATA.to_u16(), Some(2));
    assert_eq!(MessageType::NETWORK.to_u16(), Some(3));
    assert_eq!(MessageCommand::REPLICATE.to_u16(), Some(6));
    assert_eq!(MessageCommand::ACK.to_u16(), Some(4));
    assert_eq!(MessageKey::D_SPOOL.to_u16(), Some(1002));
    assert_eq!(phtm::msg::NodeType::SPATIAL_POOLER.to_u16(), Some(2));
    assert_eq!(phtm::msg::NodeType::from_u16(1), Some(phtm::msg::NodeType::SCALAR_ENCODER));
    assert_eq!(phtm::msg::NodeType::from_u16(3), None);
}

#[test]
fn get_topic_pads_fields_to_three_digits() {
    let mut m = Message { data: vec![0; 64] };
    m.set_prop(&TYPE_OFFSET, &1u16);
    m.set_prop(&CMD_OFFSET, &5u16);
    assert_eq!(m.get_topic(), "T001.005");
    m.set_prop(&TYPE_OFFSET, &123u16);
    m.set_prop(&CMD_OFFSET, &1002u16);
    assert_eq!(m.get_topic(), "T123.1002");
}
