use rayhunter::meshtastic::{build_text_packet, build_want_config, Channel, channel_line, ChannelRole, ChannelSettings, Config, Data, describe_from_radio, describe_undecodable, DeviceMetadata, encode_to_radio, extract_frames, frame_packet, FromRadio, LoRaConfig, MeshPacket, ModemPreset, MyNodeInfo, outgoing_frame, packet_line, PortNum, RegionCode, sent_text, ToRadio, FRAME_MAGIC, MAX_PAYLOAD};

fn empty_from_radio() -> FromRadio {
    FromRadio {
        id: 0,
        packet: None,
        my_info: None,
        config: None,
        config_complete_id: 0,
        channel: None,
        metadata: None,
    }
}

fn packet(from: u32, to: u32, decoded: Option<Data>) -> MeshPacket {
    MeshPacket { from, to, channel: 0, decoded, id: 0, hop_limit: 0 }
}

fn varint(value: u64) -> Vec<u8> {
    let mut out = Vec::new();
    prost::encoding::encode_varint(value, &mut out);
    out
}

#[test]
fn want_config_is_four_bytes() {
    assert_eq!(build_want_config(), vec![0x18, 0xad, 0xbd, 0x03]);
}

#[test]
fn text_packet_bytes() {
    assert_eq!(
        build_text_packet("hi"),
        vec![
            0x0a, 0x0f, // packet, 15 bytes
            0x15, 0xff, 0xff, 0xff, 0xff, // to: broadcast
            0x22, 0x06, // decoded, 6 bytes
            0x08, 0x01, // portnum: text message
            0x12, 0x02, b'h', b'i', // payload
            0x48, 0x03, // hop limit
        ]
    );
}

#[test]
fn empty_text_leaves_the_payload_out() {
    assert_eq!(
        build_text_packet(""),
        vec![0x0a, 0x0b, 0x15, 0xff, 0xff, 0xff, 0xff, 0x22, 0x02, 0x08, 0x01, 0x48, 0x03]
    );
}

#[test]
fn long_text_has_two_byte_lengths() {
    let text = "x".repeat(200);
    let bytes = build_text_packet(&text);
    // Data: 2 + 1 + 2 + 200 = 205 bytes; packet: 5 + 1 + 2 + 205 + 2 = 215.
    let mut expected = vec![0x0a];
    expected.extend(varint(215));
    expected.extend([0x15, 0xff, 0xff, 0xff, 0xff, 0x22]);
    expected.extend(varint(205));
    expected.extend([0x08, 0x01, 0x12]);
    expected.extend(varint(200));
    expected.extend(text.as_bytes());
    expected.extend([0x48, 0x03]);
    assert_eq!(bytes, expected);
    assert_eq!(bytes.len(), 218);
}

#[test]
fn text_is_sent_as_utf8() {
    let bytes = build_text_packet("\u{e9}");
    assert_eq!(&bytes[11..], &[0x12, 0x02, 0xc3, 0xa9, 0x48, 0x03]);
}

#[test]
fn encoding_leaves_defaults_out_and_keeps_empty_messages() {
    assert_eq!(encode_to_radio(&ToRadio { packet: None, want_config_id: 0 }), vec![]);
    // An empty packet is still sent, with length zero.
    assert_eq!(
        encode_to_radio(&ToRadio { packet: Some(packet(0, 0, None)), want_config_id: 0 }),
        vec![0x0a, 0x00]
    );
    // An empty data message inside a packet too.
    assert_eq!(
        encode_to_radio(&ToRadio {
            packet: Some(packet(0, 0, Some(Data { portnum: 0, payload: vec![] }))),
            want_config_id: 1,
        }),
        vec![0x0a, 0x02, 0x22, 0x00, 0x18, 0x01]
    );
}

#[test]
fn encoding_of_every_field() {
    let radio = ToRadio {
        packet: Some(MeshPacket {
            from: 0x0102_0304,
            to: 0x0000_0001,
            channel: 300,
            decoded: Some(Data { portnum: -1, payload: vec![0xaa] }),
            id: 0xffff_fffe,
            hop_limit: 7,
        }),
        want_config_id: u32::MAX,
    };
    let mut data = vec![0x08];
    data.extend(varint(u64::MAX)); // -1 as a 64-bit number
    data.extend([0x12, 0x01, 0xaa]);
    let mut body = vec![0x0d, 0x04, 0x03, 0x02, 0x01, 0x15, 0x01, 0x00, 0x00, 0x00, 0x18];
    body.extend(varint(300));
    body.push(0x22);
    body.extend(varint(data.len() as u64));
    body.extend(&data);
    body.extend([0x35, 0xfe, 0xff, 0xff, 0xff, 0x48, 0x07]);
    let mut expected = vec![0x0a];
    expected.extend(varint(body.len() as u64));
    expected.extend(&body);
    expected.push(0x18);
    expected.extend(varint(u32::MAX as u64));
    assert_eq!(encode_to_radio(&radio), expected);
}

#[test]
fn frame_has_magic_and_big_endian_length() {
    assert_eq!(FRAME_MAGIC, [0x94, 0xc3]);
    assert_eq!(frame_packet(&[]), vec![0x94, 0xc3, 0x00, 0x00]);
    assert_eq!(frame_packet(&[1, 2, 3]), vec![0x94, 0xc3, 0x00, 0x03, 1, 2, 3]);
    let payload = vec![7u8; 0x1234];
    let frame = frame_packet(&payload);
    assert_eq!(&frame[..4], &[0x94, 0xc3, 0x12, 0x34]);
    assert_eq!(&frame[4..], &payload[..]);
}

#[test]
fn frame_length_wraps_at_sixteen_bits() {
    let payload = vec![0u8; 65536 + 5];
    let frame = frame_packet(&payload);
    assert_eq!(&frame[..4], &[0x94, 0xc3, 0x00, 0x05]);
    assert_eq!(frame.len(), 4 + 65536 + 5);
}

#[test]
fn complete_frames_are_extracted_and_the_rest_stays() {
    let mut accum = frame_packet(b"one");
    accum.extend(frame_packet(b""));
    accum.extend(frame_packet(b"three"));
    accum.extend([0x94, 0xc3, 0x00, 0x05, b'p', b'a']);
    let payloads = extract_frames(&mut accum);
    assert_eq!(payloads, vec![b"one".to_vec(), vec![], b"three".to_vec()]);
    assert_eq!(accum, vec![0x94, 0xc3, 0x00, 0x05, b'p', b'a']);
    // The rest of the frame arrives.
    accum.extend(b"rt!");
    assert_eq!(extract_frames(&mut accum), vec![b"part!".to_vec()]);
    assert!(accum.is_empty());
}

#[test]
fn fewer_than_four_bytes_wait() {
    for bytes in [vec![], vec![0x94], vec![0x94, 0xc3], vec![0x01, 0x02, 0x03]] {
        let mut accum = bytes.clone();
        assert!(extract_frames(&mut accum).is_empty());
        assert_eq!(accum, bytes);
    }
}

#[test]
fn bytes_before_the_magic_are_dropped() {
    let mut accum = vec![0x00, 0x11, 0x94, 0x22];
    accum.extend(frame_packet(b"ok"));
    assert_eq!(extract_frames(&mut accum), vec![b"ok".to_vec()]);
    assert!(accum.is_empty());
}

#[test]
fn without_magic_everything_is_dropped() {
    let mut accum = vec![0x01, 0x02, 0x03, 0x04, 0x05];
    assert!(extract_frames(&mut accum).is_empty());
    assert!(accum.is_empty());
    // Even a last byte that could start the magic.
    let mut accum = vec![0x01, 0x02, 0x03, 0x94];
    assert!(extract_frames(&mut accum).is_empty());
    assert!(accum.is_empty());
}

#[test]
fn magic_near_the_end_waits_for_more() {
    let mut accum = vec![0x01, 0x02, 0x94, 0xc3];
    assert!(extract_frames(&mut accum).is_empty());
    assert_eq!(accum, vec![0x94, 0xc3]);
}

#[test]
fn oversized_length_drops_the_magic_only() {
    assert_eq!(MAX_PAYLOAD, 512);
    // 0x0201 = 513 bytes announced: not a frame. The real frame behind it is found.
    let mut accum = vec![0x94, 0xc3, 0x02, 0x01];
    accum.extend(frame_packet(b"real"));
    assert_eq!(extract_frames(&mut accum), vec![b"real".to_vec()]);
    assert!(accum.is_empty());
    // 512 bytes is still a frame.
    let payload = vec![9u8; 512];
    let mut accum = frame_packet(&payload);
    assert_eq!(extract_frames(&mut accum), vec![payload]);
}

#[test]
fn enum_numbers_and_names() {
    assert_eq!(ModemPreset::from_i32(0), Some(ModemPreset::LongFast));
    assert_eq!(ModemPreset::from_i32(8), Some(ModemPreset::ShortTurbo));
    assert_eq!(ModemPreset::from_i32(9), None);
    assert_eq!(ModemPreset::from_i32(-1), None);
    assert_eq!(RegionCode::from_i32(0), Some(RegionCode::Unset));
    assert_eq!(RegionCode::from_i32(3), Some(RegionCode::Eu868));
    assert_eq!(RegionCode::from_i32(18), Some(RegionCode::Sg923));
    assert_eq!(RegionCode::from_i32(19), None);
    assert_eq!(ChannelRole::from_i32(1), Some(ChannelRole::Primary));
    assert_eq!(ChannelRole::from_i32(3), None);
    assert_eq!(PortNum::UnknownApp.number(), 0);
    assert_eq!(PortNum::TextMessageApp.number(), 1);
    for v in 0..9 {
        let preset = ModemPreset::from_i32(v).unwrap();
        assert_eq!(preset.name(), format!("{:?}", preset));
    }
    for v in 0..19 {
        let region = RegionCode::from_i32(v).unwrap();
        assert_eq!(region.name(), format!("{:?}", region));
    }
    for v in 0..3 {
        let role = ChannelRole::from_i32(v).unwrap();
        assert_eq!(role.name(), format!("{:?}", role));
    }
}

#[test]
fn describes_config_complete_first() {
    let mut msg = empty_from_radio();
    msg.config_complete_id = 0xdead;
    msg.id = 5;
    msg.my_info = Some(MyNodeInfo { my_node_num: 1, firmware_version: "x".to_string() });
    assert_eq!(describe_from_radio(&msg, 10), "config_complete (id=0xDEAD)");
}

#[test]
fn describes_my_info() {
    let mut msg = empty_from_radio();
    msg.my_info = Some(MyNodeInfo { my_node_num: 0xabc123, firmware_version: "2.5.1".to_string() });
    msg.channel = Some(Channel { index: 0, settings: None, role: 0 });
    assert_eq!(describe_from_radio(&msg, 10), "my_info (node=0xABC123, fw=2.5.1)");
}

#[test]
fn describes_lora_config() {
    let mut msg = empty_from_radio();
    msg.config = Some(Config {
        lora: Some(LoRaConfig {
            use_preset: true,
            modem_preset: 0,
            region: 3,
            hop_limit: 3,
            tx_enabled: true,
            tx_power: -5,
            channel_num: 20,
        }),
    });
    assert_eq!(
        describe_from_radio(&msg, 10),
        "config_lora (preset=LongFast, region=Eu868, hop_limit=3, tx_enabled=true, tx_power=-5, channel_num=20)"
    );
    msg.config = Some(Config {
        lora: Some(LoRaConfig {
            use_preset: false,
            modem_preset: 42,
            region: -7,
            hop_limit: 0,
            tx_enabled: false,
            tx_power: i32::MIN,
            channel_num: u32::MAX,
        }),
    });
    assert_eq!(
        describe_from_radio(&msg, 10),
        "config_lora (preset=unknown(42), region=unknown(-7), hop_limit=0, tx_enabled=false, tx_power=-2147483648, channel_num=4294967295)"
    );
}

#[test]
fn config_without_lora_falls_through() {
    let mut msg = empty_from_radio();
    msg.config = Some(Config { lora: None });
    msg.id = 77;
    assert_eq!(describe_from_radio(&msg, 10), "from_radio (id=77)");
}

#[test]
fn describes_channel() {
    let mut msg = empty_from_radio();
    msg.channel = Some(Channel {
        index: 2,
        settings: Some(ChannelSettings { name: "Long\"Fast\n".to_string() }),
        role: 1,
    });
    assert_eq!(
        describe_from_radio(&msg, 10),
        "channel (index=2, role=Primary, name=\"Long\\\"Fast\\n\")"
    );
    msg.channel = Some(Channel { index: 0, settings: None, role: 9 });
    assert_eq!(describe_from_radio(&msg, 10), "channel (index=0, role=unknown(9), name=\"\")");
    assert_eq!(
        channel_line(&Channel { index: 1, settings: None, role: 2 }, "<shown>"),
        "channel (index=1, role=Secondary, name=<shown>)"
    );
}

#[test]
fn describes_metadata() {
    let mut msg = empty_from_radio();
    msg.metadata = Some(DeviceMetadata { firmware_version: "2.5".to_string(), has_pkc: true });
    msg.packet = Some(packet(1, 2, None));
    assert_eq!(describe_from_radio(&msg, 10), "metadata (fw=2.5, has_pkc=true)");
}

#[test]
fn describes_packets() {
    let mut msg = empty_from_radio();
    msg.packet = Some(packet(0x1a, 0xffff_ffff, Some(Data { portnum: 1, payload: b"hello \"mesh\"".to_vec() })));
    assert_eq!(
        describe_from_radio(&msg, 10),
        "packet (from=0x1A, to=0xFFFFFFFF, text=\"hello \\\"mesh\\\"\")"
    );
    // Bytes that are not UTF-8 show with the replacement character.
    msg.packet = Some(packet(0, 0, Some(Data { portnum: 1, payload: vec![b'a', 0xff, b'b'] })));
    assert_eq!(describe_from_radio(&msg, 10), "packet (from=0x0, to=0x0, text=\"a\u{fffd}b\")");
    msg.packet = Some(packet(1, 2, Some(Data { portnum: 67, payload: vec![1] })));
    assert_eq!(describe_from_radio(&msg, 10), "packet (from=0x1, to=0x2, port=67)");
    msg.packet = Some(packet(1, 2, Some(Data { portnum: -3, payload: vec![] })));
    assert_eq!(describe_from_radio(&msg, 10), "packet (from=0x1, to=0x2, port=-3)");
    msg.packet = Some(packet(1, 2, None));
    assert_eq!(describe_from_radio(&msg, 10), "packet (from=0x1, to=0x2, port=0)");
    // The shown text is used only for text messages.
    assert_eq!(
        packet_line(&packet(1, 2, Some(Data { portnum: 1, payload: vec![] })), "<shown>"),
        "packet (from=0x1, to=0x2, text=<shown>)"
    );
    assert_eq!(packet_line(&packet(1, 2, None), "<shown>"), "packet (from=0x1, to=0x2, port=0)");
}

#[test]
fn describes_bare_messages() {
    let mut msg = empty_from_radio();
    assert_eq!(describe_from_radio(&msg, 0), "from_radio (0 bytes, unrecognized)");
    assert_eq!(describe_from_radio(&msg, 1234), "from_radio (1234 bytes, unrecognized)");
    msg.id = 4000000000;
    assert_eq!(describe_from_radio(&msg, 7), "from_radio (id=4000000000)");
}

#[test]
fn describes_undecodable_bytes() {
    assert_eq!(
        describe_undecodable(&[0x00, 0x0f, 0xa0, 0xff], "bad tag"),
        "from_radio (4 bytes, parse error: bad tag, hex: 00 0f a0 ff)"
    );
    assert_eq!(describe_undecodable(&[], "empty"), "from_radio (0 bytes, parse error: empty, hex: )");
    assert_eq!(describe_undecodable(&[0x7f], "e"), "from_radio (1 bytes, parse error: e, hex: 7f)");
    let data: Vec<u8> = (0..20u8).collect();
    assert_eq!(
        describe_undecodable(&data, "too long"),
        "from_radio (20 bytes, parse error: too long, hex: 00 01 02 03 04 05 06 07 08 09 0a 0b 0c 0d 0e 0f)"
    );
}

#[test]
fn long_notifications_are_cut_after_two_hundred_bytes() {
    assert_eq!(sent_text(""), "");
    assert_eq!(sent_text("short"), "short");
    let exact = "a".repeat(200);
    assert_eq!(sent_text(&exact), exact);
    let long = "b".repeat(201);
    assert_eq!(sent_text(&long), "b".repeat(200));
    // A two-byte character that ends at byte 200 stays whole.
    let mut mixed = "c".repeat(198);
    mixed.push('\u{e9}');
    mixed.push_str("tail");
    assert_eq!(sent_text(&mixed).len(), 200);
    assert!(sent_text(&mixed).ends_with('\u{e9}'));
}

#[test]
fn outgoing_frames_carry_the_packet_unless_it_is_too_long() {
    assert_eq!(outgoing_frame("hi"), Some(frame_packet(&build_text_packet("hi"))));
    let longest = "x".repeat(200);
    let frame = outgoing_frame(&longest).unwrap();
    assert_eq!(frame.len(), 4 + 218);
    assert_eq!(&frame[..4], &[0x94, 0xc3, 0x00, 218]);
    // 494 bytes of text make a packet of 512 bytes, the longest a frame carries.
    assert_eq!(build_text_packet(&"y".repeat(494)).len(), 512);
    assert!(outgoing_frame(&"y".repeat(494)).is_some());
    assert_eq!(outgoing_frame(&"y".repeat(495)), None);
}
