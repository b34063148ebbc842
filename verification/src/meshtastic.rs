//! Talking to a Meshtastic radio over a serial line: the messages that go to
//! and come from the radio, their encoding, their framing on the line, and a
//! one-line description of what came in.
//!
//! Only the fields needed to send and receive text messages are carried.

use crate::text::{
    append_decimal, append_hex_byte, append_hexadecimal, append_signed_decimal, debug_rendering,
    debug_text, decimal, hex_byte, hexadecimal, lossy_text, signed_decimal, utf8_lossy,
};
use vstd::prelude::*;
use vstd::string::*;

verus! {

/// The two bytes that start every frame on the serial line.
pub const FRAME_MAGIC: [u8; 2] = [0x94, 0xc3];

/// The longest payload a frame may carry.
pub const MAX_PAYLOAD: usize = 512;

/// The speed of the serial line.
pub const SERIAL_BAUD: u32 = 115_200;

/// The address that reaches every node of the mesh.
pub const BROADCAST: u32 = 0xffff_ffff;

/// The identifier sent with a request for the radio's configuration.
pub const WANT_CONFIG_ID: u32 = 0xdead;

/// A message to the radio.
#[derive(Clone, Debug, PartialEq, Eq)]
pub struct ToRadio {
    pub packet: Option<MeshPacket>,
    pub want_config_id: u32,
}

/// A message from the radio.
#[derive(Clone, Debug, PartialEq, Eq)]
pub struct FromRadio {
    pub id: u32,
    pub packet: Option<MeshPacket>,
    pub my_info: Option<MyNodeInfo>,
    pub config: Option<Config>,
    pub config_complete_id: u32,
    pub channel: Option<Channel>,
    pub metadata: Option<DeviceMetadata>,
}

/// What the radio says of its firmware.
#[derive(Clone, Debug, PartialEq, Eq)]
pub struct DeviceMetadata {
    pub firmware_version: String,
    pub has_pkc: bool,
}

/// A part of the configuration of the radio.
#[derive(Clone, Copy, Debug, PartialEq, Eq, Structural)]
pub struct Config {
    pub lora: Option<LoRaConfig>,
}

/// The radio settings.
#[derive(Clone, Copy, Debug, PartialEq, Eq, Structural)]
pub struct LoRaConfig {
    pub use_preset: bool,
    /// A `ModemPreset` by its number.
    pub modem_preset: i32,
    /// A `RegionCode` by its number.
    pub region: i32,
    pub hop_limit: u32,
    pub tx_enabled: bool,
    pub tx_power: i32,
    pub channel_num: u32,
}

/// The presets for speed and range.
#[derive(Clone, Copy, Debug, PartialEq, Eq, Structural)]
pub enum ModemPreset {
    LongFast,
    LongSlow,
    VeryLongSlow,
    MediumSlow,
    MediumFast,
    ShortSlow,
    ShortFast,
    LongModerate,
    ShortTurbo,
}

/// The regions whose rules the radio follows.
#[derive(Clone, Copy, Debug, PartialEq, Eq, Structural)]
pub enum RegionCode {
    Unset,
    Us,
    Eu433,
    Eu868,
    Cn,
    Jp,
    Anz,
    Kr,
    Tw,
    Ru,
    In,
    Nz865,
    Th,
    Lora24,
    Ua433,
    Ua868,
    My433,
    My919,
    Sg923,
}

/// A channel of the mesh.
#[derive(Clone, Debug, PartialEq, Eq)]
pub struct Channel {
    pub index: u32,
    pub settings: Option<ChannelSettings>,
    /// A `ChannelRole` by its number.
    pub role: i32,
}

/// The settings of a channel.
#[derive(Clone, Debug, PartialEq, Eq)]
pub struct ChannelSettings {
    pub name: String,
}

/// What a channel is used for.
#[derive(Clone, Copy, Debug, PartialEq, Eq, Structural)]
pub enum ChannelRole {
    Disabled,
    Primary,
    Secondary,
}

/// What the radio says of itself.
#[derive(Clone, Debug, PartialEq, Eq)]
pub struct MyNodeInfo {
    pub my_node_num: u32,
    pub firmware_version: String,
}

/// A packet on the mesh.
#[derive(Clone, Debug, PartialEq, Eq)]
pub struct MeshPacket {
    pub from: u32,
    pub to: u32,
    pub channel: u32,
    pub decoded: Option<Data>,
    pub id: u32,
    pub hop_limit: u32,
}

/// What a packet carries, once it is decrypted.
#[derive(Clone, Debug, PartialEq, Eq)]
pub struct Data {
    /// A `PortNum` by its number.
    pub portnum: i32,
    pub payload: Vec<u8>,
}

/// The applications that a packet can be for.
#[derive(Clone, Copy, Debug, PartialEq, Eq, Hash, PartialOrd, Ord, Structural)]
pub enum PortNum {
    UnknownApp,
    TextMessageApp,
}

impl ModemPreset {
    /// The preset with the given number, if there is one.
    pub open spec fn spec_from_i32(value: i32) -> Option<ModemPreset> {
        if value == 0 {
            Some(ModemPreset::LongFast)
        } else if value == 1 {
            Some(ModemPreset::LongSlow)
        } else if value == 2 {
            Some(ModemPreset::VeryLongSlow)
        } else if value == 3 {
            Some(ModemPreset::MediumSlow)
        } else if value == 4 {
            Some(ModemPreset::MediumFast)
        } else if value == 5 {
            Some(ModemPreset::ShortSlow)
        } else if value == 6 {
            Some(ModemPreset::ShortFast)
        } else if value == 7 {
            Some(ModemPreset::LongModerate)
        } else if value == 8 {
            Some(ModemPreset::ShortTurbo)
        } else {
            None
        }
    }

    /// The name of the preset.
    pub open spec fn spec_name(self) -> Seq<char> {
        match self {
            ModemPreset::LongFast => "LongFast"@,
            ModemPreset::LongSlow => "LongSlow"@,
            ModemPreset::VeryLongSlow => "VeryLongSlow"@,
            ModemPreset::MediumSlow => "MediumSlow"@,
            ModemPreset::MediumFast => "MediumFast"@,
            ModemPreset::ShortSlow => "ShortSlow"@,
            ModemPreset::ShortFast => "ShortFast"@,
            ModemPreset::LongModerate => "LongModerate"@,
            ModemPreset::ShortTurbo => "ShortTurbo"@,
        }
    }

    /// The preset with the given number, if there is one.
    pub fn from_i32(value: i32) -> (preset: Option<ModemPreset>)
        ensures
            preset == Self::spec_from_i32(value),
    {
        match value {
            0 => Some(ModemPreset::LongFast),
            1 => Some(ModemPreset::LongSlow),
            2 => Some(ModemPreset::VeryLongSlow),
            3 => Some(ModemPreset::MediumSlow),
            4 => Some(ModemPreset::MediumFast),
            5 => Some(ModemPreset::ShortSlow),
            6 => Some(ModemPreset::ShortFast),
            7 => Some(ModemPreset::LongModerate),
            8 => Some(ModemPreset::ShortTurbo),
            _ => None,
        }
    }

    /// The name of the preset.
    pub fn name(self) -> (name: &'static str)
        ensures
            name@ == self.spec_name(),
    {
        match self {
            ModemPreset::LongFast => "LongFast",
            ModemPreset::LongSlow => "LongSlow",
            ModemPreset::VeryLongSlow => "VeryLongSlow",
            ModemPreset::MediumSlow => "MediumSlow",
            ModemPreset::MediumFast => "MediumFast",
            ModemPreset::ShortSlow => "ShortSlow",
            ModemPreset::ShortFast => "ShortFast",
            ModemPreset::LongModerate => "LongModerate",
            ModemPreset::ShortTurbo => "ShortTurbo",
        }
    }
}

impl RegionCode {
    /// The region with the given number, if there is one.
    pub open spec fn spec_from_i32(value: i32) -> Option<RegionCode> {
        if value == 0 {
            Some(RegionCode::Unset)
        } else if value == 1 {
            Some(RegionCode::Us)
        } else if value == 2 {
            Some(RegionCode::Eu433)
        } else if value == 3 {
            Some(RegionCode::Eu868)
        } else if value == 4 {
            Some(RegionCode::Cn)
        } else if value == 5 {
            Some(RegionCode::Jp)
        } else if value == 6 {
            Some(RegionCode::Anz)
        } else if value == 7 {
            Some(RegionCode::Kr)
        } else if value == 8 {
            Some(RegionCode::Tw)
        } else if value == 9 {
            Some(RegionCode::Ru)
        } else if value == 10 {
            Some(RegionCode::In)
        } else if value == 11 {
            Some(RegionCode::Nz865)
        } else if value == 12 {
            Some(RegionCode::Th)
        } else if value == 13 {
            Some(RegionCode::Lora24)
        } else if value == 14 {
            Some(RegionCode::Ua433)
        } else if value == 15 {
            Some(RegionCode::Ua868)
        } else if value == 16 {
            Some(RegionCode::My433)
        } else if value == 17 {
            Some(RegionCode::My919)
        } else if value == 18 {
            Some(RegionCode::Sg923)
        } else {
            None
        }
    }

    /// The name of the region.
    pub open spec fn spec_name(self) -> Seq<char> {
        match self {
            RegionCode::Unset => "Unset"@,
            RegionCode::Us => "Us"@,
            RegionCode::Eu433 => "Eu433"@,
            RegionCode::Eu868 => "Eu868"@,
            RegionCode::Cn => "Cn"@,
            RegionCode::Jp => "Jp"@,
            RegionCode::Anz => "Anz"@,
            RegionCode::Kr => "Kr"@,
            RegionCode::Tw => "Tw"@,
            RegionCode::Ru => "Ru"@,
            RegionCode::In => "In"@,
            RegionCode::Nz865 => "Nz865"@,
            RegionCode::Th => "Th"@,
            RegionCode::Lora24 => "Lora24"@,
            RegionCode::Ua433 => "Ua433"@,
            RegionCode::Ua868 => "Ua868"@,
            RegionCode::My433 => "My433"@,
            RegionCode::My919 => "My919"@,
            RegionCode::Sg923 => "Sg923"@,
        }
    }

    /// The region with the given number, if there is one.
    pub fn from_i32(value: i32) -> (region: Option<RegionCode>)
        ensures
            region == Self::spec_from_i32(value),
    {
        match value {
            0 => Some(RegionCode::Unset),
            1 => Some(RegionCode::Us),
            2 => Some(RegionCode::Eu433),
            3 => Some(RegionCode::Eu868),
            4 => Some(RegionCode::Cn),
            5 => Some(RegionCode::Jp),
            6 => Some(RegionCode::Anz),
            7 => Some(RegionCode::Kr),
            8 => Some(RegionCode::Tw),
            9 => Some(RegionCode::Ru),
            10 => Some(RegionCode::In),
            11 => Some(RegionCode::Nz865),
            12 => Some(RegionCode::Th),
            13 => Some(RegionCode::Lora24),
            14 => Some(RegionCode::Ua433),
            15 => Some(RegionCode::Ua868),
            16 => Some(RegionCode::My433),
            17 => Some(RegionCode::My919),
            18 => Some(RegionCode::Sg923),
            _ => None,
        }
    }

    /// The name of the region.
    pub fn name(self) -> (name: &'static str)
        ensures
            name@ == self.spec_name(),
    {
        match self {
            RegionCode::Unset => "Unset",
            RegionCode::Us => "Us",
            RegionCode::Eu433 => "Eu433",
            RegionCode::Eu868 => "Eu868",
            RegionCode::Cn => "Cn",
            RegionCode::Jp => "Jp",
            RegionCode::Anz => "Anz",
            RegionCode::Kr => "Kr",
            RegionCode::Tw => "Tw",
            RegionCode::Ru => "Ru",
            RegionCode::In => "In",
            RegionCode::Nz865 => "Nz865",
            RegionCode::Th => "Th",
            RegionCode::Lora24 => "Lora24",
            RegionCode::Ua433 => "Ua433",
            RegionCode::Ua868 => "Ua868",
            RegionCode::My433 => "My433",
            RegionCode::My919 => "My919",
            RegionCode::Sg923 => "Sg923",
        }
    }
}

impl ChannelRole {
    /// The role with the given number, if there is one.
    pub open spec fn spec_from_i32(value: i32) -> Option<ChannelRole> {
        if value == 0 {
            Some(ChannelRole::Disabled)
        } else if value == 1 {
            Some(ChannelRole::Primary)
        } else if value == 2 {
            Some(ChannelRole::Secondary)
        } else {
            None
        }
    }

    /// The name of the role.
    pub open spec fn spec_name(self) -> Seq<char> {
        match self {
            ChannelRole::Disabled => "Disabled"@,
            ChannelRole::Primary => "Primary"@,
            ChannelRole::Secondary => "Secondary"@,
        }
    }

    /// The role with the given number, if there is one.
    pub fn from_i32(value: i32) -> (role: Option<ChannelRole>)
        ensures
            role == Self::spec_from_i32(value),
    {
        match value {
            0 => Some(ChannelRole::Disabled),
            1 => Some(ChannelRole::Primary),
            2 => Some(ChannelRole::Secondary),
            _ => None,
        }
    }

    /// The name of the role.
    pub fn name(self) -> (name: &'static str)
        ensures
            name@ == self.spec_name(),
    {
        match self {
            ChannelRole::Disabled => "Disabled",
            ChannelRole::Primary => "Primary",
            ChannelRole::Secondary => "Secondary",
        }
    }
}

impl PortNum {
    /// The number of the port.
    pub open spec fn spec_number(self) -> i32 {
        match self {
            PortNum::UnknownApp => 0,
            PortNum::TextMessageApp => 1,
        }
    }

    /// The number of the port.
    pub fn number(self) -> (n: i32)
        ensures
            n == self.spec_number(),
    {
        match self {
            PortNum::UnknownApp => 0,
            PortNum::TextMessageApp => 1,
        }
    }
}

/// A number as a variable-length integer: seven bits to a byte, lowest
/// first, with the top bit set on every byte but the last.
pub open spec fn varint(n: nat) -> Seq<u8>
    decreases n,
{
    if n < 128 {
        seq![n as u8]
    } else {
        seq![(n % 128 + 128) as u8] + varint(n / 128)
    }
}

/// The key that starts a field: its tag and the kind of value that follows.
pub open spec fn field_key(tag: nat, wire_type: nat) -> Seq<u8> {
    varint(tag * 8 + wire_type)
}

/// A 32-bit number as four bytes, lowest first.
pub open spec fn le32(v: u32) -> Seq<u8> {
    seq![
        (v % 256) as u8,
        ((v / 256) % 256) as u8,
        ((v / 65536) % 256) as u8,
        (v / 16777216) as u8,
    ]
}

/// An unsigned field: left out when zero.
pub open spec fn uint32_field(tag: nat, v: u32) -> Seq<u8> {
    if v == 0 {
        Seq::empty()
    } else {
        field_key(tag, 0) + varint(v as nat)
    }
}

/// A signed field: left out when zero; a negative value is sent as the 64-bit
/// number with the same bits.
pub open spec fn int32_field(tag: nat, v: i32) -> Seq<u8> {
    if v == 0 {
        Seq::empty()
    } else if v > 0 {
        field_key(tag, 0) + varint(v as nat)
    } else {
        field_key(tag, 0) + varint((0x1_0000_0000_0000_0000 + v) as nat)
    }
}

/// A field of four bytes: left out when zero.
pub open spec fn fixed32_field(tag: nat, v: u32) -> Seq<u8> {
    if v == 0 {
        Seq::empty()
    } else {
        field_key(tag, 5) + le32(v)
    }
}

/// A field of bytes: left out when empty, else sent with its length.
pub open spec fn bytes_field(tag: nat, bytes: Seq<u8>) -> Seq<u8> {
    if bytes.len() == 0 {
        Seq::empty()
    } else {
        field_key(tag, 2) + varint(bytes.len()) + bytes
    }
}

/// A field that holds a message: left out when there is none, else sent with
/// its length, also when the message is empty.
pub open spec fn message_field(tag: nat, body: Option<Seq<u8>>) -> Seq<u8> {
    match body {
        Some(bytes) => field_key(tag, 2) + varint(bytes.len()) + bytes,
        None => Seq::empty(),
    }
}

/// The bytes of a `Data`.
pub open spec fn data_bytes(d: Data) -> Seq<u8> {
    int32_field(1, d.portnum) + bytes_field(2, d.payload@)
}

/// The bytes of a `MeshPacket`.
pub open spec fn mesh_packet_bytes(p: MeshPacket) -> Seq<u8> {
    fixed32_field(1, p.from) + fixed32_field(2, p.to) + uint32_field(3, p.channel) + message_field(
        4,
        match p.decoded {
            Some(d) => Some(data_bytes(d)),
            None => None,
        },
    ) + fixed32_field(6, p.id) + uint32_field(9, p.hop_limit)
}

/// The bytes of a `ToRadio`.
pub open spec fn to_radio_bytes(r: ToRadio) -> Seq<u8> {
    message_field(
        1,
        match r.packet {
            Some(p) => Some(mesh_packet_bytes(p)),
            None => None,
        },
    ) + uint32_field(3, r.want_config_id)
}

/// Appends a number as a variable-length integer. Calls
/// `prost::encoding::encode_varint`, which writes the number seven bits to a
/// byte, lowest first, with the top bit set on every byte but the last, in
/// at most ten bytes; the contract states that encoding.
#[verifier::external_body]
fn put_varint(out: &mut Vec<u8>, value: u64)
    ensures
        final(out)@ == old(out)@ + varint(value as nat),
{
    prost::encoding::encode_varint(value, out)
}

/// Appends the key of a field.
fn put_key(out: &mut Vec<u8>, tag: u8, wire_type: u8)
    requires
        tag < 16,
        wire_type < 8,
    ensures
        final(out)@ == old(out)@ + field_key(tag as nat, wire_type as nat),
{
    put_varint(out, (tag as u64) * 8 + wire_type as u64);
}

/// Appends an unsigned field.
fn put_uint32(out: &mut Vec<u8>, tag: u8, v: u32)
    requires
        tag < 16,
    ensures
        final(out)@ == old(out)@ + uint32_field(tag as nat, v),
{
    if v != 0 {
        put_key(out, tag, 0);
        put_varint(out, v as u64);
        assert(out@ == old(out)@ + (field_key(tag as nat, 0) + varint(v as nat)));
    } else {
        assert(out@ == old(out)@ + Seq::<u8>::empty());
    }
}

/// Appends a signed field.
fn put_int32(out: &mut Vec<u8>, tag: u8, v: i32)
    requires
        tag < 16,
    ensures
        final(out)@ == old(out)@ + int32_field(tag as nat, v),
{
    if v > 0 {
        put_key(out, tag, 0);
        put_varint(out, v as u64);
        assert(out@ == old(out)@ + (field_key(tag as nat, 0) + varint(v as nat)));
    } else if v < 0 {
        let magnitude: u64 = (-(v as i64)) as u64;
        let wide: u64 = (0xffff_ffff_ffff_ffff - magnitude) + 1;
        put_key(out, tag, 0);
        put_varint(out, wide);
        assert(out@ == old(out)@ + (field_key(tag as nat, 0) + varint(
            (0x1_0000_0000_0000_0000 + v) as nat,
        )));
    } else {
        assert(out@ == old(out)@ + Seq::<u8>::empty());
    }
}

/// Appends a field of four bytes.
fn put_fixed32(out: &mut Vec<u8>, tag: u8, v: u32)
    requires
        tag < 16,
    ensures
        final(out)@ == old(out)@ + fixed32_field(tag as nat, v),
{
    if v != 0 {
        put_key(out, tag, 5);
        out.push((v % 256) as u8);
        out.push(((v / 256) % 256) as u8);
        out.push(((v / 65536) % 256) as u8);
        out.push((v / 16777216) as u8);
        assert(out@ == old(out)@ + (field_key(tag as nat, 5) + le32(v)));
    } else {
        assert(out@ == old(out)@ + Seq::<u8>::empty());
    }
}

/// Appends bytes with their length, behind the key of their field.
fn put_delimited(out: &mut Vec<u8>, tag: u8, bytes: &Vec<u8>)
    requires
        tag < 16,
    ensures
        final(out)@ == old(out)@ + (field_key(tag as nat, 2) + varint(bytes@.len()) + bytes@),
{
    put_key(out, tag, 2);
    put_varint(out, bytes.len() as u64);
    let mut i: usize = 0;
    let ghost head = out@;
    while i < bytes.len()
        invariant
            i <= bytes.len(),
            out@ == head + bytes@.take(i as int),
        decreases bytes.len() - i,
    {
        out.push(bytes[i]);
        assert(bytes@.take(i + 1) == bytes@.take(i as int).push(bytes@[i as int]));
        i = i + 1;
    }
    assert(bytes@.take(bytes@.len() as int) == bytes@);
}

/// Encodes a `Data`.
fn encode_data(d: &Data) -> (out: Vec<u8>)
    ensures
        out@ == data_bytes(*d),
{
    let mut out: Vec<u8> = Vec::new();
    put_int32(&mut out, 1, d.portnum);
    if d.payload.len() > 0 {
        put_delimited(&mut out, 2, &d.payload);
    }
    assert(out@ == int32_field(1, d.portnum) + bytes_field(2, d.payload@));
    out
}

/// Encodes a `MeshPacket`.
fn encode_mesh_packet(p: &MeshPacket) -> (out: Vec<u8>)
    ensures
        out@ == mesh_packet_bytes(*p),
{
    let mut out: Vec<u8> = Vec::new();
    put_fixed32(&mut out, 1, p.from);
    put_fixed32(&mut out, 2, p.to);
    put_uint32(&mut out, 3, p.channel);
    let ghost before = out@;
    match &p.decoded {
        Some(d) => {
            let body = encode_data(d);
            put_delimited(&mut out, 4, &body);
        },
        None => {},
    }
    assert(out@ == before + message_field(
        4,
        match p.decoded {
            Some(d) => Some(data_bytes(d)),
            None => None,
        },
    ));
    put_fixed32(&mut out, 6, p.id);
    put_uint32(&mut out, 9, p.hop_limit);
    out
}

/// Encodes a message to the radio.
pub fn encode_to_radio(r: &ToRadio) -> (out: Vec<u8>)
    ensures
        out@ == to_radio_bytes(*r),
{
    let mut out: Vec<u8> = Vec::new();
    match &r.packet {
        Some(p) => {
            let body = encode_mesh_packet(p);
            put_delimited(&mut out, 1, &body);
        },
        None => {},
    }
    assert(out@ == message_field(
        1,
        match r.packet {
            Some(p) => Some(mesh_packet_bytes(p)),
            None => None,
        },
    ));
    put_uint32(&mut out, 3, r.want_config_id);
    out
}

/// The bytes of the message that sends a text, given as its UTF-8 bytes, to
/// every node of the mesh, on the first channel, with up to three hops.
pub open spec fn text_packet_bytes(payload: Seq<u8>) -> Seq<u8> {
    message_field(
        1,
        Some(
            fixed32_field(2, BROADCAST) + message_field(
                4,
                Some(int32_field(1, 1) + bytes_field(2, payload)),
            ) + uint32_field(9, 3),
        ),
    )
}

/// The message that asks the radio for its configuration.
pub open spec fn want_config_message() -> ToRadio {
    ToRadio { packet: None, want_config_id: WANT_CONFIG_ID }
}

/// The bytes of the message that sends `text` to every node of the mesh.
pub fn build_text_packet(text: &str) -> (out: Vec<u8>)
    ensures
        out@ == text_packet_bytes(text.spec_bytes()),
{
    let payload = text.as_bytes_vec();
    let radio = ToRadio {
        packet: Some(
            MeshPacket {
                from: 0,
                to: BROADCAST,
                channel: 0,
                decoded: Some(Data { portnum: PortNum::TextMessageApp.number(), payload }),
                id: 0,
                hop_limit: 3,
            },
        ),
        want_config_id: 0,
    };
    let out = encode_to_radio(&radio);
    proof {
        let packet = radio.packet->0;
        let data = packet.decoded->0;
        let empty = Seq::<u8>::empty();
        assert(mesh_packet_bytes(packet) == empty + fixed32_field(2, BROADCAST) + empty
            + message_field(4, Some(data_bytes(data))) + empty + uint32_field(9, 3));
        assert(mesh_packet_bytes(packet) == fixed32_field(2, BROADCAST) + message_field(
            4,
            Some(int32_field(1, 1) + bytes_field(2, text.spec_bytes())),
        ) + uint32_field(9, 3));
        assert(to_radio_bytes(radio) == message_field(1, Some(mesh_packet_bytes(packet)))
            + empty);
    }
    out
}

/// The bytes of the message that asks the radio for its configuration.
pub fn build_want_config() -> (out: Vec<u8>)
    ensures
        out@ == to_radio_bytes(want_config_message()),
{
    let radio = ToRadio { packet: None, want_config_id: WANT_CONFIG_ID };
    encode_to_radio(&radio)
}

/// A payload as it goes over the serial line: the two magic bytes, the
/// length of the payload in two bytes, higher first, and the payload. A
/// length that does not fit in two bytes is cut to its low sixteen bits.
pub open spec fn framed(payload: Seq<u8>) -> Seq<u8> {
    seq![
        0x94u8,
        0xc3u8,
        ((payload.len() % 65536) / 256) as u8,
        (payload.len() % 256) as u8,
    ] + payload
}

/// Frames a payload for the serial line.
pub fn frame_packet(payload: &[u8]) -> (frame: Vec<u8>)
    ensures
        frame@ == framed(payload@),
{
    let len: usize = payload.len() % 65536;
    let mut frame: Vec<u8> = Vec::new();
    frame.push(0x94);
    frame.push(0xc3);
    frame.push((len / 256) as u8);
    frame.push((len % 256) as u8);
    let ghost head = frame@;
    let mut i: usize = 0;
    while i < payload.len()
        invariant
            i <= payload@.len(),
            frame@ == head + payload@.take(i as int),
        decreases payload@.len() - i,
    {
        frame.push(payload[i]);
        assert(payload@.take(i + 1) == payload@.take(i as int).push(payload@[i as int]));
        i = i + 1;
    }
    assert(payload@.take(payload@.len() as int) == payload@);
    frame
}

/// The place of the first occurrence of the two magic bytes in `s`, or the
/// length of `s` if there is none.
pub open spec fn magic_position(s: Seq<u8>) -> int
    decreases s.len(),
{
    if s.len() < 2 {
        s.len() as int
    } else if s[0] == 0x94 && s[1] == 0xc3 {
        0
    } else {
        1 + magic_position(s.skip(1))
    }
}

/// What a buffer of received bytes gives: the payloads of the complete
/// frames in it, and the bytes that stay for the next round.
pub struct Extraction {
    pub payloads: Seq<Seq<u8>>,
    pub rest: Seq<u8>,
}

/// What a buffer of received bytes gives. With fewer than four bytes
/// nothing can be told yet. Bytes before the first magic bytes are dropped,
/// and all of them if there are no magic bytes. A frame that announces more
/// than the longest payload is no frame: its magic bytes are dropped. A frame
/// that is not yet complete stays. A complete frame gives its payload.
pub open spec fn extraction(accum: Seq<u8>) -> Extraction
    decreases accum.len(),
{
    if accum.len() < 4 {
        Extraction { payloads: Seq::empty(), rest: accum }
    } else if !(accum[0] == 0x94 && accum[1] == 0xc3) {
        let at = magic_position(accum);
        if 0 < at < accum.len() {
            extraction(accum.skip(at))
        } else {
            Extraction { payloads: Seq::empty(), rest: Seq::empty() }
        }
    } else {
        let announced = accum[2] as int * 256 + accum[3] as int;
        if announced > MAX_PAYLOAD {
            extraction(accum.skip(2))
        } else if accum.len() < 4 + announced {
            Extraction { payloads: Seq::empty(), rest: accum }
        } else {
            let later = extraction(accum.skip(4 + announced));
            Extraction {
                payloads: seq![accum.subrange(4, 4 + announced)] + later.payloads,
                rest: later.rest,
            }
        }
    }
}

/// Whether the two magic bytes stand at `at` in `s`.
pub open spec fn magic_at(s: Seq<u8>, at: int) -> bool {
    0 <= at && at + 1 < s.len() && s[at] == 0x94 && s[at + 1] == 0xc3
}

/// Where the magic bytes occur at `at` and nowhere before, or `at` is the
/// end of a buffer without magic bytes, `at` is their first occurrence.
pub proof fn lemma_magic_found(s: Seq<u8>, at: int)
    requires
        0 <= at <= s.len(),
        forall|i: int| 0 <= i < at ==> !magic_at(s, i),
        at < s.len() ==> magic_at(s, at),
    ensures
        magic_position(s) == at,
    decreases s.len(),
{
    if s.len() >= 2 && at > 0 {
        assert(!magic_at(s, 0));
        assert forall|i: int| 0 <= i < at - 1 implies !magic_at(s.skip(1), i) by {
            assert(!magic_at(s, i + 1));
            if i + 1 < s.skip(1).len() {
                assert(s.skip(1)[i] == s[i + 1]);
                assert(s.skip(1)[i + 1] == s[i + 2]);
            }
        }
        if at < s.len() {
            assert(s.skip(1)[at - 1] == s[at]);
            assert(s.skip(1)[at] == s[at + 1]);
        }
        lemma_magic_found(s.skip(1), at - 1);
    } else if s.len() >= 2 {
        assert(magic_at(s, 0));
    } else if s.len() == 1 {
        if at == 0 {
            assert(magic_at(s, 0));
        }
    }
}

/// Frame round trip: a buffer that holds the frame of a payload of up to
/// the longest length gives that payload and nothing stays.
pub proof fn lemma_frame_round_trip(payload: Seq<u8>)
    requires
        payload.len() <= MAX_PAYLOAD,
    ensures
        extraction(framed(payload)) == (Extraction {
            payloads: seq![payload],
            rest: Seq::empty(),
        }),
{
    let frame = framed(payload);
    let n = payload.len() as int;
    assert(frame[2] as int * 256 + frame[3] as int == n);
    assert(frame.subrange(4, 4 + n) == payload);
    assert(frame.skip(4 + n) == Seq::<u8>::empty());
    assert(extraction(Seq::<u8>::empty()).payloads == Seq::<Seq<u8>>::empty());
    assert(seq![payload] + Seq::<Seq<u8>>::empty() == seq![payload]);
}

/// Frames one after the other: a frame at the start of a buffer gives its
/// payload, and what follows it is looked at in the same way.
pub proof fn lemma_frame_then_more(payload: Seq<u8>, more: Seq<u8>)
    requires
        payload.len() <= MAX_PAYLOAD,
    ensures
        extraction(framed(payload) + more).payloads == seq![payload] + extraction(more).payloads,
        extraction(framed(payload) + more).rest == extraction(more).rest,
{
    let frame = framed(payload);
    let all = frame + more;
    let n = payload.len() as int;
    assert(all[0] == frame[0] && all[1] == frame[1]);
    assert(all[2] == frame[2] && all[3] == frame[3]);
    assert(all[2] as int * 256 + all[3] as int == n);
    assert(all.subrange(4, 4 + n) == payload);
    assert(all.skip(4 + n) == more);
}

/// The payloads of a list, as mathematical values.
pub open spec fn payload_views(payloads: Seq<Vec<u8>>) -> Seq<Seq<u8>> {
    Seq::new(payloads.len(), |i: int| payloads[i]@)
}

/// Takes the complete frames out of a buffer of received bytes and hands
/// out their payloads, in order. What stays in the buffer is what the next
/// bytes from the line are to be added to.
pub fn extract_frames(accum: &mut Vec<u8>) -> (payloads: Vec<Vec<u8>>)
    ensures
        payload_views(payloads@) == extraction(old(accum)@).payloads,
        final(accum)@ == extraction(old(accum)@).rest,
{
    let ghost all = accum@;
    let mut payloads: Vec<Vec<u8>> = Vec::new();
    let n = accum.len();
    let mut start: usize = 0;
    assert(all.skip(0) == all);
    assert(payload_views(payloads@) + extraction(all).payloads == extraction(all).payloads);
    loop
        invariant_except_break
            start <= n,
            n == all.len(),
            accum@ == all,
            extraction(all).payloads == payload_views(payloads@) + extraction(
                all.skip(start as int),
            ).payloads,
            extraction(all).rest == extraction(all.skip(start as int)).rest,
        ensures
            start <= n,
            n == all.len(),
            accum@ == all,
            extraction(all).payloads == payload_views(payloads@),
            extraction(all).rest == all.skip(start as int),
        decreases n - start,
    {
        let ghost here = all.skip(start as int);
        let ghost done = payload_views(payloads@);
        if n - start < 4 {
            assert(done + Seq::<Seq<u8>>::empty() == done);
            break;
        }
        assert(here[0] == all[start as int]);
        assert(here[1] == all[start + 1]);
        assert(here[2] == all[start + 2]);
        assert(here[3] == all[start + 3]);
        if accum[start] != 0x94 || accum[start + 1] != 0xc3 {
            let mut at: usize = start + 1;
            while at < n - 1 && !(accum[at] == 0x94 && accum[at + 1] == 0xc3)
                invariant
                    n >= 4,
                    start < at <= n - 1,
                    n == all.len(),
                    accum@ == all,
                    here == all.skip(start as int),
                    !magic_at(here, 0),
                    forall|i: int| 0 <= i < at - start ==> !magic_at(here, i),
                decreases n - at,
            {
                assert(here[at - start] == all[at as int]);
                assert(here[at - start + 1] == all[at + 1]);
                at = at + 1;
            }
            if at < n - 1 {
                proof {
                    assert(here[at - start] == all[at as int]);
                    assert(here[at - start + 1] == all[at + 1]);
                    lemma_magic_found(here, at - start);
                    assert(here.skip(at - start) == all.skip(at as int));
                }
                start = at;
            } else {
                proof {
                    assert forall|i: int| 0 <= i < here.len() implies !magic_at(here, i) by {
                        if i >= at - start {
                            assert(i + 1 >= here.len());
                        }
                    }
                    lemma_magic_found(here, here.len() as int);
                    assert(all.skip(n as int) == Seq::<u8>::empty());
                    assert(done + Seq::<Seq<u8>>::empty() == done);
                }
                start = n;
                break;
            }
        } else {
            let announced: usize = (accum[start + 2] as usize) * 256 + accum[start + 3] as usize;
            if announced > MAX_PAYLOAD {
                assert(here.skip(2) == all.skip(start + 2));
                start = start + 2;
            } else if n - start < 4 + announced {
                assert(done + Seq::<Seq<u8>>::empty() == done);
                break;
            } else {
                let mut payload: Vec<u8> = Vec::new();
                let mut i: usize = 0;
                while i < announced
                    invariant
                        i <= announced,
                        start + 4 + announced <= n,
                        n == all.len(),
                        accum@ == all,
                        payload@ == all.subrange(start + 4, start + 4 + i),
                    decreases announced - i,
                {
                    payload.push(accum[start + 4 + i]);
                    i = i + 1;
                }
                proof {
                    assert(here.subrange(4, 4 + announced) == payload@);
                    assert(here.skip(4 + announced) == all.skip(start + 4 + announced));
                }
                payloads.push(payload);
                proof {
                    assert(payload_views(payloads@) == done.push(payload@));
                    let later = extraction(here.skip(4 + announced));
                    assert(done + (seq![payload@] + later.payloads) == done.push(payload@)
                        + later.payloads);
                }
                start = start + 4 + announced;
            }
        }
    }
    let mut rest: Vec<u8> = Vec::new();
    let mut i: usize = start;
    while i < n
        invariant
            start <= i <= n,
            n == all.len(),
            accum@ == all,
            rest@ == all.subrange(start as int, i as int),
        decreases n - i,
    {
        rest.push(accum[i]);
        i = i + 1;
    }
    assert(all.subrange(start as int, n as int) == all.skip(start as int));
    *accum = rest;
    payloads
}

/// How a preset number shows: by its name, or as unknown with the number.
pub open spec fn preset_text(value: i32) -> Seq<char> {
    match ModemPreset::spec_from_i32(value) {
        Some(preset) => preset.spec_name(),
        None => "unknown("@ + signed_decimal(value as int) + ")"@,
    }
}

/// How a region number shows: by its name, or as unknown with the number.
pub open spec fn region_text(value: i32) -> Seq<char> {
    match RegionCode::spec_from_i32(value) {
        Some(region) => region.spec_name(),
        None => "unknown("@ + signed_decimal(value as int) + ")"@,
    }
}

/// How a role number shows: by its name, or as unknown with the number.
pub open spec fn role_text(value: i32) -> Seq<char> {
    match ChannelRole::spec_from_i32(value) {
        Some(role) => role.spec_name(),
        None => "unknown("@ + signed_decimal(value as int) + ")"@,
    }
}

/// How a truth value shows.
pub open spec fn bool_text(b: bool) -> Seq<char> {
    if b {
        "true"@
    } else {
        "false"@
    }
}

/// The description of a radio configuration.
pub open spec fn lora_description(lora: LoRaConfig) -> Seq<char> {
    "config_lora (preset="@ + preset_text(lora.modem_preset) + ", region="@ + region_text(
        lora.region,
    ) + ", hop_limit="@ + decimal(lora.hop_limit as nat) + ", tx_enabled="@ + bool_text(
        lora.tx_enabled,
    ) + ", tx_power="@ + signed_decimal(lora.tx_power as int) + ", channel_num="@ + decimal(
        lora.channel_num as nat,
    ) + ")"@
}

/// The name of a channel: that of its settings, empty where it has none.
pub open spec fn channel_name(channel: Channel) -> Seq<char> {
    match channel.settings {
        Some(settings) => settings.name@,
        None => Seq::empty(),
    }
}

/// The description of a channel, given how its name shows.
pub open spec fn channel_description_with(channel: Channel, shown_name: Seq<char>) -> Seq<char> {
    "channel (index="@ + decimal(channel.index as nat) + ", role="@ + role_text(channel.role)
        + ", name="@ + shown_name + ")"@
}

/// The description of a channel: its name shows as `Debug` shows a string.
pub open spec fn channel_description(channel: Channel) -> Seq<char> {
    channel_description_with(channel, debug_rendering(channel_name(channel)))
}

/// Whether a packet carries a text message.
pub open spec fn carries_text(packet: MeshPacket) -> bool {
    packet.decoded matches Some(data) && data.portnum == 1
}

/// The description of a packet, given how its text shows: with its text if
/// it carries a text message, else with the number of its port, 0 where it
/// has none.
pub open spec fn packet_description_with(packet: MeshPacket, shown_text: Seq<char>) -> Seq<char> {
    let head = "packet (from=0x"@ + hexadecimal(packet.from as nat, true) + ", to=0x"@
        + hexadecimal(packet.to as nat, true);
    match packet.decoded {
        Some(data) => if data.portnum == 1 {
            head + ", text="@ + shown_text + ")"@
        } else {
            head + ", port="@ + signed_decimal(data.portnum as int) + ")"@
        },
        None => head + ", port="@ + decimal(0) + ")"@,
    }
}

/// The text of a packet as it shows: the payload read as UTF-8, shown as
/// `Debug` shows a string. Empty where the packet carries no text message.
pub open spec fn shown_text_of(packet: MeshPacket) -> Seq<char> {
    if carries_text(packet) {
        debug_rendering(lossy_text(packet.decoded->0.payload@))
    } else {
        Seq::empty()
    }
}

/// The description of a packet.
pub open spec fn packet_description(packet: MeshPacket) -> Seq<char> {
    packet_description_with(packet, shown_text_of(packet))
}

/// One line that says what a message from the radio holds, by the first of:
/// the end of the configuration, the node's own information, the radio
/// configuration, a channel, the device's metadata, a packet, the message's
/// identifier. `len` is the number of bytes that the message came in.
pub open spec fn description(msg: FromRadio, len: nat) -> Seq<char> {
    if msg.config_complete_id != 0 {
        "config_complete (id=0x"@ + hexadecimal(msg.config_complete_id as nat, true) + ")"@
    } else if msg.my_info is Some {
        "my_info (node=0x"@ + hexadecimal(msg.my_info->0.my_node_num as nat, true) + ", fw="@
            + msg.my_info->0.firmware_version@ + ")"@
    } else if msg.config is Some && msg.config->0.lora is Some {
        lora_description(msg.config->0.lora->0)
    } else if msg.channel is Some {
        channel_description(msg.channel->0)
    } else if msg.metadata is Some {
        "metadata (fw="@ + msg.metadata->0.firmware_version@ + ", has_pkc="@ + bool_text(
            msg.metadata->0.has_pkc,
        ) + ")"@
    } else if msg.packet is Some {
        packet_description(msg.packet->0)
    } else if msg.id != 0 {
        "from_radio (id="@ + decimal(msg.id as nat) + ")"@
    } else {
        "from_radio ("@ + decimal(len) + " bytes, unrecognized)"@
    }
}

/// The first sixteen bytes of `data`, or fewer if there are fewer, each as
/// two hexadecimal digits, with a space between one and the next.
pub open spec fn hex_dump(data: Seq<u8>, n: nat) -> Seq<char>
    decreases n,
{
    if n == 0 {
        Seq::empty()
    } else if n == 1 {
        hex_byte(data[0])
    } else {
        hex_dump(data, (n - 1) as nat) + seq![' '] + hex_byte(data[n - 1])
    }
}

/// One line that says that bytes from the radio could not be read as a
/// message: how many they are, what went wrong, and how they start.
pub open spec fn undecodable_description(data: Seq<u8>, error: Seq<char>) -> Seq<char> {
    "from_radio ("@ + decimal(data.len()) + " bytes, parse error: "@ + error + ", hex: "@
        + hex_dump(
        data,
        if data.len() < 16 {
            data.len()
        } else {
            16
        },
    ) + ")"@
}

/// Appends how a preset number shows.
fn append_preset(out: &mut String, value: i32)
    ensures
        final(out)@ == old(out)@ + preset_text(value),
{
    match ModemPreset::from_i32(value) {
        Some(preset) => out.append(preset.name()),
        None => {
            out.append("unknown(");
            append_signed_decimal(out, value);
            out.append(")");
            assert(out@ == old(out)@ + ("unknown("@ + signed_decimal(value as int) + ")"@));
        },
    }
}

/// Appends how a region number shows.
fn append_region(out: &mut String, value: i32)
    ensures
        final(out)@ == old(out)@ + region_text(value),
{
    match RegionCode::from_i32(value) {
        Some(region) => out.append(region.name()),
        None => {
            out.append("unknown(");
            append_signed_decimal(out, value);
            out.append(")");
            assert(out@ == old(out)@ + ("unknown("@ + signed_decimal(value as int) + ")"@));
        },
    }
}

/// Appends how a role number shows.
fn append_role(out: &mut String, value: i32)
    ensures
        final(out)@ == old(out)@ + role_text(value),
{
    match ChannelRole::from_i32(value) {
        Some(role) => out.append(role.name()),
        None => {
            out.append("unknown(");
            append_signed_decimal(out, value);
            out.append(")");
            assert(out@ == old(out)@ + ("unknown("@ + signed_decimal(value as int) + ")"@));
        },
    }
}

/// Appends how a truth value shows.
fn append_bool(out: &mut String, b: bool)
    ensures
        final(out)@ == old(out)@ + bool_text(b),
{
    if b {
        out.append("true");
    } else {
        out.append("false");
    }
}

/// Describes a radio configuration.
fn describe_lora(lora: &LoRaConfig) -> (line: String)
    ensures
        line@ == lora_description(*lora),
{
    let mut line = String::from_str("config_lora (preset=");
    append_preset(&mut line, lora.modem_preset);
    line.append(", region=");
    append_region(&mut line, lora.region);
    line.append(", hop_limit=");
    append_decimal(&mut line, lora.hop_limit as u64);
    line.append(", tx_enabled=");
    append_bool(&mut line, lora.tx_enabled);
    line.append(", tx_power=");
    append_signed_decimal(&mut line, lora.tx_power);
    line.append(", channel_num=");
    append_decimal(&mut line, lora.channel_num as u64);
    line.append(")");
    line
}

/// Describes a channel, given how its name shows.
pub fn channel_line(channel: &Channel, shown_name: &str) -> (line: String)
    ensures
        line@ == channel_description_with(*channel, shown_name@),
{
    let mut line = String::from_str("channel (index=");
    append_decimal(&mut line, channel.index as u64);
    line.append(", role=");
    append_role(&mut line, channel.role);
    line.append(", name=");
    line.append(shown_name);
    line.append(")");
    line
}

/// Describes a channel.
fn describe_channel(channel: &Channel) -> (line: String)
    ensures
        line@ == channel_description(*channel),
{
    proof {
        reveal_strlit("");
    }
    let shown = match &channel.settings {
        Some(settings) => debug_text(settings.name.as_str()),
        None => {
            assert(""@ == Seq::<char>::empty());
            debug_text("")
        },
    };
    channel_line(channel, shown.as_str())
}

/// Describes a packet, given how its text shows. The text is used only
/// where the packet carries a text message.
pub fn packet_line(packet: &MeshPacket, shown_text: &str) -> (line: String)
    ensures
        line@ == packet_description_with(*packet, shown_text@),
{
    let mut line = String::from_str("packet (from=0x");
    append_hexadecimal(&mut line, packet.from as u64, true);
    line.append(", to=0x");
    append_hexadecimal(&mut line, packet.to as u64, true);
    match &packet.decoded {
        Some(data) => {
            if data.portnum == PortNum::TextMessageApp.number() {
                line.append(", text=");
                line.append(shown_text);
            } else {
                line.append(", port=");
                append_signed_decimal(&mut line, data.portnum);
            }
        },
        None => {
            line.append(", port=");
            append_decimal(&mut line, 0);
        },
    }
    line.append(")");
    line
}

/// Describes a packet.
fn describe_packet(packet: &MeshPacket) -> (line: String)
    ensures
        line@ == packet_description(*packet),
{
    proof {
        reveal_strlit("");
    }
    match &packet.decoded {
        Some(data) => {
            if data.portnum == PortNum::TextMessageApp.number() {
                let text = utf8_lossy(data.payload.as_slice());
                let shown = debug_text(text.as_str());
                packet_line(packet, shown.as_str())
            } else {
                packet_line(packet, "")
            }
        },
        None => packet_line(packet, ""),
    }
}

/// Says in one line what a message from the radio holds. `len` is the
/// number of bytes that the message came in.
pub fn describe_from_radio(msg: &FromRadio, len: usize) -> (line: String)
    ensures
        line@ == description(*msg, len as nat),
{
    if msg.config_complete_id != 0 {
        let mut line = String::from_str("config_complete (id=0x");
        append_hexadecimal(&mut line, msg.config_complete_id as u64, true);
        line.append(")");
        return line;
    }
    if let Some(info) = &msg.my_info {
        let mut line = String::from_str("my_info (node=0x");
        append_hexadecimal(&mut line, info.my_node_num as u64, true);
        line.append(", fw=");
        line.append(info.firmware_version.as_str());
        line.append(")");
        return line;
    }
    if let Some(config) = &msg.config {
        if let Some(lora) = &config.lora {
            return describe_lora(lora);
        }
    }
    if let Some(channel) = &msg.channel {
        return describe_channel(channel);
    }
    if let Some(meta) = &msg.metadata {
        let mut line = String::from_str("metadata (fw=");
        line.append(meta.firmware_version.as_str());
        line.append(", has_pkc=");
        append_bool(&mut line, meta.has_pkc);
        line.append(")");
        return line;
    }
    if let Some(packet) = &msg.packet {
        return describe_packet(packet);
    }
    if msg.id != 0 {
        let mut line = String::from_str("from_radio (id=");
        append_decimal(&mut line, msg.id as u64);
        line.append(")");
        return line;
    }
    let mut line = String::from_str("from_radio (");
    append_decimal(&mut line, len as u64);
    line.append(" bytes, unrecognized)");
    line
}

/// Says in one line that bytes from the radio could not be read as a
/// message, given what the decoder said went wrong.
pub fn describe_undecodable(data: &[u8], error: &str) -> (line: String)
    ensures
        line@ == undecodable_description(data@, error@),
{
    let mut line = String::from_str("from_radio (");
    append_decimal(&mut line, data.len() as u64);
    line.append(" bytes, parse error: ");
    line.append(error);
    line.append(", hex: ");
    let shown: usize = if data.len() < 16 {
        data.len()
    } else {
        16
    };
    let ghost head = line@;
    let mut i: usize = 0;
    assert(head + hex_dump(data@, 0) == head);
    while i < shown
        invariant
            i <= shown <= data@.len(),
            line@ == head + hex_dump(data@, i as nat),
        decreases shown - i,
    {
        if i > 0 {
            crate::text::push_char(&mut line, ' ');
        }
        append_hex_byte(&mut line, data[i]);
        proof {
            if i > 0 {
                assert(line@ == head + (hex_dump(data@, i as nat) + seq![' '] + hex_byte(
                    data@[i as int],
                )));
            } else {
                assert(hex_dump(data@, 0) == Seq::<char>::empty());
            }
        }
        i = i + 1;
    }
    line.append(")");
    line
}

/// The longest text of a notification that is sent, in bytes.
pub const MAX_TEXT: usize = 200;

/// The part of a notification's text that is sent: its first 200 bytes, or
/// all of it if it is no longer.
pub open spec fn sent_bytes(message: Seq<u8>) -> Seq<u8> {
    if message.len() > MAX_TEXT {
        message.take(MAX_TEXT as int)
    } else {
        message
    }
}

/// The part of a notification's text that is sent. A longer text is cut
/// after 200 bytes, which must not fall inside a character.
pub fn sent_text(message: &str) -> (text: &str)
    requires
        message.spec_bytes().len() > MAX_TEXT ==> vstd::utf8::is_char_boundary(
            message.spec_bytes(),
            MAX_TEXT as int,
        ),
    ensures
        text.spec_bytes() == sent_bytes(message.spec_bytes()),
{
    if message.as_bytes().len() > MAX_TEXT {
        let (head, _) = message.split_at(MAX_TEXT);
        assert(message.spec_bytes().subrange(0, MAX_TEXT as int) == message.spec_bytes().take(
            MAX_TEXT as int,
        ));
        head
    } else {
        message
    }
}

/// What goes over the serial line for a text: the frame of its packet,
/// unless the packet is longer than a frame may carry.
pub open spec fn frame_for(text_bytes: Seq<u8>) -> Option<Seq<u8>> {
    if text_packet_bytes(text_bytes).len() > MAX_PAYLOAD {
        None
    } else {
        Some(framed(text_packet_bytes(text_bytes)))
    }
}

/// The frame that sends `text` to every node of the mesh, or `None` if its
/// packet is longer than a frame may carry.
pub fn outgoing_frame(text: &str) -> (frame: Option<Vec<u8>>)
    ensures
        match frame {
            Some(bytes) => frame_for(text.spec_bytes()) == Some(bytes@),
            None => frame_for(text.spec_bytes()) is None,
        },
{
    let payload = build_text_packet(text);
    if payload.len() > MAX_PAYLOAD {
        None
    } else {
        Some(frame_packet(payload.as_slice()))
    }
}

} // verus!
