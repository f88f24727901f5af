//! Wire codec: big-endian primitives, fixed 64-byte strings, fixed 1024-byte
//! blocks, and the client and server messages built from them.

use vstd::prelude::*;
use vstd::slice::{slice_subrange, slice_to_vec};
use vstd::utf8::*;

verus! {

/// Width of a fixed string field on the wire.
pub const STRING_FIELD: usize = 64;

/// Width of a fixed byte block on the wire.
pub const BLOCK_FIELD: usize = 1024;

/// The two bytes of `v`, high byte first.
pub open spec fn u16_be(v: u16) -> Seq<u8> {
    seq![(v / 256) as u8, (v % 256) as u8]
}

/// `s` cut or zero-filled to exactly `n` bytes.
pub open spec fn fit(s: Seq<u8>, n: nat) -> Seq<u8> {
    Seq::new(n, |i: int| if i < s.len() { s[i] } else { 0u8 })
}

/// A string as its fixed 64-byte field: its UTF-8 bytes, cut or zero-filled.
pub open spec fn fixed_string(s: Seq<char>) -> Seq<u8> {
    fit(encode_utf8(s), STRING_FIELD as nat)
}

/// Why an inbound message could not be decoded.
#[derive(Clone, Copy, Debug, PartialEq, Eq, Structural)]
pub enum DecodeError {
    /// The buffer ends before the field does, or the 16-bit cursor cannot
    /// move past the field.
    Truncated,
    /// A fixed string field does not hold UTF-8.
    InvalidUtf8,
}

/// `std::string::FromUtf8Error`, carried as it comes and never opened.
#[verifier::external_type_specification]
#[verifier::external_body]
pub struct ExFromUtf8Error(std::string::FromUtf8Error);

/// `String::from_utf8` of std. It accepts exactly the byte vectors that are
/// well-formed UTF-8, and the string it then returns is made of the scalar
/// values that the bytes encode. Nothing is claimed of the error.
#[verifier::external_body]
fn string_from_utf8(bytes: Vec<u8>) -> (r: Result<String, std::string::FromUtf8Error>)
    ensures
        r is Ok <==> valid_utf8(bytes@),
        r matches Ok(s) ==> s@ == decode_utf8(bytes@),
{
    String::from_utf8(bytes)
}

/// The 16-bit value whose high byte is `buf[at]` and low byte `buf[at + 1]`.
pub open spec fn u16_at(buf: Seq<u8>, at: int) -> u16 {
    (buf[at] * 256 + buf[at + 1]) as u16
}

/// The 64 bytes of the string field that starts at `at`.
pub open spec fn string_field_at(buf: Seq<u8>, at: int) -> Seq<u8> {
    buf.subrange(at, at + STRING_FIELD as int)
}

/// A cursor over one inbound buffer.
pub struct PacketReader<'a> {
    pub index: i16,
    pub buffer: &'a [u8],
}

impl<'a> PacketReader<'a> {
    /// True when `n` more bytes lie at the cursor and the cursor can move
    /// past them.
    pub open spec fn can_read(&self, n: int) -> bool {
        0 <= self.index && self.index + n <= self.buffer@.len() && self.index + n <= i16::MAX
    }

    fn has(&self, n: i16) -> (b: bool)
        requires
            0 <= n,
        ensures
            b == self.can_read(n as int),
    {
        self.index >= 0 && self.index <= i16::MAX - n && (self.index as usize) + (n as usize)
            <= self.buffer.len()
    }

    /// Reads one byte and moves past it.
    pub fn read_u8(&mut self) -> (r: Result<u8, DecodeError>)
        ensures
            final(self).buffer@ == old(self).buffer@,
            match r {
                Ok(v) => {
                    &&& old(self).can_read(1)
                    &&& v == old(self).buffer@[old(self).index as int]
                    &&& final(self).index == old(self).index + 1
                },
                Err(e) => {
                    &&& !old(self).can_read(1)
                    &&& e == DecodeError::Truncated
                    &&& final(self).index == old(self).index
                },
            },
    {
        if !self.has(1) {
            return Err(DecodeError::Truncated);
        }
        let read: u8 = self.buffer[self.index as usize];
        self.index = self.index + 1;
        Ok(read)
    }

    /// Reads two bytes, high byte first, and moves past them.
    pub fn read_u16(&mut self) -> (r: Result<u16, DecodeError>)
        ensures
            final(self).buffer@ == old(self).buffer@,
            match r {
                Ok(v) => {
                    &&& old(self).can_read(2)
                    &&& v == u16_at(old(self).buffer@, old(self).index as int)
                    &&& final(self).index == old(self).index + 2
                },
                Err(e) => {
                    &&& !old(self).can_read(2)
                    &&& e == DecodeError::Truncated
                    &&& final(self).index == old(self).index
                },
            },
    {
        if !self.has(2) {
            return Err(DecodeError::Truncated);
        }
        let high: u8 = self.buffer[self.index as usize];
        let low: u8 = self.buffer[(self.index + 1) as usize];
        let value: u16 = ((high as u16) << 8) | (low as u16);
        assert(value == high * 256 + low) by (bit_vector)
            requires
                value == ((high as u16) << 8) | (low as u16),
        ;
        self.index = self.index + 2;
        Ok(value)
    }

    /// Reads one fixed 64-byte string field, padding included, and moves
    /// past it. A field that is not UTF-8 is refused and the cursor stays.
    pub fn read_string(&mut self) -> (r: Result<String, DecodeError>)
        ensures
            final(self).buffer@ == old(self).buffer@,
            match r {
                Ok(s) => {
                    &&& old(self).can_read(STRING_FIELD as int)
                    &&& valid_utf8(string_field_at(old(self).buffer@, old(self).index as int))
                    &&& s@ == decode_utf8(
                        string_field_at(old(self).buffer@, old(self).index as int),
                    )
                    &&& final(self).index == old(self).index + STRING_FIELD
                },
                Err(e) => {
                    &&& final(self).index == old(self).index
                    &&& e == DecodeError::Truncated <==> !old(self).can_read(STRING_FIELD as int)
                    &&& e == DecodeError::InvalidUtf8 <==> old(self).can_read(STRING_FIELD as int)
                        && !valid_utf8(
                        string_field_at(old(self).buffer@, old(self).index as int),
                    )
                },
            },
    {
        if !self.has(64) {
            return Err(DecodeError::Truncated);
        }
        let start_index: usize = self.index as usize;
        let field = slice_to_vec(slice_subrange(self.buffer, start_index, start_index + 64));
        match string_from_utf8(field) {
            Ok(read) => {
                self.index = self.index + 64;
                Ok(read)
            },
            Err(_) => Err(DecodeError::InvalidUtf8),
        }
    }
}

/// Bytes that follow the opcode in each client message.
pub const IDENTIFICATION_BODY: i16 = 129;

pub const SET_BLOCK_BODY: i16 = 8;

pub const POSITION_BODY: i16 = 9;

pub const CHAT_BODY: i16 = 65;

/// Decodes the body of an identification message: protocol version, user
/// name and key, both strings with their padding. On an error the cursor is
/// where it was.
pub fn client_player_identification(reader: &mut PacketReader) -> (r: Result<
    (u8, String, String),
    DecodeError,
>)
    ensures
        final(reader).buffer@ == old(reader).buffer@,
        match r {
            Ok((version, username, key)) => {
                let buf = old(reader).buffer@;
                let at = old(reader).index as int;
                &&& old(reader).can_read(IDENTIFICATION_BODY as int)
                &&& valid_utf8(string_field_at(buf, at + 1))
                &&& valid_utf8(string_field_at(buf, at + 65))
                &&& version == buf[at]
                &&& username@ == decode_utf8(string_field_at(buf, at + 1))
                &&& key@ == decode_utf8(string_field_at(buf, at + 65))
                &&& final(reader).index == at + IDENTIFICATION_BODY
            },
            Err(e) => {
                let buf = old(reader).buffer@;
                let at = old(reader).index as int;
                &&& final(reader).index == old(reader).index
                &&& e == DecodeError::Truncated <==> !old(reader).can_read(
                    IDENTIFICATION_BODY as int,
                )
                &&& e == DecodeError::InvalidUtf8 <==> old(reader).can_read(
                    IDENTIFICATION_BODY as int,
                ) && !(valid_utf8(string_field_at(buf, at + 1)) && valid_utf8(
                    string_field_at(buf, at + 65),
                ))
            },
        },
{
    let start = reader.index;
    if !reader.has(IDENTIFICATION_BODY) {
        return Err(DecodeError::Truncated);
    }
    let protocol_version = match reader.read_u8() {
        Ok(v) => v,
        Err(e) => {
            return Err(e);
        },
    };
    let username = match reader.read_string() {
        Ok(s) => s,
        Err(e) => {
            reader.index = start;
            return Err(e);
        },
    };
    let key = match reader.read_string() {
        Ok(s) => s,
        Err(e) => {
            reader.index = start;
            return Err(e);
        },
    };
    Ok((protocol_version, username, key))
}

/// Decodes the body of a block edit. The wire carries the mode before the
/// block id; the result is `(x, y, z, id, mode)`.
pub fn client_set_block(reader: &mut PacketReader) -> (r: Result<
    (u16, u16, u16, u8, u8),
    DecodeError,
>)
    ensures
        final(reader).buffer@ == old(reader).buffer@,
        match r {
            Ok((x, y, z, id, mode)) => {
                let buf = old(reader).buffer@;
                let at = old(reader).index as int;
                &&& old(reader).can_read(SET_BLOCK_BODY as int)
                &&& x == u16_at(buf, at)
                &&& y == u16_at(buf, at + 2)
                &&& z == u16_at(buf, at + 4)
                &&& mode == buf[at + 6]
                &&& id == buf[at + 7]
                &&& final(reader).index == at + SET_BLOCK_BODY
            },
            Err(e) => {
                &&& !old(reader).can_read(SET_BLOCK_BODY as int)
                &&& e == DecodeError::Truncated
                &&& final(reader).index == old(reader).index
            },
        },
{
    if !reader.has(SET_BLOCK_BODY) {
        return Err(DecodeError::Truncated);
    }
    let x = reader.read_u16();
    let y = reader.read_u16();
    let z = reader.read_u16();
    let mode = reader.read_u8();
    let id = reader.read_u8();
    match (x, y, z, mode, id) {
        (Ok(x), Ok(y), Ok(z), Ok(mode), Ok(id)) => Ok((x, y, z, id, mode)),
        _ => Err(DecodeError::Truncated),
    }
}

/// Decodes the body of a position update:
/// `(player id, x, y, z, yaw, pitch)`.
pub fn client_position_orientation(reader: &mut PacketReader) -> (r: Result<
    (u8, u16, u16, u16, u8, u8),
    DecodeError,
>)
    ensures
        final(reader).buffer@ == old(reader).buffer@,
        match r {
            Ok((player_id, x, y, z, yaw, pitch)) => {
                let buf = old(reader).buffer@;
                let at = old(reader).index as int;
                &&& old(reader).can_read(POSITION_BODY as int)
                &&& player_id == buf[at]
                &&& x == u16_at(buf, at + 1)
                &&& y == u16_at(buf, at + 3)
                &&& z == u16_at(buf, at + 5)
                &&& yaw == buf[at + 7]
                &&& pitch == buf[at + 8]
                &&& final(reader).index == at + POSITION_BODY
            },
            Err(e) => {
                &&& !old(reader).can_read(POSITION_BODY as int)
                &&& e == DecodeError::Truncated
                &&& final(reader).index == old(reader).index
            },
        },
{
    if !reader.has(POSITION_BODY) {
        return Err(DecodeError::Truncated);
    }
    let player_id = reader.read_u8();
    let x = reader.read_u16();
    let y = reader.read_u16();
    let z = reader.read_u16();
    let yaw = reader.read_u8();
    let pitch = reader.read_u8();
    match (player_id, x, y, z, yaw, pitch) {
        (Ok(player_id), Ok(x), Ok(y), Ok(z), Ok(yaw), Ok(pitch)) => Ok(
            (player_id, x, y, z, yaw, pitch),
        ),
        _ => Err(DecodeError::Truncated),
    }
}

/// Decodes the body of a chat message: an unused byte and the text with its
/// padding. On an error the cursor is where it was.
pub fn client_chat_message(reader: &mut PacketReader) -> (r: Result<(u8, String), DecodeError>)
    ensures
        final(reader).buffer@ == old(reader).buffer@,
        match r {
            Ok((unused, text)) => {
                let buf = old(reader).buffer@;
                let at = old(reader).index as int;
                &&& old(reader).can_read(CHAT_BODY as int)
                &&& valid_utf8(string_field_at(buf, at + 1))
                &&& unused == buf[at]
                &&& text@ == decode_utf8(string_field_at(buf, at + 1))
                &&& final(reader).index == at + CHAT_BODY
            },
            Err(e) => {
                let buf = old(reader).buffer@;
                let at = old(reader).index as int;
                &&& final(reader).index == old(reader).index
                &&& e == DecodeError::Truncated <==> !old(reader).can_read(CHAT_BODY as int)
                &&& e == DecodeError::InvalidUtf8 <==> old(reader).can_read(CHAT_BODY as int)
                    && !valid_utf8(string_field_at(buf, at + 1))
            },
        },
{
    let start = reader.index;
    if !reader.has(CHAT_BODY) {
        return Err(DecodeError::Truncated);
    }
    let unused = match reader.read_u8() {
        Ok(v) => v,
        Err(e) => {
            return Err(e);
        },
    };
    let text = match reader.read_string() {
        Ok(s) => s,
        Err(e) => {
            reader.index = start;
            return Err(e);
        },
    };
    Ok((unused, text))
}

/// Builds one outbound message by appending fields.
pub struct PacketWriter {
    buffer: Vec<u8>,
}

impl View for PacketWriter {
    type V = Seq<u8>;

    closed spec fn view(&self) -> Seq<u8> {
        self.buffer@
    }
}

impl PacketWriter {
    /// An empty message.
    pub fn new() -> (w: PacketWriter)
        ensures
            w@ == Seq::<u8>::empty(),
    {
        PacketWriter { buffer: Vec::new() }
    }

    /// The bytes written so far.
    pub fn into_bytes(self) -> (bytes: Vec<u8>)
        ensures
            bytes@ == self@,
    {
        self.buffer
    }

    /// Appends one byte.
    pub fn write_u8(&mut self, value: u8)
        ensures
            final(self)@ == old(self)@.push(value),
    {
        self.buffer.push(value);
    }

    /// Appends two bytes, high byte first.
    pub fn write_u16(&mut self, value: u16)
        ensures
            final(self)@ == old(self)@ + u16_be(value),
    {
        let high: u8 = (value >> 8) as u8;
        let low: u8 = (value & 0xff) as u8;
        assert(high == value / 256 && low == value % 256) by (bit_vector)
            requires
                high == (value >> 8) as u8,
                low == (value & 0xff) as u8,
        ;
        self.buffer.push(high);
        self.buffer.push(low);
        assert(self.buffer@ =~= old(self).buffer@ + u16_be(value));
    }

    /// Appends `array` as a fixed 1024-byte block.
    pub fn write_byte_arr(&mut self, array: Vec<u8>)
        ensures
            final(self)@ == old(self)@ + fit(array@, BLOCK_FIELD as nat),
    {
        let mut array = array;
        array.resize(BLOCK_FIELD, 0u8);
        self.buffer.extend_from_slice(array.as_slice());
        assert(self.buffer@ =~= old(self).buffer@ + fit(array@, BLOCK_FIELD as nat));
    }
}

impl PacketWriter {
    /// Appends `value` as a fixed 64-byte string field.
    pub fn write_string(&mut self, value: &String)
        ensures
            final(self)@ == old(self)@ + fixed_string(value@),
    {
        let mut bytes = slice_to_vec(value.as_str().as_bytes());
        bytes.resize(STRING_FIELD, 0u8);
        self.buffer.extend_from_slice(bytes.as_slice());
        assert(self.buffer@ =~= old(self).buffer@ + fixed_string(value@));
    }
}

/// Protocol version announced to clients.
pub const PROTOCOL_VERSION: u8 = 7;

/// The player id by which a client is told about itself.
pub const SELF_ID: u8 = 255;

/// The server's identification: protocol version, server name, message of
/// the day, user type.
pub open spec fn server_identification_wire() -> Seq<u8> {
    seq![0x00u8, PROTOCOL_VERSION] + fixed_string("server name"@) + fixed_string("motd"@)
        + seq![0u8]
}

/// The opening message of a level transfer: the opcode alone.
pub open spec fn level_initialize_wire() -> Seq<u8> {
    seq![0x02u8]
}

/// A chunk message: the chunk's length as a 16-bit field, the chunk as a
/// fixed block, and a progress byte that is always zero.
pub open spec fn level_data_chunk_wire(chunk: Seq<u8>) -> Seq<u8> {
    seq![0x03u8] + u16_be((chunk.len() % 0x10000) as u16) + fit(chunk, BLOCK_FIELD as nat)
        + seq![0u8]
}

/// The closing message of a level transfer; each dimension is sent as its
/// low 16 bits.
pub open spec fn level_finalize_wire(size_x: nat, size_y: nat, size_z: nat) -> Seq<u8> {
    seq![0x04u8] + u16_be((size_x % 0x10000) as u16) + u16_be((size_y % 0x10000) as u16)
        + u16_be((size_z % 0x10000) as u16)
}

/// A block edit as players are told of it.
pub open spec fn set_block_wire(x: u16, y: u16, z: u16, id: u8) -> Seq<u8> {
    seq![0x06u8] + u16_be(x) + u16_be(y) + u16_be(z) + seq![id]
}

/// A chat line: an unused byte, then the text as a string field.
pub open spec fn message_wire(text: Seq<char>) -> Seq<u8> {
    seq![0x0du8, 0u8] + fixed_string(text)
}

/// A player described to another: id, name, position, orientation.
pub open spec fn spawn_player_wire(
    player_id: u8,
    name: Seq<char>,
    x: u16,
    y: u16,
    z: u16,
    yaw: u8,
    pitch: u8,
) -> Seq<u8> {
    seq![0x07u8, player_id] + fixed_string(name) + u16_be(x) + u16_be(y) + u16_be(z)
        + seq![yaw, pitch]
}

/// A player's position and orientation.
pub open spec fn teleport_player_wire(
    player_id: u8,
    x: u16,
    y: u16,
    z: u16,
    yaw: u8,
    pitch: u8,
) -> Seq<u8> {
    seq![0x08u8, player_id] + u16_be(x) + u16_be(y) + u16_be(z) + seq![yaw, pitch]
}

/// A player to forget.
pub open spec fn despawn_player_wire(player_id: u8) -> Seq<u8> {
    seq![0x0cu8, player_id]
}

/// The low 16 bits of a length, a dimension or a coordinate.
pub fn low_u16(n: usize) -> (v: u16)
    ensures
        v == n % 0x10000,
{
    let v: u16 = (n & 0xffff) as u16;
    assert(v == n % 0x10000) by (bit_vector)
        requires
            v == (n & 0xffff) as u16,
    ;
    v
}

/// Encodes the server's identification.
pub fn server_identification_packet() -> (packet: Vec<u8>)
    ensures
        packet@ == server_identification_wire(),
{
    let mut packet = PacketWriter::new();
    packet.write_u8(0x00);
    packet.write_u8(PROTOCOL_VERSION);
    packet.write_string(&"server name".to_owned());
    packet.write_string(&"motd".to_owned());
    packet.write_u8(0);
    assert(packet@ =~= server_identification_wire());
    packet.into_bytes()
}

/// Encodes the opening message of a level transfer.
pub fn level_initialize() -> (packet: Vec<u8>)
    ensures
        packet@ == level_initialize_wire(),
{
    let mut packet = PacketWriter::new();
    packet.write_u8(0x02);
    assert(packet@ =~= level_initialize_wire());
    packet.into_bytes()
}

/// Encodes one chunk of a level transfer.
pub fn level_data_chunk(chunk: Vec<u8>) -> (packet: Vec<u8>)
    ensures
        packet@ == level_data_chunk_wire(chunk@),
{
    let mut packet = PacketWriter::new();
    packet.write_u8(0x03);
    packet.write_u16(low_u16(chunk.len()));
    packet.write_byte_arr(chunk);
    packet.write_u8(0);
    assert(packet@ =~= level_data_chunk_wire(chunk@));
    packet.into_bytes()
}

/// Encodes the closing message of a level transfer.
pub fn level_finalize(size_x: usize, size_y: usize, size_z: usize) -> (packet: Vec<u8>)
    ensures
        packet@ == level_finalize_wire(size_x as nat, size_y as nat, size_z as nat),
{
    let mut packet = PacketWriter::new();
    packet.write_u8(0x04);
    packet.write_u16(low_u16(size_x));
    packet.write_u16(low_u16(size_y));
    packet.write_u16(low_u16(size_z));
    assert(packet@ =~= level_finalize_wire(size_x as nat, size_y as nat, size_z as nat));
    packet.into_bytes()
}

/// Encodes a block edit.
pub fn set_block(x: u16, y: u16, z: u16, id: u8) -> (packet: Vec<u8>)
    ensures
        packet@ == set_block_wire(x, y, z, id),
{
    let mut packet = PacketWriter::new();
    packet.write_u8(0x06);
    packet.write_u16(x);
    packet.write_u16(y);
    packet.write_u16(z);
    packet.write_u8(id);
    assert(packet@ =~= set_block_wire(x, y, z, id));
    packet.into_bytes()
}

/// Encodes a chat line.
pub fn message(text: &String) -> (packet: Vec<u8>)
    ensures
        packet@ == message_wire(text@),
{
    let mut packet = PacketWriter::new();
    packet.write_u8(0x0d);
    packet.write_u8(0);
    packet.write_string(text);
    assert(packet@ =~= message_wire(text@));
    packet.into_bytes()
}

/// Encodes the description of a player.
pub fn spawn_player_packet(
    player_id: u8,
    player_name: &String,
    x: u16,
    y: u16,
    z: u16,
    yaw: u8,
    pitch: u8,
) -> (packet: Vec<u8>)
    ensures
        packet@ == spawn_player_wire(player_id, player_name@, x, y, z, yaw, pitch),
{
    let mut packet = PacketWriter::new();
    packet.write_u8(0x07);
    packet.write_u8(player_id);
    packet.write_string(player_name);
    packet.write_u16(x);
    packet.write_u16(y);
    packet.write_u16(z);
    packet.write_u8(yaw);
    packet.write_u8(pitch);
    assert(packet@ =~= spawn_player_wire(player_id, player_name@, x, y, z, yaw, pitch));
    packet.into_bytes()
}

/// Encodes a player's position and orientation.
pub fn teleport_player_packet(player_id: u8, x: u16, y: u16, z: u16, yaw: u8, pitch: u8) -> (packet:
    Vec<u8>)
    ensures
        packet@ == teleport_player_wire(player_id, x, y, z, yaw, pitch),
{
    let mut packet = PacketWriter::new();
    packet.write_u8(0x08);
    packet.write_u8(player_id);
    packet.write_u16(x);
    packet.write_u16(y);
    packet.write_u16(z);
    packet.write_u8(yaw);
    packet.write_u8(pitch);
    assert(packet@ =~= teleport_player_wire(player_id, x, y, z, yaw, pitch));
    packet.into_bytes()
}

/// Encodes the removal of a player.
pub fn despawn_player_packet(player_id: u8) -> (packet: Vec<u8>)
    ensures
        packet@ == despawn_player_wire(player_id),
{
    let mut packet = PacketWriter::new();
    packet.write_u8(0x0c);
    packet.write_u8(player_id);
    assert(packet@ =~= despawn_player_wire(player_id));
    packet.into_bytes()
}

/// The byte strings that a list of packets holds.
pub open spec fn packet_bytes(packets: Seq<Vec<u8>>) -> Seq<Seq<u8>> {
    packets.map_values(|p: Vec<u8>| p@)
}

/// Number of chunks that carry a payload of `len` bytes.
pub open spec fn chunk_count(len: nat) -> nat {
    (len + BLOCK_FIELD - 1) as nat / BLOCK_FIELD as nat
}

/// The `k`-th chunk of a payload: 1024 bytes, or what is left for the last.
pub open spec fn level_chunk(payload: Seq<u8>, k: int) -> Seq<u8> {
    payload.subrange(
        k * BLOCK_FIELD,
        if (k + 1) * BLOCK_FIELD <= payload.len() {
            (k + 1) * BLOCK_FIELD
        } else {
            payload.len() as int
        },
    )
}

/// The messages of a level transfer, in the order in which they are sent:
/// one initialize, the chunks of the payload, one finalize with the grid's
/// dimensions.
pub open spec fn level_transfer_wire(
    payload: Seq<u8>,
    size_x: nat,
    size_y: nat,
    size_z: nat,
) -> Seq<Seq<u8>> {
    seq![level_initialize_wire()] + Seq::new(
        chunk_count(payload.len()),
        |k: int| level_data_chunk_wire(level_chunk(payload, k)),
    ) + seq![level_finalize_wire(size_x, size_y, size_z)]
}

/// Splits a compressed level into the messages of a level transfer.
pub fn level_transfer(payload: &[u8], size_x: usize, size_y: usize, size_z: usize) -> (packets:
    Vec<Vec<u8>>)
    ensures
        packet_bytes(packets@) == level_transfer_wire(
            payload@,
            size_x as nat,
            size_y as nat,
            size_z as nat,
        ),
{
    let mut packets: Vec<Vec<u8>> = Vec::new();
    packets.push(level_initialize());
    let mut start: usize = 0;
    let mut sent: usize = 0;
    while start < payload.len()
        invariant
            start <= payload.len(),
            sent <= chunk_count(payload@.len()),
            start == if sent * BLOCK_FIELD <= payload.len() {
                sent * BLOCK_FIELD
            } else {
                payload.len() as int
            },
            packets.len() == sent + 1,
            packets[0]@ == level_initialize_wire(),
            forall|k: int|
                0 <= k < sent ==> (#[trigger] packets[k + 1])@ == level_data_chunk_wire(
                    level_chunk(payload@, k),
                ),
        decreases payload.len() - start,
    {
        let end: usize = if payload.len() - start > BLOCK_FIELD {
            start + BLOCK_FIELD
        } else {
            payload.len()
        };
        let chunk = slice_to_vec(slice_subrange(payload, start, end));
        assert(chunk@ == level_chunk(payload@, sent as int));
        packets.push(level_data_chunk(chunk));
        start = end;
        sent = sent + 1;
    }
    packets.push(level_finalize(size_x, size_y, size_z));
    assert(packet_bytes(packets@) =~= level_transfer_wire(
        payload@,
        size_x as nat,
        size_y as nat,
        size_z as nat,
    ));
    packets
}

/// `n` NUL characters: what the zero padding of a string field decodes to.
pub open spec fn nul_padding(n: nat) -> Seq<char> {
    Seq::new(n, |i: int| '\0')
}

proof fn lemma_encode_utf8_concat(a: Seq<char>, b: Seq<char>)
    ensures
        encode_utf8(a + b) == encode_utf8(a) + encode_utf8(b),
    decreases a.len(),
{
    if a.len() == 0 {
        assert(a + b =~= b);
        assert(encode_utf8(a) + encode_utf8(b) =~= encode_utf8(b));
    } else {
        assert((a + b).drop_first() =~= a.drop_first() + b);
        lemma_encode_utf8_concat(a.drop_first(), b);
        assert(encode_utf8(a + b) =~= encode_utf8(a) + encode_utf8(b));
    }
}

/// A string whose UTF-8 form fits the 64-byte field survives the field:
/// what was written is valid UTF-8 and decodes to the string followed by
/// one NUL for each byte of padding. A longer string is cut at 64 bytes.
pub proof fn lemma_fixed_string_round_trip(text: Seq<char>)
    ensures
        fixed_string(text).len() == STRING_FIELD,
        encode_utf8(text).len() <= STRING_FIELD ==> {
            &&& valid_utf8(fixed_string(text))
            &&& decode_utf8(fixed_string(text)) == text + nul_padding(
                (STRING_FIELD - encode_utf8(text).len()) as nat,
            )
        },
        encode_utf8(text).len() > STRING_FIELD ==> fixed_string(text) == encode_utf8(
            text,
        ).subrange(0, STRING_FIELD as int),
{
    let bytes = encode_utf8(text);
    if bytes.len() <= STRING_FIELD {
        let pad = nul_padding((STRING_FIELD - bytes.len()) as nat);
        assert(is_ascii_chars(pad));
        is_ascii_chars_encode_utf8(pad);
        lemma_encode_utf8_concat(text, pad);
        assert(fixed_string(text) =~= bytes + encode_utf8(pad));
        encode_utf8_valid_utf8(text + pad);
        encode_utf8_decode_utf8(text + pad);
    } else {
        assert(fixed_string(text) =~= bytes.subrange(0, STRING_FIELD as int));
    }
}

} // verus!
