//! The protocol codec: usernames, reliable protocol messages and the
//! per-tick transform snapshot, each with a compact binary encoding.
//!
//! Every encoder and decoder is specified against a mathematical
//! description of the wire format, and decoding an encoding is proved to
//! give back the original value.

use vstd::prelude::*;
use vstd::string::StrSliceExecFns;
use vstd::utf8::{decode_utf8, encode_utf8, valid_utf8};

use crate::lobby::{Color, LinkId, PlayerId, PlayerView, Position, Rotation};
use crate::wire::{
    lemma_p_u16, lemma_p_u32, lemma_p_u64, lemma_u64_round_trip, p_u16, p_u32, p_u64, push_u16_le,
    push_u32_le, push_u64_le, read_u16_le, read_u32_le, read_u64_le, read_u8, spec_u16_le,
    spec_u32_le, spec_u64_from_le, spec_u64_le,
};

verus! {

/// Size in bytes of the transport's fixed out-of-band user-data buffer.
pub const USER_DATA_BYTES: usize = 256;

/// A display name, carried to the host in the connection's user-data
/// buffer as an 8-byte little-endian length prefix followed by raw UTF-8.
#[derive(Debug, Clone)]
pub struct Username(pub String);

impl View for Username {
    type V = Seq<char>;

    open spec fn view(&self) -> Seq<char> {
        self.0@
    }
}

impl Default for Username {
    /// The default display name.
    fn default() -> (r: Self)
        ensures
            r@ == "noname"@,
    {
        Username("noname".to_owned())
    }
}

/// The user-data buffer that carries `name`: length prefix, UTF-8 bytes,
/// zero padding. Nothing when the name's byte length exceeds the usable
/// capacity.
pub open spec fn spec_username_encode(name: Seq<char>) -> Option<Seq<u8>> {
    let bytes = encode_utf8(name);
    if bytes.len() > USER_DATA_BYTES - 8 {
        None
    } else {
        Some(
            spec_u64_le(bytes.len() as u64) + bytes + Seq::new(
                (USER_DATA_BYTES - 8 - bytes.len()) as nat,
                |i: int| 0u8,
            ),
        )
    }
}

/// The name recovered from a user-data buffer: the recovered length is
/// clamped to the usable capacity, and the clamped byte range must be
/// valid UTF-8.
pub open spec fn spec_username_decode(buf: Seq<u8>) -> Option<Seq<char>>
    recommends
        buf.len() == USER_DATA_BYTES,
{
    let announced = spec_u64_from_le(buf.take(8)) as int;
    let len = if announced > USER_DATA_BYTES - 8 {
        USER_DATA_BYTES - 8
    } else {
        announced
    };
    let bytes = buf.subrange(8, 8 + len);
    if valid_utf8(bytes) {
        Some(decode_utf8(bytes))
    } else {
        None
    }
}

/// Relies on `String::from_utf8`: it returns the string decoded from the
/// given bytes exactly when they are valid UTF-8, and fails otherwise.
#[verifier::external_body]
fn parse_utf8(bytes: Vec<u8>) -> (r: Option<String>)
    ensures
        r is Some <==> valid_utf8(bytes@),
        r is Some ==> r->0@ == decode_utf8(bytes@),
{
    String::from_utf8(bytes).ok()
}

/// Appends all bytes of `src` to `out`.
fn push_bytes(out: &mut Vec<u8>, src: &[u8])
    ensures
        final(out)@ == old(out)@ + src@,
{
    let ghost pre = out@;
    let mut i: usize = 0;
    while i < src.len()
        invariant
            i <= src@.len(),
            out@ == pre + src@.take(i as int),
        decreases src@.len() - i,
    {
        out.push(src[i]);
        proof {
            assert(pre + src@.take(i as int) + seq![src@[i as int]] =~= pre + src@.take(
                i as int + 1,
            ));
        }
        i += 1;
    }
    proof {
        assert(src@.take(src@.len() as int) =~= src@);
    }
}

impl Username {
    /// Encodes the name into the fixed-size user-data buffer, or reports
    /// failure, without output, when the name is too long for it.
    pub fn to_netcode_data(&self) -> (r: Option<Vec<u8>>)
        ensures
            match r {
                Some(buf) => {
                    &&& spec_username_encode(self@) == Some(buf@)
                    &&& buf@.len() == USER_DATA_BYTES
                },
                None => spec_username_encode(self@) is None,
            },
    {
        let bytes = self.0.as_str().as_bytes_vec();
        if bytes.len() > USER_DATA_BYTES - 8 {
            return None;
        }
        let mut out: Vec<u8> = Vec::new();
        push_u64_le(&mut out, bytes.len() as u64);
        push_bytes(&mut out, bytes.as_slice());
        let ghost base = out@;
        while out.len() < USER_DATA_BYTES
            invariant
                base.len() <= out@.len() <= USER_DATA_BYTES,
                out@ == base + Seq::new((out@.len() - base.len()) as nat, |i: int| 0u8),
            decreases USER_DATA_BYTES - out@.len(),
        {
            out.push(0u8);
            proof {
                assert(out@ =~= base + Seq::new((out@.len() - base.len()) as nat, |i: int| 0u8));
            }
        }
        proof {
            assert(out@ == spec_username_encode(self@)->0);
        }
        Some(out)
    }

    /// Recovers a display name from a full user-data buffer, clamping the
    /// announced length and rejecting bytes that are not valid UTF-8.
    pub fn from_user_data(user_data: &Vec<u8>) -> (r: Option<String>)
        requires
            user_data@.len() == USER_DATA_BYTES,
        ensures
            match r {
                Some(s) => spec_username_decode(user_data@) == Some(s@),
                None => spec_username_decode(user_data@) is None,
            },
    {
        let announced = match read_u64_le(user_data, 0) {
            Some((v, _)) => v,
            None => {
                return None;
            },
        };
        proof {
            assert(user_data@.skip(0) =~= user_data@);
            assert(user_data@.take(8) =~= user_data@.skip(0).take(8));
        }
        let len: usize = if announced > (USER_DATA_BYTES - 8) as u64 {
            USER_DATA_BYTES - 8
        } else {
            announced as usize
        };
        let mut bytes: Vec<u8> = Vec::new();
        let mut i: usize = 0;
        while i < len
            invariant
                i <= len,
                len <= USER_DATA_BYTES - 8,
                len + 8 <= user_data@.len(),
                bytes@ == user_data@.subrange(8, 8 + i as int),
            decreases len - i,
        {
            bytes.push(user_data[8 + i]);
            proof {
                assert(user_data@.subrange(8, 8 + i as int) + seq![user_data@[8 + i as int]]
                    =~= user_data@.subrange(8, 8 + i as int + 1));
            }
            i += 1;
        }
        parse_utf8(bytes)
    }
}

/// Encoding a name that fits the buffer and decoding the buffer gives the
/// name back; encoding fails exactly when the name's byte length exceeds
/// the buffer's usable capacity.
pub proof fn lemma_username_round_trip(name: Seq<char>)
    ensures
        spec_username_encode(name) is Some <==> encode_utf8(name).len() <= USER_DATA_BYTES - 8,
        spec_username_encode(name) is Some ==> spec_username_decode(spec_username_encode(name)->0)
            == Some(name),
{
    if encode_utf8(name).len() <= USER_DATA_BYTES - 8 {
        let bytes = encode_utf8(name);
        let len = bytes.len();
        let buf = spec_username_encode(name)->0;
        assert(buf.take(8) =~= spec_u64_le(len as u64));
        lemma_u64_round_trip(len as u64);
        assert(spec_u64_from_le(buf.take(8)) == len as u64);
        assert(buf.subrange(8, 8 + len as int) =~= bytes);
        vstd::utf8::encode_utf8_valid_utf8(name);
        vstd::utf8::encode_utf8_decode_utf8(name);
    }
}

/// Mathematical model of a protocol message: the username as a character
/// sequence, every other field plain.
pub enum ServerMessagesV {
    InitConnection { id: u64 },
    ChangeMap,
    PlayerConnected { id: PlayerId, color: Color, username: Seq<char> },
    PlayerDisconnected { id: PlayerId },
    ProjectileSpawn { id: LinkId, color: Color },
    ActorDespawn { id: LinkId },
}

/// The messages a host sends on the reliable-ordered channel, one per
/// discrete lifecycle event.
#[derive(Debug, Clone, PartialEq)]
pub enum ServerMessages {
    /// Tells a freshly accepted client its own assigned identity; sent
    /// exactly once per connection.
    InitConnection { id: u64 },
    /// Signals a map transition; clients unload all dynamic actors.
    ChangeMap,
    /// Announces a player's presence, with its display color and name.
    PlayerConnected { id: PlayerId, color: Color, username: String },
    /// Announces that a player left.
    PlayerDisconnected { id: PlayerId },
    /// Announces a projectile tied to a networked object.
    ProjectileSpawn { id: LinkId, color: Color },
    /// Removes a non-player networked object everywhere.
    ActorDespawn { id: LinkId },
}

impl View for ServerMessages {
    type V = ServerMessagesV;

    open spec fn view(&self) -> ServerMessagesV {
        match *self {
            ServerMessages::InitConnection { id } => ServerMessagesV::InitConnection { id },
            ServerMessages::ChangeMap => ServerMessagesV::ChangeMap,
            ServerMessages::PlayerConnected { id, color, ref username } => {
                ServerMessagesV::PlayerConnected { id, color, username: username@ }
            },
            ServerMessages::PlayerDisconnected { id } => {
                ServerMessagesV::PlayerDisconnected { id }
            },
            ServerMessages::ProjectileSpawn { id, color } => {
                ServerMessagesV::ProjectileSpawn { id, color }
            },
            ServerMessages::ActorDespawn { id } => ServerMessagesV::ActorDespawn { id },
        }
    }
}

/// The encoding of a player identity: a discriminant byte, then the
/// connection identifier for remote players.
pub open spec fn spec_pid_encode(id: PlayerId) -> Seq<u8> {
    match id {
        PlayerId::HostOrSingle => seq![0u8],
        PlayerId::Client(c) => seq![1u8] + spec_u64_le(c),
    }
}

/// The encoding of a color: its three HSL components.
pub open spec fn spec_color_encode(c: Color) -> Seq<u8> {
    spec_u16_le(c.hue_tenths) + spec_u16_le(c.saturation_permille) + spec_u16_le(
        c.lightness_permille,
    )
}

/// The encoding of a string field: a length prefix, then the UTF-8 bytes.
pub open spec fn spec_str_encode(s: Seq<char>) -> Seq<u8> {
    spec_u64_le(encode_utf8(s).len() as u64) + encode_utf8(s)
}

/// The encoding of a protocol message: a tag byte, then its fields.
pub open spec fn spec_message_encode(m: ServerMessagesV) -> Seq<u8> {
    match m {
        ServerMessagesV::InitConnection { id } => seq![0u8] + spec_u64_le(id),
        ServerMessagesV::ChangeMap => seq![1u8],
        ServerMessagesV::PlayerConnected { id, color, username } => {
            seq![2u8] + spec_pid_encode(id) + spec_color_encode(color) + spec_str_encode(username)
        },
        ServerMessagesV::PlayerDisconnected { id } => seq![3u8] + spec_pid_encode(id),
        ServerMessagesV::ProjectileSpawn { id, color } => {
            seq![4u8] + spec_u64_le(id.0) + spec_color_encode(color)
        },
        ServerMessagesV::ActorDespawn { id } => seq![5u8] + spec_u64_le(id.0),
    }
}

/// Parses a player identity off the front of the input.
pub open spec fn p_pid(b: Seq<u8>) -> Option<(PlayerId, Seq<u8>)> {
    if b.len() == 0 {
        None
    } else if b[0] == 0 {
        Some((PlayerId::HostOrSingle, b.skip(1)))
    } else if b[0] == 1 {
        match p_u64(b.skip(1)) {
            Some((c, r)) => Some((PlayerId::Client(c), r)),
            None => None,
        }
    } else {
        None
    }
}

/// Parses a color off the front of the input.
pub open spec fn p_color(b: Seq<u8>) -> Option<(Color, Seq<u8>)> {
    match p_u16(b) {
        Some((hue, r1)) => match p_u16(r1) {
            Some((sat, r2)) => match p_u16(r2) {
                Some((light, r3)) => Some(
                    (
                        Color {
                            hue_tenths: hue,
                            saturation_permille: sat,
                            lightness_permille: light,
                        },
                        r3,
                    ),
                ),
                None => None,
            },
            None => None,
        },
        None => None,
    }
}

/// Parses a length-prefixed UTF-8 string field off the front of the input.
pub open spec fn p_str(b: Seq<u8>) -> Option<(Seq<char>, Seq<u8>)> {
    match p_u64(b) {
        Some((len, r)) => {
            if r.len() < len {
                None
            } else {
                let bytes = r.take(len as int);
                if valid_utf8(bytes) {
                    Some((decode_utf8(bytes), r.skip(len as int)))
                } else {
                    None
                }
            }
        },
        None => None,
    }
}

/// The message a byte string decodes to, if it is exactly one well-formed
/// encoding with nothing trailing.
pub open spec fn spec_message_decode(b: Seq<u8>) -> Option<ServerMessagesV> {
    if b.len() == 0 {
        None
    } else {
        let rest = b.skip(1);
        if b[0] == 0 {
            match p_u64(rest) {
                Some((id, r)) => if r.len() == 0 {
                    Some(ServerMessagesV::InitConnection { id })
                } else {
                    None
                },
                None => None,
            }
        } else if b[0] == 1 {
            if rest.len() == 0 {
                Some(ServerMessagesV::ChangeMap)
            } else {
                None
            }
        } else if b[0] == 2 {
            match p_pid(rest) {
                Some((id, r1)) => match p_color(r1) {
                    Some((color, r2)) => match p_str(r2) {
                        Some((username, r3)) => if r3.len() == 0 {
                            Some(ServerMessagesV::PlayerConnected { id, color, username })
                        } else {
                            None
                        },
                        None => None,
                    },
                    None => None,
                },
                None => None,
            }
        } else if b[0] == 3 {
            match p_pid(rest) {
                Some((id, r1)) => if r1.len() == 0 {
                    Some(ServerMessagesV::PlayerDisconnected { id })
                } else {
                    None
                },
                None => None,
            }
        } else if b[0] == 4 {
            match p_u64(rest) {
                Some((link, r1)) => match p_color(r1) {
                    Some((color, r2)) => if r2.len() == 0 {
                        Some(ServerMessagesV::ProjectileSpawn { id: LinkId(link), color })
                    } else {
                        None
                    },
                    None => None,
                },
                None => None,
            }
        } else if b[0] == 5 {
            match p_u64(rest) {
                Some((link, r1)) => if r1.len() == 0 {
                    Some(ServerMessagesV::ActorDespawn { id: LinkId(link) })
                } else {
                    None
                },
                None => None,
            }
        } else {
            None
        }
    }
}

/// Parsing an encoded identity followed by anything yields the identity.
pub proof fn lemma_p_pid(id: PlayerId, rest: Seq<u8>)
    ensures
        p_pid(spec_pid_encode(id) + rest) == Some((id, rest)),
{
    match id {
        PlayerId::HostOrSingle => {
            let b = seq![0u8] + rest;
            assert(b[0] == 0);
            assert(b.skip(1) =~= rest);
        },
        PlayerId::Client(c) => {
            let b = seq![1u8] + spec_u64_le(c) + rest;
            assert(b[0] == 1);
            assert(b.skip(1) =~= spec_u64_le(c) + rest);
            lemma_p_u64(c, rest);
        },
    }
}

/// Parsing an encoded color followed by anything yields the color.
pub proof fn lemma_p_color(c: Color, rest: Seq<u8>)
    ensures
        p_color(spec_color_encode(c) + rest) == Some((c, rest)),
{
    let b = spec_color_encode(c) + rest;
    assert(b =~= spec_u16_le(c.hue_tenths) + (spec_u16_le(c.saturation_permille) + (spec_u16_le(
        c.lightness_permille,
    ) + rest)));
    lemma_p_u16(c.hue_tenths, spec_u16_le(c.saturation_permille) + (spec_u16_le(
        c.lightness_permille,
    ) + rest));
    lemma_p_u16(c.saturation_permille, spec_u16_le(c.lightness_permille) + rest);
    lemma_p_u16(c.lightness_permille, rest);
}

/// Parsing an encoded string field followed by anything yields the string.
pub proof fn lemma_p_str(s: Seq<char>, rest: Seq<u8>)
    requires
        encode_utf8(s).len() <= u64::MAX,
    ensures
        p_str(spec_str_encode(s) + rest) == Some((s, rest)),
{
    let bytes = encode_utf8(s);
    let len = bytes.len() as u64;
    let b = spec_str_encode(s) + rest;
    assert(b =~= spec_u64_le(len) + (bytes + rest));
    lemma_p_u64(len, bytes + rest);
    assert((bytes + rest).take(len as int) =~= bytes);
    assert((bytes + rest).skip(len as int) =~= rest);
    vstd::utf8::encode_utf8_valid_utf8(s);
    vstd::utf8::encode_utf8_decode_utf8(s);
}

/// A message whose encoding the wire format can carry: its string field,
/// if any, fits the 64-bit length prefix.
pub open spec fn msg_wf(m: ServerMessagesV) -> bool {
    match m {
        ServerMessagesV::PlayerConnected { username, .. } => encode_utf8(username).len()
            <= u64::MAX,
        _ => true,
    }
}

/// Decoding the encoding of any carriable message yields the message.
pub proof fn lemma_message_round_trip(m: ServerMessagesV)
    requires
        msg_wf(m),
    ensures
        spec_message_decode(spec_message_encode(m)) == Some(m),
{
    let b = spec_message_encode(m);
    match m {
        ServerMessagesV::InitConnection { id } => {
            assert(b[0] == 0);
            assert(b.skip(1) =~= spec_u64_le(id));
            assert(spec_u64_le(id) =~= spec_u64_le(id) + Seq::<u8>::empty());
            lemma_p_u64(id, Seq::<u8>::empty());
        },
        ServerMessagesV::ChangeMap => {
            assert(b[0] == 1);
            assert(b.skip(1) =~= Seq::<u8>::empty());
        },
        ServerMessagesV::PlayerConnected { id, color, username } => {
            assert(b[0] == 2);
            assert(b.skip(1) =~= spec_pid_encode(id) + (spec_color_encode(color)
                + spec_str_encode(username)));
            lemma_p_pid(id, spec_color_encode(color) + spec_str_encode(username));
            assert(spec_color_encode(color) + spec_str_encode(username) =~= spec_color_encode(
                color,
            ) + (spec_str_encode(username) + Seq::<u8>::empty()));
            lemma_p_color(color, spec_str_encode(username) + Seq::<u8>::empty());
            assert(spec_str_encode(username) + Seq::<u8>::empty() =~= spec_str_encode(username));
            lemma_p_str(username, Seq::<u8>::empty());
        },
        ServerMessagesV::PlayerDisconnected { id } => {
            assert(b[0] == 3);
            assert(b.skip(1) =~= spec_pid_encode(id) + Seq::<u8>::empty());
            lemma_p_pid(id, Seq::<u8>::empty());
        },
        ServerMessagesV::ProjectileSpawn { id, color } => {
            assert(b[0] == 4);
            assert(b.skip(1) =~= spec_u64_le(id.0) + (spec_color_encode(color)
                + Seq::<u8>::empty()));
            lemma_p_u64(id.0, spec_color_encode(color) + Seq::<u8>::empty());
            assert(spec_color_encode(color) + Seq::<u8>::empty() =~= spec_color_encode(color));
            lemma_p_color(color, Seq::<u8>::empty());
        },
        ServerMessagesV::ActorDespawn { id } => {
            assert(b[0] == 5);
            assert(b.skip(1) =~= spec_u64_le(id.0) + Seq::<u8>::empty());
            lemma_p_u64(id.0, Seq::<u8>::empty());
        },
    }
}

/// Encodes a message for the reliable-ordered channel.
pub fn encode_message(m: &ServerMessages) -> (r: Vec<u8>)
    ensures
        r@ == spec_message_encode(m@),
{
    let mut out: Vec<u8> = Vec::new();
    match m {
        ServerMessages::InitConnection { id } => {
            out.push(0u8);
            push_u64_le(&mut out, *id);
            proof {
                assert(out@ =~= spec_message_encode(m@));
            }
        },
        ServerMessages::ChangeMap => {
            out.push(1u8);
            proof {
                assert(out@ =~= spec_message_encode(m@));
            }
        },
        ServerMessages::PlayerConnected { id, color, username } => {
            out.push(2u8);
            push_pid(&mut out, *id);
            push_color(&mut out, *color);
            let bytes = username.as_str().as_bytes_vec();
            push_u64_le(&mut out, bytes.len() as u64);
            push_bytes(&mut out, bytes.as_slice());
            proof {
                assert(out@ =~= spec_message_encode(m@));
            }
        },
        ServerMessages::PlayerDisconnected { id } => {
            out.push(3u8);
            push_pid(&mut out, *id);
            proof {
                assert(out@ =~= spec_message_encode(m@));
            }
        },
        ServerMessages::ProjectileSpawn { id, color } => {
            out.push(4u8);
            push_u64_le(&mut out, id.0);
            push_color(&mut out, *color);
            proof {
                assert(out@ =~= spec_message_encode(m@));
            }
        },
        ServerMessages::ActorDespawn { id } => {
            out.push(5u8);
            push_u64_le(&mut out, id.0);
            proof {
                assert(out@ =~= spec_message_encode(m@));
            }
        },
    }
    out
}

/// Appends the encoding of a player identity.
fn push_pid(out: &mut Vec<u8>, id: PlayerId)
    ensures
        final(out)@ == old(out)@ + spec_pid_encode(id),
{
    let ghost pre = out@;
    match id {
        PlayerId::HostOrSingle => {
            out.push(0u8);
            proof {
                assert(out@ =~= pre + spec_pid_encode(id));
            }
        },
        PlayerId::Client(c) => {
            out.push(1u8);
            push_u64_le(out, c);
            proof {
                assert(out@ =~= pre + spec_pid_encode(id));
            }
        },
    }
}

/// Appends the encoding of a color.
fn push_color(out: &mut Vec<u8>, c: Color)
    ensures
        final(out)@ == old(out)@ + spec_color_encode(c),
{
    let ghost pre = out@;
    push_u16_le(out, c.hue_tenths);
    push_u16_le(out, c.saturation_permille);
    push_u16_le(out, c.lightness_permille);
    proof {
        assert(out@ =~= pre + spec_color_encode(c));
    }
}

/// Reads a player identity at `off`, mirroring [`p_pid`].
fn read_pid(b: &Vec<u8>, off: usize) -> (r: Option<(PlayerId, usize)>)
    requires
        off <= b@.len(),
    ensures
        match r {
            Some(p) => {
                &&& p_pid(b@.skip(off as int)) == Some((p.0, b@.skip(p.1 as int)))
                &&& off < p.1 <= b@.len()
            },
            None => p_pid(b@.skip(off as int)) is None,
        },
{
    match read_u8(b, off) {
        Some((tag, off1)) => {
            if tag == 0 {
                Some((PlayerId::HostOrSingle, off1))
            } else if tag == 1 {
                match read_u64_le(b, off1) {
                    Some((c, off2)) => Some((PlayerId::Client(c), off2)),
                    None => None,
                }
            } else {
                None
            }
        },
        None => None,
    }
}

/// Reads a color at `off`, mirroring [`p_color`].
fn read_color(b: &Vec<u8>, off: usize) -> (r: Option<(Color, usize)>)
    requires
        off <= b@.len(),
    ensures
        match r {
            Some(p) => {
                &&& p_color(b@.skip(off as int)) == Some((p.0, b@.skip(p.1 as int)))
                &&& off < p.1 <= b@.len()
            },
            None => p_color(b@.skip(off as int)) is None,
        },
{
    match read_u16_le(b, off) {
        Some((hue, off1)) => match read_u16_le(b, off1) {
            Some((sat, off2)) => match read_u16_le(b, off2) {
                Some((light, off3)) => Some(
                    (
                        Color {
                            hue_tenths: hue,
                            saturation_permille: sat,
                            lightness_permille: light,
                        },
                        off3,
                    ),
                ),
                None => None,
            },
            None => None,
        },
        None => None,
    }
}

/// Reads a length-prefixed UTF-8 string field at `off`, mirroring
/// [`p_str`].
fn read_string(b: &Vec<u8>, off: usize) -> (r: Option<(String, usize)>)
    requires
        off <= b@.len(),
    ensures
        match r {
            Some(p) => {
                &&& p_str(b@.skip(off as int)) == Some((p.0@, b@.skip(p.1 as int)))
                &&& off <= p.1 <= b@.len()
            },
            None => p_str(b@.skip(off as int)) is None,
        },
{
    let (len64, start) = match read_u64_le(b, off) {
        Some(p) => p,
        None => {
            return None;
        },
    };
    let avail: u64 = (b.len() - start) as u64;
    if avail < len64 {
        return None;
    }
    let len = len64 as usize;
    let mut bytes: Vec<u8> = Vec::new();
    let mut i: usize = 0;
    while i < len
        invariant
            i <= len,
            start + len <= b@.len(),
            start + len <= usize::MAX,
            bytes@ == b@.subrange(start as int, start as int + i as int),
        decreases len - i,
    {
        bytes.push(b[start + i]);
        proof {
            assert(b@.subrange(start as int, start as int + i as int) + seq![
                b@[start as int + i as int],
            ] =~= b@.subrange(start as int, start as int + i as int + 1));
        }
        i += 1;
    }
    proof {
        assert(b@.skip(start as int).take(len as int) =~= b@.subrange(
            start as int,
            start as int + len as int,
        ));
        assert(b@.skip(start as int).skip(len as int) =~= b@.skip(start as int + len as int));
    }
    match parse_utf8(bytes) {
        Some(s) => Some((s, start + len)),
        None => None,
    }
}

/// Decodes one reliable-channel message, rejecting inputs that are not
/// exactly one well-formed encoding.
pub fn decode_message(b: &Vec<u8>) -> (r: Option<ServerMessages>)
    ensures
        match r {
            Some(m) => spec_message_decode(b@) == Some(m@),
            None => spec_message_decode(b@) is None,
        },
{
    let (tag, off1) = match read_u8(b, 0) {
        Some(p) => p,
        None => {
            return None;
        },
    };
    proof {
        assert(b@.skip(0) =~= b@);
    }
    if tag == 0 {
        match read_u64_le(b, off1) {
            Some((id, off2)) => {
                if off2 == b.len() {
                    Some(ServerMessages::InitConnection { id })
                } else {
                    None
                }
            },
            None => None,
        }
    } else if tag == 1 {
        if off1 == b.len() {
            Some(ServerMessages::ChangeMap)
        } else {
            None
        }
    } else if tag == 2 {
        match read_pid(b, off1) {
            Some((id, off2)) => match read_color(b, off2) {
                Some((color, off3)) => match read_string(b, off3) {
                    Some((username, off4)) => {
                        if off4 == b.len() {
                            Some(ServerMessages::PlayerConnected { id, color, username })
                        } else {
                            None
                        }
                    },
                    None => None,
                },
                None => None,
            },
            None => None,
        }
    } else if tag == 3 {
        match read_pid(b, off1) {
            Some((id, off2)) => {
                if off2 == b.len() {
                    Some(ServerMessages::PlayerDisconnected { id })
                } else {
                    None
                }
            },
            None => None,
        }
    } else if tag == 4 {
        match read_u64_le(b, off1) {
            Some((link, off2)) => match read_color(b, off2) {
                Some((color, off3)) => {
                    if off3 == b.len() {
                        Some(ServerMessages::ProjectileSpawn { id: LinkId(link), color })
                    } else {
                        None
                    }
                },
                None => None,
            },
            None => None,
        }
    } else if tag == 5 {
        match read_u64_le(b, off1) {
            Some((link, off2)) => {
                if off2 == b.len() {
                    Some(ServerMessages::ActorDespawn { id: LinkId(link) })
                } else {
                    None
                }
            },
            None => None,
        }
    } else {
        None
    }
}

/// Replicated per-player state: transform plus view state.
#[derive(Debug, Clone, Copy, PartialEq, Eq, Structural, Hash)]
pub struct PlayerTransportData {
    pub position: Position,
    pub rotation: Rotation,
    pub player_view: PlayerView,
}

/// Replicated per-object state: transform only.
#[derive(Debug, Clone, Copy, PartialEq, Eq, Structural, Hash)]
pub struct ActorTransportData {
    pub position: Position,
    pub rotation: Rotation,
}

/// Mathematical model of a per-tick snapshot.
pub struct TransportDataV {
    pub players: Seq<(PlayerId, PlayerTransportData)>,
    pub actors: Seq<(LinkId, ActorTransportData)>,
}

/// The per-tick snapshot carried on the unreliable channel: the transform
/// and view state of every player, and the transform of every networked
/// non-player object.
#[derive(Debug, Clone, PartialEq)]
pub struct TransportData {
    pub players: Vec<(PlayerId, PlayerTransportData)>,
    pub actors: Vec<(LinkId, ActorTransportData)>,
}

impl View for TransportData {
    type V = TransportDataV;

    open spec fn view(&self) -> TransportDataV {
        TransportDataV { players: self.players@, actors: self.actors@ }
    }
}

impl Default for TransportData {
    /// An empty snapshot.
    fn default() -> (r: Self)
        ensures
            r@.players.len() == 0,
            r@.actors.len() == 0,
    {
        TransportData { players: Vec::new(), actors: Vec::new() }
    }
}

/// Holder for the snapshot assembled or last received this tick.
#[derive(Debug, Clone, PartialEq)]
pub struct TransportDataResource {
    pub data: TransportData,
}

impl Default for TransportDataResource {
    /// An empty holder.
    fn default() -> (r: Self)
        ensures
            r.data@.players.len() == 0,
            r.data@.actors.len() == 0,
    {
        TransportDataResource { data: TransportData::default() }
    }
}

/// The encoding of a position: its three coordinate bit patterns.
pub open spec fn spec_pos_encode(p: Position) -> Seq<u8> {
    spec_u32_le(p.x_bits) + spec_u32_le(p.y_bits) + spec_u32_le(p.z_bits)
}

/// The encoding of a rotation: its four component bit patterns.
pub open spec fn spec_rot_encode(q: Rotation) -> Seq<u8> {
    spec_u32_le(q.x_bits) + spec_u32_le(q.y_bits) + spec_u32_le(q.z_bits) + spec_u32_le(q.w_bits)
}

/// The encoding of a player's view state.
pub open spec fn spec_view_encode(v: PlayerView) -> Seq<u8> {
    spec_rot_encode(v.direction) + spec_u32_le(v.distance_bits)
}

/// The encoding of one snapshot player entry.
#[verifier::opaque]
pub open spec fn spec_player_entry_encode(e: (PlayerId, PlayerTransportData)) -> Seq<u8> {
    spec_pid_encode(e.0) + spec_pos_encode(e.1.position) + spec_rot_encode(e.1.rotation)
        + spec_view_encode(e.1.player_view)
}

/// The concatenated encodings of snapshot player entries, in order.
pub open spec fn spec_player_entries_encode(s: Seq<(PlayerId, PlayerTransportData)>) -> Seq<u8>
    decreases s.len(),
{
    if s.len() == 0 {
        Seq::<u8>::empty()
    } else {
        spec_player_entry_encode(s[0]) + spec_player_entries_encode(s.drop_first())
    }
}

/// The encoding of one snapshot object entry.
#[verifier::opaque]
pub open spec fn spec_actor_entry_encode(e: (LinkId, ActorTransportData)) -> Seq<u8> {
    spec_u64_le(e.0.0) + spec_pos_encode(e.1.position) + spec_rot_encode(e.1.rotation)
}

/// The concatenated encodings of snapshot object entries, in order.
pub open spec fn spec_actor_entries_encode(s: Seq<(LinkId, ActorTransportData)>) -> Seq<u8>
    decreases s.len(),
{
    if s.len() == 0 {
        Seq::<u8>::empty()
    } else {
        spec_actor_entry_encode(s[0]) + spec_actor_entries_encode(s.drop_first())
    }
}

/// The encoding of a whole snapshot: both entry lists, each behind its
/// length.
pub open spec fn spec_snapshot_encode(d: TransportDataV) -> Seq<u8> {
    spec_u64_le(d.players.len() as u64) + spec_player_entries_encode(d.players) + spec_u64_le(
        d.actors.len() as u64,
    ) + spec_actor_entries_encode(d.actors)
}

/// Parses a position off the front of the input.
pub open spec fn p_pos(b: Seq<u8>) -> Option<(Position, Seq<u8>)> {
    match p_u32(b) {
        Some((x, r1)) => match p_u32(r1) {
            Some((y, r2)) => match p_u32(r2) {
                Some((z, r3)) => Some((Position { x_bits: x, y_bits: y, z_bits: z }, r3)),
                None => None,
            },
            None => None,
        },
        None => None,
    }
}

/// Parses a rotation off the front of the input.
pub open spec fn p_rot(b: Seq<u8>) -> Option<(Rotation, Seq<u8>)> {
    match p_u32(b) {
        Some((x, r1)) => match p_u32(r1) {
            Some((y, r2)) => match p_u32(r2) {
                Some((z, r3)) => match p_u32(r3) {
                    Some((w, r4)) => Some(
                        (Rotation { x_bits: x, y_bits: y, z_bits: z, w_bits: w }, r4),
                    ),
                    None => None,
                },
                None => None,
            },
            None => None,
        },
        None => None,
    }
}

/// Parses a view state off the front of the input.
pub open spec fn p_view(b: Seq<u8>) -> Option<(PlayerView, Seq<u8>)> {
    match p_rot(b) {
        Some((direction, r1)) => match p_u32(r1) {
            Some((distance, r2)) => Some(
                (PlayerView { direction, distance_bits: distance }, r2),
            ),
            None => None,
        },
        None => None,
    }
}

/// Parses one snapshot player entry off the front of the input.
#[verifier::opaque]
pub open spec fn p_player_entry(b: Seq<u8>) -> Option<((PlayerId, PlayerTransportData), Seq<u8>)> {
    match p_pid(b) {
        Some((id, r1)) => match p_pos(r1) {
            Some((position, r2)) => match p_rot(r2) {
                Some((rotation, r3)) => match p_view(r3) {
                    Some((player_view, r4)) => Some(
                        ((id, PlayerTransportData { position, rotation, player_view }), r4),
                    ),
                    None => None,
                },
                None => None,
            },
            None => None,
        },
        None => None,
    }
}

/// Parses one snapshot object entry off the front of the input.
#[verifier::opaque]
pub open spec fn p_actor_entry(b: Seq<u8>) -> Option<((LinkId, ActorTransportData), Seq<u8>)> {
    match p_u64(b) {
        Some((link, r1)) => match p_pos(r1) {
            Some((position, r2)) => match p_rot(r2) {
                Some((rotation, r3)) => Some(
                    ((LinkId(link), ActorTransportData { position, rotation }), r3),
                ),
                None => None,
            },
            None => None,
        },
        None => None,
    }
}

/// Parses exactly `n` snapshot player entries off the front of the input.
pub open spec fn p_player_entries(b: Seq<u8>, n: nat) -> Option<
    (Seq<(PlayerId, PlayerTransportData)>, Seq<u8>),
>
    decreases n,
{
    if n == 0 {
        Some((Seq::<(PlayerId, PlayerTransportData)>::empty(), b))
    } else {
        match p_player_entry(b) {
            Some((e, r)) => match p_player_entries(r, (n - 1) as nat) {
                Some((s, r2)) => Some((seq![e] + s, r2)),
                None => None,
            },
            None => None,
        }
    }
}

/// Parses exactly `n` snapshot object entries off the front of the input.
pub open spec fn p_actor_entries(b: Seq<u8>, n: nat) -> Option<
    (Seq<(LinkId, ActorTransportData)>, Seq<u8>),
>
    decreases n,
{
    if n == 0 {
        Some((Seq::<(LinkId, ActorTransportData)>::empty(), b))
    } else {
        match p_actor_entry(b) {
            Some((e, r)) => match p_actor_entries(r, (n - 1) as nat) {
                Some((s, r2)) => Some((seq![e] + s, r2)),
                None => None,
            },
            None => None,
        }
    }
}

/// The snapshot a byte string decodes to, if it is exactly one
/// well-formed encoding with nothing trailing.
pub open spec fn spec_snapshot_decode(b: Seq<u8>) -> Option<TransportDataV> {
    match p_u64(b) {
        Some((n1, r1)) => match p_player_entries(r1, n1 as nat) {
            Some((players, r2)) => match p_u64(r2) {
                Some((n2, r3)) => match p_actor_entries(r3, n2 as nat) {
                    Some((actors, r4)) => if r4.len() == 0 {
                        Some(TransportDataV { players, actors })
                    } else {
                        None
                    },
                    None => None,
                },
                None => None,
            },
            None => None,
        },
        None => None,
    }
}

/// Parsing an encoded position followed by anything yields the position.
pub proof fn lemma_p_pos(p: Position, rest: Seq<u8>)
    ensures
        p_pos(spec_pos_encode(p) + rest) == Some((p, rest)),
{
    assert(spec_pos_encode(p) + rest =~= spec_u32_le(p.x_bits) + (spec_u32_le(p.y_bits) + (
    spec_u32_le(p.z_bits) + rest)));
    lemma_p_u32(p.x_bits, spec_u32_le(p.y_bits) + (spec_u32_le(p.z_bits) + rest));
    lemma_p_u32(p.y_bits, spec_u32_le(p.z_bits) + rest);
    lemma_p_u32(p.z_bits, rest);
}

/// Parsing an encoded rotation followed by anything yields the rotation.
pub proof fn lemma_p_rot(q: Rotation, rest: Seq<u8>)
    ensures
        p_rot(spec_rot_encode(q) + rest) == Some((q, rest)),
{
    assert(spec_rot_encode(q) + rest =~= spec_u32_le(q.x_bits) + (spec_u32_le(q.y_bits) + (
    spec_u32_le(q.z_bits) + (spec_u32_le(q.w_bits) + rest))));
    lemma_p_u32(q.x_bits, spec_u32_le(q.y_bits) + (spec_u32_le(q.z_bits) + (spec_u32_le(q.w_bits)
        + rest)));
    lemma_p_u32(q.y_bits, spec_u32_le(q.z_bits) + (spec_u32_le(q.w_bits) + rest));
    lemma_p_u32(q.z_bits, spec_u32_le(q.w_bits) + rest);
    lemma_p_u32(q.w_bits, rest);
}

/// Parsing an encoded view state followed by anything yields the state.
pub proof fn lemma_p_view(v: PlayerView, rest: Seq<u8>)
    ensures
        p_view(spec_view_encode(v) + rest) == Some((v, rest)),
{
    assert(spec_view_encode(v) + rest =~= spec_rot_encode(v.direction) + (spec_u32_le(
        v.distance_bits,
    ) + rest));
    lemma_p_rot(v.direction, spec_u32_le(v.distance_bits) + rest);
    lemma_p_u32(v.distance_bits, rest);
}

/// Parsing an encoded player entry followed by anything yields the entry.
pub proof fn lemma_p_player_entry(e: (PlayerId, PlayerTransportData), rest: Seq<u8>)
    ensures
        p_player_entry(spec_player_entry_encode(e) + rest) == Some((e, rest)),
{
    reveal(spec_player_entry_encode);
    reveal(p_player_entry);
    assert(spec_player_entry_encode(e) + rest =~= spec_pid_encode(e.0) + (spec_pos_encode(
        e.1.position,
    ) + (spec_rot_encode(e.1.rotation) + (spec_view_encode(e.1.player_view) + rest))));
    lemma_p_pid(e.0, spec_pos_encode(e.1.position) + (spec_rot_encode(e.1.rotation) + (
    spec_view_encode(e.1.player_view) + rest)));
    lemma_p_pos(e.1.position, spec_rot_encode(e.1.rotation) + (spec_view_encode(e.1.player_view)
        + rest));
    lemma_p_rot(e.1.rotation, spec_view_encode(e.1.player_view) + rest);
    lemma_p_view(e.1.player_view, rest);
}

/// Parsing an encoded object entry followed by anything yields the entry.
pub proof fn lemma_p_actor_entry(e: (LinkId, ActorTransportData), rest: Seq<u8>)
    ensures
        p_actor_entry(spec_actor_entry_encode(e) + rest) == Some((e, rest)),
{
    reveal(spec_actor_entry_encode);
    reveal(p_actor_entry);
    assert(spec_actor_entry_encode(e) + rest =~= spec_u64_le(e.0.0) + (spec_pos_encode(
        e.1.position,
    ) + (spec_rot_encode(e.1.rotation) + rest)));
    lemma_p_u64(e.0.0, spec_pos_encode(e.1.position) + (spec_rot_encode(e.1.rotation) + rest));
    lemma_p_pos(e.1.position, spec_rot_encode(e.1.rotation) + rest);
    lemma_p_rot(e.1.rotation, rest);
}

/// Parsing the concatenated encodings of `s` followed by anything yields
/// `s` back.
#[verifier::rlimit(100)]
pub proof fn lemma_p_player_entries(s: Seq<(PlayerId, PlayerTransportData)>, rest: Seq<u8>)
    ensures
        p_player_entries(spec_player_entries_encode(s) + rest, s.len()) == Some((s, rest)),
    decreases s.len(),
{
    if s.len() == 0 {
        assert(spec_player_entries_encode(s) + rest =~= rest);
        assert(s =~= Seq::<(PlayerId, PlayerTransportData)>::empty());
    } else {
        let tail = s.drop_first();
        assert(spec_player_entries_encode(s) + rest =~= spec_player_entry_encode(s[0]) + (
        spec_player_entries_encode(tail) + rest));
        lemma_p_player_entry(s[0], spec_player_entries_encode(tail) + rest);
        lemma_p_player_entries(tail, rest);
        assert(seq![s[0]] + tail =~= s);
    }
}

/// Parsing the concatenated encodings of `s` followed by anything yields
/// `s` back.
#[verifier::rlimit(100)]
pub proof fn lemma_p_actor_entries(s: Seq<(LinkId, ActorTransportData)>, rest: Seq<u8>)
    ensures
        p_actor_entries(spec_actor_entries_encode(s) + rest, s.len()) == Some((s, rest)),
    decreases s.len(),
{
    if s.len() == 0 {
        assert(spec_actor_entries_encode(s) + rest =~= rest);
        assert(s =~= Seq::<(LinkId, ActorTransportData)>::empty());
    } else {
        let tail = s.drop_first();
        assert(spec_actor_entries_encode(s) + rest =~= spec_actor_entry_encode(s[0]) + (
        spec_actor_entries_encode(tail) + rest));
        lemma_p_actor_entry(s[0], spec_actor_entries_encode(tail) + rest);
        lemma_p_actor_entries(tail, rest);
        assert(seq![s[0]] + tail =~= s);
    }
}

/// Decoding the encoding of any snapshot that fits the length prefixes
/// yields the snapshot.
pub proof fn lemma_snapshot_round_trip(d: TransportDataV)
    requires
        d.players.len() <= u64::MAX,
        d.actors.len() <= u64::MAX,
    ensures
        spec_snapshot_decode(spec_snapshot_encode(d)) == Some(d),
{
    let b = spec_snapshot_encode(d);
    let tail1 = spec_player_entries_encode(d.players) + (spec_u64_le(d.actors.len() as u64)
        + spec_actor_entries_encode(d.actors));
    assert(b =~= spec_u64_le(d.players.len() as u64) + tail1);
    lemma_p_u64(d.players.len() as u64, tail1);
    assert(tail1 =~= spec_player_entries_encode(d.players) + (spec_u64_le(d.actors.len() as u64)
        + spec_actor_entries_encode(d.actors)));
    lemma_p_player_entries(d.players, spec_u64_le(d.actors.len() as u64)
        + spec_actor_entries_encode(d.actors));
    lemma_p_u64(d.actors.len() as u64, spec_actor_entries_encode(d.actors));
    assert(spec_actor_entries_encode(d.actors) =~= spec_actor_entries_encode(d.actors)
        + Seq::<u8>::empty());
    lemma_p_actor_entries(d.actors, Seq::<u8>::empty());
}

/// Appending one entry appends its encoding.
proof fn lemma_player_entries_snoc(s: Seq<(PlayerId, PlayerTransportData)>, e: (
    PlayerId,
    PlayerTransportData,
))
    ensures
        spec_player_entries_encode(s.push(e)) == spec_player_entries_encode(s)
            + spec_player_entry_encode(e),
    decreases s.len(),
{
    if s.len() == 0 {
        let t = s.push(e);
        assert(t[0] == e);
        assert(t.drop_first() =~= Seq::<(PlayerId, PlayerTransportData)>::empty());
        assert(spec_player_entries_encode(t.drop_first()) == Seq::<u8>::empty());
        assert(spec_player_entries_encode(t) == spec_player_entry_encode(e)
            + Seq::<u8>::empty());
        assert(spec_player_entries_encode(s) == Seq::<u8>::empty());
        assert(spec_player_entry_encode(e) + Seq::<u8>::empty() =~= Seq::<u8>::empty()
            + spec_player_entry_encode(e));
    } else {
        assert(s.push(e)[0] == s[0]);
        assert(s.push(e).drop_first() =~= s.drop_first().push(e));
        lemma_player_entries_snoc(s.drop_first(), e);
        assert(spec_player_entries_encode(s.push(e)) =~= spec_player_entries_encode(s)
            + spec_player_entry_encode(e));
    }
}

/// Appending one entry appends its encoding.
proof fn lemma_actor_entries_snoc(s: Seq<(LinkId, ActorTransportData)>, e: (
    LinkId,
    ActorTransportData,
))
    ensures
        spec_actor_entries_encode(s.push(e)) == spec_actor_entries_encode(s)
            + spec_actor_entry_encode(e),
    decreases s.len(),
{
    if s.len() == 0 {
        let t = s.push(e);
        assert(t[0] == e);
        assert(t.drop_first() =~= Seq::<(LinkId, ActorTransportData)>::empty());
        assert(spec_actor_entries_encode(t.drop_first()) == Seq::<u8>::empty());
        assert(spec_actor_entries_encode(t) == spec_actor_entry_encode(e) + Seq::<u8>::empty());
        assert(spec_actor_entries_encode(s) == Seq::<u8>::empty());
        assert(spec_actor_entry_encode(e) + Seq::<u8>::empty() =~= Seq::<u8>::empty()
            + spec_actor_entry_encode(e));
    } else {
        assert(s.push(e)[0] == s[0]);
        assert(s.push(e).drop_first() =~= s.drop_first().push(e));
        lemma_actor_entries_snoc(s.drop_first(), e);
        assert(spec_actor_entries_encode(s.push(e)) =~= spec_actor_entries_encode(s)
            + spec_actor_entry_encode(e));
    }
}

/// Appends the encoding of a position.
fn push_pos(out: &mut Vec<u8>, p: Position)
    ensures
        final(out)@ == old(out)@ + spec_pos_encode(p),
{
    let ghost pre = out@;
    push_u32_le(out, p.x_bits);
    push_u32_le(out, p.y_bits);
    push_u32_le(out, p.z_bits);
    proof {
        assert(out@ =~= pre + spec_pos_encode(p));
    }
}

/// Appends the encoding of a rotation.
fn push_rot(out: &mut Vec<u8>, q: Rotation)
    ensures
        final(out)@ == old(out)@ + spec_rot_encode(q),
{
    let ghost pre = out@;
    push_u32_le(out, q.x_bits);
    push_u32_le(out, q.y_bits);
    push_u32_le(out, q.z_bits);
    push_u32_le(out, q.w_bits);
    proof {
        assert(out@ =~= pre + spec_rot_encode(q));
    }
}

/// Encodes a snapshot for the unreliable channel.
pub fn encode_snapshot(d: &TransportData) -> (r: Vec<u8>)
    ensures
        r@ == spec_snapshot_encode(d@),
{
    let mut out: Vec<u8> = Vec::new();
    push_u64_le(&mut out, d.players.len() as u64);
    let ghost base1 = out@;
    let mut i: usize = 0;
    while i < d.players.len()
        invariant
            i <= d.players@.len(),
            out@ == base1 + spec_player_entries_encode(d.players@.take(i as int)),
        decreases d.players@.len() - i,
    {
        let ghost pre = out@;
        let e = d.players[i];
        push_pid(&mut out, e.0);
        push_pos(&mut out, e.1.position);
        push_rot(&mut out, e.1.rotation);
        push_rot(&mut out, e.1.player_view.direction);
        push_u32_le(&mut out, e.1.player_view.distance_bits);
        proof {
            reveal(spec_player_entry_encode);
            assert(out@ =~= pre + spec_player_entry_encode(e));
            lemma_player_entries_snoc(d.players@.take(i as int), e);
            assert(d.players@.take(i as int).push(e) =~= d.players@.take(i as int + 1));
            assert(out@ =~= base1 + spec_player_entries_encode(d.players@.take(i as int + 1)));
        }
        i += 1;
    }
    proof {
        assert(d.players@.take(d.players@.len() as int) =~= d.players@);
    }
    push_u64_le(&mut out, d.actors.len() as u64);
    let ghost base2 = out@;
    let mut j: usize = 0;
    while j < d.actors.len()
        invariant
            j <= d.actors@.len(),
            out@ == base2 + spec_actor_entries_encode(d.actors@.take(j as int)),
        decreases d.actors@.len() - j,
    {
        let ghost pre = out@;
        let e = d.actors[j];
        push_u64_le(&mut out, e.0.0);
        push_pos(&mut out, e.1.position);
        push_rot(&mut out, e.1.rotation);
        proof {
            reveal(spec_actor_entry_encode);
            assert(out@ =~= pre + spec_actor_entry_encode(e));
            lemma_actor_entries_snoc(d.actors@.take(j as int), e);
            assert(d.actors@.take(j as int).push(e) =~= d.actors@.take(j as int + 1));
            assert(out@ =~= base2 + spec_actor_entries_encode(d.actors@.take(j as int + 1)));
        }
        j += 1;
    }
    proof {
        assert(d.actors@.take(d.actors@.len() as int) =~= d.actors@);
        assert(out@ =~= spec_snapshot_encode(d@));
    }
    out
}

/// Reads a position at `off`, mirroring [`p_pos`].
fn read_pos(b: &Vec<u8>, off: usize) -> (r: Option<(Position, usize)>)
    requires
        off <= b@.len(),
    ensures
        match r {
            Some(p) => {
                &&& p_pos(b@.skip(off as int)) == Some((p.0, b@.skip(p.1 as int)))
                &&& off < p.1 <= b@.len()
            },
            None => p_pos(b@.skip(off as int)) is None,
        },
{
    match read_u32_le(b, off) {
        Some((x, off1)) => match read_u32_le(b, off1) {
            Some((y, off2)) => match read_u32_le(b, off2) {
                Some((z, off3)) => Some((Position { x_bits: x, y_bits: y, z_bits: z }, off3)),
                None => None,
            },
            None => None,
        },
        None => None,
    }
}

/// Reads a rotation at `off`, mirroring [`p_rot`].
fn read_rot(b: &Vec<u8>, off: usize) -> (r: Option<(Rotation, usize)>)
    requires
        off <= b@.len(),
    ensures
        match r {
            Some(p) => {
                &&& p_rot(b@.skip(off as int)) == Some((p.0, b@.skip(p.1 as int)))
                &&& off < p.1 <= b@.len()
            },
            None => p_rot(b@.skip(off as int)) is None,
        },
{
    match read_u32_le(b, off) {
        Some((x, off1)) => match read_u32_le(b, off1) {
            Some((y, off2)) => match read_u32_le(b, off2) {
                Some((z, off3)) => match read_u32_le(b, off3) {
                    Some((w, off4)) => Some(
                        (Rotation { x_bits: x, y_bits: y, z_bits: z, w_bits: w }, off4),
                    ),
                    None => None,
                },
                None => None,
            },
            None => None,
        },
        None => None,
    }
}

/// Reads one snapshot player entry at `off`, mirroring [`p_player_entry`].
fn read_player_entry(b: &Vec<u8>, off: usize) -> (r: Option<((PlayerId, PlayerTransportData), usize)>)
    requires
        off <= b@.len(),
    ensures
        match r {
            Some(p) => {
                &&& p_player_entry(b@.skip(off as int)) == Some((p.0, b@.skip(p.1 as int)))
                &&& off < p.1 <= b@.len()
            },
            None => p_player_entry(b@.skip(off as int)) is None,
        },
{
    proof {
        reveal(p_player_entry);
    }
    match read_pid(b, off) {
        Some((id, off1)) => match read_pos(b, off1) {
            Some((position, off2)) => match read_rot(b, off2) {
                Some((rotation, off3)) => match read_rot(b, off3) {
                    Some((direction, off4)) => match read_u32_le(b, off4) {
                        Some((distance, off5)) => Some(
                            (
                                (
                                    id,
                                    PlayerTransportData {
                                        position,
                                        rotation,
                                        player_view: PlayerView {
                                            direction,
                                            distance_bits: distance,
                                        },
                                    },
                                ),
                                off5,
                            ),
                        ),
                        None => None,
                    },
                    None => None,
                },
                None => None,
            },
            None => None,
        },
        None => None,
    }
}

/// Reads one snapshot object entry at `off`, mirroring [`p_actor_entry`].
fn read_actor_entry(b: &Vec<u8>, off: usize) -> (r: Option<((LinkId, ActorTransportData), usize)>)
    requires
        off <= b@.len(),
    ensures
        match r {
            Some(p) => {
                &&& p_actor_entry(b@.skip(off as int)) == Some((p.0, b@.skip(p.1 as int)))
                &&& off < p.1 <= b@.len()
            },
            None => p_actor_entry(b@.skip(off as int)) is None,
        },
{
    proof {
        reveal(p_actor_entry);
    }
    match read_u64_le(b, off) {
        Some((link, off1)) => match read_pos(b, off1) {
            Some((position, off2)) => match read_rot(b, off2) {
                Some((rotation, off3)) => Some(
                    ((LinkId(link), ActorTransportData { position, rotation }), off3),
                ),
                None => None,
            },
            None => None,
        },
        None => None,
    }
}

/// Decodes one unreliable-channel snapshot, rejecting inputs that are not
/// exactly one well-formed encoding.
#[verifier::rlimit(60)]
pub fn decode_snapshot(b: &Vec<u8>) -> (r: Option<TransportData>)
    ensures
        match r {
            Some(d) => spec_snapshot_decode(b@) == Some(d@),
            None => spec_snapshot_decode(b@) is None,
        },
{
    let (n1, start1) = match read_u64_le(b, 0) {
        Some(p) => p,
        None => {
            proof {
                assert(b@.skip(0) =~= b@);
            }
            return None;
        },
    };
    proof {
        assert(b@.skip(0) =~= b@);
    }
    let mut players: Vec<(PlayerId, PlayerTransportData)> = Vec::new();
    let mut off: usize = start1;
    let mut i: u64 = 0;
    while i < n1
        invariant
            i <= n1,
            off <= b@.len(),
            players@.len() == i,
            p_u64(b@) == Some((n1, b@.skip(start1 as int))),
            match p_player_entries(b@.skip(off as int), (n1 - i) as nat) {
                Some(q) => p_player_entries(b@.skip(start1 as int), n1 as nat) == Some(
                    (players@ + q.0, q.1),
                ),
                None => p_player_entries(b@.skip(start1 as int), n1 as nat) is None,
            },
        decreases n1 - i,
    {
        match read_player_entry(b, off) {
            Some((e, off2)) => {
                proof {
                    let k = (n1 - i) as nat;
                    assert(p_player_entries(b@.skip(off as int), k) == (
                    match p_player_entries(b@.skip(off2 as int), (k - 1) as nat) {
                        Some((s, r2)) => Some((seq![e] + s, r2)),
                        None => None,
                    }));
                    match p_player_entries(b@.skip(off2 as int), (k - 1) as nat) {
                        Some((s, r2)) => {
                            assert(players@ + (seq![e] + s) =~= (players@ + seq![e]) + s);
                        },
                        None => {},
                    }
                }
                players.push(e);
                off = off2;
            },
            None => {
                proof {
                    let k = (n1 - i) as nat;
                    assert(p_player_entries(b@.skip(off as int), k) is None);
                    assert(p_player_entries(b@.skip(start1 as int), n1 as nat) is None);
                    assert(spec_snapshot_decode(b@) is None);
                }
                return None;
            },
        }
        i += 1;
    }
    proof {
        assert(p_player_entries(b@.skip(off as int), 0) == Some(
            (Seq::<(PlayerId, PlayerTransportData)>::empty(), b@.skip(off as int)),
        ));
        assert(players@ + Seq::<(PlayerId, PlayerTransportData)>::empty() =~= players@);
    }
    let (n2, start2) = match read_u64_le(b, off) {
        Some(p) => p,
        None => {
            return None;
        },
    };
    let mut actors: Vec<(LinkId, ActorTransportData)> = Vec::new();
    let mut off2: usize = start2;
    let mut j: u64 = 0;
    while j < n2
        invariant
            j <= n2,
            off2 <= b@.len(),
            actors@.len() == j,
            p_u64(b@) == Some((n1, b@.skip(start1 as int))),
            p_player_entries(b@.skip(start1 as int), n1 as nat) == Some(
                (players@, b@.skip(off as int)),
            ),
            p_u64(b@.skip(off as int)) == Some((n2, b@.skip(start2 as int))),
            match p_actor_entries(b@.skip(off2 as int), (n2 - j) as nat) {
                Some(q) => p_actor_entries(b@.skip(start2 as int), n2 as nat) == Some(
                    (actors@ + q.0, q.1),
                ),
                None => p_actor_entries(b@.skip(start2 as int), n2 as nat) is None,
            },
        decreases n2 - j,
    {
        match read_actor_entry(b, off2) {
            Some((e, off3)) => {
                proof {
                    let k = (n2 - j) as nat;
                    assert(p_actor_entries(b@.skip(off2 as int), k) == (
                    match p_actor_entries(b@.skip(off3 as int), (k - 1) as nat) {
                        Some((s, r2)) => Some((seq![e] + s, r2)),
                        None => None,
                    }));
                    match p_actor_entries(b@.skip(off3 as int), (k - 1) as nat) {
                        Some((s, r2)) => {
                            assert(actors@ + (seq![e] + s) =~= (actors@ + seq![e]) + s);
                        },
                        None => {},
                    }
                }
                actors.push(e);
                off2 = off3;
            },
            None => {
                proof {
                    let k = (n2 - j) as nat;
                    assert(p_actor_entries(b@.skip(off2 as int), k) is None);
                    assert(p_actor_entries(b@.skip(start2 as int), n2 as nat) is None);
                    assert(spec_snapshot_decode(b@) is None);
                }
                return None;
            },
        }
        j += 1;
    }
    proof {
        assert(p_actor_entries(b@.skip(off2 as int), 0) == Some(
            (Seq::<(LinkId, ActorTransportData)>::empty(), b@.skip(off2 as int)),
        ));
        assert(actors@ + Seq::<(LinkId, ActorTransportData)>::empty() =~= actors@);
    }
    if off2 == b.len() {
        proof {
            assert(b@.skip(off2 as int).len() == 0);
        }
        Some(TransportData { players, actors })
    } else {
        None
    }
}

} // verus!
