//! Shipgate messages and responses.

use crate::array::{
    all_encodable, lemma_bytes_wire, lemma_round_trip_all, parse_n, read_array, wire_all,
    write_array,
};
use crate::error::{DecodeError, EncodeError, FrameError};
use crate::serial::{serialize_pair, views, Serial};
use crate::wire::{
    be_u16, be_u32, from_be_u16, from_be_u32, from_le_u16, from_le_u32, le_u16, le_u32,
    lemma_read_write_u16, lemma_read_write_u32, lemma_write_read_u16, lemma_write_read_u32,
    read_be_u16, read_be_u32, write_be_u16, write_be_u32,
};
use vstd::prelude::*;
use vstd::slice::{slice_subrange, slice_to_vec};

verus! {

/// An IPv4 address and a port, as a ship announces them: four octets, then
/// the port.
#[derive(Clone, Copy, Debug, PartialEq, Eq)]
pub struct ShipAddr {
    pub ip: [u8; 4],
    pub port: u16,
}

impl View for ShipAddr {
    type V = ShipAddr;

    open spec fn view(&self) -> ShipAddr {
        *self
    }
}

impl Serial for ShipAddr {
    open spec fn encodable(v: ShipAddr) -> bool {
        true
    }

    open spec fn wire(v: ShipAddr) -> Seq<u8> {
        v.ip@ + le_u16(v.port)
    }

    open spec fn parse(s: Seq<u8>) -> Result<(ShipAddr, int), DecodeError> {
        if s.len() >= 6 {
            Ok((ShipAddr { ip: [s[0], s[1], s[2], s[3]], port: from_le_u16(s.skip(4)) }, 6))
        } else {
            Err(DecodeError::UnexpectedEof)
        }
    }

    open spec fn may_follow(tail: Seq<u8>) -> bool {
        true
    }

    proof fn lemma_round_trip(v: ShipAddr, tail: Seq<u8>) {
        let all = Self::wire(v) + tail;
        lemma_read_write_u16(v.port, tail);
        assert([all[0], all[1], all[2], all[3]] =~= v.ip);
    }

    fn serialize(&self, dst: &mut Vec<u8>) -> (r: Result<(), EncodeError>) {
        dst.push(self.ip[0]);
        dst.push(self.ip[1]);
        dst.push(self.ip[2]);
        dst.push(self.ip[3]);
        let _ = self.port.serialize(dst);
        Ok(())
    }

    fn deserialize(src: &[u8]) -> (r: Result<(ShipAddr, usize), DecodeError>) {
        if src.len() < 6 {
            return Err(DecodeError::UnexpectedEof);
        }
        match u16::deserialize(slice_subrange(src, 4, src.len())) {
            Ok((port, _)) => {
                let addr = ShipAddr { ip: [src[0], src[1], src[2], src[3]], port };
                Ok((addr, 6))
            },
            Err(e) => Err(e),
        }
    }
}

/// A ship asks to be let in: a number and a text.
#[derive(Debug)]
pub struct Auth(pub u32, pub String);

impl Clone for Auth {
    fn clone(&self) -> (r: Auth)
        ensures
            r@ == self@,
    {
        Auth(self.0, self.1.clone())
    }
}

impl View for Auth {
    type V = (u32, Seq<char>);

    open spec fn view(&self) -> (u32, Seq<char>) {
        (self.0, self.1@)
    }
}

impl Serial for Auth {
    open spec fn encodable(v: (u32, Seq<char>)) -> bool {
        <(u32, String)>::encodable(v)
    }

    open spec fn wire(v: (u32, Seq<char>)) -> Seq<u8> {
        <(u32, String)>::wire(v)
    }

    open spec fn parse(s: Seq<u8>) -> Result<((u32, Seq<char>), int), DecodeError> {
        <(u32, String)>::parse(s)
    }

    open spec fn may_follow(tail: Seq<u8>) -> bool {
        true
    }

    proof fn lemma_round_trip(v: (u32, Seq<char>), tail: Seq<u8>) {
        <(u32, String)>::lemma_round_trip(v, tail);
    }

    fn serialize(&self, dst: &mut Vec<u8>) -> (r: Result<(), EncodeError>) {
        serialize_pair(&self.0, &self.1, dst)
    }

    fn deserialize(src: &[u8]) -> (r: Result<(Auth, usize), DecodeError>) {
        match <(u32, String)>::deserialize(src) {
            Ok((f, used)) => Ok((Auth(f.0, f.1), used)),
            Err(e) => Err(e),
        }
    }
}

/// The shipgate lets the ship in. It carries nothing.
#[derive(Clone, Copy, Debug, PartialEq, Eq, Structural)]
pub struct AuthAck;

impl Default for AuthAck {
    fn default() -> (r: AuthAck)
        ensures
            r == AuthAck,
    {
        AuthAck
    }
}

impl View for AuthAck {
    type V = AuthAck;

    open spec fn view(&self) -> AuthAck {
        *self
    }
}

impl Serial for AuthAck {
    open spec fn encodable(v: AuthAck) -> bool {
        true
    }

    open spec fn wire(v: AuthAck) -> Seq<u8> {
        Seq::empty()
    }

    open spec fn parse(s: Seq<u8>) -> Result<(AuthAck, int), DecodeError> {
        Ok((AuthAck, 0))
    }

    open spec fn may_follow(tail: Seq<u8>) -> bool {
        true
    }

    proof fn lemma_round_trip(v: AuthAck, tail: Seq<u8>) {
    }

    fn serialize(&self, dst: &mut Vec<u8>) -> (r: Result<(), EncodeError>) {
        assert(dst@ =~= old(dst)@ + Self::wire(self@));
        Ok(())
    }

    fn deserialize(src: &[u8]) -> (r: Result<(AuthAck, usize), DecodeError>) {
        Ok((AuthAck, 0))
    }
}

/// A ship passes on the name and password that a player logged in with.
#[derive(Debug)]
pub struct BbLoginChallenge {
    pub username: String,
    pub password: String,
}

impl Clone for BbLoginChallenge {
    fn clone(&self) -> (r: BbLoginChallenge)
        ensures
            r@ == self@,
    {
        BbLoginChallenge { username: self.username.clone(), password: self.password.clone() }
    }
}

/// The contents of a [`BbLoginChallenge`].
pub struct BbLoginChallengeView {
    pub username: Seq<char>,
    pub password: Seq<char>,
}

impl View for BbLoginChallenge {
    type V = BbLoginChallengeView;

    open spec fn view(&self) -> BbLoginChallengeView {
        BbLoginChallengeView { username: self.username@, password: self.password@ }
    }
}

impl Serial for BbLoginChallenge {
    open spec fn encodable(v: BbLoginChallengeView) -> bool {
        <(String, String)>::encodable((v.username, v.password))
    }

    open spec fn wire(v: BbLoginChallengeView) -> Seq<u8> {
        <(String, String)>::wire((v.username, v.password))
    }

    open spec fn parse(s: Seq<u8>) -> Result<(BbLoginChallengeView, int), DecodeError> {
        match <(String, String)>::parse(s) {
            Ok((f, used)) => Ok((BbLoginChallengeView { username: f.0, password: f.1 }, used)),
            Err(e) => Err(e),
        }
    }

    open spec fn may_follow(tail: Seq<u8>) -> bool {
        true
    }

    proof fn lemma_round_trip(v: BbLoginChallengeView, tail: Seq<u8>) {
        <(String, String)>::lemma_round_trip((v.username, v.password), tail);
    }

    fn serialize(&self, dst: &mut Vec<u8>) -> (r: Result<(), EncodeError>) {
        serialize_pair(&self.username, &self.password, dst)
    }

    fn deserialize(src: &[u8]) -> (r: Result<(BbLoginChallenge, usize), DecodeError>) {
        match <(String, String)>::deserialize(src) {
            Ok((f, used)) => Ok((BbLoginChallenge { username: f.0, password: f.1 }, used)),
            Err(e) => Err(e),
        }
    }
}

/// The answer to a login challenge.
#[derive(Clone, Copy, Debug, PartialEq, Eq, Structural)]
pub struct BbLoginChallengeAck {
    pub status: u32,
    pub account_id: u32,
}

impl Default for BbLoginChallengeAck {
    /// Every field zero.
    fn default() -> (r: BbLoginChallengeAck)
        ensures
            r == (BbLoginChallengeAck { status: 0, account_id: 0 }),
    {
        BbLoginChallengeAck { status: 0, account_id: 0 }
    }
}

impl View for BbLoginChallengeAck {
    type V = BbLoginChallengeAck;

    open spec fn view(&self) -> BbLoginChallengeAck {
        *self
    }
}

impl BbLoginChallengeAck {
    /// The fields in the order in which they are written.
    pub open spec fn fields(self) -> (u32, u32) {
        (self.status, self.account_id)
    }

    /// The message whose fields, in that order, are `f`.
    pub open spec fn from_fields(f: (u32, u32)) -> BbLoginChallengeAck {
        BbLoginChallengeAck {
            status: f.0,
            account_id: f.1,
        }
    }
}

impl Serial for BbLoginChallengeAck {
    open spec fn encodable(v: BbLoginChallengeAck) -> bool {
        true
    }

    open spec fn wire(v: BbLoginChallengeAck) -> Seq<u8> {
        <(u32, u32)>::wire(v.fields())
    }

    open spec fn parse(s: Seq<u8>) -> Result<(BbLoginChallengeAck, int), DecodeError> {
        match <(u32, u32)>::parse(s) {
            Ok((f, used)) => Ok((BbLoginChallengeAck::from_fields(f), used)),
            Err(e) => Err(e),
        }
    }

    open spec fn may_follow(tail: Seq<u8>) -> bool {
        true
    }

    proof fn lemma_round_trip(v: BbLoginChallengeAck, tail: Seq<u8>) {
        <(u32, u32)>::lemma_round_trip(v.fields(), tail);
    }

    fn serialize(&self, dst: &mut Vec<u8>) -> (r: Result<(), EncodeError>) {
        let fields: (u32, u32) =
            (self.status, self.account_id);
        fields.serialize(dst)
    }

    fn deserialize(src: &[u8]) -> (r: Result<(BbLoginChallengeAck, usize), DecodeError>) {
        match <(u32, u32)>::deserialize(src) {
            Ok((f, used)) => Ok(
                (
                    BbLoginChallengeAck {
                    status: f.0,
                    account_id: f.1,
                    },
                    used,
                ),
            ),
            Err(e) => Err(e),
        }
    }
}

/// A ship asks for what is known of an account.
#[derive(Clone, Copy, Debug, PartialEq, Eq, Structural)]
pub struct BbGetAccountInfo {
    pub account_id: u32,
}

impl Default for BbGetAccountInfo {
    /// Every field zero.
    fn default() -> (r: BbGetAccountInfo)
        ensures
            r == (BbGetAccountInfo { account_id: 0 }),
    {
        BbGetAccountInfo { account_id: 0 }
    }
}

impl View for BbGetAccountInfo {
    type V = BbGetAccountInfo;

    open spec fn view(&self) -> BbGetAccountInfo {
        *self
    }
}

impl BbGetAccountInfo {
    /// The fields in the order in which they are written.
    pub open spec fn fields(self) -> u32 {
        self.account_id
    }

    /// The message whose fields, in that order, are `f`.
    pub open spec fn from_fields(f: u32) -> BbGetAccountInfo {
        BbGetAccountInfo {
            account_id: f,
        }
    }
}

impl Serial for BbGetAccountInfo {
    open spec fn encodable(v: BbGetAccountInfo) -> bool {
        true
    }

    open spec fn wire(v: BbGetAccountInfo) -> Seq<u8> {
        <u32>::wire(v.fields())
    }

    open spec fn parse(s: Seq<u8>) -> Result<(BbGetAccountInfo, int), DecodeError> {
        match <u32>::parse(s) {
            Ok((f, used)) => Ok((BbGetAccountInfo::from_fields(f), used)),
            Err(e) => Err(e),
        }
    }

    open spec fn may_follow(tail: Seq<u8>) -> bool {
        true
    }

    proof fn lemma_round_trip(v: BbGetAccountInfo, tail: Seq<u8>) {
        <u32>::lemma_round_trip(v.fields(), tail);
    }

    fn serialize(&self, dst: &mut Vec<u8>) -> (r: Result<(), EncodeError>) {
        let fields: u32 =
            self.account_id;
        fields.serialize(dst)
    }

    fn deserialize(src: &[u8]) -> (r: Result<(BbGetAccountInfo, usize), DecodeError>) {
        match <u32>::deserialize(src) {
            Ok((f, used)) => Ok(
                (
                    BbGetAccountInfo {
                    account_id: f,
                    },
                    used,
                ),
            ),
            Err(e) => Err(e),
        }
    }
}

/// What is known of an account.
#[derive(Clone, Copy, Debug, PartialEq, Eq, Structural)]
pub struct BbGetAccountInfoAck {
    pub status: u32,
    pub account_id: u32,
    pub guildcard_num: u32,
    pub team_id: u32,
}

impl Default for BbGetAccountInfoAck {
    /// Every field zero.
    fn default() -> (r: BbGetAccountInfoAck)
        ensures
            r == (BbGetAccountInfoAck { status: 0, account_id: 0, guildcard_num: 0, team_id: 0 }),
    {
        BbGetAccountInfoAck { status: 0, account_id: 0, guildcard_num: 0, team_id: 0 }
    }
}

impl View for BbGetAccountInfoAck {
    type V = BbGetAccountInfoAck;

    open spec fn view(&self) -> BbGetAccountInfoAck {
        *self
    }
}

impl BbGetAccountInfoAck {
    /// The fields in the order in which they are written.
    pub open spec fn fields(self) -> (u32, (u32, (u32, u32))) {
        (self.status, (self.account_id, (self.guildcard_num, self.team_id)))
    }

    /// The message whose fields, in that order, are `f`.
    pub open spec fn from_fields(f: (u32, (u32, (u32, u32)))) -> BbGetAccountInfoAck {
        BbGetAccountInfoAck {
            status: f.0,
            account_id: f.1.0,
            guildcard_num: f.1.1.0,
            team_id: f.1.1.1,
        }
    }
}

impl Serial for BbGetAccountInfoAck {
    open spec fn encodable(v: BbGetAccountInfoAck) -> bool {
        true
    }

    open spec fn wire(v: BbGetAccountInfoAck) -> Seq<u8> {
        <(u32, (u32, (u32, u32)))>::wire(v.fields())
    }

    open spec fn parse(s: Seq<u8>) -> Result<(BbGetAccountInfoAck, int), DecodeError> {
        match <(u32, (u32, (u32, u32)))>::parse(s) {
            Ok((f, used)) => Ok((BbGetAccountInfoAck::from_fields(f), used)),
            Err(e) => Err(e),
        }
    }

    open spec fn may_follow(tail: Seq<u8>) -> bool {
        true
    }

    proof fn lemma_round_trip(v: BbGetAccountInfoAck, tail: Seq<u8>) {
        <(u32, (u32, (u32, u32)))>::lemma_round_trip(v.fields(), tail);
    }

    fn serialize(&self, dst: &mut Vec<u8>) -> (r: Result<(), EncodeError>) {
        let fields: (u32, (u32, (u32, u32))) =
            (self.status, (self.account_id, (self.guildcard_num, self.team_id)));
        fields.serialize(dst)
    }

    fn deserialize(src: &[u8]) -> (r: Result<(BbGetAccountInfoAck, usize), DecodeError>) {
        match <(u32, (u32, (u32, u32)))>::deserialize(src) {
            Ok((f, used)) => Ok(
                (
                    BbGetAccountInfoAck {
                    status: f.0,
                    account_id: f.1.0,
                    guildcard_num: f.1.1.0,
                    team_id: f.1.1.1,
                    },
                    used,
                ),
            ),
            Err(e) => Err(e),
        }
    }
}

/// A ship makes itself known: where it listens and what it is called.
#[derive(Debug)]
pub struct RegisterShip(pub ShipAddr, pub String);

impl Clone for RegisterShip {
    fn clone(&self) -> (r: RegisterShip)
        ensures
            r@ == self@,
    {
        RegisterShip(self.0, self.1.clone())
    }
}

impl View for RegisterShip {
    type V = (ShipAddr, Seq<char>);

    open spec fn view(&self) -> (ShipAddr, Seq<char>) {
        (self.0, self.1@)
    }
}

impl Serial for RegisterShip {
    open spec fn encodable(v: (ShipAddr, Seq<char>)) -> bool {
        <(ShipAddr, String)>::encodable(v)
    }

    open spec fn wire(v: (ShipAddr, Seq<char>)) -> Seq<u8> {
        <(ShipAddr, String)>::wire(v)
    }

    open spec fn parse(s: Seq<u8>) -> Result<((ShipAddr, Seq<char>), int), DecodeError> {
        <(ShipAddr, String)>::parse(s)
    }

    open spec fn may_follow(tail: Seq<u8>) -> bool {
        true
    }

    proof fn lemma_round_trip(v: (ShipAddr, Seq<char>), tail: Seq<u8>) {
        <(ShipAddr, String)>::lemma_round_trip(v, tail);
    }

    fn serialize(&self, dst: &mut Vec<u8>) -> (r: Result<(), EncodeError>) {
        serialize_pair(&self.0, &self.1, dst)
    }

    fn deserialize(src: &[u8]) -> (r: Result<(RegisterShip, usize), DecodeError>) {
        match <(ShipAddr, String)>::deserialize(src) {
            Ok((f, used)) => Ok((RegisterShip(f.0, f.1), used)),
            Err(e) => Err(e),
        }
    }
}

/// The shipgate has taken note of the ship. It carries nothing.
#[derive(Clone, Copy, Debug, PartialEq, Eq, Structural)]
pub struct RegisterShipAck;

impl Default for RegisterShipAck {
    fn default() -> (r: RegisterShipAck)
        ensures
            r == RegisterShipAck,
    {
        RegisterShipAck
    }
}

impl View for RegisterShipAck {
    type V = RegisterShipAck;

    open spec fn view(&self) -> RegisterShipAck {
        *self
    }
}

impl Serial for RegisterShipAck {
    open spec fn encodable(v: RegisterShipAck) -> bool {
        true
    }

    open spec fn wire(v: RegisterShipAck) -> Seq<u8> {
        Seq::empty()
    }

    open spec fn parse(s: Seq<u8>) -> Result<(RegisterShipAck, int), DecodeError> {
        Ok((RegisterShipAck, 0))
    }

    open spec fn may_follow(tail: Seq<u8>) -> bool {
        true
    }

    proof fn lemma_round_trip(v: RegisterShipAck, tail: Seq<u8>) {
    }

    fn serialize(&self, dst: &mut Vec<u8>) -> (r: Result<(), EncodeError>) {
        Ok(())
    }

    fn deserialize(src: &[u8]) -> (r: Result<(RegisterShipAck, usize), DecodeError>) {
        Ok((RegisterShipAck, 0))
    }
}

/// A ship asks which ships there are. It carries nothing.
#[derive(Clone, Copy, Debug, PartialEq, Eq, Structural)]
pub struct ShipList;

impl Default for ShipList {
    fn default() -> (r: ShipList)
        ensures
            r == ShipList,
    {
        ShipList
    }
}

impl View for ShipList {
    type V = ShipList;

    open spec fn view(&self) -> ShipList {
        *self
    }
}

impl Serial for ShipList {
    open spec fn encodable(v: ShipList) -> bool {
        true
    }

    open spec fn wire(v: ShipList) -> Seq<u8> {
        Seq::empty()
    }

    open spec fn parse(s: Seq<u8>) -> Result<(ShipList, int), DecodeError> {
        Ok((ShipList, 0))
    }

    open spec fn may_follow(tail: Seq<u8>) -> bool {
        true
    }

    proof fn lemma_round_trip(v: ShipList, tail: Seq<u8>) {
    }

    fn serialize(&self, dst: &mut Vec<u8>) -> (r: Result<(), EncodeError>) {
        Ok(())
    }

    fn deserialize(src: &[u8]) -> (r: Result<(ShipList, usize), DecodeError>) {
        Ok((ShipList, 0))
    }
}

/// The ships there are: a 32-bit count, then each ship's address and name.
#[derive(Debug)]
pub struct ShipListAck(pub Vec<(ShipAddr, String)>);

impl Clone for ShipListAck {
    fn clone(&self) -> (r: ShipListAck)
        ensures
            r@ == self@,
    {
        let mut ships: Vec<(ShipAddr, String)> = Vec::new();
        let mut i: usize = 0;
        while i < self.0.len()
            invariant
                i <= self.0@.len(),
                views(ships@) == views(self.0@).take(i as int),
            decreases self.0@.len() - i,
        {
            let ship = (self.0[i].0, self.0[i].1.clone());
            assert(views(self.0@).take(i + 1) =~= views(self.0@).take(i as int).push(
                self.0@[i as int]@,
            ));
            ships.push(ship);
            i = i + 1;
        }
        ShipListAck(ships)
    }
}

impl View for ShipListAck {
    type V = Seq<(ShipAddr, Seq<char>)>;

    open spec fn view(&self) -> Seq<(ShipAddr, Seq<char>)> {
        views(self.0@)
    }
}

impl Serial for ShipListAck {
    open spec fn encodable(v: Seq<(ShipAddr, Seq<char>)>) -> bool {
        v.len() <= u32::MAX && all_encodable::<(ShipAddr, String)>(v)
    }

    open spec fn wire(v: Seq<(ShipAddr, Seq<char>)>) -> Seq<u8> {
        le_u32(v.len() as u32) + wire_all::<(ShipAddr, String)>(v)
    }

    open spec fn parse(s: Seq<u8>) -> Result<(Seq<(ShipAddr, Seq<char>)>, int), DecodeError> {
        if s.len() < 4 {
            Err(DecodeError::UnexpectedEof)
        } else {
            match parse_n::<(ShipAddr, String)>(s.skip(4), from_le_u32(s) as nat) {
                Ok((ships, used)) => Ok((ships, 4 + used)),
                Err(e) => Err(e),
            }
        }
    }

    open spec fn may_follow(tail: Seq<u8>) -> bool {
        true
    }

    proof fn lemma_round_trip(v: Seq<(ShipAddr, Seq<char>)>, tail: Seq<u8>) {
        let ships = wire_all::<(ShipAddr, String)>(v);
        let all = Self::wire(v) + tail;
        lemma_read_write_u32(v.len() as u32, ships + tail);
        assert(all.skip(4) =~= ships + tail);
        lemma_round_trip_all::<(ShipAddr, String)>(v, tail);
    }

    fn serialize(&self, dst: &mut Vec<u8>) -> (r: Result<(), EncodeError>) {
        if self.0.len() > 0xFFFF_FFFF {
            return Err(EncodeError::CountOverflow);
        }
        let mark: usize = dst.len();
        let count: u32 = self.0.len() as u32;
        let _ = count.serialize(dst);
        match write_array(self.0.as_slice(), dst) {
            Ok(()) => {
                Ok(())
            },
            Err(e) => {
                dst.truncate(mark);
                Err(e)
            },
        }
    }

    fn deserialize(src: &[u8]) -> (r: Result<(ShipListAck, usize), DecodeError>) {
        match u32::deserialize(src) {
            Err(e) => Err(e),
            Ok((count, _)) => {
                match read_array::<(ShipAddr, String)>(
                    slice_subrange(src, 4, src.len()),
                    count as usize,
                ) {
                    Ok((ships, used)) => Ok((ShipListAck(ships), 4 + used)),
                    Err(e) => Err(e),
                }
            },
        }
    }
}

/// The number of bytes of a frame header.
pub const HEADER_LEN: usize = 8;

/// The largest payload that a frame can carry: what the 16-bit length leaves
/// beside the header.
pub const MAX_PAYLOAD_LEN: usize = 0xFFF7;

/// The number of opcodes that stand for a known message: `0` up to, but not
/// including, this number.
pub const KNOWN_OPCODES: u16 = 10;

/// Any message that passes between a ship and the shipgate, with the key by
/// which an answer is matched to its request. A message whose opcode is not
/// known is kept as the bytes that came.
#[derive(Debug)]
pub enum Message {
    Unknown(u16, u32, Vec<u8>),
    Auth(u32, Auth),
    AuthAck(u32, AuthAck),
    BbLoginChallenge(u32, BbLoginChallenge),
    BbLoginChallengeAck(u32, BbLoginChallengeAck),
    BbGetAccountInfo(u32, BbGetAccountInfo),
    BbGetAccountInfoAck(u32, BbGetAccountInfoAck),
    RegisterShip(u32, RegisterShip),
    RegisterShipAck(u32, RegisterShipAck),
    ShipList(u32, ShipList),
    ShipListAck(u32, ShipListAck),
}

impl Clone for Message {
    fn clone(&self) -> (r: Message)
        ensures
            r@ == self@,
    {
        match self {
            Message::Unknown(opcode, key, bytes) => {
                Message::Unknown(*opcode, *key, bytes.clone())
            },
            Message::Auth(key, body) => Message::Auth(*key, body.clone()),
            Message::AuthAck(key, body) => Message::AuthAck(*key, body.clone()),
            Message::BbLoginChallenge(key, body) => Message::BbLoginChallenge(*key, body.clone()),
            Message::BbLoginChallengeAck(key, body) => Message::BbLoginChallengeAck(
                *key,
                body.clone(),
            ),
            Message::BbGetAccountInfo(key, body) => Message::BbGetAccountInfo(*key, body.clone()),
            Message::BbGetAccountInfoAck(key, body) => Message::BbGetAccountInfoAck(
                *key,
                body.clone(),
            ),
            Message::RegisterShip(key, body) => Message::RegisterShip(*key, body.clone()),
            Message::RegisterShipAck(key, body) => Message::RegisterShipAck(*key, body.clone()),
            Message::ShipList(key, body) => Message::ShipList(*key, body.clone()),
            Message::ShipListAck(key, body) => Message::ShipListAck(*key, body.clone()),
        }
    }
}

/// The contents of a [`Message`].
pub enum MessageView {
    Unknown(u16, u32, Seq<u8>),
    Auth(u32, <Auth as View>::V),
    AuthAck(u32, <AuthAck as View>::V),
    BbLoginChallenge(u32, <BbLoginChallenge as View>::V),
    BbLoginChallengeAck(u32, <BbLoginChallengeAck as View>::V),
    BbGetAccountInfo(u32, <BbGetAccountInfo as View>::V),
    BbGetAccountInfoAck(u32, <BbGetAccountInfoAck as View>::V),
    RegisterShip(u32, <RegisterShip as View>::V),
    RegisterShipAck(u32, <RegisterShipAck as View>::V),
    ShipList(u32, <ShipList as View>::V),
    ShipListAck(u32, <ShipListAck as View>::V),
}

impl View for Message {
    type V = MessageView;

    open spec fn view(&self) -> MessageView {
        match *self {
            Message::Unknown(opcode, key, bytes) => MessageView::Unknown(opcode, key, bytes@),
            Message::Auth(key, body) => MessageView::Auth(key, body@),
            Message::AuthAck(key, body) => MessageView::AuthAck(key, body@),
            Message::BbLoginChallenge(key, body) => MessageView::BbLoginChallenge(key, body@),
            Message::BbLoginChallengeAck(key, body) => MessageView::BbLoginChallengeAck(key, body@),
            Message::BbGetAccountInfo(key, body) => MessageView::BbGetAccountInfo(key, body@),
            Message::BbGetAccountInfoAck(key, body) => MessageView::BbGetAccountInfoAck(key, body@),
            Message::RegisterShip(key, body) => MessageView::RegisterShip(key, body@),
            Message::RegisterShipAck(key, body) => MessageView::RegisterShipAck(key, body@),
            Message::ShipList(key, body) => MessageView::ShipList(key, body@),
            Message::ShipListAck(key, body) => MessageView::ShipListAck(key, body@),
        }
    }
}

impl MessageView {
    /// The opcode under which the message travels.
    pub open spec fn opcode(self) -> u16 {
        match self {
            MessageView::Unknown(opcode, _, _) => opcode,
            MessageView::Auth(_, _) => 0,
            MessageView::AuthAck(_, _) => 1,
            MessageView::BbLoginChallenge(_, _) => 2,
            MessageView::BbLoginChallengeAck(_, _) => 3,
            MessageView::BbGetAccountInfo(_, _) => 4,
            MessageView::BbGetAccountInfoAck(_, _) => 5,
            MessageView::RegisterShip(_, _) => 6,
            MessageView::RegisterShipAck(_, _) => 7,
            MessageView::ShipList(_, _) => 8,
            MessageView::ShipListAck(_, _) => 9,
        }
    }

    /// The key by which an answer is matched to its request.
    pub open spec fn response_key(self) -> u32 {
        match self {
            MessageView::Unknown(_, key, _) => key,
            MessageView::Auth(key, _) => key,
            MessageView::AuthAck(key, _) => key,
            MessageView::BbLoginChallenge(key, _) => key,
            MessageView::BbLoginChallengeAck(key, _) => key,
            MessageView::BbGetAccountInfo(key, _) => key,
            MessageView::BbGetAccountInfoAck(key, _) => key,
            MessageView::RegisterShip(key, _) => key,
            MessageView::RegisterShipAck(key, _) => key,
            MessageView::ShipList(key, _) => key,
            MessageView::ShipListAck(key, _) => key,
        }
    }

    /// The same message under another key.
    pub open spec fn with_key(self, key: u32) -> MessageView {
        match self {
            MessageView::Unknown(opcode, _, bytes) => MessageView::Unknown(opcode, key, bytes),
            MessageView::Auth(_, body) => MessageView::Auth(key, body),
            MessageView::AuthAck(_, body) => MessageView::AuthAck(key, body),
            MessageView::BbLoginChallenge(_, body) => MessageView::BbLoginChallenge(key, body),
            MessageView::BbLoginChallengeAck(_, body) => MessageView::BbLoginChallengeAck(
                key,
                body,
            ),
            MessageView::BbGetAccountInfo(_, body) => MessageView::BbGetAccountInfo(key, body),
            MessageView::BbGetAccountInfoAck(_, body) => MessageView::BbGetAccountInfoAck(
                key,
                body,
            ),
            MessageView::RegisterShip(_, body) => MessageView::RegisterShip(key, body),
            MessageView::RegisterShipAck(_, body) => MessageView::RegisterShipAck(key, body),
            MessageView::ShipList(_, body) => MessageView::ShipList(key, body),
            MessageView::ShipListAck(_, body) => MessageView::ShipListAck(key, body),
        }
    }

    /// Whether the body of the message has a byte image.
    pub open spec fn payload_encodable(self) -> bool {
        match self {
            MessageView::Unknown(_, _, _) => true,
            MessageView::Auth(_, body) => Auth::encodable(body),
            MessageView::AuthAck(_, body) => AuthAck::encodable(body),
            MessageView::BbLoginChallenge(_, body) => BbLoginChallenge::encodable(body),
            MessageView::BbLoginChallengeAck(_, body) => BbLoginChallengeAck::encodable(body),
            MessageView::BbGetAccountInfo(_, body) => BbGetAccountInfo::encodable(body),
            MessageView::BbGetAccountInfoAck(_, body) => BbGetAccountInfoAck::encodable(body),
            MessageView::RegisterShip(_, body) => RegisterShip::encodable(body),
            MessageView::RegisterShipAck(_, body) => RegisterShipAck::encodable(body),
            MessageView::ShipList(_, body) => ShipList::encodable(body),
            MessageView::ShipListAck(_, body) => ShipListAck::encodable(body),
        }
    }

    /// The bytes behind the header: the body of a known message, or the
    /// bytes of an unknown one as they are.
    pub open spec fn payload(self) -> Seq<u8> {
        match self {
            MessageView::Unknown(_, _, bytes) => bytes,
            MessageView::Auth(_, body) => Auth::wire(body),
            MessageView::AuthAck(_, body) => AuthAck::wire(body),
            MessageView::BbLoginChallenge(_, body) => BbLoginChallenge::wire(body),
            MessageView::BbLoginChallengeAck(_, body) => BbLoginChallengeAck::wire(body),
            MessageView::BbGetAccountInfo(_, body) => BbGetAccountInfo::wire(body),
            MessageView::BbGetAccountInfoAck(_, body) => BbGetAccountInfoAck::wire(body),
            MessageView::RegisterShip(_, body) => RegisterShip::wire(body),
            MessageView::RegisterShipAck(_, body) => RegisterShipAck::wire(body),
            MessageView::ShipList(_, body) => ShipList::wire(body),
            MessageView::ShipListAck(_, body) => ShipListAck::wire(body),
        }
    }

    /// Whether the message fits a frame: its body has a byte image, and
    /// header and payload together are no longer than the 16-bit length can
    /// say.
    pub open spec fn encodable(self) -> bool {
        self.payload_encodable() && self.payload().len() <= MAX_PAYLOAD_LEN
    }

    /// The frame of the message: the header, then the payload.
    pub open spec fn frame(self) -> Seq<u8> {
        header_wire(
            Header {
                length: (HEADER_LEN + self.payload().len()) as u16,
                opcode: self.opcode(),
                response_key: self.response_key(),
            },
        ) + self.payload()
    }
}

/// The eight bytes in front of every payload.
#[derive(Clone, Copy, Debug, PartialEq, Eq, Structural)]
pub struct Header {
    /// The number of bytes of the whole frame, header included.
    pub length: u16,
    /// What kind of message the payload is.
    pub opcode: u16,
    /// The key by which an answer is matched to its request.
    pub response_key: u32,
}

/// The bytes of a header: length, opcode and key, each most significant
/// byte first.
pub open spec fn header_wire(h: Header) -> Seq<u8> {
    be_u16(h.length) + be_u16(h.opcode) + be_u32(h.response_key)
}

/// The header that the first eight bytes of `s` spell.
pub open spec fn header_at(s: Seq<u8>) -> Header {
    Header {
        length: from_be_u16(s),
        opcode: from_be_u16(s.skip(2)),
        response_key: from_be_u32(s.skip(4)),
    }
}

/// The header at the front of `s`, or why there is none: too few bytes, or
/// a length that does not even cover the header.
pub open spec fn parse_header(s: Seq<u8>) -> Result<Header, FrameError> {
    if s.len() < HEADER_LEN {
        Err(FrameError::ShortHeader)
    } else if header_at(s).length < HEADER_LEN {
        Err(FrameError::BadLength(header_at(s).length))
    } else {
        Ok(header_at(s))
    }
}

/// The message that a payload stands for under `opcode` and `key`. A known
/// opcode has its body read from the front of the payload; any other makes
/// the message that keeps the payload as it is.
pub open spec fn parse_payload(opcode: u16, key: u32, payload: Seq<u8>) -> Result<
    MessageView,
    FrameError,
> {
    if opcode == 0 {
        match Auth::parse(payload) {
            Ok((body, _)) => Ok(MessageView::Auth(key, body)),
            Err(e) => Err(FrameError::PayloadDecode(opcode, e)),
        }
    } else if opcode == 1 {
        match AuthAck::parse(payload) {
            Ok((body, _)) => Ok(MessageView::AuthAck(key, body)),
            Err(e) => Err(FrameError::PayloadDecode(opcode, e)),
        }
    } else if opcode == 2 {
        match BbLoginChallenge::parse(payload) {
            Ok((body, _)) => Ok(MessageView::BbLoginChallenge(key, body)),
            Err(e) => Err(FrameError::PayloadDecode(opcode, e)),
        }
    } else if opcode == 3 {
        match BbLoginChallengeAck::parse(payload) {
            Ok((body, _)) => Ok(MessageView::BbLoginChallengeAck(key, body)),
            Err(e) => Err(FrameError::PayloadDecode(opcode, e)),
        }
    } else if opcode == 4 {
        match BbGetAccountInfo::parse(payload) {
            Ok((body, _)) => Ok(MessageView::BbGetAccountInfo(key, body)),
            Err(e) => Err(FrameError::PayloadDecode(opcode, e)),
        }
    } else if opcode == 5 {
        match BbGetAccountInfoAck::parse(payload) {
            Ok((body, _)) => Ok(MessageView::BbGetAccountInfoAck(key, body)),
            Err(e) => Err(FrameError::PayloadDecode(opcode, e)),
        }
    } else if opcode == 6 {
        match RegisterShip::parse(payload) {
            Ok((body, _)) => Ok(MessageView::RegisterShip(key, body)),
            Err(e) => Err(FrameError::PayloadDecode(opcode, e)),
        }
    } else if opcode == 7 {
        match RegisterShipAck::parse(payload) {
            Ok((body, _)) => Ok(MessageView::RegisterShipAck(key, body)),
            Err(e) => Err(FrameError::PayloadDecode(opcode, e)),
        }
    } else if opcode == 8 {
        match ShipList::parse(payload) {
            Ok((body, _)) => Ok(MessageView::ShipList(key, body)),
            Err(e) => Err(FrameError::PayloadDecode(opcode, e)),
        }
    } else if opcode == 9 {
        match ShipListAck::parse(payload) {
            Ok((body, _)) => Ok(MessageView::ShipListAck(key, body)),
            Err(e) => Err(FrameError::PayloadDecode(opcode, e)),
        }
    } else {
        Ok(MessageView::Unknown(opcode, key, payload))
    }
}

/// The message at the front of `s` and the length of its frame, or why
/// there is none. The payload is exactly what the declared length covers,
/// whether or not the opcode is known.
pub open spec fn parse_frame(s: Seq<u8>) -> Result<(MessageView, int), FrameError> {
    match parse_header(s) {
        Err(e) => Err(e),
        Ok(h) => if s.len() < h.length {
            Err(FrameError::ShortPayload)
        } else {
            match parse_payload(h.opcode, h.response_key, s.subrange(8, h.length as int)) {
                Ok(m) => Ok((m, h.length as int)),
                Err(e) => Err(e),
            }
        },
    }
}

/// Appends the eight bytes of `h`.
pub fn encode_header(h: &Header, dst: &mut Vec<u8>)
    ensures
        final(dst)@ == old(dst)@ + header_wire(*h),
{
    let length = write_be_u16(h.length);
    let opcode = write_be_u16(h.opcode);
    let key = write_be_u32(h.response_key);
    dst.push(length[0]);
    dst.push(length[1]);
    dst.push(opcode[0]);
    dst.push(opcode[1]);
    dst.push(key[0]);
    dst.push(key[1]);
    dst.push(key[2]);
    dst.push(key[3]);
}

/// Reads the header at the front of `src`.
pub fn decode_header(src: &[u8]) -> (r: Result<Header, FrameError>)
    ensures
        r == parse_header(src@),
{
    if src.len() < HEADER_LEN {
        return Err(FrameError::ShortHeader);
    }
    let length: u16 = read_be_u16(src);
    let opcode: u16 = read_be_u16(slice_subrange(src, 2, src.len()));
    let response_key: u32 = read_be_u32(slice_subrange(src, 4, src.len()));
    if length < 8 {
        return Err(FrameError::BadLength(length));
    }
    Ok(Header { length, opcode, response_key })
}

/// Makes the message that `payload` stands for under `opcode` and `key`.
pub fn decode_payload(opcode: u16, key: u32, payload: &[u8]) -> (r: Result<Message, FrameError>)
    ensures
        match parse_payload(opcode, key, payload@) {
            Ok(m) => r matches Ok(msg) && msg@ == m,
            Err(e) => r == Err::<Message, FrameError>(e),
        },
{
    match opcode {
        0 => match Auth::deserialize(payload) {
            Ok((body, _)) => Ok(Message::Auth(key, body)),
            Err(e) => Err(FrameError::PayloadDecode(opcode, e)),
        },
        1 => match AuthAck::deserialize(payload) {
            Ok((body, _)) => Ok(Message::AuthAck(key, body)),
            Err(e) => Err(FrameError::PayloadDecode(opcode, e)),
        },
        2 => match BbLoginChallenge::deserialize(payload) {
            Ok((body, _)) => Ok(Message::BbLoginChallenge(key, body)),
            Err(e) => Err(FrameError::PayloadDecode(opcode, e)),
        },
        3 => match BbLoginChallengeAck::deserialize(payload) {
            Ok((body, _)) => Ok(Message::BbLoginChallengeAck(key, body)),
            Err(e) => Err(FrameError::PayloadDecode(opcode, e)),
        },
        4 => match BbGetAccountInfo::deserialize(payload) {
            Ok((body, _)) => Ok(Message::BbGetAccountInfo(key, body)),
            Err(e) => Err(FrameError::PayloadDecode(opcode, e)),
        },
        5 => match BbGetAccountInfoAck::deserialize(payload) {
            Ok((body, _)) => Ok(Message::BbGetAccountInfoAck(key, body)),
            Err(e) => Err(FrameError::PayloadDecode(opcode, e)),
        },
        6 => match RegisterShip::deserialize(payload) {
            Ok((body, _)) => Ok(Message::RegisterShip(key, body)),
            Err(e) => Err(FrameError::PayloadDecode(opcode, e)),
        },
        7 => match RegisterShipAck::deserialize(payload) {
            Ok((body, _)) => Ok(Message::RegisterShipAck(key, body)),
            Err(e) => Err(FrameError::PayloadDecode(opcode, e)),
        },
        8 => match ShipList::deserialize(payload) {
            Ok((body, _)) => Ok(Message::ShipList(key, body)),
            Err(e) => Err(FrameError::PayloadDecode(opcode, e)),
        },
        9 => match ShipListAck::deserialize(payload) {
            Ok((body, _)) => Ok(Message::ShipListAck(key, body)),
            Err(e) => Err(FrameError::PayloadDecode(opcode, e)),
        },
        _ => Ok(Message::Unknown(opcode, key, slice_to_vec(payload))),
    }
}

impl Message {
    /// The opcode under which the message travels.
    pub fn opcode(&self) -> (opcode: u16)
        ensures
            opcode == self@.opcode(),
    {
        match self {
            Message::Unknown(opcode, _, _) => *opcode,
            Message::Auth(_, _) => 0,
            Message::AuthAck(_, _) => 1,
            Message::BbLoginChallenge(_, _) => 2,
            Message::BbLoginChallengeAck(_, _) => 3,
            Message::BbGetAccountInfo(_, _) => 4,
            Message::BbGetAccountInfoAck(_, _) => 5,
            Message::RegisterShip(_, _) => 6,
            Message::RegisterShipAck(_, _) => 7,
            Message::ShipList(_, _) => 8,
            Message::ShipListAck(_, _) => 9,
        }
    }

    /// The key by which an answer is matched to its request.
    pub fn get_response_key(&self) -> (key: u32)
        ensures
            key == self@.response_key(),
    {
        match self {
            Message::Unknown(_, key, _) => *key,
            Message::Auth(key, _) => *key,
            Message::AuthAck(key, _) => *key,
            Message::BbLoginChallenge(key, _) => *key,
            Message::BbLoginChallengeAck(key, _) => *key,
            Message::BbGetAccountInfo(key, _) => *key,
            Message::BbGetAccountInfoAck(key, _) => *key,
            Message::RegisterShip(key, _) => *key,
            Message::RegisterShipAck(key, _) => *key,
            Message::ShipList(key, _) => *key,
            Message::ShipListAck(key, _) => *key,
        }
    }

    /// Puts the message under the key `res_key` and leaves the rest of it as
    /// it was.
    pub fn set_response_key(&mut self, res_key: u32)
        ensures
            final(self)@ == old(self)@.with_key(res_key),
    {
        match self {
            Message::Unknown(_, key, _) => {
                *key = res_key;
            },
            Message::Auth(key, _) => {
                *key = res_key;
            },
            Message::AuthAck(key, _) => {
                *key = res_key;
            },
            Message::BbLoginChallenge(key, _) => {
                *key = res_key;
            },
            Message::BbLoginChallengeAck(key, _) => {
                *key = res_key;
            },
            Message::BbGetAccountInfo(key, _) => {
                *key = res_key;
            },
            Message::BbGetAccountInfoAck(key, _) => {
                *key = res_key;
            },
            Message::RegisterShip(key, _) => {
                *key = res_key;
            },
            Message::RegisterShipAck(key, _) => {
                *key = res_key;
            },
            Message::ShipList(key, _) => {
                *key = res_key;
            },
            Message::ShipListAck(key, _) => {
                *key = res_key;
            },
        }
    }

    /// Appends the payload of the message, or leaves `dst` as it was where
    /// the body has no byte image.
    pub fn serialize_payload(&self, dst: &mut Vec<u8>) -> (r: Result<(), EncodeError>)
        ensures
            r is Ok <==> self@.payload_encodable(),
            r is Ok ==> final(dst)@ == old(dst)@ + self@.payload(),
            r is Err ==> final(dst)@ == old(dst)@ && r == Err::<(), EncodeError>(
                EncodeError::CountOverflow,
            ),
    {
        match self {
            Message::Unknown(_, _, bytes) => {
                let r = write_array(bytes.as_slice(), dst);
                proof {
                    assert(views(bytes@) =~= bytes@);
                    lemma_bytes_wire(bytes@);
                }
                r
            },
            Message::Auth(_, body) => body.serialize(dst),
            Message::AuthAck(_, body) => body.serialize(dst),
            Message::BbLoginChallenge(_, body) => body.serialize(dst),
            Message::BbLoginChallengeAck(_, body) => body.serialize(dst),
            Message::BbGetAccountInfo(_, body) => body.serialize(dst),
            Message::BbGetAccountInfoAck(_, body) => body.serialize(dst),
            Message::RegisterShip(_, body) => body.serialize(dst),
            Message::RegisterShipAck(_, body) => body.serialize(dst),
            Message::ShipList(_, body) => body.serialize(dst),
            Message::ShipListAck(_, body) => body.serialize(dst),
        }
    }

    /// Appends the frame of the message: the payload is written aside first,
    /// so that the header can say how long it is. Where the message does not
    /// fit a frame, `dst` stays as it was.
    pub fn serialize(&self, dst: &mut Vec<u8>) -> (r: Result<(), EncodeError>)
        ensures
            r is Ok <==> self@.encodable(),
            r is Ok ==> final(dst)@ == old(dst)@ + self@.frame(),
            r is Err ==> final(dst)@ == old(dst)@ && r == Err::<(), EncodeError>(
                if self@.payload_encodable() {
                    EncodeError::FrameOverflow
                } else {
                    EncodeError::CountOverflow
                },
            ),
    {
        let mut payload: Vec<u8> = Vec::new();
        match self.serialize_payload(&mut payload) {
            Ok(()) => {},
            Err(e) => {
                return Err(e);
            },
        }
        if payload.len() > MAX_PAYLOAD_LEN {
            return Err(EncodeError::FrameOverflow);
        }
        let header = Header {
            length: (HEADER_LEN + payload.len()) as u16,
            opcode: self.opcode(),
            response_key: self.get_response_key(),
        };
        encode_header(&header, dst);
        dst.append(&mut payload);
        Ok(())
    }

    /// Reads one frame from the front of `src` and says how long it was.
    pub fn deserialize(src: &[u8]) -> (r: Result<(Message, usize), FrameError>)
        ensures
            match parse_frame(src@) {
                Ok((m, n)) => r matches Ok((msg, used)) && msg@ == m && used == n && used
                    <= src@.len(),
                Err(e) => r == Err::<(Message, usize), FrameError>(e),
            },
    {
        match decode_header(src) {
            Err(e) => Err(e),
            Ok(header) => {
                let length: usize = header.length as usize;
                if src.len() < length {
                    return Err(FrameError::ShortPayload);
                }
                match decode_payload(
                    header.opcode,
                    header.response_key,
                    slice_subrange(src, HEADER_LEN, length),
                ) {
                    Ok(msg) => Ok((msg, length)),
                    Err(e) => Err(e),
                }
            },
        }
    }
}

/// Reading the header that was written gives it back, whatever follows.
pub proof fn lemma_header_round_trip(h: Header, tail: Seq<u8>)
    ensures
        header_wire(h).len() == HEADER_LEN,
        header_at(header_wire(h) + tail) == h,
{
    let all = header_wire(h) + tail;
    lemma_read_write_u16(h.length, all.skip(2));
    lemma_read_write_u16(h.opcode, all.skip(4));
    lemma_read_write_u32(h.response_key, tail);
}

/// Writing the header that was read gives the eight bytes back.
pub proof fn lemma_header_wire_of_parsed(s: Seq<u8>)
    requires
        s.len() >= HEADER_LEN,
    ensures
        header_wire(header_at(s)) == s.subrange(0, 8),
{
    lemma_write_read_u16(s);
    lemma_write_read_u16(s.skip(2));
    lemma_write_read_u32(s.skip(4));
}

/// The body of a known message, read back from its own bytes, is the
/// message again.
pub proof fn lemma_payload_round_trip(m: MessageView)
    requires
        m.payload_encodable(),
        m is Unknown ==> m.opcode() >= KNOWN_OPCODES,
    ensures
        parse_payload(m.opcode(), m.response_key(), m.payload()) == Ok::<MessageView, FrameError>(
            m,
        ),
{
    let none = Seq::<u8>::empty();
    assert(m.payload() + none =~= m.payload());
    match m {
        MessageView::Unknown(_, _, _) => {},
        MessageView::Auth(_, body) => {
            Auth::lemma_round_trip(body, none);
        },
        MessageView::AuthAck(_, body) => {
            AuthAck::lemma_round_trip(body, none);
        },
        MessageView::BbLoginChallenge(_, body) => {
            BbLoginChallenge::lemma_round_trip(body, none);
        },
        MessageView::BbLoginChallengeAck(_, body) => {
            BbLoginChallengeAck::lemma_round_trip(body, none);
        },
        MessageView::BbGetAccountInfo(_, body) => {
            BbGetAccountInfo::lemma_round_trip(body, none);
        },
        MessageView::BbGetAccountInfoAck(_, body) => {
            BbGetAccountInfoAck::lemma_round_trip(body, none);
        },
        MessageView::RegisterShip(_, body) => {
            RegisterShip::lemma_round_trip(body, none);
        },
        MessageView::RegisterShipAck(_, body) => {
            RegisterShipAck::lemma_round_trip(body, none);
        },
        MessageView::ShipList(_, body) => {
            ShipList::lemma_round_trip(body, none);
        },
        MessageView::ShipListAck(_, body) => {
            ShipListAck::lemma_round_trip(body, none);
        },
    }
}

/// A message that was read travels under the opcode and the key that its
/// frame carried: the opcode tells the kind of message, and the kind of
/// message tells the opcode.
pub proof fn lemma_payload_keeps_header(opcode: u16, key: u32, payload: Seq<u8>)
    ensures
        parse_payload(opcode, key, payload) matches Ok(m) ==> m.opcode() == opcode
            && m.response_key() == key && (m is Unknown <==> opcode >= KNOWN_OPCODES),
{
}

/// Reading the frame of a message gives the message back and takes exactly
/// the frame, whatever follows it; and the length that the frame declares
/// is eight more than its payload. A message made by hand as unknown, but
/// under an opcode that is known, is left out: its bytes read as the known
/// message.
pub proof fn lemma_frame_round_trip(m: MessageView, tail: Seq<u8>)
    requires
        m.encodable(),
        m is Unknown ==> m.opcode() >= KNOWN_OPCODES,
    ensures
        parse_frame(m.frame() + tail) == Ok::<(MessageView, int), FrameError>(
            (m, m.frame().len() as int),
        ),
        m.frame().len() == HEADER_LEN + m.payload().len(),
        header_at(m.frame()).length == HEADER_LEN + m.payload().len(),
{
    let h = Header {
        length: (HEADER_LEN + m.payload().len()) as u16,
        opcode: m.opcode(),
        response_key: m.response_key(),
    };
    let all = m.frame() + tail;
    assert(all =~= header_wire(h) + (m.payload() + tail));
    lemma_header_round_trip(h, m.payload() + tail);
    lemma_header_round_trip(h, m.payload());
    assert(all.subrange(8, h.length as int) =~= m.payload());
    lemma_payload_round_trip(m);
}

/// A frame under an opcode that is not known reads as the message that
/// keeps that opcode, the key and the payload as they came, and writing
/// that message gives the bytes of the frame back.
pub proof fn lemma_unknown_passthrough(s: Seq<u8>)
    requires
        parse_header(s) is Ok,
        header_at(s).opcode >= KNOWN_OPCODES,
        s.len() >= header_at(s).length,
    ensures
        ({
            let h = header_at(s);
            let m = MessageView::Unknown(h.opcode, h.response_key, s.subrange(8, h.length as int));
            &&& parse_frame(s) == Ok::<(MessageView, int), FrameError>((m, h.length as int))
            &&& m.encodable()
            &&& m.frame() == s.subrange(0, h.length as int)
        }),
{
    let h = header_at(s);
    lemma_header_wire_of_parsed(s);
    assert(s.subrange(0, 8) + s.subrange(8, h.length as int) =~= s.subrange(0, h.length as int));
}

/// Putting a message under a key changes the key and nothing else: not the
/// opcode, not one byte of the payload.
pub proof fn lemma_with_key(m: MessageView, key: u32)
    ensures
        m.with_key(key).response_key() == key,
        m.with_key(key).opcode() == m.opcode(),
        m.with_key(key).payload() == m.payload(),
        m.with_key(key).encodable() == m.encodable(),
        m.with_key(m.response_key()) == m,
{
}

} // verus!
