//! Lobby messages: who is in a lobby, who joins it and who leaves.

use crate::array::{
    all_encodable, lemma_bytes_parse, lemma_bytes_wire, lemma_round_trip_many, parse_many,
    read_many, wire_all, write_array,
};
use crate::error::{DecodeError, EncodeError};
use crate::serial::{views, Serial};
use crate::staticvec::StaticVec;
use crate::wire::{from_le_u16, le_u16, le_u32, lemma_read_write_u16};
use vstd::prelude::*;
use vstd::slice::slice_subrange;

verus! {

/// The number of bytes of a player header.
pub const PLAYER_HDR_LEN: usize = 68;

/// The number of bytes of an inventory.
pub const INVENTORY_LEN: usize = 844;

/// The number of bytes of a character record.
pub const BB_CHAR_LEN: usize = 400;

/// The number of bytes of one lobby member: header, inventory and character.
pub const MEMBER_LEN: usize = 1312;

/// The number of bytes in front of the member list of a lobby message.
pub const LOBBY_HEAD_LEN: usize = 12;

/// The number of bytes of a leave message, padding included.
pub const LOBBY_LEAVE_LEN: usize = 16;

/// A player header, carried as it stands.
pub type PlayerHdr = StaticVec<u8, PLAYER_HDR_LEN>;

/// An inventory, carried as it stands.
pub type Inventory = StaticVec<u8, INVENTORY_LEN>;

/// A character record, carried as it stands.
pub type BbChar = StaticVec<u8, BB_CHAR_LEN>;

/// `n` zero bytes.
pub open spec fn zeros(n: nat) -> Seq<u8> {
    Seq::new(n, |i: int| 0u8)
}

/// One member of a lobby.
#[derive(Debug)]
pub struct LobbyMember {
    pub hdr: PlayerHdr,
    pub inventory: Inventory,
    pub data: BbChar,
}

/// The contents of a [`LobbyMember`].
pub struct LobbyMemberView {
    pub hdr: Seq<u8>,
    pub inventory: Seq<u8>,
    pub data: Seq<u8>,
}

impl View for LobbyMember {
    type V = LobbyMemberView;

    open spec fn view(&self) -> LobbyMemberView {
        LobbyMemberView { hdr: self.hdr@, inventory: self.inventory@, data: self.data@ }
    }
}

impl Serial for LobbyMember {
    open spec fn encodable(v: LobbyMemberView) -> bool {
        v.hdr.len() == PLAYER_HDR_LEN && v.inventory.len() == INVENTORY_LEN && v.data.len()
            == BB_CHAR_LEN
    }

    open spec fn wire(v: LobbyMemberView) -> Seq<u8> {
        v.hdr + v.inventory + v.data
    }

    open spec fn parse(s: Seq<u8>) -> Result<(LobbyMemberView, int), DecodeError> {
        if s.len() >= MEMBER_LEN {
            Ok(
                (
                    LobbyMemberView {
                        hdr: s.subrange(0, 68),
                        inventory: s.subrange(68, 912),
                        data: s.subrange(912, 1312),
                    },
                    1312,
                ),
            )
        } else {
            Err(DecodeError::UnexpectedEof)
        }
    }

    open spec fn may_follow(tail: Seq<u8>) -> bool {
        true
    }

    proof fn lemma_round_trip(v: LobbyMemberView, tail: Seq<u8>) {
        let all = Self::wire(v) + tail;
        assert(all.subrange(0, 68) =~= v.hdr);
        assert(all.subrange(68, 912) =~= v.inventory);
        assert(all.subrange(912, 1312) =~= v.data);
    }

    fn serialize(&self, dst: &mut Vec<u8>) -> (r: Result<(), EncodeError>) {
        proof {
            lemma_bytes_wire(self.hdr@);
            lemma_bytes_wire(self.inventory@);
            lemma_bytes_wire(self.data@);
        }
        let _ = self.hdr.serialize(dst);
        let _ = self.inventory.serialize(dst);
        let _ = self.data.serialize(dst);
        Ok(())
    }

    fn deserialize(src: &[u8]) -> (r: Result<(LobbyMember, usize), DecodeError>) {
        proof {
            lemma_bytes_parse(src@, 68);
            lemma_bytes_parse(src@.skip(68), 844);
            lemma_bytes_parse(src@.skip(912), 400);
        }
        let (hdr, _) = match PlayerHdr::deserialize(src) {
            Ok(x) => x,
            Err(e) => {
                return Err(e);
            },
        };
        let (inventory, _) = match Inventory::deserialize(slice_subrange(src, 68, src.len())) {
            Ok(x) => x,
            Err(e) => {
                return Err(e);
            },
        };
        let (data, _) = match BbChar::deserialize(slice_subrange(src, 912, src.len())) {
            Ok(x) => x,
            Err(e) => {
                return Err(e);
            },
        };
        proof {
            assert(src@.take(68) =~= src@.subrange(0, 68));
            assert(src@.skip(68).take(844) =~= src@.subrange(68, 912));
            assert(src@.skip(912).take(400) =~= src@.subrange(912, 1312));
        }
        Ok((LobbyMember { hdr, inventory, data }, 1312))
    }
}

impl Clone for LobbyMember {
    fn clone(&self) -> (r: LobbyMember)
        ensures
            r@ == self@,
    {
        let r = LobbyMember {
            hdr: self.hdr.clone(),
            inventory: self.inventory.clone(),
            data: self.data.clone(),
        };
        assert(r.hdr@ =~= self.hdr@);
        assert(r.inventory@ =~= self.inventory@);
        assert(r.data@ =~= self.data@);
        r
    }
}

impl Default for LobbyMember {
    /// A member whose every byte is zero.
    fn default() -> (r: LobbyMember)
        ensures
            r@ == (LobbyMemberView {
                hdr: zeros(68),
                inventory: zeros(844),
                data: zeros(400),
            }),
    {
        let hdr: PlayerHdr = StaticVec::default();
        let inventory: Inventory = StaticVec::default();
        let data: BbChar = StaticVec::default();
        assert(hdr@ =~= zeros(68));
        assert(inventory@ =~= zeros(844));
        assert(data@ =~= zeros(400));
        LobbyMember { hdr, inventory, data }
    }
}

/// The contents of a lobby message: the fixed fields and the members.
pub struct LobbyView {
    pub client_id: u8,
    pub leader_id: u8,
    pub one: u8,
    pub lobby_num: u8,
    pub block_num: u16,
    pub event: u16,
    pub members: Seq<LobbyMemberView>,
}

/// The bytes of a lobby message: four single bytes, two 16-bit numbers, a
/// 32-bit word of zero padding, then the members with no count.
pub open spec fn lobby_wire(v: LobbyView) -> Seq<u8> {
    seq![v.client_id, v.leader_id, v.one, v.lobby_num] + le_u16(v.block_num) + le_u16(v.event)
        + le_u32(0) + wire_all::<LobbyMember>(v.members)
}

/// A lobby message read from `s`: the fixed fields, the padding passed over
/// whatever it holds, and then as many members as there are whole records.
pub open spec fn lobby_parse(s: Seq<u8>) -> Result<(LobbyView, int), DecodeError> {
    if s.len() < LOBBY_HEAD_LEN {
        Err(DecodeError::UnexpectedEof)
    } else {
        let (members, used) = parse_many::<LobbyMember>(s.skip(12));
        Ok(
            (
                LobbyView {
                    client_id: s[0],
                    leader_id: s[1],
                    one: s[2],
                    lobby_num: s[3],
                    block_num: from_le_u16(s.skip(4)),
                    event: from_le_u16(s.skip(6)),
                    members,
                },
                12 + used,
            ),
        )
    }
}

/// A lobby message is as long as its fixed part and its members.
pub proof fn lemma_lobby_len(v: LobbyView)
    requires
        all_encodable::<LobbyMember>(v.members),
    ensures
        lobby_wire(v).len() == LOBBY_HEAD_LEN + MEMBER_LEN * v.members.len(),
{
    lemma_members_len(v.members);
}

/// A run of members is as long as its members.
pub proof fn lemma_members_len(ms: Seq<LobbyMemberView>)
    requires
        all_encodable::<LobbyMember>(ms),
    ensures
        wire_all::<LobbyMember>(ms).len() == MEMBER_LEN * ms.len(),
    decreases ms.len(),
{
    if ms.len() > 0 {
        assert forall|i: int| 0 <= i < ms.drop_first().len() implies LobbyMember::encodable(
            #[trigger] ms.drop_first()[i],
        ) by {
            assert(ms.drop_first()[i] == ms[i + 1]);
        }
        lemma_members_len(ms.drop_first());
    }
}

/// An uncounted run of members has as many members as whole records fit
/// the input, and takes up exactly those records.
pub proof fn lemma_members_count(s: Seq<u8>)
    ensures
        parse_many::<LobbyMember>(s).0.len() == s.len() as int / 1312,
        parse_many::<LobbyMember>(s).1 == 1312 * (s.len() as int / 1312),
    decreases s.len(),
{
    if s.len() >= MEMBER_LEN {
        lemma_members_count(s.skip(1312));
    }
}

/// How many members a lobby message has is told by its length alone: as
/// many as whole records fit behind the fixed part. What is left over
/// behind the last whole record is not taken.
pub proof fn lemma_lobby_member_count(s: Seq<u8>)
    requires
        s.len() >= LOBBY_HEAD_LEN,
    ensures
        lobby_parse(s) matches Ok((v, used)) && v.members.len() == (s.len() - 12) / 1312 && used
            == 12 + 1312 * v.members.len(),
{
    lemma_members_count(s.skip(12));
}

/// Reading a lobby message that was written gives it back, as long as less
/// than one whole member record stands behind it.
pub proof fn lemma_lobby_round_trip(v: LobbyView, tail: Seq<u8>)
    requires
        all_encodable::<LobbyMember>(v.members),
        tail.len() < MEMBER_LEN,
    ensures
        lobby_parse(lobby_wire(v) + tail) == Ok::<(LobbyView, int), DecodeError>(
            (v, lobby_wire(v).len() as int),
        ),
{
    let members = wire_all::<LobbyMember>(v.members);
    let all = lobby_wire(v) + tail;
    assert(all.skip(12) =~= members + tail);
    assert forall|i: int| 0 <= i < v.members.len() implies (#[trigger] LobbyMember::wire(
        v.members[i],
    )).len() > 0 by {
        assert(LobbyMember::encodable(v.members[i]));
    }
    lemma_round_trip_many::<LobbyMember>(v.members, tail);
    lemma_read_write_u16(v.block_num, all.skip(6));
    lemma_read_write_u16(v.event, all.skip(8));
}

/// The contents of a lobby message with the given fixed fields and members.
pub open spec fn lobby_view(
    client_id: u8,
    leader_id: u8,
    one: u8,
    lobby_num: u8,
    block_num: u16,
    event: u16,
    members: Seq<LobbyMember>,
) -> LobbyView {
    LobbyView { client_id, leader_id, one, lobby_num, block_num, event, members: views(members) }
}

/// Appends a lobby message made of the given fields and members, or leaves
/// `dst` as it was where a member has no byte image.
fn write_lobby(
    client_id: u8,
    leader_id: u8,
    one: u8,
    lobby_num: u8,
    block_num: u16,
    event: u16,
    members: &Vec<LobbyMember>,
    dst: &mut Vec<u8>,
) -> (r: Result<(), EncodeError>)
    ensures
        r is Ok <==> all_encodable::<LobbyMember>(views(members@)),
        r is Ok ==> final(dst)@ == old(dst)@ + lobby_wire(
            lobby_view(client_id, leader_id, one, lobby_num, block_num, event, members@),
        ),
        r is Err ==> final(dst)@ == old(dst)@ && r == Err::<(), EncodeError>(
            EncodeError::CountOverflow,
        ),
{
    let mark: usize = dst.len();
    dst.push(client_id);
    dst.push(leader_id);
    dst.push(one);
    dst.push(lobby_num);
    let _ = block_num.serialize(dst);
    let _ = event.serialize(dst);
    let padding: u32 = 0;
    let _ = padding.serialize(dst);
    match write_array(members.as_slice(), dst) {
        Ok(()) => {
            assert(dst@ =~= old(dst)@ + lobby_wire(
                lobby_view(client_id, leader_id, one, lobby_num, block_num, event, members@),
            ));
            Ok(())
        },
        Err(e) => {
            dst.truncate(mark);
            Err(e)
        },
    }
}

/// The fixed fields of a lobby message, in wire order.
struct LobbyHead {
    client_id: u8,
    leader_id: u8,
    one: u8,
    lobby_num: u8,
    block_num: u16,
    event: u16,
}

/// Reads a lobby message: the fixed fields, then members until no whole
/// record is left.
fn read_lobby(src: &[u8]) -> (r: Result<(LobbyHead, Vec<LobbyMember>, usize), DecodeError>)
    ensures
        match lobby_parse(src@) {
            Ok((v, n)) => r matches Ok((head, members, used)) && v == lobby_view(
                head.client_id,
                head.leader_id,
                head.one,
                head.lobby_num,
                head.block_num,
                head.event,
                members@,
            ) && used == n && used <= src@.len(),
            Err(e) => r == Err::<(LobbyHead, Vec<LobbyMember>, usize), DecodeError>(e),
        },
{
    if src.len() < LOBBY_HEAD_LEN {
        return Err(DecodeError::UnexpectedEof);
    }
    let block_num: u16 = match u16::deserialize(slice_subrange(src, 4, src.len())) {
        Ok((n, _)) => n,
        Err(e) => {
            return Err(e);
        },
    };
    let event: u16 = match u16::deserialize(slice_subrange(src, 6, src.len())) {
        Ok((n, _)) => n,
        Err(e) => {
            return Err(e);
        },
    };
    let (members, used) = read_many::<LobbyMember>(slice_subrange(src, 12, src.len()));
    let head = LobbyHead {
        client_id: src[0],
        leader_id: src[1],
        one: src[2],
        lobby_num: src[3],
        block_num,
        event,
    };
    Ok((head, members, 12 + used))
}

/// A player comes into a lobby: the state of the lobby and its members.
#[derive(Debug)]
pub struct LobbyJoin {
    pub client_id: u8,
    pub leader_id: u8,
    pub one: u8,
    pub lobby_num: u8,
    pub block_num: u16,
    pub event: u16,
    pub members: Vec<LobbyMember>,
}

impl View for LobbyJoin {
    type V = LobbyView;

    open spec fn view(&self) -> LobbyView {
        lobby_view(
            self.client_id,
            self.leader_id,
            self.one,
            self.lobby_num,
            self.block_num,
            self.event,
            self.members@,
        )
    }
}

impl Serial for LobbyJoin {
    open spec fn encodable(v: LobbyView) -> bool {
        all_encodable::<LobbyMember>(v.members)
    }

    open spec fn wire(v: LobbyView) -> Seq<u8> {
        lobby_wire(v)
    }

    open spec fn parse(s: Seq<u8>) -> Result<(LobbyView, int), DecodeError> {
        lobby_parse(s)
    }

    open spec fn may_follow(tail: Seq<u8>) -> bool {
        tail.len() < MEMBER_LEN
    }

    proof fn lemma_round_trip(v: LobbyView, tail: Seq<u8>) {
        lemma_lobby_round_trip(v, tail);
    }

    fn serialize(&self, dst: &mut Vec<u8>) -> (r: Result<(), EncodeError>) {
        write_lobby(
            self.client_id,
            self.leader_id,
            self.one,
            self.lobby_num,
            self.block_num,
            self.event,
            &self.members,
            dst,
        )
    }

    fn deserialize(src: &[u8]) -> (r: Result<(LobbyJoin, usize), DecodeError>) {
        match read_lobby(src) {
            Err(e) => Err(e),
            Ok((head, members, used)) => Ok(
                (
                    LobbyJoin {
                        client_id: head.client_id,
                        leader_id: head.leader_id,
                        one: head.one,
                        lobby_num: head.lobby_num,
                        block_num: head.block_num,
                        event: head.event,
                        members,
                    },
                    used,
                ),
            ),
        }
    }
}

impl Clone for LobbyJoin {
    fn clone(&self) -> (r: LobbyJoin)
        ensures
            r@ == self@,
    {
        let r = LobbyJoin {
            client_id: self.client_id,
            leader_id: self.leader_id,
            one: self.one,
            lobby_num: self.lobby_num,
            block_num: self.block_num,
            event: self.event,
            members: self.members.clone(),
        };
        assert(views(r.members@) =~= views(self.members@));
        r
    }
}

impl Default for LobbyJoin {
    /// A lobby message with no members, whose `one` is 1 and whose other
    /// fields are zero.
    fn default() -> (r: LobbyJoin)
        ensures
            r@ == (LobbyView {
                client_id: 0,
                leader_id: 0,
                one: 1,
                lobby_num: 0,
                block_num: 0,
                event: 0,
                members: Seq::empty(),
            }),
            r.members@ == Seq::<LobbyMember>::empty(),
    {
        let r = LobbyJoin {
            client_id: 0,
            leader_id: 0,
            one: 1,
            lobby_num: 0,
            block_num: 0,
            event: 0,
            members: Vec::new(),
        };
        assert(r@.members =~= Seq::<LobbyMemberView>::empty());
        r
    }
}

/// A player is added to a lobby that the receiver is already in. The layout
/// is that of [`LobbyJoin`].
#[derive(Debug)]
pub struct LobbyAddMember {
    pub client_id: u8,
    pub leader_id: u8,
    pub one: u8,
    pub lobby_num: u8,
    pub block_num: u16,
    pub event: u16,
    pub members: Vec<LobbyMember>,
}

impl View for LobbyAddMember {
    type V = LobbyView;

    open spec fn view(&self) -> LobbyView {
        lobby_view(
            self.client_id,
            self.leader_id,
            self.one,
            self.lobby_num,
            self.block_num,
            self.event,
            self.members@,
        )
    }
}

impl Serial for LobbyAddMember {
    open spec fn encodable(v: LobbyView) -> bool {
        all_encodable::<LobbyMember>(v.members)
    }

    open spec fn wire(v: LobbyView) -> Seq<u8> {
        lobby_wire(v)
    }

    open spec fn parse(s: Seq<u8>) -> Result<(LobbyView, int), DecodeError> {
        lobby_parse(s)
    }

    open spec fn may_follow(tail: Seq<u8>) -> bool {
        tail.len() < MEMBER_LEN
    }

    proof fn lemma_round_trip(v: LobbyView, tail: Seq<u8>) {
        lemma_lobby_round_trip(v, tail);
    }

    fn serialize(&self, dst: &mut Vec<u8>) -> (r: Result<(), EncodeError>) {
        write_lobby(
            self.client_id,
            self.leader_id,
            self.one,
            self.lobby_num,
            self.block_num,
            self.event,
            &self.members,
            dst,
        )
    }

    fn deserialize(src: &[u8]) -> (r: Result<(LobbyAddMember, usize), DecodeError>) {
        match read_lobby(src) {
            Err(e) => Err(e),
            Ok((head, members, used)) => Ok(
                (
                    LobbyAddMember {
                        client_id: head.client_id,
                        leader_id: head.leader_id,
                        one: head.one,
                        lobby_num: head.lobby_num,
                        block_num: head.block_num,
                        event: head.event,
                        members,
                    },
                    used,
                ),
            ),
        }
    }
}

impl Clone for LobbyAddMember {
    fn clone(&self) -> (r: LobbyAddMember)
        ensures
            r@ == self@,
    {
        let r = LobbyAddMember {
            client_id: self.client_id,
            leader_id: self.leader_id,
            one: self.one,
            lobby_num: self.lobby_num,
            block_num: self.block_num,
            event: self.event,
            members: self.members.clone(),
        };
        assert(views(r.members@) =~= views(self.members@));
        r
    }
}

impl Default for LobbyAddMember {
    /// A lobby message with no members, whose `one` is 1 and whose other
    /// fields are zero.
    fn default() -> (r: LobbyAddMember)
        ensures
            r@ == (LobbyView {
                client_id: 0,
                leader_id: 0,
                one: 1,
                lobby_num: 0,
                block_num: 0,
                event: 0,
                members: Seq::empty(),
            }),
            r.members@ == Seq::<LobbyMember>::empty(),
    {
        let r = LobbyAddMember {
            client_id: 0,
            leader_id: 0,
            one: 1,
            lobby_num: 0,
            block_num: 0,
            event: 0,
            members: Vec::new(),
        };
        assert(r@.members =~= Seq::<LobbyMemberView>::empty());
        r
    }
}

/// A player leaves a lobby. Behind the three fields stand twelve bytes of
/// padding, which are written as zero and passed over when read.
#[derive(Clone, Copy, Debug, PartialEq, Eq, Structural)]
pub struct LobbyLeave {
    pub client_id: u8,
    pub leader_id: u8,
    pub padding: u16,
}

impl View for LobbyLeave {
    type V = LobbyLeave;

    open spec fn view(&self) -> LobbyLeave {
        *self
    }
}

impl Serial for LobbyLeave {
    open spec fn encodable(v: LobbyLeave) -> bool {
        true
    }

    open spec fn wire(v: LobbyLeave) -> Seq<u8> {
        seq![v.client_id, v.leader_id] + le_u16(v.padding) + zeros(12)
    }

    open spec fn parse(s: Seq<u8>) -> Result<(LobbyLeave, int), DecodeError> {
        if s.len() < LOBBY_LEAVE_LEN {
            Err(DecodeError::UnexpectedEof)
        } else {
            Ok(
                (
                    LobbyLeave {
                        client_id: s[0],
                        leader_id: s[1],
                        padding: from_le_u16(s.skip(2)),
                    },
                    16,
                ),
            )
        }
    }

    open spec fn may_follow(tail: Seq<u8>) -> bool {
        true
    }

    proof fn lemma_round_trip(v: LobbyLeave, tail: Seq<u8>) {
        let all = Self::wire(v) + tail;
        assert(all.skip(2) =~= le_u16(v.padding) + (zeros(12) + tail));
        lemma_read_write_u16(v.padding, zeros(12) + tail);
    }

    fn serialize(&self, dst: &mut Vec<u8>) -> (r: Result<(), EncodeError>) {
        dst.push(self.client_id);
        dst.push(self.leader_id);
        let _ = self.padding.serialize(dst);
        let mut i: usize = 0;
        while i < 12
            invariant
                i <= 12,
                dst@ == old(dst)@ + seq![self.client_id, self.leader_id] + le_u16(self.padding)
                    + zeros(i as nat),
            decreases 12 - i,
        {
            dst.push(0);
            i = i + 1;
            assert(dst@ =~= old(dst)@ + seq![self.client_id, self.leader_id] + le_u16(
                self.padding,
            ) + zeros(i as nat));
        }
        Ok(())
    }

    fn deserialize(src: &[u8]) -> (r: Result<(LobbyLeave, usize), DecodeError>) {
        if src.len() < LOBBY_LEAVE_LEN {
            return Err(DecodeError::UnexpectedEof);
        }
        match u16::deserialize(slice_subrange(src, 2, src.len())) {
            Ok((padding, _)) => Ok(
                (LobbyLeave { client_id: src[0], leader_id: src[1], padding }, 16),
            ),
            Err(e) => Err(e),
        }
    }
}

impl Default for LobbyLeave {
    /// A leave message whose every field is zero.
    fn default() -> (r: LobbyLeave)
        ensures
            r == (LobbyLeave { client_id: 0, leader_id: 0, padding: 0 }),
    {
        LobbyLeave { client_id: 0, leader_id: 0, padding: 0 }
    }
}

} // verus!
