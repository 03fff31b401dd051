use idola::error::DecodeError;
use idola::lobby::{LobbyAddMember, LobbyJoin, LobbyLeave, LobbyMember};
use idola::serial::Serial;
use idola::staticvec::StaticVec;

#[test]
fn test_lobby_join_size() {
    let l = LobbyJoin::default();
    let mut c = Vec::new();
    l.serialize(&mut c).unwrap();
    assert_eq!(c.len(), 0x14 - 8);

    let mut l = LobbyJoin::default();
    l.members.push(LobbyMember::default());
    let mut c = Vec::new();
    l.serialize(&mut c).unwrap();
    assert_eq!(c.len(), 1324);
}

#[test]
fn test_lobby_leave_size() {
    let l = LobbyLeave::default();
    let mut c = Vec::new();
    l.serialize(&mut c).unwrap();
    // this message is padded
    assert_eq!(c.len(), 0xC + 4);
}

fn sample_member(seed: u8) -> LobbyMember {
    let mut m = LobbyMember::default();
    m.hdr.set(0, seed);
    m.hdr.set(67, seed.wrapping_add(1));
    m.inventory.set(0, seed.wrapping_add(2));
    m.inventory.set(843, seed.wrapping_add(3));
    m.data.set(0, seed.wrapping_add(4));
    m.data.set(399, seed.wrapping_add(5));
    m
}

fn same_member(a: &LobbyMember, b: &LobbyMember) -> bool {
    a.hdr.as_slice() == b.hdr.as_slice()
        && a.inventory.as_slice() == b.inventory.as_slice()
        && a.data.as_slice() == b.data.as_slice()
}

#[test]
fn lobby_join_default_fields() {
    let l = LobbyJoin::default();
    assert_eq!(l.client_id, 0);
    assert_eq!(l.leader_id, 0);
    assert_eq!(l.one, 1);
    assert_eq!(l.lobby_num, 0);
    assert_eq!(l.block_num, 0);
    assert_eq!(l.event, 0);
    assert!(l.members.is_empty());
}

#[test]
fn lobby_join_exact_bytes_without_members() {
    let l = LobbyJoin {
        client_id: 0x11,
        leader_id: 0x22,
        one: 1,
        lobby_num: 0x0F,
        block_num: 0x0102,
        event: 0xA0B0,
        members: Vec::new(),
    };
    let mut out = vec![0xEE];
    l.serialize(&mut out).unwrap();
    assert_eq!(
        out,
        vec![0xEE, 0x11, 0x22, 0x01, 0x0F, 0x02, 0x01, 0xB0, 0xA0, 0x00, 0x00, 0x00, 0x00]
    );
}

#[test]
fn lobby_member_default_is_all_zero() {
    let m = LobbyMember::default();
    let mut out = Vec::new();
    m.serialize(&mut out).unwrap();
    assert_eq!(out.len(), 1312);
    assert!(out.iter().all(|b| *b == 0));
}

#[test]
fn lobby_member_layout_is_header_inventory_character() {
    let m = sample_member(10);
    let mut out = Vec::new();
    m.serialize(&mut out).unwrap();
    assert_eq!(out.len(), 1312);
    assert_eq!(out[0], 10);
    assert_eq!(out[67], 11);
    assert_eq!(out[68], 12);
    assert_eq!(out[911], 13);
    assert_eq!(out[912], 14);
    assert_eq!(out[1311], 15);
}

#[test]
fn lobby_member_round_trip() {
    let m = sample_member(200);
    let mut out = Vec::new();
    m.serialize(&mut out).unwrap();
    out.extend_from_slice(&[1, 2, 3]);
    let (back, used) = LobbyMember::deserialize(&out).unwrap();
    assert_eq!(used, 1312);
    assert!(same_member(&m, &back));
}

#[test]
fn lobby_member_short_input() {
    let bytes = vec![0u8; 1311];
    assert_eq!(LobbyMember::deserialize(&bytes).err(), Some(DecodeError::UnexpectedEof));
}

#[test]
fn lobby_join_round_trip_with_members() {
    let l = LobbyJoin {
        client_id: 3,
        leader_id: 1,
        one: 1,
        lobby_num: 7,
        block_num: 513,
        event: 65535,
        members: vec![sample_member(1), sample_member(50), sample_member(99)],
    };
    let mut out = Vec::new();
    l.serialize(&mut out).unwrap();
    assert_eq!(out.len(), 12 + 3 * 1312);
    let (back, used) = LobbyJoin::deserialize(&out).unwrap();
    assert_eq!(used, out.len());
    assert_eq!(back.client_id, 3);
    assert_eq!(back.leader_id, 1);
    assert_eq!(back.one, 1);
    assert_eq!(back.lobby_num, 7);
    assert_eq!(back.block_num, 513);
    assert_eq!(back.event, 65535);
    assert_eq!(back.members.len(), 3);
    for i in 0..3 {
        assert!(same_member(&l.members[i], &back.members[i]));
    }
}

#[test]
fn lobby_join_zero_members_decodes_from_twelve_bytes() {
    let bytes = [9u8, 8, 1, 7, 0x34, 0x12, 0x78, 0x56, 0xAA, 0xBB, 0xCC, 0xDD];
    let (l, used) = LobbyJoin::deserialize(&bytes).unwrap();
    assert_eq!(used, 12);
    assert_eq!(l.client_id, 9);
    assert_eq!(l.leader_id, 8);
    assert_eq!(l.one, 1);
    assert_eq!(l.lobby_num, 7);
    assert_eq!(l.block_num, 0x1234);
    assert_eq!(l.event, 0x5678);
    assert!(l.members.is_empty());
    // the padding is written as zero whatever was read
    let mut out = Vec::new();
    l.serialize(&mut out).unwrap();
    assert_eq!(&out[8..], &[0, 0, 0, 0]);
}

#[test]
fn lobby_join_stops_at_partial_member() {
    let mut l = LobbyJoin::default();
    l.members.push(sample_member(5));
    let mut out = Vec::new();
    l.serialize(&mut out).unwrap();
    out.extend_from_slice(&vec![0x77u8; 1311]);
    let (back, used) = LobbyJoin::deserialize(&out).unwrap();
    assert_eq!(back.members.len(), 1);
    assert_eq!(used, 1324);
    out.push(0x77);
    let (back, used) = LobbyJoin::deserialize(&out).unwrap();
    assert_eq!(back.members.len(), 2);
    assert_eq!(used, 1324 + 1312);
}

#[test]
fn lobby_join_short_head() {
    let bytes = [0u8; 11];
    assert_eq!(LobbyJoin::deserialize(&bytes).err(), Some(DecodeError::UnexpectedEof));
    assert_eq!(LobbyJoin::deserialize(&[]).err(), Some(DecodeError::UnexpectedEof));
}

#[test]
fn lobby_add_member_matches_lobby_join() {
    let a = LobbyAddMember::default();
    assert_eq!(a.one, 1);
    assert!(a.members.is_empty());
    let a = LobbyAddMember {
        client_id: 2,
        leader_id: 0,
        one: 1,
        lobby_num: 4,
        block_num: 1,
        event: 2,
        members: vec![sample_member(33)],
    };
    let j = LobbyJoin {
        client_id: 2,
        leader_id: 0,
        one: 1,
        lobby_num: 4,
        block_num: 1,
        event: 2,
        members: vec![sample_member(33)],
    };
    let mut x = Vec::new();
    let mut y = Vec::new();
    a.serialize(&mut x).unwrap();
    j.serialize(&mut y).unwrap();
    assert_eq!(x, y);
    assert_eq!(x.len(), 1324);
    let (back, used) = LobbyAddMember::deserialize(&x).unwrap();
    assert_eq!(used, 1324);
    assert_eq!(back.client_id, 2);
    assert_eq!(back.lobby_num, 4);
    assert_eq!(back.block_num, 1);
    assert_eq!(back.event, 2);
    assert_eq!(back.members.len(), 1);
    assert!(same_member(&back.members[0], &a.members[0]));
    assert_eq!(LobbyAddMember::deserialize(&x[..5]).err(), Some(DecodeError::UnexpectedEof));
}

#[test]
fn lobby_leave_exact_bytes_and_round_trip() {
    let l = LobbyLeave { client_id: 4, leader_id: 2, padding: 0x0A0B };
    let mut out = Vec::new();
    l.serialize(&mut out).unwrap();
    assert_eq!(out, vec![4, 2, 0x0B, 0x0A, 0, 0, 0, 0, 0, 0, 0, 0, 0, 0, 0, 0]);
    out.push(0xFF);
    let (back, used) = LobbyLeave::deserialize(&out).unwrap();
    assert_eq!(used, 16);
    assert_eq!(back, l);
}

#[test]
fn lobby_leave_ignores_padding_contents() {
    let mut bytes = vec![1u8, 2, 3, 4];
    bytes.extend_from_slice(&[0x55; 12]);
    let (l, used) = LobbyLeave::deserialize(&bytes).unwrap();
    assert_eq!(used, 16);
    assert_eq!(l, LobbyLeave { client_id: 1, leader_id: 2, padding: 0x0403 });
}

#[test]
fn lobby_leave_short_input() {
    let bytes = [0u8; 15];
    assert_eq!(LobbyLeave::deserialize(&bytes).err(), Some(DecodeError::UnexpectedEof));
}

#[test]
fn lobby_leave_default_is_zero() {
    assert_eq!(LobbyLeave::default(), LobbyLeave { client_id: 0, leader_id: 0, padding: 0 });
}

#[test]
fn member_blocks_have_their_lengths() {
    let m = LobbyMember::default();
    assert_eq!(m.hdr.len(), 68);
    assert_eq!(m.inventory.len(), 844);
    assert_eq!(m.data.len(), 400);
    let h: StaticVec<u8, 68> = StaticVec::with_value(&9);
    let m = LobbyMember { hdr: h, inventory: StaticVec::default(), data: StaticVec::default() };
    let mut out = Vec::new();
    m.serialize(&mut out).unwrap();
    assert!(out[..68].iter().all(|b| *b == 9));
    assert!(out[68..].iter().all(|b| *b == 0));
}
