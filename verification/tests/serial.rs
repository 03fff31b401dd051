use idola::error::DecodeError;
use idola::array::{read_array, read_many, write_array};
use idola::serial::{serialize_pair, Serial};

#[test]
fn u8_bytes() {
    let mut out = Vec::new();
    0xABu8.serialize(&mut out).unwrap();
    assert_eq!(out, vec![0xAB]);
    assert_eq!(u8::deserialize(&[0xAB, 1]).unwrap(), (0xAB, 1));
    assert_eq!(u8::deserialize(&[]).err(), Some(DecodeError::UnexpectedEof));
}

#[test]
fn u16_is_little_endian() {
    let mut out = Vec::new();
    0x1234u16.serialize(&mut out).unwrap();
    assert_eq!(out, vec![0x34, 0x12]);
    assert_eq!(u16::deserialize(&[0x34, 0x12, 0xFF]).unwrap(), (0x1234, 2));
    assert_eq!(u16::deserialize(&[0xFF, 0xFF]).unwrap(), (0xFFFF, 2));
    assert_eq!(u16::deserialize(&[0x34]).err(), Some(DecodeError::UnexpectedEof));
}

#[test]
fn u32_is_little_endian() {
    let mut out = Vec::new();
    0x1234_5678u32.serialize(&mut out).unwrap();
    assert_eq!(out, vec![0x78, 0x56, 0x34, 0x12]);
    assert_eq!(u32::deserialize(&[0x78, 0x56, 0x34, 0x12]).unwrap(), (0x1234_5678, 4));
    assert_eq!(u32::deserialize(&[0xFF; 4]).unwrap(), (u32::MAX, 4));
    assert_eq!(u32::deserialize(&[1, 2, 3]).err(), Some(DecodeError::UnexpectedEof));
}

#[test]
fn u64_is_little_endian() {
    let mut out = Vec::new();
    0x0102_0304_0506_0708u64.serialize(&mut out).unwrap();
    assert_eq!(out, vec![8, 7, 6, 5, 4, 3, 2, 1]);
    assert_eq!(u64::deserialize(&out).unwrap(), (0x0102_0304_0506_0708, 8));
    assert_eq!(u64::deserialize(&[0xFF; 9]).unwrap(), (u64::MAX, 8));
    assert_eq!(u64::deserialize(&[0; 7]).err(), Some(DecodeError::UnexpectedEof));
}

#[test]
fn integers_agree_with_std() {
    let samples: [u64; 7] = [0, 1, 0xFF, 0x100, 0xDEAD_BEEF, 0x0123_4567_89AB_CDEF, u64::MAX];
    for s in samples.iter() {
        let a = *s as u16;
        let b = *s as u32;
        let c = *s;
        let mut out = Vec::new();
        a.serialize(&mut out).unwrap();
        b.serialize(&mut out).unwrap();
        c.serialize(&mut out).unwrap();
        let mut want = Vec::new();
        want.extend_from_slice(&a.to_le_bytes());
        want.extend_from_slice(&b.to_le_bytes());
        want.extend_from_slice(&c.to_le_bytes());
        assert_eq!(out, want);
        assert_eq!(u16::deserialize(&out).unwrap().0, a);
        assert_eq!(u32::deserialize(&out[2..]).unwrap().0, b);
        assert_eq!(u64::deserialize(&out[6..]).unwrap().0, c);
    }
}

#[test]
fn serialize_appends() {
    let mut out = vec![1, 2, 3];
    7u16.serialize(&mut out).unwrap();
    assert_eq!(out, vec![1, 2, 3, 7, 0]);
}

#[test]
fn arrays_have_no_count() {
    let items: [u16; 3] = [1, 2, 0x0303];
    let mut out = Vec::new();
    write_array(&items, &mut out).unwrap();
    assert_eq!(out, vec![1, 0, 2, 0, 3, 3]);
    let (back, used) = read_array::<u16>(&out, 3).unwrap();
    assert_eq!(back, vec![1, 2, 0x0303]);
    assert_eq!(used, 6);
    let (two, used) = read_array::<u16>(&out, 2).unwrap();
    assert_eq!(two, vec![1, 2]);
    assert_eq!(used, 4);
    let (none, used) = read_array::<u16>(&out, 0).unwrap();
    assert!(none.is_empty());
    assert_eq!(used, 0);
    assert_eq!(read_array::<u16>(&out, 4).err(), Some(DecodeError::UnexpectedEof));
    assert_eq!(read_array::<u16>(&out[..5], 3).err(), Some(DecodeError::UnexpectedEof));
}

#[test]
fn four_octets_as_an_array() {
    let mut out = Vec::new();
    write_array(&[192u8, 168, 0, 1], &mut out).unwrap();
    assert_eq!(out, vec![192, 168, 0, 1]);
    let (ip, used) = read_array::<u8>(&[10, 0, 0, 7, 99], 4).unwrap();
    assert_eq!(ip, vec![10, 0, 0, 7]);
    assert_eq!(used, 4);
}

#[test]
fn uncounted_run_reads_until_nothing_fits() {
    let (items, used) = read_many::<u32>(&[1, 0, 0, 0, 2, 0, 0, 0, 9, 9, 9]);
    assert_eq!(items, vec![1, 2]);
    assert_eq!(used, 8);
    let (items, used) = read_many::<u32>(&[1, 2, 3]);
    assert!(items.is_empty());
    assert_eq!(used, 0);
    let (items, used) = read_many::<u8>(&[]);
    assert!(items.is_empty());
    assert_eq!(used, 0);
}

#[test]
fn pairs_are_written_in_order() {
    let mut out = Vec::new();
    serialize_pair(&0x0102u16, &0x0Au8, &mut out).unwrap();
    assert_eq!(out, vec![2, 1, 10]);
    let mut again = Vec::new();
    (0x0102u16, 0x0Au8).serialize(&mut again).unwrap();
    assert_eq!(again, out);
    let ((a, b), used) = <(u16, u8)>::deserialize(&out).unwrap();
    assert_eq!((a, b, used), (0x0102, 10, 3));
    assert_eq!(<(u16, u8)>::deserialize(&out[..2]).err(), Some(DecodeError::UnexpectedEof));
    assert_eq!(<(u16, u8)>::deserialize(&out[..1]).err(), Some(DecodeError::UnexpectedEof));
}

#[test]
fn nested_pairs_follow_declaration_order() {
    let v: (u8, (u16, (u32, u8))) = (1, (0x0203, (0x0405_0607, 8)));
    let mut out = Vec::new();
    v.serialize(&mut out).unwrap();
    assert_eq!(out, vec![1, 3, 2, 7, 6, 5, 4, 8]);
    let (back, used) = <(u8, (u16, (u32, u8)))>::deserialize(&out).unwrap();
    assert_eq!(back, v);
    assert_eq!(used, 8);
}
