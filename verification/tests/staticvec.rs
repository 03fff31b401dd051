use idola::error::DecodeError;
use idola::serial::Serial;
use idola::staticvec::StaticVec;

#[test]
fn with_value_replicates_the_seed() {
    let v: StaticVec<u16, 5> = StaticVec::with_value(&0xBEEF);
    assert_eq!(v.len(), 5);
    assert_eq!(v.as_slice(), &[0xBEEF; 5]);
    let s: StaticVec<String, 3> = StaticVec::with_value(&String::from("x"));
    assert_eq!(s.len(), 3);
    assert_eq!(s.as_slice(), &["x".to_string(), "x".to_string(), "x".to_string()]);
}

#[test]
fn default_replicates_the_default() {
    let v: StaticVec<u32, 4> = StaticVec::default();
    assert_eq!(v.len(), 4);
    assert_eq!(v.as_slice(), &[0, 0, 0, 0]);
    let s: StaticVec<String, 2> = Default::default();
    assert_eq!(s.as_slice(), &[String::new(), String::new()]);
}

#[test]
fn length_is_always_n() {
    let a: StaticVec<u8, 1> = StaticVec::default();
    let b: StaticVec<u8, 16> = StaticVec::with_value(&1);
    let c: StaticVec<u8, 1312> = StaticVec::default();
    assert_eq!(a.len(), 1);
    assert_eq!(b.len(), 16);
    assert_eq!(c.len(), 1312);
    assert_eq!(b.clone().len(), 16);
    let (d, _) = StaticVec::<u8, 3>::deserialize(&[1, 2, 3, 4]).unwrap();
    assert_eq!(d.len(), 3);
}

#[test]
fn from_vec_checks_the_count() {
    let v: Option<StaticVec<u8, 3>> = StaticVec::from_vec(vec![1, 2, 3]);
    assert_eq!(v.unwrap().as_slice(), &[1, 2, 3]);
    assert!(StaticVec::<u8, 3>::from_vec(vec![1, 2]).is_none());
    assert!(StaticVec::<u8, 3>::from_vec(vec![1, 2, 3, 4]).is_none());
    assert!(StaticVec::<u8, 3>::from_vec(Vec::new()).is_none());
}

#[test]
fn get_and_set() {
    let mut v: StaticVec<u16, 3> = StaticVec::with_value(&7);
    v.set(1, 9);
    assert_eq!(*v.get(0), 7);
    assert_eq!(*v.get(1), 9);
    assert_eq!(*v.get(2), 7);
    assert_eq!(v.len(), 3);
}

#[test]
fn reads_as_a_slice() {
    let v: StaticVec<u8, 4> = StaticVec::from_vec(vec![4, 3, 2, 1]).unwrap();
    assert_eq!(v[0], 4);
    assert_eq!(&v[1..3], &[3, 2]);
    assert_eq!(v.iter().map(|b| *b as u32).sum::<u32>(), 10);
    assert_eq!(v.first(), Some(&4));
}

#[test]
fn clone_keeps_the_elements() {
    let mut v: StaticVec<u32, 3> = StaticVec::with_value(&1);
    v.set(2, 5);
    let w = v.clone();
    v.set(0, 8);
    assert_eq!(w.as_slice(), &[1, 1, 5]);
    assert_eq!(v.as_slice(), &[8, 1, 5]);
}

#[test]
fn no_length_prefix_on_the_wire() {
    let v: StaticVec<u16, 3> = StaticVec::from_vec(vec![1, 2, 3]).unwrap();
    let mut out = Vec::new();
    v.serialize(&mut out).unwrap();
    assert_eq!(out, vec![1, 0, 2, 0, 3, 0]);
    let b: StaticVec<u8, 4> = StaticVec::from_vec(vec![9, 8, 7, 6]).unwrap();
    let mut out = vec![0xAA];
    b.serialize(&mut out).unwrap();
    assert_eq!(out, vec![0xAA, 9, 8, 7, 6]);
}

#[test]
fn decode_takes_exactly_n_elements() {
    let bytes = [1u8, 0, 2, 0, 3, 0, 0xFF, 0xFF, 0xFF];
    let (v, used) = StaticVec::<u16, 3>::deserialize(&bytes).unwrap();
    assert_eq!(v.as_slice(), &[1, 2, 3]);
    assert_eq!(used, 6);
    let other = [1u8, 0, 2, 0, 3, 0, 0, 1, 2, 3, 4, 5, 6, 7];
    let (w, used) = StaticVec::<u16, 3>::deserialize(&other).unwrap();
    assert_eq!(w.as_slice(), v.as_slice());
    assert_eq!(used, 6);
    let exact = [1u8, 0, 2, 0, 3, 0];
    let (x, used) = StaticVec::<u16, 3>::deserialize(&exact).unwrap();
    assert_eq!(x.as_slice(), v.as_slice());
    assert_eq!(used, 6);
}

#[test]
fn decode_fails_on_a_truncated_array() {
    assert_eq!(
        StaticVec::<u16, 3>::deserialize(&[1, 0, 2, 0, 3]).err(),
        Some(DecodeError::UnexpectedEof)
    );
    assert_eq!(StaticVec::<u8, 1>::deserialize(&[]).err(), Some(DecodeError::UnexpectedEof));
}

#[test]
fn container_of_containers() {
    let row: StaticVec<u8, 2> = StaticVec::from_vec(vec![1, 2]).unwrap();
    let mut grid: StaticVec<StaticVec<u8, 2>, 3> = StaticVec::with_value(&row);
    grid.set(1, StaticVec::from_vec(vec![3, 4]).unwrap());
    let mut out = Vec::new();
    grid.serialize(&mut out).unwrap();
    assert_eq!(out, vec![1, 2, 3, 4, 1, 2]);
    let (back, used) = StaticVec::<StaticVec<u8, 2>, 3>::deserialize(&out).unwrap();
    assert_eq!(used, 6);
    assert_eq!(back.get(1).as_slice(), &[3, 4]);
    assert_eq!(back.get(2).as_slice(), &[1, 2]);
}

#[test]
fn container_of_strings_round_trips() {
    let names: StaticVec<String, 2> =
        StaticVec::from_vec(vec!["a".to_string(), "\u{1F600}".to_string()]).unwrap();
    let mut out = Vec::new();
    names.serialize(&mut out).unwrap();
    assert_eq!(out, vec![1, 0, 0, 0, 0x61, 0, 2, 0, 0, 0, 0x3D, 0xD8, 0x00, 0xDE]);
    let (back, used) = StaticVec::<String, 2>::deserialize(&out).unwrap();
    assert_eq!(used, out.len());
    assert_eq!(back.as_slice(), names.as_slice());
    let bad = [1, 0, 0, 0, 0x61, 0, 1, 0, 0, 0, 0x00, 0xDC];
    assert_eq!(StaticVec::<String, 2>::deserialize(&bad).err(), Some(DecodeError::InvalidUtf16));
}
