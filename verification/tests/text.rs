use idola::error::DecodeError;
use idola::serial::Serial;
use idola::text::{decode_utf16, encode_utf16};

#[test]
fn string_is_count_then_units() {
    let mut out = Vec::new();
    String::from("Hi").serialize(&mut out).unwrap();
    assert_eq!(out, vec![2, 0, 0, 0, 0x48, 0, 0x69, 0]);
}

#[test]
fn empty_string_is_a_zero_count() {
    let mut out = Vec::new();
    String::new().serialize(&mut out).unwrap();
    assert_eq!(out, vec![0, 0, 0, 0]);
    let (s, used) = String::deserialize(&[0, 0, 0, 0, 0x41]).unwrap();
    assert_eq!(s, "");
    assert_eq!(used, 4);
}

#[test]
fn count_is_in_units_not_characters() {
    // U+1F600 takes a surrogate pair
    let mut out = Vec::new();
    String::from("a\u{1F600}").serialize(&mut out).unwrap();
    assert_eq!(out, vec![3, 0, 0, 0, 0x61, 0, 0x3D, 0xD8, 0x00, 0xDE]);
    let (s, used) = String::deserialize(&out).unwrap();
    assert_eq!(s, "a\u{1F600}");
    assert_eq!(used, 10);
}

#[test]
fn no_terminator_is_read() {
    let bytes = [1, 0, 0, 0, 0x41, 0, 0, 0];
    let (s, used) = String::deserialize(&bytes).unwrap();
    assert_eq!(s, "A");
    assert_eq!(used, 6);
}

#[test]
fn string_round_trips() {
    let samples = [
        "",
        "ship",
        "Pioneer 2",
        "\u{0}",
        "\u{D7FF}\u{E000}\u{FFFF}",
        "\u{10000}\u{10FFFF}",
        "\u{3042}\u{3044}\u{3046}",
        "mixed \u{1F680} text \u{00E9}",
    ];
    for s in samples.iter() {
        let mut out = vec![0xEE];
        s.to_string().serialize(&mut out).unwrap();
        out.push(0x99);
        let (back, used) = String::deserialize(&out[1..]).unwrap();
        assert_eq!(&back, s);
        assert_eq!(used, out.len() - 2);
    }
}

#[test]
fn units_agree_with_std() {
    let samples = ["", "abc", "\u{FFFF}", "\u{10000}", "\u{10FFFF}", "x\u{1F600}y\u{D7FF}"];
    for s in samples.iter() {
        let want: Vec<u16> = s.encode_utf16().collect();
        assert_eq!(encode_utf16(s), want);
        assert_eq!(decode_utf16(&want), Some(s.to_string()));
    }
}

#[test]
fn surrogate_pair_values() {
    assert_eq!(encode_utf16("\u{10000}"), vec![0xD800, 0xDC00]);
    assert_eq!(encode_utf16("\u{10FFFF}"), vec![0xDBFF, 0xDFFF]);
    assert_eq!(encode_utf16("\u{1F600}"), vec![0xD83D, 0xDE00]);
    assert_eq!(decode_utf16(&[0xD800, 0xDC00]), Some("\u{10000}".to_string()));
    assert_eq!(decode_utf16(&[0xDBFF, 0xDFFF]), Some("\u{10FFFF}".to_string()));
    assert_eq!(decode_utf16(&[0xD83D, 0xDE00]), Some("\u{1F600}".to_string()));
}

#[test]
fn malformed_units_are_refused() {
    // a lead surrogate at the end
    assert_eq!(decode_utf16(&[0x41, 0xD800]), None);
    // a lead surrogate followed by an ordinary unit
    assert_eq!(decode_utf16(&[0xD800, 0x41]), None);
    // two lead surrogates
    assert_eq!(decode_utf16(&[0xD800, 0xD800]), None);
    // a trail surrogate on its own
    assert_eq!(decode_utf16(&[0xDC00]), None);
    assert_eq!(decode_utf16(&[0xDFFF, 0x41]), None);
    // trail before lead
    assert_eq!(decode_utf16(&[0xDC00, 0xD800]), None);
    assert_eq!(decode_utf16(&[]), Some(String::new()));
}

#[test]
fn decoding_agrees_with_std_on_every_pair() {
    let edges: [u16; 10] =
        [0, 0x41, 0xD7FF, 0xD800, 0xDBFF, 0xDC00, 0xDFFF, 0xE000, 0xFFFE, 0xFFFF];
    for a in edges.iter() {
        for b in edges.iter() {
            let units = [*a, *b];
            assert_eq!(decode_utf16(&units), String::from_utf16(&units).ok());
        }
        assert_eq!(decode_utf16(&[*a]), String::from_utf16(&[*a]).ok());
    }
}

#[test]
fn invalid_utf16_in_a_string() {
    let bytes = [1, 0, 0, 0, 0x00, 0xD8];
    assert_eq!(String::deserialize(&bytes).err(), Some(DecodeError::InvalidUtf16));
    let bytes = [2, 0, 0, 0, 0x00, 0xDC, 0x00, 0xD8];
    assert_eq!(String::deserialize(&bytes).err(), Some(DecodeError::InvalidUtf16));
}

#[test]
fn short_strings_are_refused() {
    assert_eq!(String::deserialize(&[]).err(), Some(DecodeError::UnexpectedEof));
    assert_eq!(String::deserialize(&[1, 0, 0]).err(), Some(DecodeError::UnexpectedEof));
    assert_eq!(String::deserialize(&[1, 0, 0, 0]).err(), Some(DecodeError::UnexpectedEof));
    assert_eq!(String::deserialize(&[1, 0, 0, 0, 0x41]).err(), Some(DecodeError::UnexpectedEof));
    assert_eq!(
        String::deserialize(&[2, 0, 0, 0, 0x41, 0, 0x42]).err(),
        Some(DecodeError::UnexpectedEof)
    );
    // a count far beyond the input ends at the input, not in an allocation
    assert_eq!(
        String::deserialize(&[0xFF, 0xFF, 0xFF, 0xFF, 0x41, 0]).err(),
        Some(DecodeError::UnexpectedEof)
    );
}

#[test]
fn short_read_comes_before_bad_units() {
    // two units declared, one lone surrogate present
    let bytes = [2, 0, 0, 0, 0x00, 0xD8];
    assert_eq!(String::deserialize(&bytes).err(), Some(DecodeError::UnexpectedEof));
}
