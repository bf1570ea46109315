use pluralrules_gen::langid::{gen_langid, str_to_u32, str_to_u64, EncodedLangId, LangId};

#[test]
fn packs_little_endian() {
    assert_eq!(str_to_u64("en"), 0x6e65);
    assert_eq!(str_to_u64(""), 0);
    assert_eq!(str_to_u64("abcdefgh"), u64::from_le_bytes(*b"abcdefgh"));
    assert_eq!(str_to_u32("US"), 0x5355);
    assert_eq!(str_to_u32("Latn"), u32::from_le_bytes(*b"Latn"));
}

#[test]
fn long_subtags_are_cut() {
    assert_eq!(str_to_u64("abcdefghij"), u64::from_le_bytes(*b"abcdefgh"));
    assert_eq!(str_to_u32("abcde"), u32::from_le_bytes(*b"abcd"));
}

#[test]
fn round_trip_by_bytes() {
    for s in ["en", "haw", "abcdefgh", "x"] {
        let v = str_to_u64(s);
        let back: Vec<u8> = v.to_le_bytes().iter().copied().take_while(|b| *b != 0).collect();
        assert_eq!(back, s.as_bytes());
    }
}

#[test]
fn packs_every_subtag() {
    let id = LangId { language: "sr".to_string(), script: Some("Latn".to_string()), region: Some("RS".to_string()) };
    assert_eq!(
        gen_langid(&id),
        EncodedLangId { language: 0x7273, script: Some(u32::from_le_bytes(*b"Latn")), region: Some(0x5352) }
    );
    let bare = LangId { language: "de".to_string(), script: None, region: None };
    assert_eq!(gen_langid(&bare), EncodedLangId { language: 0x6564, script: None, region: None });
}
