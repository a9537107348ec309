use lipl_store::etag;
use lipl_store::to_base58_list;
use lipl_store::to_inner;
use lipl_store::try_from_base58_list;
use lipl_store::Lyric;
use lipl_store::LyricMeta;
use lipl_store::RepoError;
use lipl_store::Uuid;
use lipl_store::UuidExt;

#[test]
fn number_round_trip() {
    let id = Uuid::from_u128(0x0123_4567_89ab_cdef_0123_4567_89ab_cdef);
    assert_eq!(id.as_u128(), 0x0123_4567_89ab_cdef_0123_4567_89ab_cdef);
    assert_eq!(to_inner(id), 0x0123_4567_89ab_cdef_0123_4567_89ab_cdef);
    assert_eq!(id.value, 0x0123_4567_89ab_cdef_0123_4567_89ab_cdef);
}

#[test]
fn bytes_are_big_endian() {
    let id = Uuid::from_u128(0x0102_0304_0506_0708_090a_0b0c_0d0e_0f10);
    assert_eq!(id.to_bytes(), vec![1, 2, 3, 4, 5, 6, 7, 8, 9, 10, 11, 12, 13, 14, 15, 16]);
    assert_eq!(Uuid::from_u128(0).to_bytes(), vec![0u8; 16]);
    assert_eq!(Uuid::from_u128(u128::MAX).to_bytes(), vec![0xFFu8; 16]);
    assert_eq!(Uuid::from_u128(1).to_bytes()[15], 1);
}

#[test]
fn from_decoded_reads_sixteen_bytes() {
    let bytes = [1u8, 2, 3, 4, 5, 6, 7, 8, 9, 10, 11, 12, 13, 14, 15, 16];
    assert_eq!(
        Uuid::from_decoded(&bytes),
        Ok(Uuid::from_u128(0x0102_0304_0506_0708_090a_0b0c_0d0e_0f10))
    );
    assert_eq!(Uuid::from_decoded(&[0xFFu8; 16]), Ok(Uuid::from_u128(u128::MAX)));
}

#[test]
fn from_decoded_fills_up_with_ff() {
    assert_eq!(Uuid::from_decoded(&[]), Ok(Uuid::from_u128(u128::MAX)));
    assert_eq!(
        Uuid::from_decoded(&[0x04, 0x30, 0x5e, 0x2b, 0x24, 0x73, 0xf0, 0x58]),
        Ok(Uuid::from_u128(0x0430_5e2b_2473_f058_ffff_ffff_ffff_ffff))
    );
}

#[test]
fn from_decoded_refuses_more_than_sixteen_bytes() {
    assert_eq!(Uuid::from_decoded(&[0u8; 17]), Err(RepoError::InvalidIdentifier));
    assert_eq!(Uuid::from_decoded(&[7u8; 40]), Err(RepoError::InvalidIdentifier));
}

#[test]
fn base58_of_known_identifiers() {
    assert_eq!(Uuid::from_u128(0).to_base58(), "1111111111111111");
    assert_eq!(Uuid::from_u128(1).to_base58(), "1111111111111112");
    assert_eq!(Uuid::from_u128(58).to_base58(), "11111111111111121");
    assert_eq!(Uuid::from_u128(u128::MAX).to_base58(), "YcVfxkQb6JRzqk5kF2tNLv");
}

#[test]
fn base58_round_trip() {
    for value in [
        0u128,
        1,
        57,
        58,
        255,
        256,
        0x0123_4567_89ab_cdef_0123_4567_89ab_cdef,
        0x00ff_0000_0000_0000_0000_0000_0000_0000,
        u128::MAX - 1,
        u128::MAX,
    ] {
        let id = Uuid::from_u128(value);
        assert_eq!(Uuid::try_from_base58(&id.to_base58()), Ok(id));
    }
    let fresh = Uuid::new();
    assert_eq!(Uuid::try_from_base58(&fresh.to_base58()), Ok(fresh));
}

#[test]
fn short_text_is_filled_up_with_ff() {
    assert_eq!(
        Uuid::try_from_base58("he11owor1d"),
        Ok(Uuid::from_u128(0x0430_5e2b_2473_f058_ffff_ffff_ffff_ffff))
    );
    assert_eq!(Uuid::try_from_base58(""), Ok(Uuid::from_u128(u128::MAX)));
}

#[test]
fn malformed_text_is_refused() {
    assert_eq!(Uuid::try_from_base58("hello world"), Err(RepoError::InvalidIdentifier));
    assert_eq!(Uuid::try_from_base58("0OIl"), Err(RepoError::InvalidIdentifier));
    assert_eq!(Uuid::try_from_base58("he11o\u{1F1F3}"), Err(RepoError::InvalidIdentifier));
    assert_eq!(
        Uuid::try_from_base58("YcVfxkQb6JRzqk5kF2tNLv1"),
        Err(RepoError::InvalidIdentifier)
    );
    assert_eq!(
        Uuid::try_from_base58("11111111111111111"),
        Err(RepoError::InvalidIdentifier)
    );
}

#[test]
fn fresh_identifiers_differ_and_are_random_version() {
    let one = Uuid::new();
    let two = Uuid::new();
    let three = Uuid::default();
    assert_ne!(one, two);
    assert_ne!(one, three);
    assert_ne!(two, three);
    for id in [one, two, three] {
        assert_eq!(id.value & 0xF000_C000_0000_0000_0000, 0x4000_8000_0000_0000_0000);
    }
}

#[test]
fn identifiers_are_ordered_by_number() {
    let small = Uuid::from_u128(1);
    let large = Uuid::from_u128(2);
    assert!(small < large);
    assert!(large > small);
    assert!(small <= small);
    assert!(small == Uuid::from_u128(1));
    assert!(small != large);
    assert_eq!(small.partial_cmp(&large), Some(std::cmp::Ordering::Less));
    assert_eq!(small.cmp(&large), std::cmp::Ordering::Less);
    assert_eq!(large.cmp(&small), std::cmp::Ordering::Greater);
    assert_eq!(small.cmp(&small), std::cmp::Ordering::Equal);
    let mut list = vec![Uuid::from_u128(3), Uuid::from_u128(1), Uuid::from_u128(2)];
    list.sort();
    assert_eq!(list, vec![Uuid::from_u128(1), Uuid::from_u128(2), Uuid::from_u128(3)]);
}

#[test]
fn etag_of_bytes() {
    let tag = etag(Some(vec![1u8, 2, 3])).unwrap();
    assert!(tag.starts_with("\"3-"));
    assert!(tag.ends_with('"'));
    assert!(tag.len() > 4);
    assert_eq!(etag(Some(vec![1u8, 2, 3])), Some(tag.clone()));
    assert_ne!(etag(Some(vec![1u8, 2, 4])), Some(tag));
    assert!(etag(Some(Vec::new())).unwrap().starts_with("\"0-"));
    assert_eq!(etag(None), None);
}

#[test]
fn lyric_meta_of_lyric() {
    let lyric = Lyric { id: Uuid::from_u128(1), title: "Een".to_owned(), parts: vec![] };
    let meta = LyricMeta::of(&lyric, Some(vec![9u8, 9]));
    assert_eq!(meta.title, "Een");
    assert_eq!(meta.hash, etag(Some(vec![9u8, 9])));
    assert_eq!(LyricMeta::of(&lyric, None), LyricMeta { title: "Een".to_owned(), hash: None });
}

#[test]
fn texts_of_a_list_of_identifiers() {
    let ids = vec![Uuid::from_u128(1), Uuid::from_u128(0), Uuid::from_u128(1)];
    assert_eq!(
        to_base58_list(&ids),
        vec![
            "1111111111111112".to_owned(),
            "1111111111111111".to_owned(),
            "1111111111111112".to_owned(),
        ]
    );
    assert_eq!(to_base58_list(&Vec::new()), Vec::<String>::new());
}

#[test]
fn identifiers_of_a_list_of_texts() {
    let texts = vec!["1111111111111112".to_owned(), "YcVfxkQb6JRzqk5kF2tNLv".to_owned()];
    assert_eq!(
        try_from_base58_list(&texts),
        Ok(vec![Uuid::from_u128(1), Uuid::from_u128(u128::MAX)])
    );
    assert_eq!(try_from_base58_list(&Vec::new()), Ok(Vec::new()));
    let ids = vec![Uuid::new(), Uuid::new(), Uuid::from_u128(7)];
    assert_eq!(try_from_base58_list(&to_base58_list(&ids)), Ok(ids));
}

#[test]
fn one_malformed_text_spoils_the_list() {
    let texts = vec![
        "1111111111111112".to_owned(),
        "not base58!".to_owned(),
        "1111111111111111".to_owned(),
    ];
    assert_eq!(try_from_base58_list(&texts), Err(RepoError::InvalidIdentifier));
}
