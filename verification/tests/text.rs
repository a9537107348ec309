use lipl_store::Lyric;
use lipl_store::Playlist;
use lipl_store::Summary;
use lipl_store::Uuid;
use lipl_store::UuidExt;

fn lyric_with_parts(count: usize) -> Lyric {
    Lyric {
        id: Uuid::from_u128(u128::MAX),
        title: "Roodkapje".to_owned(),
        parts: (0..count).map(|i| vec![format!("part {}", i)]).collect(),
    }
}

#[test]
fn summary_as_text() {
    let summary = Summary { id: Uuid::from_u128(0), title: "Roodkapje".to_owned() };
    assert_eq!(summary.to_text(), "1111111111111111: Roodkapje");
    let summary = Summary { id: Uuid::from_u128(u128::MAX), title: String::new() };
    assert_eq!(summary.to_text(), "YcVfxkQb6JRzqk5kF2tNLv: ");
}

#[test]
fn lyric_as_text() {
    assert_eq!(
        lyric_with_parts(2).to_text(),
        "Lyric: Roodkapje, 2 parts, id = YcVfxkQb6JRzqk5kF2tNLv"
    );
    assert_eq!(
        lyric_with_parts(0).to_text(),
        "Lyric: Roodkapje, 0 parts, id = YcVfxkQb6JRzqk5kF2tNLv"
    );
}

#[test]
fn lyric_as_text_counts_parts_in_decimal() {
    for count in [1usize, 9, 10, 11, 99, 100, 101, 1234] {
        assert_eq!(
            lyric_with_parts(count).to_text(),
            format!("Lyric: Roodkapje, {} parts, id = YcVfxkQb6JRzqk5kF2tNLv", count)
        );
    }
}

#[test]
fn playlist_as_text() {
    let playlist = Playlist {
        id: Uuid::from_u128(0),
        title: "Zondag".to_owned(),
        members: vec![Uuid::from_u128(1), Uuid::from_u128(u128::MAX), Uuid::from_u128(1)],
    };
    assert_eq!(
        playlist.to_text(),
        "Playlist: Zondag, id = 1111111111111111\n  - 1111111111111112\n  - YcVfxkQb6JRzqk5kF2tNLv\n  - 1111111111111112"
    );
}

#[test]
fn playlist_as_text_with_one_member_and_with_none() {
    let one = Playlist {
        id: Uuid::from_u128(0),
        title: "Zondag".to_owned(),
        members: vec![Uuid::from_u128(1)],
    };
    assert_eq!(one.to_text(), "Playlist: Zondag, id = 1111111111111111\n  - 1111111111111112");
    let none = Playlist { id: Uuid::from_u128(0), title: "Zondag".to_owned(), members: vec![] };
    assert_eq!(none.to_text(), "Playlist: Zondag, id = 1111111111111111\n");
}

#[test]
fn text_of_a_fresh_identifier_reads_back() {
    let id = Uuid::new();
    let summary = Summary { id, title: "x".to_owned() };
    let text = summary.to_text();
    let (head, tail) = text.split_once(": ").unwrap();
    assert_eq!(Uuid::try_from_base58(head), Ok(id));
    assert_eq!(tail, "x");
}
