use lipl_store::InMemoryDb;
use lipl_store::LiplRepo;
use lipl_store::Lyric;
use lipl_store::LyricPost;
use lipl_store::Playlist;
use lipl_store::PlaylistPost;
use lipl_store::RepoDb;
use lipl_store::RepoError;
use lipl_store::Summary;
use lipl_store::Uuid;

fn id(value: u128) -> Uuid {
    Uuid::from_u128(value)
}

fn lyric(value: u128, title: &str) -> Lyric {
    Lyric { id: id(value), title: title.to_owned(), parts: vec![vec![format!("line of {}", title)]] }
}

fn playlist(value: u128, title: &str, members: &[u128]) -> Playlist {
    Playlist {
        id: id(value),
        title: title.to_owned(),
        members: members.iter().map(|m| id(*m)).collect(),
    }
}

fn sample() -> InMemoryDb {
    InMemoryDb::new(
        vec![lyric(1, "B"), lyric(2, "A"), lyric(3, "C")],
        vec![playlist(10, "Zondag", &[1, 2, 3]), playlist(11, "Avond", &[2, 2, 1])],
    )
}

#[test]
fn post_playlist() {
    let mut db = InMemoryDb::new(vec![], vec![]);

    let playlist_post = PlaylistPost { title: "Alle 13 goed".to_owned(), members: vec![] };

    let playlist = db.post_playlist((None, playlist_post).into()).unwrap();

    let playlists = db.get_playlists().unwrap();
    assert_eq!(playlists[0].title, "Alle 13 goed".to_owned());
    assert_eq!(playlists[0].id, playlist.id);
}

#[test]
fn create_playlist_then_list_summaries() {
    let mut db = InMemoryDb::default();
    let made = db
        .post_playlist(Playlist::from(PlaylistPost { title: "Gig".to_owned(), members: vec![] }))
        .unwrap();
    assert_eq!(made.title, "Gig");
    assert!(made.members.is_empty());
    assert_eq!(
        db.get_playlist_summaries().unwrap(),
        vec![Summary { id: made.id, title: "Gig".to_owned() }]
    );
    assert!(db.get_lyric_summaries().unwrap().is_empty());
}

#[test]
fn empty_store_lists_nothing() {
    let db = InMemoryDb::default();
    assert!(db.get_lyrics().unwrap().is_empty());
    assert!(db.get_lyric_summaries().unwrap().is_empty());
    assert!(db.get_playlists().unwrap().is_empty());
    assert!(db.get_playlist_summaries().unwrap().is_empty());
    assert_eq!(db.get_lyric(id(1)), Err(RepoError::NotFound(id(1))));
    assert_eq!(db.get_playlist(id(1)), Err(RepoError::NotFound(id(1))));
}

#[test]
fn lists_are_sorted_by_title() {
    let mut db = InMemoryDb::default();
    for (value, title) in [(1, "B"), (2, "A"), (3, "C")] {
        db.post_lyric(lyric(value, title)).unwrap();
    }
    assert_eq!(
        db.get_lyric_summaries().unwrap(),
        vec![
            Summary { id: id(2), title: "A".to_owned() },
            Summary { id: id(1), title: "B".to_owned() },
            Summary { id: id(3), title: "C".to_owned() },
        ]
    );
    assert_eq!(db.get_lyrics().unwrap(), vec![lyric(2, "A"), lyric(1, "B"), lyric(3, "C")]);

    let db = sample();
    assert_eq!(
        db.get_playlists().unwrap(),
        vec![playlist(11, "Avond", &[2, 2, 1]), playlist(10, "Zondag", &[1, 2, 3])]
    );
    assert_eq!(
        db.get_playlist_summaries().unwrap(),
        vec![
            Summary { id: id(11), title: "Avond".to_owned() },
            Summary { id: id(10), title: "Zondag".to_owned() },
        ]
    );
}

#[test]
fn get_by_identifier() {
    let db = sample();
    assert_eq!(db.get_lyric(id(1)), Ok(lyric(1, "B")));
    assert_eq!(db.get_playlist(id(10)), Ok(playlist(10, "Zondag", &[1, 2, 3])));
    assert_eq!(db.get_lyric(id(4)), Err(RepoError::NotFound(id(4))));
    assert_eq!(db.get_playlist(id(4)), Err(RepoError::NotFound(id(4))));
}

#[test]
fn a_record_of_the_other_kind_is_not_found() {
    let db = sample();
    assert_eq!(db.get_lyric(id(10)), Err(RepoError::NotFound(id(10))));
    assert_eq!(db.get_playlist(id(1)), Err(RepoError::NotFound(id(1))));
}

#[test]
fn post_hands_the_record_back_and_stores_it() {
    let mut db = InMemoryDb::default();
    assert_eq!(db.post_lyric(lyric(1, "Een")), Ok(lyric(1, "Een")));
    assert_eq!(db.get_lyric(id(1)), Ok(lyric(1, "Een")));
    assert_eq!(db.post_playlist(playlist(2, "Twee", &[1, 9])), Ok(playlist(2, "Twee", &[1, 9])));
    assert_eq!(db.get_playlist(id(2)), Ok(playlist(2, "Twee", &[1, 9])));
}

#[test]
fn colliding_create_fails_and_changes_nothing() {
    let mut db = sample();
    assert_eq!(db.post_lyric(lyric(1, "Other")), Err(RepoError::AlreadyExists(id(1))));
    assert_eq!(db.get_lyric(id(1)), Ok(lyric(1, "B")));
    assert_eq!(db.post_playlist(playlist(10, "Other", &[])), Err(RepoError::AlreadyExists(id(10))));
    assert_eq!(db.get_playlist(id(10)), Ok(playlist(10, "Zondag", &[1, 2, 3])));
    assert_eq!(db.get_lyrics().unwrap().len(), 3);
    assert_eq!(db.get_playlists().unwrap().len(), 2);
}

#[test]
fn lyrics_and_playlists_share_the_identifiers() {
    let mut db = sample();
    assert_eq!(db.post_playlist(playlist(1, "Lied", &[])), Err(RepoError::AlreadyExists(id(1))));
    assert_eq!(db.post_lyric(lyric(10, "Lijst")), Err(RepoError::AlreadyExists(id(10))));
    assert_eq!(db.get_lyric(id(1)), Ok(lyric(1, "B")));
    assert_eq!(db.get_playlist(id(10)), Ok(playlist(10, "Zondag", &[1, 2, 3])));
}

#[test]
fn delete_lyric_cascades() {
    let mut db = InMemoryDb::new(
        vec![lyric(1, "L1"), lyric(2, "L2"), lyric(3, "L3")],
        vec![playlist(10, "P", &[1, 2, 3])],
    );
    assert_eq!(db.delete_lyric(id(2)), Ok(()));
    assert_eq!(db.get_playlist(id(10)).unwrap().members, vec![id(1), id(3)]);
    assert_eq!(db.get_lyric(id(2)), Err(RepoError::NotFound(id(2))));
    assert_eq!(db.get_lyric(id(1)), Ok(lyric(1, "L1")));
    assert_eq!(db.get_lyric(id(3)), Ok(lyric(3, "L3")));
}

#[test]
fn delete_lyric_takes_every_occurrence_from_every_playlist() {
    let mut db = sample();
    assert_eq!(db.delete_lyric(id(2)), Ok(()));
    assert_eq!(db.get_playlist(id(10)), Ok(playlist(10, "Zondag", &[1, 3])));
    assert_eq!(db.get_playlist(id(11)), Ok(playlist(11, "Avond", &[1])));
    assert_eq!(db.get_lyrics().unwrap(), vec![lyric(1, "B"), lyric(3, "C")]);
}

#[test]
fn delete_lyric_twice_fails_and_changes_nothing() {
    let mut db = sample();
    assert_eq!(db.delete_lyric(id(2)), Ok(()));
    let lyrics = db.get_lyrics().unwrap();
    let playlists = db.get_playlists().unwrap();
    assert_eq!(db.delete_lyric(id(2)), Err(RepoError::NotFound(id(2))));
    assert_eq!(db.delete_lyric(id(2)), Err(RepoError::NotFound(id(2))));
    assert_eq!(db.get_lyrics().unwrap(), lyrics);
    assert_eq!(db.get_playlists().unwrap(), playlists);
}

#[test]
fn delete_of_an_absent_identifier_fails_and_changes_nothing() {
    let mut db = sample();
    assert_eq!(db.delete_lyric(id(99)), Err(RepoError::NotFound(id(99))));
    assert_eq!(db.delete_playlist(id(99)), Err(RepoError::NotFound(id(99))));
    assert_eq!(db.get_lyrics().unwrap().len(), 3);
    assert_eq!(db.get_playlist(id(10)), Ok(playlist(10, "Zondag", &[1, 2, 3])));
    assert_eq!(db.get_playlist(id(11)), Ok(playlist(11, "Avond", &[2, 2, 1])));
}

#[test]
fn delete_playlist_does_not_cascade() {
    let mut db = sample();
    assert_eq!(db.delete_playlist(id(10)), Ok(()));
    assert_eq!(db.get_playlist(id(10)), Err(RepoError::NotFound(id(10))));
    assert_eq!(db.get_playlist(id(11)), Ok(playlist(11, "Avond", &[2, 2, 1])));
    assert_eq!(db.get_lyrics().unwrap().len(), 3);
    assert_eq!(db.delete_playlist(id(10)), Err(RepoError::NotFound(id(10))));
}

#[test]
fn delete_goes_by_the_identifier_alone() {
    let mut db = sample();
    assert_eq!(db.delete_playlist(id(1)), Ok(()));
    assert_eq!(db.get_lyric(id(1)), Err(RepoError::NotFound(id(1))));
    assert_eq!(db.get_playlist(id(10)), Ok(playlist(10, "Zondag", &[1, 2, 3])));

    let mut db = InMemoryDb::new(vec![], vec![playlist(10, "P", &[11]), playlist(11, "Q", &[10, 11])]);
    assert_eq!(db.delete_lyric(id(10)), Ok(()));
    assert_eq!(db.get_playlist(id(10)), Err(RepoError::NotFound(id(10))));
    assert_eq!(db.get_playlist(id(11)), Ok(playlist(11, "Q", &[11])));
}

#[test]
fn members_need_not_be_stored() {
    let mut db = InMemoryDb::default();
    assert_eq!(db.post_playlist(playlist(1, "P", &[5, 5, 6])), Ok(playlist(1, "P", &[5, 5, 6])));
    assert_eq!(db.delete_lyric(id(5)), Err(RepoError::NotFound(id(5))));
    assert_eq!(db.get_playlist(id(1)), Ok(playlist(1, "P", &[5, 5, 6])));
}

#[test]
fn stop_always_succeeds() {
    let db = sample();
    assert_eq!(db.stop(), Ok(()));
    assert_eq!(db.stop(), Ok(()));
    assert_eq!(db.get_lyrics().unwrap().len(), 3);
}

#[test]
fn later_entries_win_when_a_store_is_built() {
    let db = InMemoryDb::new(
        vec![lyric(1, "first"), lyric(1, "second"), lyric(2, "lyric")],
        vec![playlist(2, "playlist", &[1])],
    );
    assert_eq!(db.get_lyric(id(1)), Ok(lyric(1, "second")));
    assert_eq!(db.get_lyric(id(2)), Err(RepoError::NotFound(id(2))));
    assert_eq!(db.get_playlist(id(2)), Ok(playlist(2, "playlist", &[1])));
    assert_eq!(db.get_lyrics().unwrap().len(), 1);
}

#[test]
fn snapshot_round_trip() {
    let mut db = sample();
    db.delete_lyric(id(3)).unwrap();
    db.post_lyric(Lyric::from((None, LyricPost { title: "Nieuw".to_owned(), parts: vec![] })))
        .unwrap();
    let all: RepoDb = db.to_repo_db();
    assert_eq!(all.lyrics.len(), 3);
    assert_eq!(all.playlists.len(), 2);
    let again = InMemoryDb::from(all);
    assert_eq!(again.get_lyrics(), db.get_lyrics());
    assert_eq!(again.get_lyric_summaries(), db.get_lyric_summaries());
    assert_eq!(again.get_playlists(), db.get_playlists());
    assert_eq!(again.get_playlist_summaries(), db.get_playlist_summaries());
    for value in [1u128, 2, 3, 10, 11, 99] {
        assert_eq!(again.get_lyric(id(value)), db.get_lyric(id(value)));
        assert_eq!(again.get_playlist(id(value)), db.get_playlist(id(value)));
    }
}

#[test]
fn snapshot_lists_every_record_once() {
    let all = sample().to_repo_db();
    let mut lyrics: Vec<u128> = all.lyrics.iter().map(|l| l.id.value).collect();
    lyrics.sort();
    assert_eq!(lyrics, vec![1, 2, 3]);
    let mut playlists: Vec<u128> = all.playlists.iter().map(|p| p.id.value).collect();
    playlists.sort();
    assert_eq!(playlists, vec![10, 11]);
    assert!(all.lyrics.contains(&lyric(2, "A")));
    assert!(all.playlists.contains(&playlist(11, "Avond", &[2, 2, 1])));
}
