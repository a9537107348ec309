use lipl_store::ids;
use lipl_store::summaries;
use lipl_store::summary;
use lipl_store::Frontmatter;
use lipl_store::HasId;
use lipl_store::HasSummary;
use lipl_store::Lyric;
use lipl_store::LyricMeta;
use lipl_store::LyricPost;
use lipl_store::Playlist;
use lipl_store::PlaylistPost;
use lipl_store::Summary;
use lipl_store::Uuid;
use lipl_store::Without;

fn id(value: u128) -> Uuid {
    Uuid::from_u128(value)
}

fn lyric(value: u128, title: &str) -> Lyric {
    Lyric {
        id: id(value),
        title: title.to_owned(),
        parts: vec![
            vec!["first line".to_owned(), "second line".to_owned()],
            vec!["refrain".to_owned()],
        ],
    }
}

#[test]
fn without() {
    let v = vec!["1", "2", "5"];
    let out = v.without(&"2");
    assert_eq!(out.len(), 2);
    assert_eq!(out[0], "1");
    assert_eq!(out[1], "5");
}

#[test]
fn without_takes_every_occurrence_and_keeps_the_order() {
    let members = vec![id(3), id(1), id(3), id(2), id(3)];
    assert_eq!(members.without(&id(3)), vec![id(1), id(2)]);
}

#[test]
fn without_an_absent_item_changes_nothing() {
    let members = vec![id(1), id(2)];
    assert_eq!(members.without(&id(9)), vec![id(1), id(2)]);
    let none: Vec<Uuid> = Vec::new();
    assert_eq!(none.without(&id(9)), Vec::<Uuid>::new());
}

#[test]
fn lyric_from_post_and_identifier() {
    let post = LyricPost { title: "Roodkapje".to_owned(), parts: vec![vec!["a".to_owned()]] };
    let made = Lyric::from((post, id(5)));
    assert_eq!(made.id, id(5));
    assert_eq!(made.title, "Roodkapje");
    assert_eq!(made.parts, vec![vec!["a".to_owned()]]);
}

#[test]
fn lyric_honours_a_given_identifier() {
    let post = LyricPost { title: "Roodkapje".to_owned(), parts: vec![] };
    let made: Lyric = (Some(id(77)), post).into();
    assert_eq!(made.id, id(77));
    assert_eq!(made.title, "Roodkapje");
}

#[test]
fn lyric_without_identifier_gets_a_fresh_one() {
    let one: Lyric = (None, LyricPost { title: "x".to_owned(), parts: vec![] }).into();
    let two: Lyric = (None, LyricPost { title: "x".to_owned(), parts: vec![] }).into();
    assert_ne!(one.id, two.id);
    assert_eq!(one.title, "x");
    assert_eq!(one.parts, Vec::<Vec<String>>::new());
}

#[test]
fn lyric_post_from_lyric_drops_the_identifier() {
    let post = LyricPost::from(lyric(4, "Vier"));
    assert_eq!(post.title, "Vier");
    assert_eq!(post.parts.len(), 2);
    assert_eq!(post.parts[1], vec!["refrain".to_owned()]);
}

#[test]
fn lyric_post_default_is_empty() {
    let post = LyricPost::default();
    assert_eq!(post.title, "");
    assert!(post.parts.is_empty());
}

#[test]
fn playlist_conversions() {
    let post = PlaylistPost { title: "Gig".to_owned(), members: vec![id(1), id(2), id(1)] };
    let made = Playlist::from((post, id(9)));
    assert_eq!(made.id, id(9));
    assert_eq!(made.title, "Gig");
    assert_eq!(made.members, vec![id(1), id(2), id(1)]);

    let given: Playlist =
        (Some(id(8)), PlaylistPost { title: "Gig".to_owned(), members: vec![] }).into();
    assert_eq!(given.id, id(8));

    let fresh = Playlist::from(PlaylistPost { title: "Gig".to_owned(), members: vec![id(1)] });
    let other = Playlist::from(PlaylistPost { title: "Gig".to_owned(), members: vec![id(1)] });
    assert_ne!(fresh.id, other.id);
    assert_eq!(fresh.members, vec![id(1)]);

    let back = PlaylistPost::from(made);
    assert_eq!(back.title, "Gig");
    assert_eq!(back.members, vec![id(1), id(2), id(1)]);
}

#[test]
fn clones_are_equal() {
    let l = lyric(1, "Een");
    assert_eq!(l.clone(), l);
    let p = Playlist { id: id(2), title: "Twee".to_owned(), members: vec![id(1)] };
    assert_eq!(p.clone(), p);
    let s = Summary { id: id(3), title: "Drie".to_owned() };
    assert_eq!(s.clone(), s);
    let lp = LyricPost { title: "Vier".to_owned(), parts: vec![vec!["x".to_owned()]] };
    assert_eq!(lp.clone(), lp);
    let pp = PlaylistPost { title: "Vijf".to_owned(), members: vec![id(1), id(1)] };
    assert_eq!(pp.clone(), pp);
}

#[test]
fn summaries_of_records() {
    let l = lyric(1, "Een");
    let p = Playlist { id: id(2), title: "Twee".to_owned(), members: vec![id(1)] };
    assert_eq!(l.summary(), Summary { id: id(1), title: "Een".to_owned() });
    assert_eq!(l.to_summary(), Summary { id: id(1), title: "Een".to_owned() });
    assert_eq!(p.summary(), Summary { id: id(2), title: "Twee".to_owned() });
    assert_eq!(p.to_summary(), Summary { id: id(2), title: "Twee".to_owned() });
    let s = Summary { id: id(3), title: "Drie".to_owned() };
    assert_eq!(s.summary(), s);
    assert_eq!(summary(&p), Summary { id: id(2), title: "Twee".to_owned() });
}

#[test]
fn summaries_and_ids_keep_the_order() {
    let list = vec![lyric(3, "C"), lyric(1, "A"), lyric(2, "B")];
    assert_eq!(
        summaries(list),
        vec![
            Summary { id: id(3), title: "C".to_owned() },
            Summary { id: id(1), title: "A".to_owned() },
            Summary { id: id(2), title: "B".to_owned() },
        ]
    );
    let list = vec![lyric(3, "C"), lyric(1, "A"), lyric(2, "B")];
    assert_eq!(ids(list), vec![id(3), id(1), id(2)]);
    assert_eq!(ids(Vec::<Playlist>::new()), Vec::<Uuid>::new());
    assert_eq!(summaries(Vec::<Summary>::new()), Vec::<Summary>::new());
}

#[test]
fn identifiers_of_records() {
    assert_eq!(lyric(12, "x").id(), id(12));
    let p = Playlist { id: id(13), title: "y".to_owned(), members: vec![] };
    assert_eq!(p.id(), id(13));
}

#[test]
fn summary_from_meta_and_identifier() {
    let meta = LyricMeta { title: "Een".to_owned(), hash: Some("\"x\"".to_owned()) };
    assert_eq!(Summary::from((meta, id(1))), Summary { id: id(1), title: "Een".to_owned() });
}

#[test]
fn frontmatter_default_has_no_title() {
    assert_eq!(Frontmatter::default(), Frontmatter { title: None });
}
