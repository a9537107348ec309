//! The store that keeps its records in memory.

use std::collections::HashMap;
use vstd::prelude::*;
use vstd::std_specs::iter::IteratorSpec;

use crate::error::RepoError;
use crate::model::copy_parts;
use crate::model::differs_from;
use crate::model::Lyric;
use crate::model::LyricPost;
use crate::model::LyricView;
use crate::model::Playlist;
use crate::model::PlaylistPost;
use crate::model::PlaylistView;
use crate::model::RepoDb;
use crate::model::Summary;
use crate::model::SummaryView;
use crate::model::Without;
use crate::order::in_order;
use crate::order::sort_by_title;
use crate::order::title_le;
use crate::order::Titled;
use crate::repo::LiplRepo;
use crate::store::built;
use crate::store::cascaded;
use crate::store::created;
use crate::store::lemma_rearranged_list;
use crate::store::lists_each_once;
use crate::store::lyric_at;
use crate::store::lyric_deleted;
use crate::store::lyric_record;
use crate::store::lyric_titles;
use crate::store::other_than;
use crate::store::playlist_at;
use crate::store::playlist_deleted;
use crate::store::playlist_record;
use crate::store::playlist_titles;
use crate::store::RecordView;
use crate::store::stored_lyric_summaries;
use crate::store::stored_lyrics;
use crate::store::stored_playlist_summaries;
use crate::store::stored_playlists;
use crate::store::summary_titles;
use crate::store::views_of;
use crate::store::with_lyrics;
use crate::store::with_playlists;
use crate::uuid::Uuid;

verus! {

/// What is stored under an identifier.
enum Record {
    Lyric(LyricPost),
    Playlist(PlaylistPost),
}

impl View for Record {
    type V = RecordView;

    closed spec fn view(&self) -> RecordView {
        match self {
            Record::Lyric(post) => RecordView::Lyric(post@),
            Record::Playlist(post) => RecordView::Playlist(post@),
        }
    }
}

/// The records by identifier, for a map that is keyed by the numbers of the
/// identifiers.
spec fn records_of(db: Map<u128, Record>) -> Map<Uuid, RecordView> {
    Map::new(|id: Uuid| db.contains_key(id.value), |id: Uuid| db[id.value]@)
}

proof fn lemma_records_of_insert(db: Map<u128, Record>, id: Uuid, record: Record)
    ensures
        records_of(db.insert(id.value, record)) == records_of(db).insert(id, record@),
{
    assert(records_of(db.insert(id.value, record)) =~= records_of(db).insert(id, record@));
}

proof fn lemma_records_of_remove(db: Map<u128, Record>, id: Uuid)
    ensures
        records_of(db.remove(id.value)) == records_of(db).remove(id),
{
    assert(records_of(db.remove(id.value)) =~= records_of(db).remove(id));
}

/// A store of lyrics and playlists in memory. All records are in one map, so
/// that no two of them share an identifier.
pub struct InMemoryDb {
    db: HashMap<u128, Record>,
}

impl View for InMemoryDb {
    type V = Map<Uuid, RecordView>;

    closed spec fn view(&self) -> Map<Uuid, RecordView> {
        records_of(self.db@)
    }
}

/// The identifier of a lyric and what is stored under it.
fn lyric_to_tuple(lyric: Lyric) -> (entry: (Uuid, Record))
    ensures
        entry.0 == lyric.id,
        entry.1@ == lyric_record(lyric@),
{
    (lyric.id, Record::Lyric(LyricPost { title: lyric.title, parts: lyric.parts }))
}

/// The identifier of a playlist and what is stored under it.
fn playlist_to_tuple(playlist: Playlist) -> (entry: (Uuid, Record))
    ensures
        entry.0 == playlist.id,
        entry.1@ == playlist_record(playlist@),
{
    (playlist.id, Record::Playlist(PlaylistPost { title: playlist.title, members: playlist.members }))
}

impl Record {
    /// Whether the record is a lyric.
    fn is_lyric(&self) -> (lyric: bool)
        ensures
            lyric == (self is Lyric),
    {
        match self {
            Record::Lyric(_) => true,
            Record::Playlist(_) => false,
        }
    }
}

impl InMemoryDb {
    /// The store that holds the given lyrics and playlists. The lyrics are put
    /// in first, then the playlists, each list in its order; where two records
    /// share an identifier, the one that is put in later stays.
    pub fn new(lyrics: Vec<Lyric>, playlists: Vec<Playlist>) -> (store: InMemoryDb)
        ensures
            store@ == built(lyrics.deep_view(), playlists.deep_view()),
    {
        broadcast use vstd::std_specs::hash::group_hash_axioms;

        let mut db: HashMap<u128, Record> = HashMap::new();
        let ghost lyric_views = lyrics.deep_view();
        let ghost playlist_views = playlists.deep_view();
        assert(lyric_views.take(0) =~= Seq::<LyricView>::empty());
        assert(records_of(db@) =~= Map::<Uuid, RecordView>::empty());
        for lyric in it: lyrics
            invariant
                it.seq().len() == lyric_views.len(),
                forall|i: int| 0 <= i < lyric_views.len() ==> lyric_views[i] == (#[trigger] it.seq()[i])@,
                records_of(db@) == with_lyrics(Map::empty(), lyric_views.take(it.index())),
        {
            let ghost before = db@;
            let ghost view = lyric@;
            let entry = lyric_to_tuple(lyric);
            db.insert(entry.0.value, entry.1);
            proof {
                let now = lyric_views.take(it.index() + 1);
                assert(now.drop_last() =~= lyric_views.take(it.index()));
                assert(now.last() == view);
                lemma_records_of_insert(before, entry.0, entry.1);
            }
        }
        assert(lyric_views.take(lyric_views.len() as int) =~= lyric_views);
        assert(playlist_views.take(0) =~= Seq::<PlaylistView>::empty());
        for playlist in it: playlists
            invariant
                it.seq().len() == playlist_views.len(),
                forall|i: int|
                    0 <= i < playlist_views.len() ==> playlist_views[i] == (#[trigger] it.seq()[i])@,
                records_of(db@) == with_playlists(
                    with_lyrics(Map::empty(), lyric_views),
                    playlist_views.take(it.index()),
                ),
        {
            let ghost before = db@;
            let ghost view = playlist@;
            let entry = playlist_to_tuple(playlist);
            db.insert(entry.0.value, entry.1);
            proof {
                let now = playlist_views.take(it.index() + 1);
                assert(now.drop_last() =~= playlist_views.take(it.index()));
                assert(now.last() == view);
                lemma_records_of_insert(before, entry.0, entry.1);
            }
        }
        assert(playlist_views.take(playlist_views.len() as int) =~= playlist_views);
        InMemoryDb { db }
    }

    /// All lyrics and all playlists of the store, each once, in no
    /// particular order: what is needed to build the same store again.
    pub fn to_repo_db(&self) -> (all: RepoDb)
        ensures
            lists_each_once(all.lyrics.deep_view(), stored_lyrics(self@)),
            lists_each_once(all.playlists.deep_view(), stored_playlists(self@)),
    {
        RepoDb { lyrics: self.lyrics_unordered(), playlists: self.playlists_unordered() }
    }

    /// The numbers of the identifiers under which a lyric is stored, or those
    /// under which a playlist is stored, each once.
    fn keys_of_kind(&self, lyrics: bool) -> (keys: Vec<u128>)
        ensures
            keys@.no_duplicates(),
            forall|key: u128|
                keys@.contains(key) <==> self.db@.contains_key(key) && (self.db@[key] is Lyric)
                    == lyrics,
    {
        broadcast use vstd::std_specs::hash::group_hash_axioms;

        let mut keys: Vec<u128> = Vec::new();
        let ghost all = self.db.keys().remaining();
        for key in it: self.db.keys()
            invariant
                it.seq() == all,
                all == self.db.keys().remaining(),
                keys@.no_duplicates(),
                forall|j: int|
                    0 <= j < keys@.len() ==> self.db@.contains_key(#[trigger] keys@[j]) && (
                    self.db@[keys@[j]] is Lyric) == lyrics && exists|i: int|
                        0 <= i < it.index() && *all[i] == keys@[j],
                forall|i: int|
                    0 <= i < it.index() && (self.db@[*#[trigger] all[i]] is Lyric) == lyrics
                        ==> keys@.contains(*all[i]),
        {
            let ghost before = keys@;
            assert(all.unref().to_set().contains(all.unref()[it.index()]));
            match self.db.get(key) {
                Some(record) => {
                    if record.is_lyric() == lyrics {
                        keys.push(*key);
                        proof {
                            assert forall|i: int|
                                0 <= i < it.index() + 1 && (self.db@[*#[trigger] all[i]] is Lyric)
                                    == lyrics implies keys@.contains(*all[i]) by {
                                if i < it.index() {
                                    let j = choose|j: int|
                                        0 <= j < before.len() && before[j] == *all[i];
                                    assert(keys@[j] == *all[i]);
                                } else {
                                    assert(keys@[before.len() as int] == *all[i]);
                                }
                            }
                        }
                    }
                },
                None => {},
            }
        }
        proof {
            assert forall|key: u128|
                self.db@.contains_key(key) && (self.db@[key] is Lyric) == lyrics implies keys@.contains(
                key,
            ) by {
                assert(all.unref().to_set().contains(key));
                let i = choose|i: int| 0 <= i < all.unref().len() && all.unref()[i] == key;
                assert(*all[i] == key);
            }
        }
        keys
    }

    /// The lyrics, each once, in no particular order.
    fn lyrics_unordered(&self) -> (list: Vec<Lyric>)
        ensures
            lists_each_once(list.deep_view(), stored_lyrics(self@)),
    {
        broadcast use vstd::std_specs::hash::group_hash_axioms;

        let keys = self.keys_of_kind(true);
        let mut list: Vec<Lyric> = Vec::new();
        let mut next: usize = 0;
        while next < keys.len()
            invariant
                next <= keys@.len(),
                list@.len() == next,
                forall|key: u128|
                    keys@.contains(key) <==> self.db@.contains_key(key) && (self.db@[key] is Lyric),
                forall|j: int|
                    0 <= j < next ==> (#[trigger] list@[j]).id.value == keys@[j] && lyric_at(
                        self@,
                        list@[j].id,
                    ) == Ok::<LyricView, RepoError>(list@[j]@),
            decreases keys@.len() - next,
        {
            let key = keys[next];
            assert(keys@.contains(key));
            match self.db.get(&key) {
                Some(Record::Lyric(post)) => {
                    list.push(
                        Lyric {
                            id: Uuid { value: key },
                            title: post.title.clone(),
                            parts: copy_parts(&post.parts),
                        },
                    );
                },
                _ => {},
            }
            next = next + 1;
        }
        proof {
            let views = list.deep_view();
            assert forall|lyric: LyricView|
                views.to_set().contains(lyric) <==> stored_lyrics(self@).contains(lyric) by {
                if views.to_set().contains(lyric) {
                    let j = choose|j: int| 0 <= j < views.len() && views[j] == lyric;
                    assert(list@[j]@ == lyric);
                }
                if stored_lyrics(self@).contains(lyric) {
                    assert(keys@.contains(lyric.id.value));
                    let j = choose|j: int| 0 <= j < keys@.len() && keys@[j] == lyric.id.value;
                    assert(list@[j].id == lyric.id);
                    assert(views[j] == lyric);
                }
            }
            assert(views.to_set() =~= stored_lyrics(self@));
            assert forall|i: int, j: int|
                0 <= i < views.len() && 0 <= j < views.len() && i != j implies views[i]
                != views[j] by {
                assert(list@[i].id.value == keys@[i] && list@[j].id.value == keys@[j]);
            }
        }
        list
    }

    /// The playlists, each once, in no particular order.
    fn playlists_unordered(&self) -> (list: Vec<Playlist>)
        ensures
            lists_each_once(list.deep_view(), stored_playlists(self@)),
    {
        broadcast use vstd::std_specs::hash::group_hash_axioms;

        let keys = self.keys_of_kind(false);
        let mut list: Vec<Playlist> = Vec::new();
        let mut next: usize = 0;
        while next < keys.len()
            invariant
                next <= keys@.len(),
                list@.len() == next,
                forall|key: u128|
                    keys@.contains(key) <==> self.db@.contains_key(key) && !(self.db@[key] is Lyric),
                forall|j: int|
                    0 <= j < next ==> (#[trigger] list@[j]).id.value == keys@[j] && playlist_at(
                        self@,
                        list@[j].id,
                    ) == Ok::<PlaylistView, RepoError>(list@[j]@),
            decreases keys@.len() - next,
        {
            let key = keys[next];
            assert(keys@.contains(key));
            match self.db.get(&key) {
                Some(Record::Playlist(post)) => {
                    list.push(
                        Playlist {
                            id: Uuid { value: key },
                            title: post.title.clone(),
                            members: post.members.clone(),
                        },
                    );
                },
                _ => {},
            }
            next = next + 1;
        }
        proof {
            let views = list.deep_view();
            assert forall|playlist: PlaylistView|
                views.to_set().contains(playlist) <==> stored_playlists(self@).contains(
                    playlist,
                ) by {
                if views.to_set().contains(playlist) {
                    let j = choose|j: int| 0 <= j < views.len() && views[j] == playlist;
                    assert(list@[j]@ == playlist);
                }
                if stored_playlists(self@).contains(playlist) {
                    assert(keys@.contains(playlist.id.value));
                    let j = choose|j: int| 0 <= j < keys@.len() && keys@[j] == playlist.id.value;
                    assert(list@[j].id == playlist.id);
                    assert(views[j] == playlist);
                }
            }
            assert(views.to_set() =~= stored_playlists(self@));
            assert forall|i: int, j: int|
                0 <= i < views.len() && 0 <= j < views.len() && i != j implies views[i]
                != views[j] by {
                assert(list@[i].id.value == keys@[i] && list@[j].id.value == keys@[j]);
            }
        }
        list
    }

    /// The summaries of the lyrics, or those of the playlists, each once, in
    /// no particular order.
    fn summaries_unordered(&self, lyrics: bool) -> (list: Vec<Summary>)
        ensures
            lists_each_once(
                list.deep_view(),
                if lyrics {
                    stored_lyric_summaries(self@)
                } else {
                    stored_playlist_summaries(self@)
                },
            ),
    {
        broadcast use vstd::std_specs::hash::group_hash_axioms;

        let ghost wanted = if lyrics {
            stored_lyric_summaries(self@)
        } else {
            stored_playlist_summaries(self@)
        };
        let keys = self.keys_of_kind(lyrics);
        let mut list: Vec<Summary> = Vec::new();
        let mut next: usize = 0;
        while next < keys.len()
            invariant
                next <= keys@.len(),
                list@.len() == next,
                wanted == if lyrics {
                    stored_lyric_summaries(self@)
                } else {
                    stored_playlist_summaries(self@)
                },
                forall|key: u128|
                    keys@.contains(key) <==> self.db@.contains_key(key) && (self.db@[key] is Lyric)
                        == lyrics,
                forall|j: int|
                    0 <= j < next ==> (#[trigger] list@[j]).id.value == keys@[j] && wanted.contains(
                        list@[j]@,
                    ),
            decreases keys@.len() - next,
        {
            let key = keys[next];
            assert(keys@.contains(key));
            match self.db.get(&key) {
                Some(Record::Lyric(post)) => {
                    list.push(Summary { id: Uuid { value: key }, title: post.title.clone() });
                },
                Some(Record::Playlist(post)) => {
                    list.push(Summary { id: Uuid { value: key }, title: post.title.clone() });
                },
                None => {},
            }
            next = next + 1;
        }
        proof {
            let views = list.deep_view();
            assert forall|summary: SummaryView|
                views.to_set().contains(summary) <==> wanted.contains(summary) by {
                if views.to_set().contains(summary) {
                    let j = choose|j: int| 0 <= j < views.len() && views[j] == summary;
                    assert(list@[j]@ == summary);
                }
                if wanted.contains(summary) {
                    assert(keys@.contains(summary.id.value));
                    let j = choose|j: int| 0 <= j < keys@.len() && keys@[j] == summary.id.value;
                    assert(list@[j].id == summary.id);
                    assert(wanted.contains(list@[j]@));
                    assert(views[j] == summary);
                }
            }
            assert(views.to_set() =~= wanted);
            assert forall|i: int, j: int|
                0 <= i < views.len() && 0 <= j < views.len() && i != j implies views[i]
                != views[j] by {
                assert(list@[i].id.value == keys@[i] && list@[j].id.value == keys@[j]);
            }
        }
        list
    }
}

impl Default for InMemoryDb {
    /// The store that holds nothing.
    fn default() -> (store: InMemoryDb)
        ensures
            store@ == Map::<Uuid, RecordView>::empty(),
    {
        let store = InMemoryDb { db: HashMap::new() };
        assert(store@ =~= Map::<Uuid, RecordView>::empty());
        store
    }
}

impl From<RepoDb> for InMemoryDb {
    /// The store that holds the lyrics and playlists of `all`.
    fn from(all: RepoDb) -> (store: InMemoryDb)
        ensures
            store@ == built(all.lyrics.deep_view(), all.playlists.deep_view()),
    {
        InMemoryDb::new(all.lyrics, all.playlists)
    }
}

impl vstd::std_specs::convert::FromSpecImpl<RepoDb> for InMemoryDb {
    open spec fn obeys_from_spec() -> bool {
        false
    }

    open spec fn from_spec(all: RepoDb) -> InMemoryDb {
        arbitrary()
    }
}

impl LiplRepo for InMemoryDb {
    open spec fn records(&self) -> Map<Uuid, RecordView> {
        self@
    }

    fn get_lyrics(&self) -> (listed: Result<Vec<Lyric>, RepoError>)
        ensures
            listed is Ok,
    {
        let list = self.lyrics_unordered();
        let ghost unordered = list@;
        let sorted = sort_by_title(list);
        proof {
            assert(views_of(unordered) =~= list.deep_view());
            lemma_rearranged_list(unordered, sorted@, stored_lyrics(self@));
            assert(views_of(sorted@) =~= sorted.deep_view());
            assert forall|i: int, j: int| 0 <= i < j < sorted@.len() implies title_le(
                #[trigger] lyric_titles(sorted.deep_view())[i],
                #[trigger] lyric_titles(sorted.deep_view())[j],
            ) by {
                assert(in_order(sorted@[i].title_view(), sorted@[j].title_view(), true));
            }
        }
        Ok(sorted)
    }

    fn get_lyric_summaries(&self) -> (listed: Result<Vec<Summary>, RepoError>)
        ensures
            listed is Ok,
    {
        let list = self.summaries_unordered(true);
        let ghost unordered = list@;
        let sorted = sort_by_title(list);
        proof {
            assert(views_of(unordered) =~= list.deep_view());
            lemma_rearranged_list(unordered, sorted@, stored_lyric_summaries(self@));
            assert(views_of(sorted@) =~= sorted.deep_view());
            assert forall|i: int, j: int| 0 <= i < j < sorted@.len() implies title_le(
                #[trigger] summary_titles(sorted.deep_view())[i],
                #[trigger] summary_titles(sorted.deep_view())[j],
            ) by {
                assert(in_order(sorted@[i].title_view(), sorted@[j].title_view(), true));
            }
        }
        Ok(sorted)
    }

    fn get_playlists(&self) -> (listed: Result<Vec<Playlist>, RepoError>)
        ensures
            listed is Ok,
    {
        let list = self.playlists_unordered();
        let ghost unordered = list@;
        let sorted = sort_by_title(list);
        proof {
            assert(views_of(unordered) =~= list.deep_view());
            lemma_rearranged_list(unordered, sorted@, stored_playlists(self@));
            assert(views_of(sorted@) =~= sorted.deep_view());
            assert forall|i: int, j: int| 0 <= i < j < sorted@.len() implies title_le(
                #[trigger] playlist_titles(sorted.deep_view())[i],
                #[trigger] playlist_titles(sorted.deep_view())[j],
            ) by {
                assert(in_order(sorted@[i].title_view(), sorted@[j].title_view(), true));
            }
        }
        Ok(sorted)
    }

    fn get_playlist_summaries(&self) -> (listed: Result<Vec<Summary>, RepoError>)
        ensures
            listed is Ok,
    {
        let list = self.summaries_unordered(false);
        let ghost unordered = list@;
        let sorted = sort_by_title(list);
        proof {
            assert(views_of(unordered) =~= list.deep_view());
            lemma_rearranged_list(unordered, sorted@, stored_playlist_summaries(self@));
            assert(views_of(sorted@) =~= sorted.deep_view());
            assert forall|i: int, j: int| 0 <= i < j < sorted@.len() implies title_le(
                #[trigger] summary_titles(sorted.deep_view())[i],
                #[trigger] summary_titles(sorted.deep_view())[j],
            ) by {
                assert(in_order(sorted@[i].title_view(), sorted@[j].title_view(), true));
            }
        }
        Ok(sorted)
    }

    fn get_lyric(&self, id: Uuid) -> (found: Result<Lyric, RepoError>)
        ensures
            match lyric_at(self@, id) {
                Ok(lyric) => found is Ok && found->Ok_0@ == lyric,
                Err(error) => found == Err::<Lyric, RepoError>(error),
            },
    {
        broadcast use vstd::std_specs::hash::group_hash_axioms;

        match self.db.get(&id.value) {
            Some(Record::Lyric(post)) => Ok(
                Lyric { id, title: post.title.clone(), parts: copy_parts(&post.parts) },
            ),
            _ => Err(RepoError::NotFound(id)),
        }
    }

    fn post_lyric(&mut self, lyric: Lyric) -> (posted: Result<Lyric, RepoError>)
        ensures
            match created(old(self)@, lyric.id, lyric_record(lyric@)) {
                Ok(records) => posted == Ok::<Lyric, RepoError>(lyric) && final(self)@ == records,
                Err(error) => posted == Err::<Lyric, RepoError>(error) && final(self)@ == old(
                    self,
                )@,
            },
    {
        broadcast use vstd::std_specs::hash::group_hash_axioms;

        if self.db.contains_key(&lyric.id.value) {
            return Err(RepoError::AlreadyExists(lyric.id));
        }
        let record = Record::Lyric(
            LyricPost { title: lyric.title.clone(), parts: copy_parts(&lyric.parts) },
        );
        proof {
            lemma_records_of_insert(self.db@, lyric.id, record);
        }
        self.db.insert(lyric.id.value, record);
        Ok(lyric)
    }

    fn delete_lyric(&mut self, id: Uuid) -> (deleted: Result<(), RepoError>)
        ensures
            match lyric_deleted(old(self)@, id) {
                Ok(records) => deleted is Ok && final(self)@ == records,
                Err(error) => deleted == Err::<(), RepoError>(error) && final(self)@ == old(self)@,
            },
    {
        broadcast use vstd::std_specs::hash::group_hash_axioms;

        match self.db.remove(&id.value) {
            None => {
                assert(self.db@ =~= old(self).db@);
                Err(RepoError::NotFound(id))
            },
            Some(_) => {
                let ghost left = self.db@;
                let keys = self.keys_of_kind(false);
                let mut next: usize = 0;
                while next < keys.len()
                    invariant
                        next <= keys@.len(),
                        keys@.no_duplicates(),
                        forall|key: u128|
                            keys@.contains(key) <==> left.contains_key(key) && !(left[key] is Lyric),
                        self.db@.dom() == left.dom(),
                        forall|key: u128| #[trigger]
                            left.contains_key(key) ==> self.db@[key]@ == (if keys@.take(
                                next as int,
                            ).contains(key) {
                                cascaded(left[key]@, id)
                            } else {
                                left[key]@
                            }),
                    decreases keys@.len() - next,
                {
                    let key = keys[next];
                    let ghost before = self.db@;
                    assert(keys@.contains(key));
                    let rewritten = match self.db.get(&key) {
                        Some(Record::Playlist(post)) => Some(
                            PlaylistPost {
                                title: post.title.clone(),
                                members: post.members.clone().without(&id),
                            },
                        ),
                        _ => None,
                    };
                    proof {
                        assert(differs_from(id) =~= other_than(id));
                        assert(keys@.take(next + 1) =~= keys@.take(next as int).push(key));
                        assert(!keys@.take(next as int).contains(key));
                    }
                    match rewritten {
                        Some(post) => {
                            self.db.insert(key, Record::Playlist(post));
                        },
                        None => {},
                    }
                    proof {
                        assert(self.db@.dom() =~= left.dom());
                        assert forall|other: u128| #[trigger]
                            left.contains_key(other) implies self.db@[other]@ == (if keys@.take(
                            next + 1,
                        ).contains(other) {
                            cascaded(left[other]@, id)
                        } else {
                            left[other]@
                        }) by {
                            let seen = keys@.take(next as int);
                            if other != key {
                                assert(self.db@[other] == before[other]);
                                if seen.contains(other) {
                                    let i = choose|i: int| 0 <= i < seen.len() && seen[i] == other;
                                    assert(seen.push(key)[i] == other);
                                }
                                assert(seen.push(key).contains(other) == seen.contains(other));
                            } else {
                                assert(seen.push(key)[next as int] == key);
                                assert(seen.push(key).contains(key));
                                assert(!(left[key] is Lyric));
                                assert(before[key]@ == left[key]@);
                                assert(self.db@[key]@ == cascaded(left[key]@, id));
                            }
                        }
                    }
                    next = next + 1;
                }
                proof {
                    assert(keys@.take(next as int) =~= keys@);
                    lemma_records_of_remove(old(self).db@, id);
                    assert(records_of(self.db@) =~= records_of(left).map_values(
                        |record: RecordView| cascaded(record, id),
                    ));
                }
                Ok(())
            },
        }
    }

    fn get_playlist(&self, id: Uuid) -> (found: Result<Playlist, RepoError>)
        ensures
            match playlist_at(self@, id) {
                Ok(playlist) => found is Ok && found->Ok_0@ == playlist,
                Err(error) => found == Err::<Playlist, RepoError>(error),
            },
    {
        broadcast use vstd::std_specs::hash::group_hash_axioms;

        match self.db.get(&id.value) {
            Some(Record::Playlist(post)) => Ok(
                Playlist { id, title: post.title.clone(), members: post.members.clone() },
            ),
            _ => Err(RepoError::NotFound(id)),
        }
    }

    fn post_playlist(&mut self, playlist: Playlist) -> (posted: Result<Playlist, RepoError>)
        ensures
            match created(old(self)@, playlist.id, playlist_record(playlist@)) {
                Ok(records) => posted == Ok::<Playlist, RepoError>(playlist) && final(self)@
                    == records,
                Err(error) => posted == Err::<Playlist, RepoError>(error) && final(self)@ == old(
                    self,
                )@,
            },
    {
        broadcast use vstd::std_specs::hash::group_hash_axioms;

        if self.db.contains_key(&playlist.id.value) {
            return Err(RepoError::AlreadyExists(playlist.id));
        }
        let record = Record::Playlist(
            PlaylistPost { title: playlist.title.clone(), members: playlist.members.clone() },
        );
        proof {
            lemma_records_of_insert(self.db@, playlist.id, record);
        }
        self.db.insert(playlist.id.value, record);
        Ok(playlist)
    }

    fn delete_playlist(&mut self, id: Uuid) -> (deleted: Result<(), RepoError>)
        ensures
            match playlist_deleted(old(self)@, id) {
                Ok(records) => deleted is Ok && final(self)@ == records,
                Err(error) => deleted == Err::<(), RepoError>(error) && final(self)@ == old(self)@,
            },
    {
        broadcast use vstd::std_specs::hash::group_hash_axioms;

        proof {
            lemma_records_of_remove(self.db@, id);
        }
        match self.db.remove(&id.value) {
            Some(_) => Ok(()),
            None => {
                assert(self.db@ =~= old(self).db@);
                Err(RepoError::NotFound(id))
            },
        }
    }

    fn stop(&self) -> (stopped: Result<(), RepoError>)
        ensures
            stopped is Ok,
    {
        Ok(())
    }
}

} // verus!
