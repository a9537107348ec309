//! What holds of every store, proved from the description of the
//! operations.

use vstd::prelude::*;

use crate::error::RepoError;
use crate::model::LyricView;
use crate::model::PlaylistView;
use crate::model::SummaryView;
use crate::store::built;
use crate::store::created;
use crate::store::lists_each_once;
use crate::store::lyric_at;
use crate::store::lyric_deleted;
use crate::store::lyric_record;
use crate::store::members_without;
use crate::store::other_than;
use crate::store::playlist_at;
use crate::store::playlist_deleted;
use crate::store::playlist_record;
use crate::store::stored_playlist_summaries;
use crate::store::stored_lyrics;
use crate::store::stored_playlists;
use crate::store::with_lyrics;
use crate::store::with_playlists;
use crate::store::RecordView;
use crate::uuid::Uuid;

verus! {

/// No two records share an identifier: in the lists of the lyrics and of the
/// playlists of one store, every identifier occurs once, in one of the two.
pub proof fn lemma_identifiers_are_unique(
    records: Map<Uuid, RecordView>,
    lyrics: Seq<LyricView>,
    playlists: Seq<PlaylistView>,
)
    requires
        lists_each_once(lyrics, stored_lyrics(records)),
        lists_each_once(playlists, stored_playlists(records)),
    ensures
        forall|i: int, j: int|
            0 <= i < lyrics.len() && 0 <= j < lyrics.len() && i != j ==> lyrics[i].id
                != lyrics[j].id,
        forall|i: int, j: int|
            0 <= i < playlists.len() && 0 <= j < playlists.len() && i != j ==> playlists[i].id
                != playlists[j].id,
        forall|i: int, j: int|
            0 <= i < lyrics.len() && 0 <= j < playlists.len() ==> lyrics[i].id != playlists[j].id,
{
    assert forall|i: int| 0 <= i < lyrics.len() implies lyric_at(records, lyrics[i].id) == Ok::<
        LyricView,
        RepoError,
    >(#[trigger] lyrics[i]) by {
        assert(lyrics.to_set().contains(lyrics[i]));
    }
    assert forall|j: int| 0 <= j < playlists.len() implies playlist_at(records, playlists[j].id)
        == Ok::<PlaylistView, RepoError>(#[trigger] playlists[j]) by {
        assert(playlists.to_set().contains(playlists[j]));
    }
}

/// Creating under an identifier that is taken is refused with
/// `AlreadyExists`; creating under a free one adds the record and changes
/// nothing else.
pub proof fn lemma_create(records: Map<Uuid, RecordView>, id: Uuid, record: RecordView)
    ensures
        records.contains_key(id) ==> created(records, id, record) == Err::<
            Map<Uuid, RecordView>,
            RepoError,
        >(RepoError::AlreadyExists(id)),
        !records.contains_key(id) ==> created(records, id, record) == Ok::<
            Map<Uuid, RecordView>,
            RepoError,
        >(records.insert(id, record)),
        forall|other: Uuid|
            other != id && records.contains_key(other) ==> records.insert(id, record)[other]
                == records[other],
{
}

/// What was created is found under its identifier, as the kind that it was
/// created as, and whatever else is asked for is answered as before.
pub proof fn lemma_created_is_found(
    records: Map<Uuid, RecordView>,
    lyric: LyricView,
    playlist: PlaylistView,
)
    ensures
        created(records, lyric.id, lyric_record(lyric)) matches Ok(after) ==> {
            &&& lyric_at(after, lyric.id) == Ok::<LyricView, RepoError>(lyric)
            &&& playlist_at(after, lyric.id) is Err
            &&& forall|other: Uuid|
                other != lyric.id ==> lyric_at(after, other) == lyric_at(records, other)
                    && playlist_at(after, other) == playlist_at(records, other)
        },
        created(records, playlist.id, playlist_record(playlist)) matches Ok(after) ==> {
            &&& playlist_at(after, playlist.id) == Ok::<PlaylistView, RepoError>(playlist)
            &&& lyric_at(after, playlist.id) is Err
            &&& forall|other: Uuid|
                other != playlist.id ==> lyric_at(after, other) == lyric_at(records, other)
                    && playlist_at(after, other) == playlist_at(records, other)
        },
{
}

/// A store into which one playlist was created, and nothing else, lists the
/// summary of that playlist and no other summary.
pub proof fn lemma_first_playlist_is_listed(playlist: PlaylistView, list: Seq<SummaryView>)
    requires
        lists_each_once(
            list,
            stored_playlist_summaries(
                created(Map::empty(), playlist.id, playlist_record(playlist))->Ok_0,
            ),
        ),
    ensures
        created(Map::empty(), playlist.id, playlist_record(playlist)) is Ok,
        list == seq![SummaryView { id: playlist.id, title: playlist.title }],
{
    let after = created(Map::empty(), playlist.id, playlist_record(playlist))->Ok_0;
    let only = SummaryView { id: playlist.id, title: playlist.title };
    assert(stored_playlist_summaries(after).contains(only));
    assert(list.to_set().contains(only));
    assert forall|i: int| 0 <= i < list.len() implies #[trigger] list[i] == only by {
        assert(list.to_set().contains(list[i]));
    }
    if list.len() > 1 {
        assert(list[0] == list[1]);
    }
    assert(list =~= seq![only]);
}

/// After a lyric was deleted, nothing is stored under its identifier, no
/// playlist has it as a member, every other lyric is as it was, and every
/// other playlist has lost nothing but that member.
pub proof fn lemma_delete_lyric_cascades(
    records: Map<Uuid, RecordView>,
    id: Uuid,
    after: Map<Uuid, RecordView>,
)
    requires
        lyric_deleted(records, id) == Ok::<Map<Uuid, RecordView>, RepoError>(after),
    ensures
        lyric_at(after, id) == Err::<LyricView, RepoError>(RepoError::NotFound(id)),
        playlist_at(after, id) == Err::<PlaylistView, RepoError>(RepoError::NotFound(id)),
        forall|other: Uuid| other != id ==> lyric_at(after, other) == lyric_at(records, other),
        forall|other: Uuid|
            other != id ==> #[trigger] playlist_at(after, other) == match playlist_at(
                records,
                other,
            ) {
                Ok(playlist) => Ok(
                    PlaylistView {
                        id: other,
                        title: playlist.title,
                        members: members_without(playlist.members, id),
                    },
                ),
                Err(error) => Err(error),
            },
        forall|other: Uuid|
            playlist_at(after, other) is Ok ==> !(#[trigger] playlist_at(
                after,
                other,
            ))->Ok_0.members.contains(id),
{
    assert forall|other: Uuid| playlist_at(after, other) is Ok implies !playlist_at(
        after,
        other,
    )->Ok_0.members.contains(id) by {
        let before = playlist_at(records, other)->Ok_0.members;
        let left = playlist_at(after, other)->Ok_0.members;
        assert(left == before.filter(other_than(id)));
        if left.contains(id) {
            let i = choose|i: int| 0 <= i < left.len() && left[i] == id;
            before.lemma_filter_pred(other_than(id), i);
        }
    }
}

/// Deleting a lyric a second time fails with `NotFound`. So does deleting a
/// playlist a second time.
pub proof fn lemma_delete_twice(
    records: Map<Uuid, RecordView>,
    id: Uuid,
    after: Map<Uuid, RecordView>,
)
    ensures
        lyric_deleted(records, id) == Ok::<Map<Uuid, RecordView>, RepoError>(after)
            ==> lyric_deleted(after, id) == Err::<Map<Uuid, RecordView>, RepoError>(
            RepoError::NotFound(id),
        ),
        playlist_deleted(records, id) == Ok::<Map<Uuid, RecordView>, RepoError>(after)
            ==> playlist_deleted(after, id) == Err::<Map<Uuid, RecordView>, RepoError>(
            RepoError::NotFound(id),
        ),
{
}

/// Deleting a playlist leaves every other record as it was.
pub proof fn lemma_delete_playlist_is_local(
    records: Map<Uuid, RecordView>,
    id: Uuid,
    after: Map<Uuid, RecordView>,
)
    requires
        playlist_deleted(records, id) == Ok::<Map<Uuid, RecordView>, RepoError>(after),
    ensures
        !after.contains_key(id),
        forall|other: Uuid|
            other != id ==> after.contains_key(other) == records.contains_key(other) && (
            records.contains_key(other) ==> after[other] == records[other]),
{
}

/// What `with_lyrics` holds under each identifier, for lyrics of which no two
/// share an identifier.
proof fn lemma_with_lyrics(records: Map<Uuid, RecordView>, lyrics: Seq<LyricView>)
    requires
        forall|i: int, j: int|
            0 <= i < lyrics.len() && 0 <= j < lyrics.len() && i != j ==> lyrics[i].id
                != lyrics[j].id,
    ensures
        forall|id: Uuid| #[trigger]
            with_lyrics(records, lyrics).contains_key(id) <==> records.contains_key(id) || exists|
                i: int,
            |
                0 <= i < lyrics.len() && (#[trigger] lyrics[i]).id == id,
        forall|i: int|
            0 <= i < lyrics.len() ==> with_lyrics(records, lyrics)[#[trigger] lyrics[i].id]
                == lyric_record(lyrics[i]),
        forall|id: Uuid|
            (forall|i: int| 0 <= i < lyrics.len() ==> lyrics[i].id != id) ==> with_lyrics(
                records,
                lyrics,
            )[id] == records[id],
    decreases lyrics.len(),
{
    if lyrics.len() > 0 {
        let front = lyrics.drop_last();
        let last = lyrics.last();
        lemma_with_lyrics(records, front);
        assert forall|id: Uuid|
            with_lyrics(records, lyrics).contains_key(id) implies records.contains_key(id)
            || exists|i: int| 0 <= i < lyrics.len() && lyrics[i].id == id by {
            if id == last.id {
                assert(lyrics[lyrics.len() - 1].id == id);
            } else if !records.contains_key(id) {
                let i = choose|i: int| 0 <= i < front.len() && front[i].id == id;
                assert(lyrics[i].id == id);
            }
        }
        assert forall|id: Uuid|
            records.contains_key(id) || (exists|i: int|
                0 <= i < lyrics.len() && lyrics[i].id == id) implies with_lyrics(
            records,
            lyrics,
        ).contains_key(id) by {
            if id != last.id && !records.contains_key(id) {
                let i = choose|i: int| 0 <= i < lyrics.len() && lyrics[i].id == id;
                assert(front[i].id == id);
            }
        }
        assert forall|i: int| 0 <= i < lyrics.len() implies with_lyrics(
            records,
            lyrics,
        )[#[trigger] lyrics[i].id] == lyric_record(lyrics[i]) by {
            if i < lyrics.len() - 1 {
                assert(front[i] == lyrics[i]);
                assert(lyrics[i].id != last.id);
            }
        }
        assert forall|id: Uuid|
            (forall|i: int| 0 <= i < lyrics.len() ==> lyrics[i].id != id) implies with_lyrics(
            records,
            lyrics,
        )[id] == records[id] by {
            assert(lyrics[lyrics.len() - 1].id != id);
            assert forall|i: int| 0 <= i < front.len() implies front[i].id != id by {
                assert(lyrics[i].id != id);
            }
        }
    }
}

/// What `with_playlists` holds under each identifier, for playlists of which
/// no two share an identifier.
proof fn lemma_with_playlists(records: Map<Uuid, RecordView>, playlists: Seq<PlaylistView>)
    requires
        forall|i: int, j: int|
            0 <= i < playlists.len() && 0 <= j < playlists.len() && i != j ==> playlists[i].id
                != playlists[j].id,
    ensures
        forall|id: Uuid| #[trigger]
            with_playlists(records, playlists).contains_key(id) <==> records.contains_key(id)
                || exists|i: int| 0 <= i < playlists.len() && (#[trigger] playlists[i]).id == id,
        forall|i: int|
            0 <= i < playlists.len() ==> with_playlists(
                records,
                playlists,
            )[#[trigger] playlists[i].id] == playlist_record(playlists[i]),
        forall|id: Uuid|
            (forall|i: int| 0 <= i < playlists.len() ==> playlists[i].id != id) ==> with_playlists(
                records,
                playlists,
            )[id] == records[id],
    decreases playlists.len(),
{
    if playlists.len() > 0 {
        let front = playlists.drop_last();
        let last = playlists.last();
        lemma_with_playlists(records, front);
        assert forall|id: Uuid|
            with_playlists(records, playlists).contains_key(id) implies records.contains_key(id)
            || exists|i: int| 0 <= i < playlists.len() && playlists[i].id == id by {
            if id == last.id {
                assert(playlists[playlists.len() - 1].id == id);
            } else if !records.contains_key(id) {
                let i = choose|i: int| 0 <= i < front.len() && front[i].id == id;
                assert(playlists[i].id == id);
            }
        }
        assert forall|id: Uuid|
            records.contains_key(id) || (exists|i: int|
                0 <= i < playlists.len() && playlists[i].id == id) implies with_playlists(
            records,
            playlists,
        ).contains_key(id) by {
            if id != last.id && !records.contains_key(id) {
                let i = choose|i: int| 0 <= i < playlists.len() && playlists[i].id == id;
                assert(front[i].id == id);
            }
        }
        assert forall|i: int| 0 <= i < playlists.len() implies with_playlists(
            records,
            playlists,
        )[#[trigger] playlists[i].id] == playlist_record(playlists[i]) by {
            if i < playlists.len() - 1 {
                assert(front[i] == playlists[i]);
                assert(playlists[i].id != last.id);
            }
        }
        assert forall|id: Uuid|
            (forall|i: int| 0 <= i < playlists.len() ==> playlists[i].id != id)
            implies with_playlists(records, playlists)[id] == records[id] by {
            assert(playlists[playlists.len() - 1].id != id);
            assert forall|i: int| 0 <= i < front.len() implies front[i].id != id by {
                assert(playlists[i].id != id);
            }
        }
    }
}

/// A store is built again from its lyrics and playlists: whatever lists name
/// each lyric and each playlist of a store once, the store made of them is
/// that store.
pub proof fn lemma_snapshot_round_trip(
    records: Map<Uuid, RecordView>,
    lyrics: Seq<LyricView>,
    playlists: Seq<PlaylistView>,
)
    requires
        lists_each_once(lyrics, stored_lyrics(records)),
        lists_each_once(playlists, stored_playlists(records)),
    ensures
        built(lyrics, playlists) == records,
{
    lemma_identifiers_are_unique(records, lyrics, playlists);
    let half = with_lyrics(Map::empty(), lyrics);
    let whole = built(lyrics, playlists);
    lemma_with_lyrics(Map::empty(), lyrics);
    lemma_with_playlists(half, playlists);
    assert forall|i: int| 0 <= i < lyrics.len() implies lyric_at(records, lyrics[i].id) == Ok::<
        LyricView,
        RepoError,
    >(#[trigger] lyrics[i]) by {
        assert(lyrics.to_set().contains(lyrics[i]));
    }
    assert forall|j: int| 0 <= j < playlists.len() implies playlist_at(records, playlists[j].id)
        == Ok::<PlaylistView, RepoError>(#[trigger] playlists[j]) by {
        assert(playlists.to_set().contains(playlists[j]));
    }
    assert forall|id: Uuid| whole.contains_key(id) == records.contains_key(id) by {
        if records.contains_key(id) {
            match records[id] {
                RecordView::Lyric(post) => {
                    let lyric = LyricView { id, title: post.title, parts: post.parts };
                    assert(stored_lyrics(records).contains(lyric));
                    assert(lyrics.to_set().contains(lyric));
                    let i = choose|i: int| 0 <= i < lyrics.len() && lyrics[i] == lyric;
                    assert(lyrics[i].id == id);
                    assert(half.contains_key(id));
                },
                RecordView::Playlist(post) => {
                    let playlist = PlaylistView { id, title: post.title, members: post.members };
                    assert(stored_playlists(records).contains(playlist));
                    assert(playlists.to_set().contains(playlist));
                    let j = choose|j: int| 0 <= j < playlists.len() && playlists[j] == playlist;
                    assert(playlists[j].id == id);
                },
            }
        }
        if whole.contains_key(id) {
            if exists|j: int| 0 <= j < playlists.len() && playlists[j].id == id {
                let j = choose|j: int| 0 <= j < playlists.len() && playlists[j].id == id;
                assert(playlist_at(records, playlists[j].id) is Ok);
            } else {
                assert(half.contains_key(id));
                let i = choose|i: int| 0 <= i < lyrics.len() && lyrics[i].id == id;
                assert(lyric_at(records, lyrics[i].id) is Ok);
            }
        }
    }
    assert forall|id: Uuid| whole.contains_key(id) implies whole[id] == records[id] by {
        if exists|j: int| 0 <= j < playlists.len() && playlists[j].id == id {
            let j = choose|j: int| 0 <= j < playlists.len() && playlists[j].id == id;
            assert(whole[playlists[j].id] == playlist_record(playlists[j]));
            assert(playlist_at(records, playlists[j].id) is Ok);
        } else {
            assert(whole[id] == half[id]);
            assert(half.contains_key(id));
            let i = choose|i: int| 0 <= i < lyrics.len() && lyrics[i].id == id;
            assert(half[lyrics[i].id] == lyric_record(lyrics[i]));
            assert(lyric_at(records, lyrics[i].id) is Ok);
        }
    }
    assert(whole =~= records);
}

} // verus!
