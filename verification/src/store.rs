//! What a store holds and how the operations change it, as mathematics.
//!
//! A store is a map from identifiers to records. Lyrics and playlists share
//! the identifiers: under one identifier there is at most one record.

use vstd::prelude::*;

use crate::error::RepoError;
use crate::model::LyricPostView;
use crate::model::LyricView;
use crate::model::PlaylistPostView;
use crate::model::PlaylistView;
use crate::model::SummaryView;
use crate::order::titles_ascend;
use crate::uuid::Uuid;

verus! {

/// What is stored under an identifier: a lyric or a playlist.
pub enum RecordView {
    Lyric(LyricPostView),
    Playlist(PlaylistPostView),
}

/// The record that stands for a lyric.
pub open spec fn lyric_record(lyric: LyricView) -> RecordView {
    RecordView::Lyric(LyricPostView { title: lyric.title, parts: lyric.parts })
}

/// The record that stands for a playlist.
pub open spec fn playlist_record(playlist: PlaylistView) -> RecordView {
    RecordView::Playlist(PlaylistPostView { title: playlist.title, members: playlist.members })
}

/// The lyric under `id`. A playlist under `id` counts as no lyric.
pub open spec fn lyric_at(records: Map<Uuid, RecordView>, id: Uuid) -> Result<
    LyricView,
    RepoError,
> {
    if records.contains_key(id) {
        match records[id] {
            RecordView::Lyric(post) => Ok(LyricView { id, title: post.title, parts: post.parts }),
            RecordView::Playlist(_) => Err(RepoError::NotFound(id)),
        }
    } else {
        Err(RepoError::NotFound(id))
    }
}

/// The playlist under `id`. A lyric under `id` counts as no playlist.
pub open spec fn playlist_at(records: Map<Uuid, RecordView>, id: Uuid) -> Result<
    PlaylistView,
    RepoError,
> {
    if records.contains_key(id) {
        match records[id] {
            RecordView::Playlist(post) => Ok(
                PlaylistView { id, title: post.title, members: post.members },
            ),
            RecordView::Lyric(_) => Err(RepoError::NotFound(id)),
        }
    } else {
        Err(RepoError::NotFound(id))
    }
}

/// The lyrics of a store.
pub open spec fn stored_lyrics(records: Map<Uuid, RecordView>) -> Set<LyricView> {
    Set::new(|lyric: LyricView| lyric_at(records, lyric.id) == Ok::<LyricView, RepoError>(lyric))
}

/// The playlists of a store.
pub open spec fn stored_playlists(records: Map<Uuid, RecordView>) -> Set<PlaylistView> {
    Set::new(
        |playlist: PlaylistView|
            playlist_at(records, playlist.id) == Ok::<PlaylistView, RepoError>(playlist),
    )
}

/// The summaries of the lyrics of a store.
pub open spec fn stored_lyric_summaries(records: Map<Uuid, RecordView>) -> Set<SummaryView> {
    Set::new(
        |summary: SummaryView|
            lyric_at(records, summary.id) matches Ok(lyric) && lyric.title == summary.title,
    )
}

/// The summaries of the playlists of a store.
pub open spec fn stored_playlist_summaries(records: Map<Uuid, RecordView>) -> Set<SummaryView> {
    Set::new(
        |summary: SummaryView|
            playlist_at(records, summary.id) matches Ok(playlist) && playlist.title
                == summary.title,
    )
}

/// Whether `list` names every member of `all`, each once, and nothing else.
pub open spec fn lists_each_once<V>(list: Seq<V>, all: Set<V>) -> bool {
    list.no_duplicates() && list.to_set() == all
}

/// The titles of a list of lyrics.
pub open spec fn lyric_titles(list: Seq<LyricView>) -> Seq<Seq<char>> {
    Seq::new(list.len(), |i: int| list[i].title)
}

/// The titles of a list of playlists.
pub open spec fn playlist_titles(list: Seq<PlaylistView>) -> Seq<Seq<char>> {
    Seq::new(list.len(), |i: int| list[i].title)
}

/// The titles of a list of summaries.
pub open spec fn summary_titles(list: Seq<SummaryView>) -> Seq<Seq<char>> {
    Seq::new(list.len(), |i: int| list[i].title)
}

/// Whether `list` is the list of the lyrics of a store: each once, the
/// titles ascending.
pub open spec fn is_lyric_list(records: Map<Uuid, RecordView>, list: Seq<LyricView>) -> bool {
    lists_each_once(list, stored_lyrics(records)) && titles_ascend(lyric_titles(list))
}

/// Whether `list` is the list of the playlists of a store: each once, the
/// titles ascending.
pub open spec fn is_playlist_list(
    records: Map<Uuid, RecordView>,
    list: Seq<PlaylistView>,
) -> bool {
    lists_each_once(list, stored_playlists(records)) && titles_ascend(playlist_titles(list))
}

/// Whether `list` is the list of the summaries of the lyrics of a store.
pub open spec fn is_lyric_summary_list(
    records: Map<Uuid, RecordView>,
    list: Seq<SummaryView>,
) -> bool {
    lists_each_once(list, stored_lyric_summaries(records)) && titles_ascend(summary_titles(list))
}

/// Whether `list` is the list of the summaries of the playlists of a store.
pub open spec fn is_playlist_summary_list(
    records: Map<Uuid, RecordView>,
    list: Seq<SummaryView>,
) -> bool {
    lists_each_once(list, stored_playlist_summaries(records)) && titles_ascend(
        summary_titles(list),
    )
}

/// The store after `record` was created under `id`: refused where the
/// identifier is taken.
pub open spec fn created(records: Map<Uuid, RecordView>, id: Uuid, record: RecordView) -> Result<
    Map<Uuid, RecordView>,
    RepoError,
> {
    if records.contains_key(id) {
        Err(RepoError::AlreadyExists(id))
    } else {
        Ok(records.insert(id, record))
    }
}

/// Holds of every identifier but `id`.
pub open spec fn other_than(id: Uuid) -> spec_fn(Uuid) -> bool {
    |member: Uuid| member != id
}

/// The members that are left when `id` is taken away: every occurrence of
/// `id` is gone, the others keep their order.
pub open spec fn members_without(members: Seq<Uuid>, id: Uuid) -> Seq<Uuid> {
    members.filter(other_than(id))
}

/// A record after the lyric `id` went: a playlist loses `id` among its
/// members, a lyric stays as it is.
pub open spec fn cascaded(record: RecordView, id: Uuid) -> RecordView {
    match record {
        RecordView::Playlist(post) => RecordView::Playlist(
            PlaylistPostView { title: post.title, members: members_without(post.members, id) },
        ),
        RecordView::Lyric(post) => RecordView::Lyric(post),
    }
}

/// The store after the lyric `id` was deleted: the record under `id` is
/// gone and no playlist has `id` as a member any more. Refused where nothing
/// is stored under `id`.
pub open spec fn lyric_deleted(records: Map<Uuid, RecordView>, id: Uuid) -> Result<
    Map<Uuid, RecordView>,
    RepoError,
> {
    if records.contains_key(id) {
        Ok(records.remove(id).map_values(|record: RecordView| cascaded(record, id)))
    } else {
        Err(RepoError::NotFound(id))
    }
}

/// The store after the playlist `id` was deleted: the record under `id` is
/// gone, all others are as they were. Refused where nothing is stored under
/// `id`.
pub open spec fn playlist_deleted(records: Map<Uuid, RecordView>, id: Uuid) -> Result<
    Map<Uuid, RecordView>,
    RepoError,
> {
    if records.contains_key(id) {
        Ok(records.remove(id))
    } else {
        Err(RepoError::NotFound(id))
    }
}

/// `records` with the lyrics of `lyrics` put in, one after the other. A
/// later one replaces what was under its identifier.
pub open spec fn with_lyrics(records: Map<Uuid, RecordView>, lyrics: Seq<LyricView>) -> Map<
    Uuid,
    RecordView,
>
    decreases lyrics.len(),
{
    if lyrics.len() == 0 {
        records
    } else {
        with_lyrics(records, lyrics.drop_last()).insert(
            lyrics.last().id,
            lyric_record(lyrics.last()),
        )
    }
}

/// `records` with the playlists of `playlists` put in, one after the other.
/// A later one replaces what was under its identifier.
pub open spec fn with_playlists(
    records: Map<Uuid, RecordView>,
    playlists: Seq<PlaylistView>,
) -> Map<Uuid, RecordView>
    decreases playlists.len(),
{
    if playlists.len() == 0 {
        records
    } else {
        with_playlists(records, playlists.drop_last()).insert(
            playlists.last().id,
            playlist_record(playlists.last()),
        )
    }
}

/// The store that is made of lists of lyrics and playlists: the lyrics are
/// put in first, then the playlists.
pub open spec fn built(lyrics: Seq<LyricView>, playlists: Seq<PlaylistView>) -> Map<
    Uuid,
    RecordView,
> {
    with_playlists(with_lyrics(Map::empty(), lyrics), playlists)
}

/// What the items of a list hold, as mathematical values.
pub open spec fn views_of<T: DeepView>(items: Seq<T>) -> Seq<T::V> {
    Seq::new(items.len(), |i: int| items[i].deep_view())
}

/// A list that names every member of a set once still does so when its
/// items are put in another order.
pub proof fn lemma_rearranged_list<T: DeepView>(before: Seq<T>, after: Seq<T>, all: Set<T::V>)
    requires
        before.to_multiset() == after.to_multiset(),
        lists_each_once(views_of(before), all),
    ensures
        lists_each_once(views_of(after), all),
{
    broadcast use vstd::seq_lib::group_to_multiset_ensures;

    let old_views = views_of(before);
    let new_views = views_of(after);
    assert forall|i: int, j: int| 0 <= i < j < before.len() implies before[i] != before[j] by {
        assert(old_views[i] != old_views[j]);
    }
    before.lemma_multiset_has_no_duplicates();
    after.lemma_multiset_has_no_duplicates_conv();
    assert forall|i: int| 0 <= i < after.len() implies before.contains(#[trigger] after[i]) by {
        assert(after.contains(after[i]));
        assert(after.to_multiset().count(after[i]) > 0);
    }
    assert forall|i: int| 0 <= i < before.len() implies after.contains(#[trigger] before[i]) by {
        assert(before.contains(before[i]));
        assert(before.to_multiset().count(before[i]) > 0);
    }
    assert forall|i: int, j: int|
        0 <= i < new_views.len() && 0 <= j < new_views.len() && i != j implies new_views[i]
        != new_views[j] by {
        if new_views[i] == new_views[j] {
            let a = choose|a: int| 0 <= a < before.len() && before[a] == after[i];
            let b = choose|b: int| 0 <= b < before.len() && before[b] == after[j];
            assert(old_views[a] == new_views[i]);
            assert(old_views[b] == new_views[j]);
            assert(a == b);
            assert(after[i] == after[j]);
        }
    }
    assert forall|view: T::V| new_views.to_set().contains(view) <==> all.contains(view) by {
        if new_views.to_set().contains(view) {
            let i = choose|i: int| 0 <= i < new_views.len() && new_views[i] == view;
            let a = choose|a: int| 0 <= a < before.len() && before[a] == after[i];
            assert(old_views[a] == view);
            assert(old_views.to_set().contains(view));
        }
        if all.contains(view) {
            assert(old_views.to_set().contains(view));
            let a = choose|a: int| 0 <= a < old_views.len() && old_views[a] == view;
            let i = choose|i: int| 0 <= i < after.len() && after[i] == before[a];
            assert(new_views[i] == view);
        }
    }
    assert(new_views.to_set() =~= all);
}

} // verus!
