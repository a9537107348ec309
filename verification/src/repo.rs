//! What every store of lyrics and playlists offers, whatever it keeps its
//! records in.

use vstd::prelude::*;

use crate::error::RepoError;
use crate::model::Lyric;
use crate::model::LyricView;
use crate::model::Playlist;
use crate::model::PlaylistView;
use crate::model::Summary;
use crate::store::created;
use crate::store::is_lyric_list;
use crate::store::is_lyric_summary_list;
use crate::store::is_playlist_list;
use crate::store::is_playlist_summary_list;
use crate::store::lyric_at;
use crate::store::lyric_deleted;
use crate::store::lyric_record;
use crate::store::playlist_at;
use crate::store::playlist_deleted;
use crate::store::playlist_record;
use crate::store::RecordView;
use crate::uuid::Uuid;

verus! {

/// A store of lyrics and playlists. Every operation either answers from the
/// records, or changes them as stated, or reports `BackendFailure` and
/// leaves them as they are.
pub trait LiplRepo: Sized {
    /// The records of the store, by identifier.
    spec fn records(&self) -> Map<Uuid, RecordView>;

    /// All lyrics, each once, by ascending title.
    fn get_lyrics(&self) -> (listed: Result<Vec<Lyric>, RepoError>)
        ensures
            match listed {
                Ok(list) => is_lyric_list(self.records(), list.deep_view()),
                Err(error) => error == RepoError::BackendFailure,
            },
    ;

    /// The summaries of all lyrics, each once, by ascending title.
    fn get_lyric_summaries(&self) -> (listed: Result<Vec<Summary>, RepoError>)
        ensures
            match listed {
                Ok(list) => is_lyric_summary_list(self.records(), list.deep_view()),
                Err(error) => error == RepoError::BackendFailure,
            },
    ;

    /// The lyric under `id`; `NotFound(id)` where there is none.
    fn get_lyric(&self, id: Uuid) -> (found: Result<Lyric, RepoError>)
        ensures
            match found {
                Ok(lyric) => lyric_at(self.records(), id) == Ok::<LyricView, RepoError>(lyric@),
                Err(error) => error == RepoError::BackendFailure || lyric_at(self.records(), id)
                    == Err::<LyricView, RepoError>(error),
            },
    ;

    /// Stores `lyric` under its identifier and hands it back;
    /// `AlreadyExists` where the identifier is taken.
    fn post_lyric(&mut self, lyric: Lyric) -> (posted: Result<Lyric, RepoError>)
        ensures
            match posted {
                Ok(stored) => stored == lyric && created(
                    old(self).records(),
                    lyric.id,
                    lyric_record(lyric@),
                ) == Ok::<Map<Uuid, RecordView>, RepoError>(final(self).records()),
                Err(error) => final(self).records() == old(self).records() && (error
                    == RepoError::BackendFailure || created(
                    old(self).records(),
                    lyric.id,
                    lyric_record(lyric@),
                ) == Err::<Map<Uuid, RecordView>, RepoError>(error)),
            },
    ;

    /// Takes away what is stored under `id`, and `id` from the members of
    /// every playlist; `NotFound(id)` where nothing is stored under `id`.
    fn delete_lyric(&mut self, id: Uuid) -> (deleted: Result<(), RepoError>)
        ensures
            match deleted {
                Ok(_) => lyric_deleted(old(self).records(), id) == Ok::<
                    Map<Uuid, RecordView>,
                    RepoError,
                >(final(self).records()),
                Err(error) => final(self).records() == old(self).records() && (error
                    == RepoError::BackendFailure || lyric_deleted(old(self).records(), id) == Err::<
                    Map<Uuid, RecordView>,
                    RepoError,
                >(error)),
            },
    ;

    /// All playlists, each once, by ascending title.
    fn get_playlists(&self) -> (listed: Result<Vec<Playlist>, RepoError>)
        ensures
            match listed {
                Ok(list) => is_playlist_list(self.records(), list.deep_view()),
                Err(error) => error == RepoError::BackendFailure,
            },
    ;

    /// The summaries of all playlists, each once, by ascending title.
    fn get_playlist_summaries(&self) -> (listed: Result<Vec<Summary>, RepoError>)
        ensures
            match listed {
                Ok(list) => is_playlist_summary_list(self.records(), list.deep_view()),
                Err(error) => error == RepoError::BackendFailure,
            },
    ;

    /// The playlist under `id`; `NotFound(id)` where there is none.
    fn get_playlist(&self, id: Uuid) -> (found: Result<Playlist, RepoError>)
        ensures
            match found {
                Ok(playlist) => playlist_at(self.records(), id) == Ok::<PlaylistView, RepoError>(
                    playlist@,
                ),
                Err(error) => error == RepoError::BackendFailure || playlist_at(
                    self.records(),
                    id,
                ) == Err::<PlaylistView, RepoError>(error),
            },
    ;

    /// Stores `playlist` under its identifier and hands it back;
    /// `AlreadyExists` where the identifier is taken. Whether the members
    /// are stored as lyrics is not asked.
    fn post_playlist(&mut self, playlist: Playlist) -> (posted: Result<Playlist, RepoError>)
        ensures
            match posted {
                Ok(stored) => stored == playlist && created(
                    old(self).records(),
                    playlist.id,
                    playlist_record(playlist@),
                ) == Ok::<Map<Uuid, RecordView>, RepoError>(final(self).records()),
                Err(error) => final(self).records() == old(self).records() && (error
                    == RepoError::BackendFailure || created(
                    old(self).records(),
                    playlist.id,
                    playlist_record(playlist@),
                ) == Err::<Map<Uuid, RecordView>, RepoError>(error)),
            },
    ;

    /// Takes away what is stored under `id` and nothing else; `NotFound(id)`
    /// where nothing is stored under `id`.
    fn delete_playlist(&mut self, id: Uuid) -> (deleted: Result<(), RepoError>)
        ensures
            match deleted {
                Ok(_) => playlist_deleted(old(self).records(), id) == Ok::<
                    Map<Uuid, RecordView>,
                    RepoError,
                >(final(self).records()),
                Err(error) => final(self).records() == old(self).records() && (error
                    == RepoError::BackendFailure || playlist_deleted(old(self).records(), id)
                    == Err::<Map<Uuid, RecordView>, RepoError>(error)),
            },
    ;

    /// Lets go of what the store holds outside the program. The records
    /// stay, and stopping again is allowed.
    fn stop(&self) -> (stopped: Result<(), RepoError>)
        ensures
            stopped is Err ==> stopped == Err::<(), RepoError>(RepoError::BackendFailure),
    ;
}

} // verus!
