//! Song lyrics and the playlists that refer to them, kept in one store
//! with a single space of identifiers.
//!
//! - `uuid`: the identifier, its bytes and its text.
//! - `model`: lyrics, playlists, summaries and their conversions.
//! - `order`: the order of titles, and a stable merge sort by it.
//! - `compare`: three-way comparison of records by title.
//! - `store`: what a store holds and how each operation changes it, as
//!   mathematics.
//! - `repo`: the operations that every store offers.
//! - `memory`: the store in memory.
//! - `laws`: what holds of every store.
//! - `tag`: the tag by which a change of content is noticed.
//! - `text`: records as text for a reader.
//!
//! A store is changed through `&mut`, so that whoever reads it sees the
//! outcome of whole operations only. To share one store among many callers,
//! put it behind a lock.

pub mod compare;
pub mod error;
pub mod laws;
pub mod memory;
pub mod model;
pub mod order;
pub mod repo;
pub mod store;
pub mod tag;
pub mod text;
pub mod uuid;

pub use crate::compare::compare_title;
pub use crate::compare::lyric_compare_title;
pub use crate::compare::playlist_compare_title;
pub use crate::error::RepoError;
pub use crate::memory::InMemoryDb;
pub use crate::model::ids;
pub use crate::model::summaries;
pub use crate::model::summary;
pub use crate::model::Frontmatter;
pub use crate::model::HasId;
pub use crate::model::HasSummary;
pub use crate::model::Lyric;
pub use crate::model::LyricMeta;
pub use crate::model::LyricPost;
pub use crate::model::Playlist;
pub use crate::model::PlaylistPost;
pub use crate::model::RepoDb;
pub use crate::model::Summary;
pub use crate::model::Without;
pub use crate::order::sort_by_title;
pub use crate::order::Titled;
pub use crate::repo::LiplRepo;
pub use crate::tag::etag;
pub use crate::uuid::to_base58_list;
pub use crate::uuid::to_inner;
pub use crate::uuid::try_from_base58_list;
pub use crate::uuid::Uuid;
pub use crate::uuid::UuidExt;
