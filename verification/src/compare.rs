//! Three-way comparison by title.

use std::cmp::Ordering;
use vstd::prelude::*;

use crate::model::Lyric;
use crate::model::Playlist;
use crate::model::Summary;
use crate::order::str_le;
use crate::order::title_le;

verus! {

/// How title `a` stands to title `b`.
pub open spec fn title_order(a: Seq<char>, b: Seq<char>) -> Ordering {
    if !title_le(a, b) {
        Ordering::Greater
    } else if !title_le(b, a) {
        Ordering::Less
    } else {
        Ordering::Equal
    }
}

/// How title `a` stands to title `b`.
fn compare_str(a: &str, b: &str) -> (order: Ordering)
    ensures
        order == title_order(a@, b@),
{
    if !str_le(a, b) {
        Ordering::Greater
    } else if !str_le(b, a) {
        Ordering::Less
    } else {
        Ordering::Equal
    }
}

/// Compares two summaries by title.
pub fn compare_title(a: &Summary, b: &Summary) -> (order: Ordering)
    ensures
        order == title_order(a.title@, b.title@),
{
    compare_str(a.title.as_str(), b.title.as_str())
}

/// Compares two lyrics by title.
pub fn lyric_compare_title(a: &Lyric, b: &Lyric) -> (order: Ordering)
    ensures
        order == title_order(a.title@, b.title@),
{
    compare_str(a.title.as_str(), b.title.as_str())
}

/// Compares two playlists by title.
pub fn playlist_compare_title(a: &Playlist, b: &Playlist) -> (order: Ordering)
    ensures
        order == title_order(a.title@, b.title@),
{
    compare_str(a.title.as_str(), b.title.as_str())
}

} // verus!
