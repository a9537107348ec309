//! Lyrics, playlists and what is derived from them.

use vstd::prelude::*;
use vstd::std_specs::cmp::PartialEqSpec;

use crate::order::Titled;
use crate::uuid::is_random_version;
use crate::uuid::Uuid;

verus! {

/// A song text under its identifier: a title and the parts, each part a
/// list of lines.
#[derive(Debug, PartialEq, Eq)]
pub struct Lyric {
    pub id: Uuid,
    pub title: String,
    pub parts: Vec<Vec<String>>,
}

/// A lyric that has no identifier yet.
#[derive(Debug, PartialEq, Eq)]
pub struct LyricPost {
    pub title: String,
    pub parts: Vec<Vec<String>>,
}

/// What a `Lyric` holds, as mathematical values.
pub struct LyricView {
    pub id: Uuid,
    pub title: Seq<char>,
    pub parts: Seq<Seq<Seq<char>>>,
}

/// What a `LyricPost` holds, as mathematical values.
pub struct LyricPostView {
    pub title: Seq<char>,
    pub parts: Seq<Seq<Seq<char>>>,
}

impl View for Lyric {
    type V = LyricView;

    open spec fn view(&self) -> LyricView {
        LyricView { id: self.id, title: self.title@, parts: self.parts.deep_view() }
    }
}

impl DeepView for Lyric {
    type V = LyricView;

    open spec fn deep_view(&self) -> LyricView {
        self@
    }
}

impl View for LyricPost {
    type V = LyricPostView;

    open spec fn view(&self) -> LyricPostView {
        LyricPostView { title: self.title@, parts: self.parts.deep_view() }
    }
}

impl DeepView for LyricPost {
    type V = LyricPostView;

    open spec fn deep_view(&self) -> LyricPostView {
        self@
    }
}

/// A copy of the parts of a lyric.
pub fn copy_parts(parts: &Vec<Vec<String>>) -> (copy: Vec<Vec<String>>)
    ensures
        copy.deep_view() == parts.deep_view(),
{
    let copy = parts.clone();
    proof {
        assert forall|i: int| 0 <= i < parts.len() implies #[trigger] copy@[i].deep_view()
            == parts@[i].deep_view() by {
            assert(cloned::<Vec<String>>(parts@[i], copy@[i]));
            assert(copy@[i]@ =~= parts@[i]@);
            assert(copy@[i].deep_view() =~= parts@[i].deep_view());
        }
        assert(copy.deep_view() =~= parts.deep_view());
    }
    copy
}

impl Clone for Lyric {
    fn clone(&self) -> (copy: Lyric)
        ensures
            copy@ == self@,
    {
        Lyric { id: self.id, title: self.title.clone(), parts: copy_parts(&self.parts) }
    }
}

impl Clone for LyricPost {
    fn clone(&self) -> (copy: LyricPost)
        ensures
            copy@ == self@,
    {
        LyricPost { title: self.title.clone(), parts: copy_parts(&self.parts) }
    }
}

impl From<(LyricPost, Uuid)> for Lyric {
    fn from(pair: (LyricPost, Uuid)) -> (lyric: Lyric) {
        Lyric { id: pair.1, title: pair.0.title, parts: pair.0.parts }
    }
}

impl vstd::std_specs::convert::FromSpecImpl<(LyricPost, Uuid)> for Lyric {
    open spec fn obeys_from_spec() -> bool {
        true
    }

    open spec fn from_spec(pair: (LyricPost, Uuid)) -> Lyric {
        Lyric { id: pair.1, title: pair.0.title, parts: pair.0.parts }
    }
}

impl From<(Option<Uuid>, LyricPost)> for Lyric {
    /// The lyric of `pair.1` under the identifier `pair.0`, or under a fresh
    /// one where none is given.
    fn from(pair: (Option<Uuid>, LyricPost)) -> (lyric: Lyric)
        ensures
            lyric.title == pair.1.title,
            lyric.parts == pair.1.parts,
            pair.0 matches Some(id) ==> lyric.id == id,
            pair.0 is None ==> is_random_version(lyric.id.value),
    {
        let id = match pair.0 {
            Some(id) => id,
            None => Uuid::new(),
        };
        Lyric { id, title: pair.1.title, parts: pair.1.parts }
    }
}

impl vstd::std_specs::convert::FromSpecImpl<(Option<Uuid>, LyricPost)> for Lyric {
    open spec fn obeys_from_spec() -> bool {
        false
    }

    open spec fn from_spec(pair: (Option<Uuid>, LyricPost)) -> Lyric {
        Lyric { id: arbitrary(), title: pair.1.title, parts: pair.1.parts }
    }
}

impl From<Lyric> for LyricPost {
    fn from(lyric: Lyric) -> (post: LyricPost) {
        LyricPost { title: lyric.title, parts: lyric.parts }
    }
}

impl vstd::std_specs::convert::FromSpecImpl<Lyric> for LyricPost {
    open spec fn obeys_from_spec() -> bool {
        true
    }

    open spec fn from_spec(lyric: Lyric) -> LyricPost {
        LyricPost { title: lyric.title, parts: lyric.parts }
    }
}

impl Default for LyricPost {
    /// An empty title and no parts.
    fn default() -> (post: LyricPost)
        ensures
            post.title@ == Seq::<char>::empty(),
            post.parts@ == Seq::<Vec<String>>::empty(),
    {
        LyricPost { title: String::new(), parts: Vec::new() }
    }
}

/// A list of lyrics under its identifier: a title and the members in the
/// order in which they are played. A member may occur more than once.
#[derive(Debug, PartialEq, Eq)]
pub struct Playlist {
    pub id: Uuid,
    pub title: String,
    pub members: Vec<Uuid>,
}

/// A playlist that has no identifier yet.
#[derive(Debug, PartialEq, Eq)]
pub struct PlaylistPost {
    pub title: String,
    pub members: Vec<Uuid>,
}

/// What a `Playlist` holds, as mathematical values.
pub struct PlaylistView {
    pub id: Uuid,
    pub title: Seq<char>,
    pub members: Seq<Uuid>,
}

/// What a `PlaylistPost` holds, as mathematical values.
pub struct PlaylistPostView {
    pub title: Seq<char>,
    pub members: Seq<Uuid>,
}

impl View for Playlist {
    type V = PlaylistView;

    open spec fn view(&self) -> PlaylistView {
        PlaylistView { id: self.id, title: self.title@, members: self.members@ }
    }
}

impl DeepView for Playlist {
    type V = PlaylistView;

    open spec fn deep_view(&self) -> PlaylistView {
        self@
    }
}

impl View for PlaylistPost {
    type V = PlaylistPostView;

    open spec fn view(&self) -> PlaylistPostView {
        PlaylistPostView { title: self.title@, members: self.members@ }
    }
}

impl DeepView for PlaylistPost {
    type V = PlaylistPostView;

    open spec fn deep_view(&self) -> PlaylistPostView {
        self@
    }
}

impl Clone for Playlist {
    fn clone(&self) -> (copy: Playlist)
        ensures
            copy@ == self@,
    {
        Playlist { id: self.id, title: self.title.clone(), members: self.members.clone() }
    }
}

impl Clone for PlaylistPost {
    fn clone(&self) -> (copy: PlaylistPost)
        ensures
            copy@ == self@,
    {
        PlaylistPost { title: self.title.clone(), members: self.members.clone() }
    }
}

impl From<(PlaylistPost, Uuid)> for Playlist {
    fn from(pair: (PlaylistPost, Uuid)) -> (playlist: Playlist) {
        Playlist { id: pair.1, title: pair.0.title, members: pair.0.members }
    }
}

impl vstd::std_specs::convert::FromSpecImpl<(PlaylistPost, Uuid)> for Playlist {
    open spec fn obeys_from_spec() -> bool {
        true
    }

    open spec fn from_spec(pair: (PlaylistPost, Uuid)) -> Playlist {
        Playlist { id: pair.1, title: pair.0.title, members: pair.0.members }
    }
}

impl From<(Option<Uuid>, PlaylistPost)> for Playlist {
    /// The playlist of `pair.1` under the identifier `pair.0`, or under a
    /// fresh one where none is given.
    fn from(pair: (Option<Uuid>, PlaylistPost)) -> (playlist: Playlist)
        ensures
            playlist.title == pair.1.title,
            playlist.members == pair.1.members,
            pair.0 matches Some(id) ==> playlist.id == id,
            pair.0 is None ==> is_random_version(playlist.id.value),
    {
        let id = match pair.0 {
            Some(id) => id,
            None => Uuid::new(),
        };
        Playlist { id, title: pair.1.title, members: pair.1.members }
    }
}

impl vstd::std_specs::convert::FromSpecImpl<(Option<Uuid>, PlaylistPost)> for Playlist {
    open spec fn obeys_from_spec() -> bool {
        false
    }

    open spec fn from_spec(pair: (Option<Uuid>, PlaylistPost)) -> Playlist {
        Playlist { id: arbitrary(), title: pair.1.title, members: pair.1.members }
    }
}

impl From<PlaylistPost> for Playlist {
    /// The playlist of `post` under a fresh identifier.
    fn from(post: PlaylistPost) -> (playlist: Playlist)
        ensures
            playlist.title == post.title,
            playlist.members == post.members,
            is_random_version(playlist.id.value),
    {
        Playlist::from((None, post))
    }
}

impl vstd::std_specs::convert::FromSpecImpl<PlaylistPost> for Playlist {
    open spec fn obeys_from_spec() -> bool {
        false
    }

    open spec fn from_spec(post: PlaylistPost) -> Playlist {
        Playlist { id: arbitrary(), title: post.title, members: post.members }
    }
}

impl From<Playlist> for PlaylistPost {
    fn from(playlist: Playlist) -> (post: PlaylistPost) {
        PlaylistPost { title: playlist.title, members: playlist.members }
    }
}

impl vstd::std_specs::convert::FromSpecImpl<Playlist> for PlaylistPost {
    open spec fn obeys_from_spec() -> bool {
        true
    }

    open spec fn from_spec(playlist: Playlist) -> PlaylistPost {
        PlaylistPost { title: playlist.title, members: playlist.members }
    }
}

/// The identifier and the title of a lyric or of a playlist.
#[derive(Debug, PartialEq, Eq)]
pub struct Summary {
    pub id: Uuid,
    pub title: String,
}

/// What a `Summary` holds, as mathematical values.
pub struct SummaryView {
    pub id: Uuid,
    pub title: Seq<char>,
}

impl View for Summary {
    type V = SummaryView;

    open spec fn view(&self) -> SummaryView {
        SummaryView { id: self.id, title: self.title@ }
    }
}

impl DeepView for Summary {
    type V = SummaryView;

    open spec fn deep_view(&self) -> SummaryView {
        self@
    }
}

impl Clone for Summary {
    fn clone(&self) -> (copy: Summary)
        ensures
            copy@ == self@,
    {
        Summary { id: self.id, title: self.title.clone() }
    }
}

/// What is kept of a lyric beside its parts: the title and a tag of its
/// content.
#[derive(Debug, PartialEq, Eq)]
pub struct LyricMeta {
    pub title: String,
    pub hash: Option<String>,
}

impl From<(LyricMeta, Uuid)> for Summary {
    fn from(pair: (LyricMeta, Uuid)) -> (summary: Summary) {
        Summary { id: pair.1, title: pair.0.title }
    }
}

impl vstd::std_specs::convert::FromSpecImpl<(LyricMeta, Uuid)> for Summary {
    open spec fn obeys_from_spec() -> bool {
        true
    }

    open spec fn from_spec(pair: (LyricMeta, Uuid)) -> Summary {
        Summary { id: pair.1, title: pair.0.title }
    }
}

/// The head of a lyric file: a title, if it has one.
#[derive(Debug, PartialEq, Eq)]
pub struct Frontmatter {
    pub title: Option<String>,
}

impl Default for Frontmatter {
    /// No title.
    fn default() -> (head: Frontmatter)
        ensures
            head.title is None,
    {
        Frontmatter { title: None }
    }
}

/// All lyrics and all playlists of a store.
#[derive(Debug, PartialEq, Eq)]
pub struct RepoDb {
    pub lyrics: Vec<Lyric>,
    pub playlists: Vec<Playlist>,
}

impl Titled for Lyric {
    open spec fn title_view(&self) -> Seq<char> {
        self.title@
    }

    fn title(&self) -> (title: &str) {
        self.title.as_str()
    }
}

impl Titled for Playlist {
    open spec fn title_view(&self) -> Seq<char> {
        self.title@
    }

    fn title(&self) -> (title: &str) {
        self.title.as_str()
    }
}

impl Titled for Summary {
    open spec fn title_view(&self) -> Seq<char> {
        self.title@
    }

    fn title(&self) -> (title: &str) {
        self.title.as_str()
    }
}

/// What has an identifier.
pub trait HasId {
    /// The identifier, as a mathematical value.
    spec fn id_view(&self) -> Uuid;

    /// The identifier.
    fn id(&self) -> (id: Uuid)
        ensures
            id == self.id_view(),
    ;
}

impl HasId for Lyric {
    open spec fn id_view(&self) -> Uuid {
        self.id
    }

    fn id(&self) -> (id: Uuid) {
        self.id
    }
}

impl HasId for Playlist {
    open spec fn id_view(&self) -> Uuid {
        self.id
    }

    fn id(&self) -> (id: Uuid) {
        self.id
    }
}

/// What can be summed up by its identifier and its title.
pub trait HasSummary {
    /// The summary, as a mathematical value.
    spec fn summary_view(&self) -> SummaryView;

    /// The summary.
    fn summary(&self) -> (summary: Summary)
        ensures
            summary@ == self.summary_view(),
    ;
}

impl HasSummary for Lyric {
    open spec fn summary_view(&self) -> SummaryView {
        SummaryView { id: self.id, title: self.title@ }
    }

    fn summary(&self) -> (summary: Summary) {
        Summary { id: self.id, title: self.title.clone() }
    }
}

impl HasSummary for Playlist {
    open spec fn summary_view(&self) -> SummaryView {
        SummaryView { id: self.id, title: self.title@ }
    }

    fn summary(&self) -> (summary: Summary) {
        Summary { id: self.id, title: self.title.clone() }
    }
}

impl HasSummary for Summary {
    open spec fn summary_view(&self) -> SummaryView {
        self@
    }

    fn summary(&self) -> (summary: Summary) {
        self.clone()
    }
}

impl Lyric {
    /// The identifier and the title.
    pub fn to_summary(&self) -> (summary: Summary)
        ensures
            summary@ == (SummaryView { id: self.id, title: self.title@ }),
    {
        self.summary()
    }
}

impl Playlist {
    /// The identifier and the title.
    pub fn to_summary(&self) -> (summary: Summary)
        ensures
            summary@ == (SummaryView { id: self.id, title: self.title@ }),
    {
        self.summary()
    }
}

/// The summary of `item`.
pub fn summary<T>(item: &T) -> (summary: Summary) where T: HasSummary
    ensures
        summary@ == item.summary_view(),
{
    item.summary()
}

/// The summaries of the items of `list`, in the order of the list.
pub fn summaries<T>(list: Vec<T>) -> (all: Vec<Summary>) where T: HasSummary
    ensures
        all.deep_view() == Seq::new(list@.len(), |i: int| list@[i].summary_view()),
{
    let mut all: Vec<Summary> = Vec::new();
    let mut next: usize = 0;
    while next < list.len()
        invariant
            next <= list@.len(),
            all@.len() == next,
            forall|i: int| 0 <= i < next ==> (#[trigger] all@[i])@ == list@[i].summary_view(),
        decreases list@.len() - next,
    {
        all.push(summary(&list[next]));
        next = next + 1;
    }
    assert(all.deep_view() =~= Seq::new(list@.len(), |i: int| list@[i].summary_view()));
    all
}

/// The identifiers of the items of `list`, in the order of the list.
pub fn ids<T>(list: Vec<T>) -> (all: Vec<Uuid>) where T: HasSummary
    ensures
        all@ == Seq::new(list@.len(), |i: int| list@[i].summary_view().id),
{
    let mut all: Vec<Uuid> = Vec::new();
    let mut next: usize = 0;
    while next < list.len()
        invariant
            next <= list@.len(),
            all@.len() == next,
            forall|i: int| 0 <= i < next ==> #[trigger] all@[i] == list@[i].summary_view().id,
        decreases list@.len() - next,
    {
        all.push(list[next].summary().id);
        next = next + 1;
    }
    assert(all@ =~= Seq::new(list@.len(), |i: int| list@[i].summary_view().id));
    all
}

/// Holds of what differs from `t`.
pub open spec fn differs_from<T: PartialEq>(t: T) -> spec_fn(T) -> bool {
    |s: T| !s.eq_spec(&t)
}

/// A list from which every occurrence of one item can be taken away.
pub trait Without<T> where T: PartialEq {
    /// The list without the items that equal `t`, the others in their order.
    fn without(self, t: &T) -> Self;
}

impl<T> Without<T> for Vec<T> where T: PartialEq {
    fn without(self, t: &T) -> (kept: Vec<T>)
        ensures
            T::obeys_eq_spec() ==> kept@ == self@.filter(differs_from(*t)),
    {
        let mut kept: Vec<T> = Vec::new();
        let ghost all = self@;
        assert(all.take(0) =~= Seq::<T>::empty());
        for item in it: self
            invariant
                it.seq() == all,
                T::obeys_eq_spec() ==> kept@ == all.take(it.index()).filter(differs_from(*t)),
        {
            proof {
                assert(all.take(it.index() + 1) =~= all.take(it.index()).push(item));
                all.take(it.index()).lemma_filter_push(item, differs_from(*t));
            }
            if item != *t {
                kept.push(item);
            }
        }
        assert(all.take(all.len() as int) =~= all);
        kept
    }
}

} // verus!
