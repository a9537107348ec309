//! The tag by which a change of content is noticed.

use vstd::prelude::*;

use crate::model::Lyric;
use crate::model::LyricMeta;

verus! {

/// The text of the strong entity tag that the `etag` crate gives to `bytes`:
/// their number and a hash of them, in double quotes.
pub uninterp spec fn entity_tag_text(bytes: Seq<u8>) -> Seq<char>;

/// Calls `etag::EntityTag::const_from_data(bytes)` and takes the text of the
/// tag. Trusted: the text is the one that `entity_tag_text` names.
#[verifier::external_body]
fn entity_tag(bytes: &[u8]) -> (tag: String)
    ensures
        tag@ == entity_tag_text(bytes@),
{
    ::etag::EntityTag::const_from_data(bytes).to_string()
}

/// The tag of a value that was written out as bytes: none where it could not
/// be written out.
pub open spec fn etag_text(serialized: Option<Seq<u8>>) -> Option<Seq<char>> {
    match serialized {
        Some(bytes) => Some(entity_tag_text(bytes)),
        None => None,
    }
}

/// The tag of a value, from the bytes that it was written out as; none
/// where it could not be written out.
pub fn etag(serialized: Option<Vec<u8>>) -> (tag: Option<String>)
    ensures
        match tag {
            Some(text) => serialized is Some && text@ == entity_tag_text(serialized->Some_0@),
            None => serialized is None,
        },
{
    match serialized {
        Some(bytes) => Some(entity_tag(bytes.as_slice())),
        None => None,
    }
}

impl LyricMeta {
    /// The title of `lyric`, and the tag of the bytes that it was written
    /// out as.
    pub fn of(lyric: &Lyric, serialized: Option<Vec<u8>>) -> (meta: LyricMeta)
        ensures
            meta.title@ == lyric.title@,
            match meta.hash {
                Some(text) => serialized is Some && text@ == entity_tag_text(
                    serialized->Some_0@,
                ),
                None => serialized is None,
            },
    {
        LyricMeta { title: lyric.title.clone(), hash: etag(serialized) }
    }
}

} // verus!
