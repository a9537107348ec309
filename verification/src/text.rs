//! Records as text for a reader.

use vstd::prelude::*;
use vstd::string::StringExecFns;

use crate::model::Lyric;
use crate::model::LyricView;
use crate::model::Playlist;
use crate::model::PlaylistView;
use crate::model::Summary;
use crate::model::SummaryView;
use crate::uuid::id_text;
use crate::uuid::Uuid;
use crate::uuid::UuidExt;

verus! {

/// The character of a decimal digit.
pub open spec fn digit(d: nat) -> char {
    ((48 + d) as u8) as char
}

/// A number in decimal digits, without leading zeros.
pub open spec fn decimal(n: nat) -> Seq<char>
    decreases n,
{
    if n < 10 {
        seq![digit(n)]
    } else {
        decimal(n / 10).push(digit(n % 10))
    }
}

/// The text of a summary: the identifier, a colon and the title.
pub open spec fn summary_text(summary: SummaryView) -> Seq<char> {
    id_text(summary.id) + ": "@ + summary.title
}

/// The text of a lyric: its title, the number of its parts and its
/// identifier.
pub open spec fn lyric_text(lyric: LyricView) -> Seq<char> {
    "Lyric: "@ + lyric.title + ", "@ + decimal(lyric.parts.len()) + " parts, id = "@ + id_text(
        lyric.id,
    )
}

/// One line for each member, lines between them.
pub open spec fn member_lines(members: Seq<Uuid>) -> Seq<char>
    decreases members.len(),
{
    if members.len() == 0 {
        Seq::empty()
    } else if members.len() == 1 {
        "  - "@ + id_text(members[0])
    } else {
        member_lines(members.drop_last()) + "\n"@ + "  - "@ + id_text(members.last())
    }
}

/// The text of a playlist: a line with its title and its identifier, then
/// one line for each member.
pub open spec fn playlist_text(playlist: PlaylistView) -> Seq<char> {
    "Playlist: "@ + playlist.title + ", id = "@ + id_text(playlist.id) + "\n"@ + member_lines(
        playlist.members,
    )
}

/// The text of a decimal digit.
fn digit_str(d: usize) -> (text: &'static str)
    requires
        d < 10,
    ensures
        text@ == seq![digit(d as nat)],
{
    proof {
        reveal_strlit("0");
        reveal_strlit("1");
        reveal_strlit("2");
        reveal_strlit("3");
        reveal_strlit("4");
        reveal_strlit("5");
        reveal_strlit("6");
        reveal_strlit("7");
        reveal_strlit("8");
        reveal_strlit("9");
    }
    let text = if d == 0 {
        "0"
    } else if d == 1 {
        "1"
    } else if d == 2 {
        "2"
    } else if d == 3 {
        "3"
    } else if d == 4 {
        "4"
    } else if d == 5 {
        "5"
    } else if d == 6 {
        "6"
    } else if d == 7 {
        "7"
    } else if d == 8 {
        "8"
    } else {
        "9"
    };
    assert(text@ =~= seq![digit(d as nat)]);
    text
}

/// A number in decimal digits.
fn decimal_text(n: usize) -> (text: String)
    ensures
        text@ == decimal(n as nat),
    decreases n,
{
    if n < 10 {
        digit_str(n).to_owned()
    } else {
        let mut text = decimal_text(n / 10);
        text.append(digit_str(n % 10));
        text
    }
}

impl Summary {
    /// The summary as text: the identifier, a colon and the title.
    pub fn to_text(&self) -> (text: String)
        ensures
            text@ == summary_text(self@),
    {
        let mut text = self.id.to_base58();
        text.append(": ");
        text.append(self.title.as_str());
        text
    }
}

impl Lyric {
    /// The lyric as text: its title, the number of its parts and its
    /// identifier.
    pub fn to_text(&self) -> (text: String)
        ensures
            text@ == lyric_text(self@),
    {
        let mut text = "Lyric: ".to_owned();
        text.append(self.title.as_str());
        text.append(", ");
        text.append(decimal_text(self.parts.len()).as_str());
        text.append(" parts, id = ");
        text.append(self.id.to_base58().as_str());
        text
    }
}

impl Playlist {
    /// The playlist as text: a line with its title and its identifier, then
    /// one line for each member.
    pub fn to_text(&self) -> (text: String)
        ensures
            text@ == playlist_text(self@),
    {
        let mut text = "Playlist: ".to_owned();
        text.append(self.title.as_str());
        text.append(", id = ");
        text.append(self.id.to_base58().as_str());
        text.append("\n");
        let ghost head = text@;
        let mut next: usize = 0;
        assert(self.members@.take(0) =~= Seq::<Uuid>::empty());
        while next < self.members.len()
            invariant
                next <= self.members@.len(),
                text@ == head + member_lines(self.members@.take(next as int)),
            decreases self.members@.len() - next,
        {
            if next > 0 {
                text.append("\n");
            }
            text.append("  - ");
            text.append(self.members[next].to_base58().as_str());
            proof {
                let now = self.members@.take(next + 1);
                assert(now.drop_last() =~= self.members@.take(next as int));
                assert(now.last() == self.members@[next as int]);
                if next == 0 {
                    assert(text@ =~= head + member_lines(now));
                } else {
                    assert(text@ =~= head + member_lines(now));
                }
            }
            next = next + 1;
        }
        assert(self.members@.take(next as int) =~= self.members@);
        text
    }
}

} // verus!
