//! Score entries: what a player submits to a board and what a listing returns.
use vstd::prelude::*;

verus! {

/// A score value.
pub type Score = i32;

/// One player's score on a board, with an optional free-form note.
#[derive(Debug)]
pub struct ScoreEntry {
    pub player: String,
    pub score: Score,
    pub extra_info: Option<String>,
}

/// A score entry with its texts as character sequences.
pub struct EntryView {
    pub player: Seq<char>,
    pub score: Score,
    pub extra_info: Option<Seq<char>>,
}

/// The text of an optional string.
pub open spec fn opt_text(s: Option<String>) -> Option<Seq<char>> {
    match s {
        Some(t) => Some(t@),
        None => None,
    }
}

impl View for ScoreEntry {
    type V = EntryView;

    open spec fn view(&self) -> EntryView {
        EntryView { player: self.player@, score: self.score, extra_info: opt_text(self.extra_info) }
    }
}

fn clone_opt(s: &Option<String>) -> (r: Option<String>)
    ensures
        opt_text(r) == opt_text(*s),
{
    match s {
        Some(t) => Some(t.clone()),
        None => None,
    }
}

impl Clone for ScoreEntry {
    fn clone(&self) -> (r: Self)
        ensures
            r@ == self@,
    {
        ScoreEntry {
            player: self.player.clone(),
            score: self.score,
            extra_info: clone_opt(&self.extra_info),
        }
    }
}

impl PartialEq for ScoreEntry {
    fn eq(&self, other: &ScoreEntry) -> (r: bool) {
        self.player == other.player && self.score == other.score && match (
            &self.extra_info,
            &other.extra_info,
        ) {
            (Some(a), Some(b)) => *a == *b,
            (None, None) => true,
            _ => false,
        }
    }
}

impl vstd::std_specs::cmp::PartialEqSpecImpl for ScoreEntry {
    open spec fn obeys_eq_spec() -> bool {
        true
    }

    open spec fn eq_spec(&self, other: &ScoreEntry) -> bool {
        self@ == other@
    }
}

impl Eq for ScoreEntry {

}

/// The views of a sequence of entries.
pub open spec fn entries_view(s: Seq<ScoreEntry>) -> Seq<EntryView> {
    s.map_values(|e: ScoreEntry| e@)
}

/// A copy of every entry, in order.
pub fn clone_entries(v: &Vec<ScoreEntry>) -> (r: Vec<ScoreEntry>)
    ensures
        entries_view(r@) == entries_view(v@),
{
    let mut out: Vec<ScoreEntry> = Vec::new();
    let mut i: usize = 0;
    while i < v.len()
        invariant
            i <= v@.len(),
            out@.len() == i,
            forall|k: int| 0 <= k < i ==> (#[trigger] out@[k])@ == v@[k]@,
        decreases v@.len() - i,
    {
        out.push(v[i].clone());
        i = i + 1;
    }
    assert(entries_view(out@) =~= entries_view(v@));
    out
}

} // verus!
