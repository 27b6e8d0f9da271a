//! The tag tool: reading the tags to add from a text file.

use vstd::prelude::*;
use crate::text::{
    Separators, is_sep, is_ws, lemma_split_pieces, lemma_trim_shape, lemma_trimmed_nonempty, split_by, split_str,
    trim_nonempty, trimmed_nonempty, views,
};

verus! {

/// The tags of a tags file: the pieces between commas and semicolons (ASCII
/// or full-width), trimmed, empty ones dropped.
pub open spec fn tags_in(content: Seq<char>) -> Seq<Seq<char>> {
    trimmed_nonempty(split_by(content, Separators::TagMarks))
}

/// Read the tags of a tags file.
pub fn parse_tags(content: &str) -> (r: Vec<String>)
    ensures
        views(r@) == tags_in(content@),
{
    let pieces = split_str(content, Separators::TagMarks);
    trim_nonempty(&pieces)
}

/// Every tag read from a tags file is non-empty, holds no comma or
/// semicolon (ASCII or full-width), and neither starts nor ends with
/// whitespace.
pub proof fn lemma_tags_are_clean(content: Seq<char>)
    ensures
        forall|i: int| 0 <= i < tags_in(content).len() ==> {
            let t = #[trigger] tags_in(content)[i];
            &&& t.len() > 0
            &&& !is_ws(t[0]) && !is_ws(t.last())
            &&& forall|j: int| 0 <= j < t.len() ==> !is_sep(Separators::TagMarks, t[j])
        },
{
    let ps = split_by(content, Separators::TagMarks);
    lemma_split_pieces(content, Separators::TagMarks);
    lemma_trimmed_nonempty(ps);
    assert forall|i: int| 0 <= i < tags_in(content).len() implies {
        let t = #[trigger] tags_in(content)[i];
        &&& t.len() > 0
        &&& !is_ws(t[0]) && !is_ws(t.last())
        &&& forall|j: int| 0 <= j < t.len() ==> !is_sep(Separators::TagMarks, t[j])
    } by {
        let t = tags_in(content)[i];
        let m = choose|m: int| 0 <= m < ps.len() && t == crate::text::trim(ps[m]);
        lemma_trim_shape(ps[m]);
        let (a, b) = choose|a: int, b: int| 0 <= a <= b <= ps[m].len() && crate::text::trim(ps[m]) == ps[m].subrange(a, b);
        assert forall|j: int| 0 <= j < t.len() implies !is_sep(Separators::TagMarks, t[j]) by {
            assert(t[j] == ps[m][a + j]);
        }
    }
}

} // verus!
