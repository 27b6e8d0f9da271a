//! The decisions of the command-line tools: argument splitting, reading
//! text files, listing output, and the per-video pipelines of the
//! description, comment, tag, language and subtitle tools.

pub mod comment;
pub mod description;
pub mod language;
pub mod list;
pub mod subtitle;
pub mod tags;

use vstd::prelude::*;
use crate::text::{contains, contains_seq, is_blank, join, join_str, lines, lines_of, trim, trim_str, views};

verus! {

/// Split the positional arguments of a multi-video tool into the video IDs
/// and the trailing file; `None` when fewer than two arguments are given.
pub fn split_trailing_file(args: &Vec<String>) -> (r: Option<(Vec<String>, String)>)
    ensures
        args@.len() < 2 ==> r is None,
        args@.len() >= 2 ==> (r matches Some((ids, file)) && views(ids@) == views(args@.drop_last())
            && file@ == args@.last()@),
{
    if args.len() < 2 {
        return None;
    }
    let n = args.len() - 1;
    let mut ids: Vec<String> = Vec::new();
    let mut i: usize = 0;
    while i < n
        invariant
            n == args@.len() - 1,
            i <= n,
            views(ids@) == views(args@.take(i as int)),
        decreases n - i,
    {
        let ghost before = ids@;
        ids.push(args[i].clone());
        proof {
            assert(views(ids@) =~= views(before).push(args@[i as int]@));
            assert(views(args@.take(i + 1)) =~= views(args@.take(i as int)).push(args@[i as int]@));
        }
        i = i + 1;
    }
    proof {
        assert(args@.take(n as int) =~= args@.drop_last());
    }
    Some((ids, args[n].clone()))
}

/// The marker line that ends the useful part of a text file.
pub const END_OF_FILE_MARKER: &'static str = "-- end of file --";

/// A line that is kept from a text file: not blank and without the marker.
pub open spec fn kept_line(line: Seq<char>) -> bool {
    !contains_seq(line, END_OF_FILE_MARKER@) && trim(line).len() > 0
}

/// The kept lines, in order.
pub open spec fn kept_lines(ls: Seq<Seq<char>>) -> Seq<Seq<char>>
    decreases ls.len(),
{
    if ls.len() == 0 {
        Seq::empty()
    } else {
        let rest = kept_lines(ls.drop_last());
        if kept_line(ls.last()) {
            rest.push(ls.last())
        } else {
            rest
        }
    }
}

/// The text of a content file as posted: its kept lines joined by line
/// feeds, trimmed.
pub open spec fn cleaned_text(content: Seq<char>) -> Seq<char> {
    trim(join(kept_lines(lines(content)), "\n"@))
}

/// Clean the text of a content file: drop blank lines and lines holding the
/// end-of-file marker, join the rest by line feeds and trim.
pub fn clean_text(content: &str) -> (r: String)
    ensures
        r@ == cleaned_text(content@),
{
    let ls = lines_of(content);
    let mut kept: Vec<String> = Vec::new();
    let mut i: usize = 0;
    while i < ls.len()
        invariant
            i <= ls@.len(),
            views(ls@) == lines(content@),
            views(kept@) == kept_lines(views(ls@).take(i as int)),
        decreases ls@.len() - i,
    {
        let line = ls[i].as_str();
        let keep = !contains(line, END_OF_FILE_MARKER) && !is_blank(line);
        proof {
            assert(views(ls@).take(i + 1).drop_last() =~= views(ls@).take(i as int));
            assert(views(ls@).take(i + 1).last() == ls@[i as int]@);
        }
        if keep {
            let ghost before = kept@;
            kept.push(ls[i].clone());
            proof {
                assert(views(kept@) =~= views(before).push(ls@[i as int]@));
            }
        }
        i = i + 1;
    }
    proof {
        assert(views(ls@).take(ls@.len() as int) =~= views(ls@));
    }
    let joined = join_str(&kept, "\n");
    trim_str(joined.as_str())
}

} // verus!
