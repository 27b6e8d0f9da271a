//! Video processing with ffmpeg: where temporary files go, the concat list
//! of the parts to merge, and the command lines of ffmpeg and ffprobe.

use vstd::prelude::*;
use crate::text::{concat3, views};

verus! {

/// The directories tried for temporary files, fastest first.
pub open spec fn temp_dir_candidates() -> Seq<Seq<char>> {
    seq!["/dev/shm"@, "/tmp"@, "/var/tmp"@]
}

/// The first candidate directory that is usable (`usable[i]` tells whether
/// candidate `i` exists, is a directory and is writable).
pub fn pick_fast_temp_dir(usable: &Vec<bool>) -> (r: Option<&'static str>)
    requires
        usable@.len() == 3,
    ensures
        usable@[0] ==> (r matches Some(d) && d@ == temp_dir_candidates()[0]),
        !usable@[0] && usable@[1] ==> (r matches Some(d) && d@ == temp_dir_candidates()[1]),
        !usable@[0] && !usable@[1] && usable@[2] ==> (r matches Some(d) && d@ == temp_dir_candidates()[2]),
        !usable@[0] && !usable@[1] && !usable@[2] ==> r is None,
{
    if usable[0] {
        Some("/dev/shm")
    } else if usable[1] {
        Some("/tmp")
    } else if usable[2] {
        Some("/var/tmp")
    } else {
        None
    }
}

/// The line of the concat list that names one part.
pub open spec fn concat_line(file: Seq<char>) -> Seq<char> {
    "file '"@ + file + "'\n"@
}

/// The concat list of the parts, one line per part, in order.
pub open spec fn concat_list_of(files: Seq<Seq<char>>) -> Seq<char>
    decreases files.len(),
{
    if files.len() == 0 {
        Seq::empty()
    } else {
        concat_list_of(files.drop_last()) + concat_line(files.last())
    }
}

/// Write the concat list that tells ffmpeg which parts to join.
pub fn concat_list(files: &[String]) -> (r: String)
    ensures
        r@ == concat_list_of(views(files@)),
{
    let mut out = String::new();
    let mut i: usize = 0;
    while i < files.len()
        invariant
            i <= files@.len(),
            out@ == concat_list_of(views(files@.take(i as int))),
        decreases files@.len() - i,
    {
        let line = concat3("file '", files[i].as_str(), "'\n");
        out.append(line.as_str());
        proof {
            assert(views(files@.take(i + 1)).drop_last() =~= views(files@.take(i as int)));
            assert(views(files@.take(i + 1)).last() == files@[i as int]@);
        }
        i = i + 1;
    }
    proof {
        assert(files@.take(files@.len() as int) =~= files@);
    }
    out
}

/// The arguments of ffmpeg that join the parts of a concat list into one
/// file without re-encoding.
pub open spec fn ffmpeg_concat_args_for(list_path: Seq<char>, output_path: Seq<char>) -> Seq<Seq<char>> {
    seq![
        "-y"@, "-threads"@, "0"@, "-fflags"@, "+genpts"@, "-safe"@, "0"@, "-f"@, "concat"@, "-i"@, list_path,
        "-c"@, "copy"@, "-avoid_negative_ts"@, "make_zero"@, output_path,
    ]
}

/// Build the arguments of the ffmpeg command that merges the parts.
pub fn ffmpeg_concat_args(list_path: &str, output_path: &str) -> (r: Vec<String>)
    ensures
        views(r@) == ffmpeg_concat_args_for(list_path@, output_path@),
{
    let mut r: Vec<String> = Vec::new();
    r.push("-y".to_owned());
    r.push("-threads".to_owned());
    r.push("0".to_owned());
    r.push("-fflags".to_owned());
    r.push("+genpts".to_owned());
    r.push("-safe".to_owned());
    r.push("0".to_owned());
    r.push("-f".to_owned());
    r.push("concat".to_owned());
    r.push("-i".to_owned());
    r.push(list_path.to_owned());
    r.push("-c".to_owned());
    r.push("copy".to_owned());
    r.push("-avoid_negative_ts".to_owned());
    r.push("make_zero".to_owned());
    r.push(output_path.to_owned());
    proof {
        assert(views(r@) =~= ffmpeg_concat_args_for(list_path@, output_path@));
    }
    r
}

/// The arguments of ffprobe that print a video's duration in seconds alone.
pub open spec fn ffprobe_duration_args_for(video_path: Seq<char>) -> Seq<Seq<char>> {
    seq![
        "-v"@, "error"@, "-show_entries"@, "format=duration"@, "-of"@, "default=noprint_wrappers=1:nokey=1"@,
        video_path,
    ]
}

/// Build the arguments of the ffprobe command that reads a video's duration.
pub fn ffprobe_duration_args(video_path: &str) -> (r: Vec<String>)
    ensures
        views(r@) == ffprobe_duration_args_for(video_path@),
{
    let mut r: Vec<String> = Vec::new();
    r.push("-v".to_owned());
    r.push("error".to_owned());
    r.push("-show_entries".to_owned());
    r.push("format=duration".to_owned());
    r.push("-of".to_owned());
    r.push("default=noprint_wrappers=1:nokey=1".to_owned());
    r.push(video_path.to_owned());
    proof {
        assert(views(r@) =~= ffprobe_duration_args_for(video_path@));
    }
    r
}

} // verus!
