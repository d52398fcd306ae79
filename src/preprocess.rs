//! The decisions around pre-splitting oversized videos before upload; running the external
//! transcoder is left to the caller.
use vstd::prelude::*;
use crate::config::Config;
use crate::plan::{chunk_count, count_chunks};
use crate::upload::{guessed_media_type, media_type_of};
use crate::text::{chars_of, contains_text, has_text, same_text, string_of, trim, trim_chars};

verus! {

/// The files that stand for one submitted path, and how they were made.
#[derive(Debug, Clone)]
pub struct PreprocessResult {
    pub files_to_upload: Vec<String>,
    pub preprocess_id: String,
}

pub open spec fn is_video_type(media_type: Seq<char>) -> bool {
    media_type.len() >= 6 && media_type.take(6) == "video/"@
}

/// A video is split where splitting is enabled (it is unless set off) and it is larger than
/// the largest file size.
pub open spec fn split_wanted(media_type: Seq<char>, size: u64, max_file_size: u64, config: Config) -> bool {
    &&& is_video_type(media_type)
    &&& match config.preprocess_videos {
        Some(b) => b,
        None => true,
    }
    &&& size > max_file_size
}

/// Whether the file at `path`, of `size` bytes, is split before upload; its media type is
/// guessed from its extension.
pub fn should_split(path: &str, size: u64, max_file_size: u64, config: &Config) -> (r: bool)
    ensures
        r == split_wanted(guessed_media_type(path@), size, max_file_size, *config),
{
    let enabled = match config.preprocess_videos {
        Some(b) => b,
        None => true,
    };
    if !enabled || size <= max_file_size {
        return false;
    }
    let media_type = media_type_of(path);
    let cs = chars_of(media_type.as_str());
    if cs.len() < 6 {
        return false;
    }
    let mut head: Vec<char> = Vec::new();
    let mut i: usize = 0;
    while i < 6
        invariant
            i <= 6 <= cs.len(),
            head@ == cs@.take(i as int),
        decreases 6 - i,
    {
        head.push(cs[i]);
        i = i + 1;
        assert(head@ =~= cs@.take(i as int));
    }
    let h = string_of(&head);
    same_text(h.as_str(), "video/")
}

/// How many parts a video of `size` bytes is cut into so that each is near `max_file_size`.
pub fn split_part_count(size: u64, max_file_size: u64) -> (r: u64)
    requires
        max_file_size > 0,
    ensures
        r == chunk_count(size as nat, max_file_size as nat),
{
    count_chunks(size, max_file_size)
}

pub open spec fn original_id() -> Seq<char> {
    "original"@
}

pub open spec fn split_id() -> Seq<char> {
    "split_video"@
}

/// A path that is uploaded as it is.
pub fn unsplit(path: &str) -> (r: PreprocessResult)
    ensures
        r.files_to_upload@.len() == 1,
        r.files_to_upload@[0]@ == path@,
        r.preprocess_id@ == original_id(),
{
    let mut files: Vec<String> = Vec::new();
    files.push(path.to_owned());
    PreprocessResult { files_to_upload: files, preprocess_id: "original".to_owned() }
}

/// The parts that a split produced, uploaded in place of the file that was split.
pub fn split_into(parts: Vec<String>) -> (r: PreprocessResult)
    ensures
        r.files_to_upload@ == parts@,
        r.preprocess_id@ == split_id(),
{
    PreprocessResult { files_to_upload: parts, preprocess_id: "split_video".to_owned() }
}

/// Whether the files of a preprocessing are temporary and are removed once uploaded: only
/// the parts of a split are.
pub fn removes_files_after_upload(preprocess_id: &str) -> (r: bool)
    ensures
        r == (preprocess_id@ == split_id()),
{
    same_text(preprocess_id, "split_video")
}

/// The header line that the transcoder prints before its acceleration methods.
pub open spec fn is_methods_header(line: Seq<char>) -> bool {
    has_text(line, "Hardware acceleration methods:"@)
}

pub open spec fn first_header(lines: Seq<Seq<char>>, i: int) -> Option<int>
    decreases lines.len() - i,
{
    if i < 0 || i >= lines.len() {
        None
    } else if is_methods_header(lines[i]) {
        Some(i)
    } else {
        first_header(lines, i + 1)
    }
}

pub open spec fn first_method(lines: Seq<Seq<char>>, i: int) -> Option<Seq<char>>
    decreases lines.len() - i,
{
    if i < 0 || i >= lines.len() {
        None
    } else if trim(lines[i]).len() > 0 && trim(lines[i]) != "none"@ {
        Some(trim(lines[i]))
    } else {
        first_method(lines, i + 1)
    }
}

/// The hardware acceleration to use, from the lines that the transcoder lists its methods
/// in: the first line after the header that is neither blank nor `none`, trimmed.
pub open spec fn chosen_acceleration(lines: Seq<Seq<char>>) -> Option<Seq<char>> {
    match first_header(lines, 0) {
        Some(h) => first_method(lines, h + 1),
        None => None,
    }
}

pub fn pick_acceleration(lines: &Vec<String>) -> (r: Option<String>)
    ensures
        match r {
            Some(s) => chosen_acceleration(lines@.map_values(|l: String| l@)) == Some(s@),
            None => chosen_acceleration(lines@.map_values(|l: String| l@)) is None,
        },
{
    let ghost ls = lines@.map_values(|l: String| l@);
    let mut i: usize = 0;
    let mut found = false;
    while i < lines.len() && !found
        invariant
            i <= lines.len(),
            ls == lines@.map_values(|l: String| l@),
            !found ==> first_header(ls, 0) == first_header(ls, i as int),
            found ==> i < lines.len() && first_header(ls, 0) == Some(i as int),
        decreases lines.len() - i, if found { 0int } else { 1int },
    {
        if contains_text(lines[i].as_str(), "Hardware acceleration methods:") {
            found = true;
        } else {
            i = i + 1;
        }
    }
    if !found {
        return None;
    }
    let mut j = i + 1;
    while j < lines.len()
        invariant
            i < lines.len(),
            i + 1 <= j <= lines.len(),
            ls == lines@.map_values(|l: String| l@),
            first_method(ls, i + 1) == first_method(ls, j as int),
            first_header(ls, 0) == Some(i as int),
        decreases lines.len() - j,
    {
        let cs = chars_of(lines[j].as_str());
        let t = trim_chars(&cs);
        let ts = string_of(&t);
        assert(ls[j as int] == lines@[j as int]@);
        if t.len() > 0 && !same_text(ts.as_str(), "none") {
            assert(first_method(ls, j as int) == Some(t@));
            return Some(ts);
        }
        j = j + 1;
    }
    None
}

} // verus!
