//! How inputs are told apart and how the files written are named.

use crate::text::{decimal_digits, ends_with, is_suffix, joined, push_decimal};
use vstd::prelude::*;
use vstd::string::StringExecFns;

verus! {

/// What an input path is taken for.
#[derive(Clone, Copy, Debug, PartialEq, Eq, Structural)]
pub enum MediaKind {
    /// A video, decoded frame by frame.
    Video,
    /// Anything else: a still image.
    Image,
}

/// Whether a path names a video: it ends with `.mp4`, `.avi` or `.mkv`.
pub open spec fn is_video_path(path: Seq<char>) -> bool {
    is_suffix(path, ".mp4"@) || is_suffix(path, ".avi"@) || is_suffix(path, ".mkv"@)
}

/// Tells a video from a still image by the end of its path.
pub fn classify(path: &str) -> (kind: MediaKind)
    ensures
        kind == MediaKind::Video <==> is_video_path(path@),
        kind == MediaKind::Image <==> !is_video_path(path@),
{
    if ends_with(path, ".mp4") || ends_with(path, ".avi") || ends_with(path, ".mkv") {
        MediaKind::Video
    } else {
        MediaKind::Image
    }
}

/// The directory that rendered text files are written to.
pub fn output_directory() -> (dir: &'static str)
    ensures
        dir@ == "ascii-results"@,
{
    "ascii-results"
}

/// The name of the text file for an input with the given stem: the stem
/// followed by `.txt`.
pub fn text_file_name(stem: &str) -> (name: String)
    ensures
        name@ == stem@ + ".txt"@,
{
    joined(stem, ".txt")
}

/// The name of the text file of the frame with the given number:
/// `frame_`, the number in decimal, `.txt`.
pub fn frame_file_name(index: u64) -> (name: String)
    ensures
        name@ == "frame_"@ + decimal_digits(index as nat) + ".txt"@,
{
    let mut name: String = String::from_str("frame_");
    push_decimal(&mut name, index);
    name.append(".txt");
    name
}

/// The stem that `Path::file_stem` of the standard library gives for a
/// path, by the path syntax of the system the library is built for; none
/// where the path has no final component.
pub uninterp spec fn path_file_stem(path: Seq<char>) -> Option<Seq<char>>;

/// `Path::file_stem` of the standard library, on a path given as text.
///
/// Claimed of it: the result is a function of the path alone, named
/// [`path_file_stem`], and a stem is a portion of the path.
#[verifier::external_body]
fn file_stem(path: &str) -> (stem: Option<String>)
    ensures
        match stem {
            Some(s) => path_file_stem(path@) == Some(s@),
            None => path_file_stem(path@) is None,
        },
        stem matches Some(s) ==> is_part_of(s@, path@),
{
    std::path::Path::new(path).file_stem().and_then(|stem| stem.to_str()).map(String::from)
}

/// The name of the text file for an input path: the stem of the path's
/// final component, which is a portion of the path, followed by `.txt`; none
/// where the path has no final component.
pub fn get_output_filename(input_path: &str) -> (name: Option<String>)
    ensures
        match path_file_stem(input_path@) {
            Some(stem) => name matches Some(n) && n@ == stem + ".txt"@,
            None => name is None,
        },
        name matches Some(n) ==> exists|stem: Seq<char>|
            is_part_of(stem, input_path@) && n@ == #[trigger] (stem + ".txt"@),
{
    text_file_name_for(file_stem(input_path))
}

/// The name of the text file for a stem, where there is a stem: the stem
/// followed by `.txt`.
pub fn text_file_name_for(stem: Option<String>) -> (name: Option<String>)
    ensures
        match stem {
            Some(s) => name matches Some(n) && n@ == s@ + ".txt"@,
            None => name is None,
        },
{
    match stem {
        Some(stem) => Some(text_file_name(stem.as_str())),
        None => None,
    }
}

/// Whether `part` is a run of consecutive characters of `text`.
pub open spec fn is_part_of(part: Seq<char>, text: Seq<char>) -> bool {
    exists|from: int, to: int|
        0 <= from <= to <= text.len() && part == #[trigger] text.subrange(from, to)
}

} // verus!
