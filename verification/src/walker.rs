//! Per-entry decisions of the directory walker / rename engine.
//!
//! The walker itself lives in the surrounding program, which enumerates
//! directories, reads tag blocks and performs renames; every decision it
//! takes — is this a media file, what is its new name, what is the new
//! directory name, which error does an entry get — is made here, on plain
//! values.

use vstd::prelude::*;

use crate::fields::FieldName;
use crate::fields::MediaTags;
use crate::format::FormatToken;
use crate::outcome::ProcessError;
use crate::render::RenderError;
use crate::render::render;
use crate::render::render_spec;

verus! {

/// The extensions whose tag blocks the program can read.
pub open spec fn is_media_ext_spec(e: Seq<char>) -> bool {
    e == "mp3"@ || e == "flac"@
}

/// Character-for-character string equality.
fn str_eq(a: &str, b: &str) -> (r: bool)
    ensures
        r == (a@ == b@),
{
    let na = a.unicode_len();
    let nb = b.unicode_len();
    if na != nb {
        return false;
    }
    let mut i: usize = 0;
    while i < na
        invariant
            na == a@.len(),
            nb == b@.len(),
            na == nb,
            0 <= i <= na,
            forall|m: int| 0 <= m < i ==> a@[m] == b@[m],
        decreases na - i,
    {
        if a.get_char(i) != b.get_char(i) {
            return false;
        }
        i = i + 1;
    }
    proof {
        assert(a@ =~= b@);
    }
    true
}

/// Is this extension a recognized media type?
pub fn is_media_extension(extension: &str) -> (r: bool)
    ensures
        r == is_media_ext_spec(extension@),
{
    str_eq(extension, "mp3") || str_eq(extension, "flac")
}

/// Decide one file: reject an unrecognized extension, reject an unreadable
/// tag block (the surrounding program hands `None` when the metadata could
/// not be parsed), otherwise render the file's new name from its tags.
pub fn parse_file(extension: &str, tags: Option<&MediaTags>, tokens: &Vec<FormatToken>) -> (r:
    Result<String, ProcessError>)
    ensures
        !is_media_ext_spec(extension@) ==> r == Err::<String, ProcessError>(
            ProcessError::UnsupportedFormat,
        ),
        is_media_ext_spec(extension@) && tags is None ==> r == Err::<String, ProcessError>(
            ProcessError::CorruptOrUnreadable,
        ),
        is_media_ext_spec(extension@) ==> (tags matches Some(t) ==> match render_spec(
            tokens.deep_view(),
            t@,
            extension@,
        ) {
            Ok(name) => r matches Ok(s) && s@ == name,
            Err(f) => r == Err::<String, ProcessError>(ProcessError::MissingField(f)),
        }),
        r is Ok <==> (is_media_ext_spec(extension@) && (tags matches Some(t)
            && crate::render::all_fields_present(tokens.deep_view(), t@))),
{
    if !is_media_extension(extension) {
        return Err(ProcessError::UnsupportedFormat);
    }
    match tags {
        None => Err(ProcessError::CorruptOrUnreadable),
        Some(t) => match render(tokens, t, extension) {
            Ok(name) => Ok(name),
            Err(RenderError::MissingField(f)) => Err(ProcessError::MissingField(f)),
        },
    }
}

/// The new name of a directory: `"<year> - <album>"`.
pub open spec fn dir_name_spec(year: Seq<char>, album: Seq<char>) -> Seq<char> {
    year + " - "@ + album
}

/// Decide a directory rename from the first media file's tags: both the year
/// and the album are required, the year checked first; with both present the
/// new name is `"<year> - <album>"`.
pub fn dir_rename_name(tags: &MediaTags) -> (r: Result<String, ProcessError>)
    ensures
        !tags@.contains_key(FieldName::Year) ==> r == Err::<String, ProcessError>(
            ProcessError::MissingField(FieldName::Year),
        ),
        tags@.contains_key(FieldName::Year) && !tags@.contains_key(FieldName::Album) ==> r == Err::<
            String,
            ProcessError,
        >(ProcessError::MissingField(FieldName::Album)),
        tags@.contains_key(FieldName::Year) && tags@.contains_key(FieldName::Album) ==> (r matches
            Ok(name) && name@ == dir_name_spec(
            tags@[FieldName::Year],
            tags@[FieldName::Album],
        )),
        r is Ok <==> tags@.contains_key(FieldName::Year) && tags@.contains_key(FieldName::Album),
{
    let year = match tags.get(FieldName::Year) {
        Some(v) => v,
        None => {
            return Err(ProcessError::MissingField(FieldName::Year));
        },
    };
    let album = match tags.get(FieldName::Album) {
        Some(v) => v,
        None => {
            return Err(ProcessError::MissingField(FieldName::Album));
        },
    };
    let mut name = year.clone();
    name.append(" - ");
    name.append(album.as_str());
    Ok(name)
}

} // verus!
