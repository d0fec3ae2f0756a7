//! The closed set of semantic tag fields and the per-file tag mapping.

use vstd::prelude::*;

verus! {

/// A semantic metadata field that a template may reference.
#[derive(Clone, Copy, PartialEq, Eq, Structural, Debug)]
pub enum FieldName {
    Track,
    Title,
    Artist,
    Year,
    Album,
}

/// The tags read from one media file: each field either carries a string
/// value or is absent. Absent fields are not an error here; they only matter
/// at render time.
pub struct MediaTags {
    pub track: Option<String>,
    pub title: Option<String>,
    pub artist: Option<String>,
    pub year: Option<String>,
    pub album: Option<String>,
}

impl View for MediaTags {
    type V = Map<FieldName, Seq<char>>;

    /// A `MediaTags` value is a partial mapping from field name to value:
    /// a field is in the domain exactly when it is present.
    open spec fn view(&self) -> Map<FieldName, Seq<char>> {
        let m = Map::<FieldName, Seq<char>>::empty();
        let m = if self.track is Some {
            m.insert(FieldName::Track, self.track->Some_0@)
        } else {
            m
        };
        let m = if self.title is Some {
            m.insert(FieldName::Title, self.title->Some_0@)
        } else {
            m
        };
        let m = if self.artist is Some {
            m.insert(FieldName::Artist, self.artist->Some_0@)
        } else {
            m
        };
        let m = if self.year is Some {
            m.insert(FieldName::Year, self.year->Some_0@)
        } else {
            m
        };
        if self.album is Some {
            m.insert(FieldName::Album, self.album->Some_0@)
        } else {
            m
        }
    }
}

impl MediaTags {
    /// Look one field up; `None` exactly when the field is absent.
    pub fn get(&self, f: FieldName) -> (r: Option<&String>)
        ensures
            match r {
                Some(v) => self@.contains_key(f) && v@ == self@[f],
                None => !self@.contains_key(f),
            },
    {
        match f {
            FieldName::Track => self.track.as_ref(),
            FieldName::Title => self.title.as_ref(),
            FieldName::Artist => self.artist.as_ref(),
            FieldName::Year => self.year.as_ref(),
            FieldName::Album => self.album.as_ref(),
        }
    }
}

} // verus!
