use vstd::prelude::*;
use crate::paths::{base_name, base_name_of, extension, extension_of};

verus! {

/// What the tag reader reported for one file.
#[derive(Debug)]
pub enum TagProbe {
    /// The reader could not open the file: it is no audio file.
    Unreadable,
    /// The file opened, but it carries no tag.
    NoTags,
    /// The file opened with a tag; a field the tag lacks is empty.
    Tags { artist: String, album: String, title: String },
}

/// The mathematical value of a [`TagProbe`].
pub enum TagReading {
    Unreadable,
    NoTags,
    Tags { artist: Seq<char>, album: Seq<char>, title: Seq<char> },
}

impl View for TagProbe {
    type V = TagReading;

    open spec fn view(&self) -> TagReading {
        match self {
            TagProbe::Unreadable => TagReading::Unreadable,
            TagProbe::NoTags => TagReading::NoTags,
            TagProbe::Tags { artist, album, title } => TagReading::Tags {
                artist: artist@,
                album: album@,
                title: title@,
            },
        }
    }
}

/// Whether the reader accepted the file: audio-ness is tag readability.
pub fn is_audio_file(probe: &TagProbe) -> (r: bool)
    ensures
        r == !(probe@ is Unreadable),
{
    match probe {
        TagProbe::Unreadable => false,
        _ => true,
    }
}

/// The value that stands for a missing artist or album.
pub open spec fn unknown() -> Seq<char> {
    "Unknown"@
}

/// A tag field, or the fallback where the field is empty.
pub open spec fn or_fallback(field: Seq<char>, fallback: Seq<char>) -> Seq<char> {
    if field.len() > 0 {
        field
    } else {
        fallback
    }
}

/// The artist a file is filed under.
pub open spec fn artist_of(reading: TagReading) -> Seq<char> {
    match reading {
        TagReading::Tags { artist, .. } => or_fallback(artist, unknown()),
        _ => unknown(),
    }
}

/// The album a file is filed under.
pub open spec fn album_of(reading: TagReading) -> Seq<char> {
    match reading {
        TagReading::Tags { album, .. } => or_fallback(album, unknown()),
        _ => unknown(),
    }
}

/// Whether the title comes from the tag rather than from the file name.
pub open spec fn title_from_tag(reading: TagReading) -> bool {
    match reading {
        TagReading::Tags { title, .. } => title.len() > 0,
        _ => false,
    }
}

/// The title a file is filed under: the tag's, else the file's base name.
pub open spec fn title_of(source: Seq<char>, reading: TagReading) -> Seq<char> {
    match reading {
        TagReading::Tags { title, .. } => or_fallback(title, base_name_of(source)),
        _ => base_name_of(source),
    }
}

/// The extension appended to the title: the source's, but only where the
/// title came from the tag (a base name already carries it).
pub open spec fn format_of(source: Seq<char>, reading: TagReading) -> Seq<char> {
    if title_from_tag(reading) {
        extension_of(source)
    } else {
        Seq::empty()
    }
}

fn unknown_string() -> (r: String)
    ensures
        r@ == unknown(),
{
    String::from_str("Unknown")
}

fn field_or_unknown(field: &String) -> (r: String)
    ensures
        r@ == or_fallback(field@, unknown()),
{
    if field.as_str().is_empty() {
        unknown_string()
    } else {
        field.clone()
    }
}

/// The artist, album, title and extension of the file at `source`, as the
/// tag reader reported it.
pub fn describe(source: &str, probe: &TagProbe) -> (r: (String, String, String, String))
    ensures
        r.0@ == artist_of(probe@),
        r.1@ == album_of(probe@),
        r.2@ == title_of(source@, probe@),
        r.3@ == format_of(source@, probe@),
{
    match probe {
        TagProbe::Tags { artist, album, title } => {
            let a = field_or_unknown(artist);
            let b = field_or_unknown(album);
            if title.as_str().is_empty() {
                (a, b, base_name(source), String::new())
            } else {
                (a, b, title.clone(), extension(source))
            }
        },
        _ => (unknown_string(), unknown_string(), base_name(source), String::new()),
    }
}

/// After extraction no field is empty, for every reading of a file whose
/// path has a final component.
pub proof fn lemma_extracted_fields_nonempty(source: Seq<char>, reading: TagReading)
    requires
        base_name_of(source).len() > 0,
    ensures
        artist_of(reading).len() > 0,
        album_of(reading).len() > 0,
        title_of(source, reading).len() > 0,
{
    reveal_strlit("Unknown");
}

} // verus!
