use vstd::prelude::*;

use crate::errors::Error;
use crate::text::{owned, same_text};

verus! {

/// The formats a piece of content can be written in.
#[derive(Debug, Clone, Copy, PartialEq, Eq, Structural)]
pub enum MediaType {
    TEXT,
    HTML,
    MARKDOWN,
}

impl MediaType {
    /// The name under which the media type is written and read.
    pub open spec fn name(self) -> Seq<char> {
        match self {
            MediaType::TEXT => "text"@,
            MediaType::HTML => "html"@,
            MediaType::MARKDOWN => "markdown"@,
        }
    }

    /// The media type that carries the name `s`, if any.
    pub open spec fn named(s: Seq<char>) -> Option<MediaType> {
        if s == "text"@ {
            Some(MediaType::TEXT)
        } else if s == "markdown"@ {
            Some(MediaType::MARKDOWN)
        } else if s == "html"@ {
            Some(MediaType::HTML)
        } else {
            None
        }
    }

    /// The name of the media type.
    pub fn to_string(&self) -> (r: String)
        ensures
            r@ == self.name(),
    {
        match self {
            MediaType::TEXT => owned("text"),
            MediaType::HTML => owned("html"),
            MediaType::MARKDOWN => owned("markdown"),
        }
    }

    /// Reads a media type from its name; any other text is refused with
    /// `Error::BadMediaType` carrying that text.
    pub fn from_str(s: &str) -> (r: Result<MediaType, Error>)
        ensures
            r is Ok <==> MediaType::named(s@) is Some,
            r matches Ok(m) ==> MediaType::named(s@) == Some(m),
            r matches Err(e) ==> (e matches Error::BadMediaType(t) && t@ == s@),
    {
        if same_text(s, "text") {
            Ok(MediaType::TEXT)
        } else if same_text(s, "markdown") {
            Ok(MediaType::MARKDOWN)
        } else if same_text(s, "html") {
            Ok(MediaType::HTML)
        } else {
            Err(Error::BadMediaType(owned(s)))
        }
    }
}

/// Reading back the name of a media type gives that media type.
pub proof fn lemma_media_type_round_trip(m: MediaType)
    ensures
        MediaType::named(m.name()) == Some(m),
{
    reveal_strlit("text");
    reveal_strlit("html");
    reveal_strlit("markdown");
    assert("text"@[0] != "html"@[0]);
    assert("text"@ != "markdown"@);
    assert("html"@ != "markdown"@);
    assert("text"@ != "html"@);
}

/// A name that reads as a media type is exactly that media type's name.
pub proof fn lemma_media_type_name_of_read(s: Seq<char>)
    ensures
        MediaType::named(s) matches Some(m) ==> m.name() == s,
{
}

} // verus!
