use crate::text::to_chars;
use vstd::prelude::*;

verus! {

/// The kind of file an attachment is, as far as the service tells them apart.
#[derive(Clone, Copy, Debug, PartialEq, Eq, Structural)]
pub enum FileType {
    Pdf,
    Txt,
    Csv,
    Binary,
}

/// What `std::path::Path::extension` gives for a path: the part of its file
/// name after the last dot, or `None` where the file name has no such part.
/// How a path divides into components is the platform's matter.
pub uninterp spec fn path_extension(path: Seq<char>) -> Option<Seq<char>>;

/// What `str::to_lowercase` gives: the text in lower case, as Unicode defines it.
pub uninterp spec fn lowercase(text: Seq<char>) -> Seq<char>;

/// `std::path::Path::extension` of the path that the text spells. The
/// extension of such a path is text again.
#[verifier::external_body]
fn extension(path: &str) -> (r: Option<String>)
    ensures
        match r {
            Some(found) => path_extension(path@) == Some(found@),
            None => path_extension(path@) is None,
        },
{
    match std::path::Path::new(path).extension() {
        Some(found) => Some(found.to_string_lossy().into_owned()),
        None => None,
    }
}

/// `str::to_lowercase` gives the lower-case equivalent of the text.
pub assume_specification[ str::to_lowercase ](text: &str) -> (r: String)
    ensures
        r@ == lowercase(text@),
;

/// The kind of file that a lower-case extension stands for.
pub open spec fn file_type_of(extension: Seq<char>) -> FileType {
    if extension == seq!['p', 'd', 'f'] {
        FileType::Pdf
    } else if extension == seq!['t', 'x', 't'] {
        FileType::Txt
    } else if extension == seq!['c', 's', 'v'] {
        FileType::Csv
    } else {
        FileType::Binary
    }
}

/// The extension of a path, empty where it has none.
pub open spec fn extension_or_empty(path: Seq<char>) -> Seq<char> {
    match path_extension(path) {
        Some(found) => found,
        None => Seq::<char>::empty(),
    }
}

/// The media type that the service is told for each kind of file.
pub open spec fn media_type(kind: FileType) -> Seq<char> {
    match kind {
        FileType::Pdf => "application/pdf"@,
        FileType::Txt => "text/plain"@,
        FileType::Csv => "text/csv"@,
        FileType::Binary => "application/octet-stream"@,
    }
}

impl FileType {
    /// The kind of file that an extension stands for. The extension is
    /// compared as it is: upper case is not folded.
    pub fn from_extension(extension: &str) -> (r: FileType)
        ensures
            r == file_type_of(extension@),
    {
        let chars = to_chars(extension);
        if chars.len() != 3 {
            FileType::Binary
        } else if chars[0] == 'p' && chars[1] == 'd' && chars[2] == 'f' {
            assert(chars@ =~= seq!['p', 'd', 'f']);
            FileType::Pdf
        } else if chars[0] == 't' && chars[1] == 'x' && chars[2] == 't' {
            assert(chars@ =~= seq!['t', 'x', 't']);
            FileType::Txt
        } else if chars[0] == 'c' && chars[1] == 's' && chars[2] == 'v' {
            assert(chars@ =~= seq!['c', 's', 'v']);
            FileType::Csv
        } else {
            FileType::Binary
        }
    }

    /// The media type that the service is told for this kind of file.
    pub fn mime(&self) -> (r: &'static str)
        ensures
            r@ == media_type(*self),
    {
        match self {
            FileType::Pdf => "application/pdf",
            FileType::Txt => "text/plain",
            FileType::Csv => "text/csv",
            FileType::Binary => "application/octet-stream",
        }
    }
}

/// The kind of file at a path, told by its extension in lower case. A path
/// without an extension is a binary file.
pub fn get_content_type(path: &str) -> (r: FileType)
    ensures
        r == file_type_of(lowercase(extension_or_empty(path@))),
{
    let found = match extension(path) {
        Some(found) => found,
        None => String::new(),
    };
    let lowered = found.as_str().to_lowercase();
    FileType::from_extension(lowered.as_str())
}

} // verus!
