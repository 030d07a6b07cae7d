//! Which image file a request names.

use vstd::prelude::*;
use vstd::string::*;
use crate::text::str_eq;

verus! {

/// The kinds of image file that are served.
#[derive(Debug, Clone, Copy, PartialEq, Eq, Structural)]
pub enum ImageFileType {
    PNG,
}

impl ImageFileType {
    /// The file extension of this kind of image, without the dot.
    pub open spec fn extension_spec(self) -> Seq<char> {
        "png"@
    }

    /// The file extension of this kind of image, without the dot.
    pub fn extension(&self) -> (r: &'static str)
        ensures
            r@ == self.extension_spec(),
    {
        match self {
            ImageFileType::PNG => "png",
        }
    }
}

/// Why a request for an image is refused.
#[derive(Debug, Clone, Copy, PartialEq, Eq, Structural)]
pub enum ImageRefusal {
    /// The name is not of the form `file.ext`.
    Shape,
    /// The extension is not one that is served.
    FileType,
    /// The file part holds a character that is not allowed.
    Name,
}

impl ImageRefusal {
    /// What the requester is told.
    pub open spec fn message_spec(self) -> Seq<char> {
        match self {
            ImageRefusal::Shape => "images must be 'file.ext'"@,
            ImageRefusal::FileType => "only .png image file type is supported"@,
            ImageRefusal::Name => "image file invalid: must contain only ascii alphanumeric and '_' characters"@,
        }
    }

    /// What the requester is told.
    pub fn message(&self) -> (r: String)
        ensures
            r@ == self.message_spec(),
    {
        match self {
            ImageRefusal::Shape => "images must be 'file.ext'".to_owned(),
            ImageRefusal::FileType => "only .png image file type is supported".to_owned(),
            ImageRefusal::Name => "image file invalid: must contain only ascii alphanumeric and '_' characters".to_owned(),
        }
    }
}

/// Whether `c` is an ASCII letter, an ASCII digit or an underscore.
pub open spec fn alpha_numeric_underscore(c: char) -> bool {
    ('a' <= c && c <= 'z') || ('A' <= c && c <= 'Z') || ('0' <= c && c <= '9') || c == '_'
}

/// Whether `c` is an ASCII letter, an ASCII digit or an underscore.
pub fn is_alpha_numeric_underscore(c: char) -> (r: bool)
    ensures
        r == alpha_numeric_underscore(c),
{
    (c >= 'a' && c <= 'z') || (c >= 'A' && c <= 'Z') || (c >= '0' && c <= '9') || c == '_'
}

/// Whether `name` is one or more characters, each an ASCII letter, an ASCII
/// digit or an underscore.
pub open spec fn valid_file_name(name: Seq<char>) -> bool {
    &&& name.len() > 0
    &&& forall|i: int| 0 <= i < name.len() ==> alpha_numeric_underscore(#[trigger] name[i])
}

/// Accepts a file part of one or more ASCII letters, ASCII digits and underscores.
pub fn validate_file_name(name: &str) -> (r: Result<(), &'static str>)
    ensures
        r is Ok <==> valid_file_name(name@),
        r is Err ==> r->Err_0@ == "must contain only ascii alphanumeric and '_' characters"@,
{
    let mut empty = true;
    for c in it: name.chars()
        invariant
            it.seq() == name@,
            empty == (it.index() == 0),
            forall|j: int| 0 <= j < it.index() ==> alpha_numeric_underscore(#[trigger] name@[j]),
    {
        if !is_alpha_numeric_underscore(c) {
            assert(!alpha_numeric_underscore(name@[it.index() as int]));
            return Err("must contain only ascii alphanumeric and '_' characters");
        }
        empty = false;
    }
    if empty {
        return Err("must contain only ascii alphanumeric and '_' characters");
    }
    Ok(())
}

/// Whether the only dot of `file` stands at index `d`.
pub open spec fn is_only_dot(file: Seq<char>, d: int) -> bool {
    &&& 0 <= d < file.len()
    &&& file[d] == '.'
    &&& forall|i: int| 0 <= i < file.len() && i != d ==> #[trigger] file[i] != '.'
}

/// The path of the image file that a request names, or why it is refused.
///
/// The name must be a file part and an extension with one dot between them
/// and no other; the extension must be `png`; the file part must be valid.
pub open spec fn image_path_spec(file: Seq<char>) -> Result<Seq<char>, ImageRefusal> {
    if !(exists|d: int| is_only_dot(file, d)) {
        Err(ImageRefusal::Shape)
    } else {
        let d = choose|d: int| is_only_dot(file, d);
        let name = file.subrange(0, d);
        let suffix = file.subrange(d + 1, file.len() as int);
        if suffix != "png"@ {
            Err(ImageRefusal::FileType)
        } else if !valid_file_name(name) {
            Err(ImageRefusal::Name)
        } else {
            Ok("images/"@ + name + "."@ + ImageFileType::PNG.extension_spec())
        }
    }
}

/// A result with its path as mathematical text.
pub open spec fn outcome_path(r: Result<String, ImageRefusal>) -> Result<Seq<char>, ImageRefusal> {
    match r {
        Ok(path) => Ok(path@),
        Err(refusal) => Err(refusal),
    }
}

/// The path of the image file that a request names, or why it is refused.
pub fn image_path(file_name: &str) -> (r: Result<String, ImageRefusal>)
    ensures
        outcome_path(r) == image_path_spec(file_name@),
{
    let n = file_name.unicode_len();
    let mut dots: usize = 0;
    let mut at: usize = 0;
    let ghost mut other: int = 0;
    let mut i: usize = 0;
    for c in it: file_name.chars()
        invariant
            it.seq() == file_name@,
            n == file_name@.len(),
            i == it.index(),
            dots <= i,
            dots == 0 ==> forall|j: int| 0 <= j < i ==> #[trigger] file_name@[j] != '.',
            dots >= 1 ==> at < i && file_name@[at as int] == '.',
            dots == 1 ==> forall|j: int| 0 <= j < i && j != at ==> #[trigger] file_name@[j] != '.',
            dots >= 2 ==> 0 <= other < i && other != at && file_name@[other] == '.',
    {
        if c == '.' {
            if dots == 0 {
                at = i;
            } else {
                proof {
                    other = i as int;
                }
            }
            dots += 1;
        }
        i += 1;
    }
    if dots != 1 {
        proof {
            assert forall|d: int| !is_only_dot(file_name@, d) by {
                if dots >= 2 && is_only_dot(file_name@, d) {
                    assert(file_name@[at as int] == '.');
                    assert(file_name@[other] == '.');
                }
            }
        }
        return Err(ImageRefusal::Shape);
    }
    proof {
        assert(is_only_dot(file_name@, at as int));
        let d = choose|d: int| is_only_dot(file_name@, d);
        assert(d == at) by {
            assert(file_name@[at as int] == '.');
        }
    }
    let name = file_name.substring_char(0, at);
    let suffix = file_name.substring_char(at + 1, n);
    let ext = if str_eq(suffix, "png") {
        ImageFileType::PNG
    } else {
        return Err(ImageRefusal::FileType);
    };
    match validate_file_name(name) {
        Ok(()) => (),
        Err(_) => {
            return Err(ImageRefusal::Name);
        },
    }
    let mut path = "images/".to_owned();
    path.append(name);
    path.append(".");
    path.append(ext.extension());
    Ok(path)
}

} // verus!
