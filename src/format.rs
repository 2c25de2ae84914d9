//! Format inference from an identifier's extension, and content types.

use vstd::prelude::*;

verus! {

/// A codec that an identifier's extension can select.
#[derive(Clone, Copy, Debug, PartialEq, Eq, Structural)]
pub enum ImageFormat {
    Jpeg,
    Png,
    Ico,
    Gif,
}

/// An encoding target; JPEG carries its quality.
#[derive(Clone, Copy, Debug, PartialEq, Eq, Structural)]
pub enum ImageOutputFormat {
    Jpeg(u8),
    Png,
    Ico,
    Gif,
}

/// The quality every JPEG is encoded with.
pub const JPEG_QUALITY: u8 = 75;

/// `i` is the position of the only `.` in `name`.
pub open spec fn sole_dot_at(name: Seq<char>, i: int) -> bool {
    &&& 0 <= i < name.len()
    &&& name[i] == '.'
    &&& forall|j: int| 0 <= j < name.len() && j != i ==> name[j] != '.'
}

/// What follows the dot of a name that splits on `.` into exactly two parts.
pub open spec fn extension(name: Seq<char>) -> Option<Seq<char>> {
    if exists|i: int| sole_dot_at(name, i) {
        let i = choose|i: int| sole_dot_at(name, i);
        Some(name.subrange(i + 1, name.len() as int))
    } else {
        None
    }
}

/// The fixed, case-sensitive table of known extensions.
pub open spec fn format_of_extension(ext: Seq<char>) -> Option<ImageFormat> {
    if ext == "jpeg"@ || ext == "jpg"@ {
        Some(ImageFormat::Jpeg)
    } else if ext == "png"@ {
        Some(ImageFormat::Png)
    } else if ext == "ico"@ {
        Some(ImageFormat::Ico)
    } else if ext == "gif"@ {
        Some(ImageFormat::Gif)
    } else {
        None
    }
}

/// The format an identifier names, if any.
pub open spec fn format_of(name: Seq<char>) -> Option<ImageFormat> {
    match extension(name) {
        Some(ext) => format_of_extension(ext),
        None => None,
    }
}

/// The encoder settings used for a format.
pub open spec fn output_format(f: ImageFormat) -> ImageOutputFormat {
    match f {
        ImageFormat::Jpeg => ImageOutputFormat::Jpeg(JPEG_QUALITY),
        ImageFormat::Png => ImageOutputFormat::Png,
        ImageFormat::Ico => ImageOutputFormat::Ico,
        ImageFormat::Gif => ImageOutputFormat::Gif,
    }
}

/// The encode format an identifier names, if any.
pub open spec fn output_format_of(name: Seq<char>) -> Option<ImageOutputFormat> {
    match format_of(name) {
        Some(f) => Some(output_format(f)),
        None => None,
    }
}

/// The HTTP content type served for a format.
pub open spec fn content_type(f: ImageFormat) -> Seq<char> {
    match f {
        ImageFormat::Jpeg => "image/jpeg"@,
        ImageFormat::Png => "image/png"@,
        ImageFormat::Ico => "image/ico"@,
        ImageFormat::Gif => "image/gif"@,
    }
}

/// The content type served for an identifier: its format's, or JPEG's when it names none.
pub open spec fn content_type_of(name: Seq<char>) -> Seq<char> {
    match format_of(name) {
        Some(f) => content_type(f),
        None => content_type(ImageFormat::Jpeg),
    }
}

/// Whether two strings hold the same characters.
fn same_text(a: &str, b: &str) -> (r: bool)
    ensures
        r == (a@ == b@),
{
    let n = a.unicode_len();
    if n != b.unicode_len() {
        return false;
    }
    let mut i: usize = 0;
    while i < n
        invariant
            n == a@.len(),
            n == b@.len(),
            i <= n,
            forall|j: int| 0 <= j < i ==> a@[j] == b@[j],
        decreases n - i,
    {
        if a.get_char(i) != b.get_char(i) {
            return false;
        }
        i = i + 1;
    }
    assert(a@ =~= b@);
    true
}

/// The position of the only `.` in `name`, or `None` when it has none or several.
fn sole_dot(name: &str) -> (r: Option<usize>)
    ensures
        match r {
            Some(i) => sole_dot_at(name@, i as int),
            None => !exists|i: int| sole_dot_at(name@, i),
        },
{
    let n = name.unicode_len();
    let mut found: Option<usize> = None;
    let mut i: usize = 0;
    while i < n
        invariant
            n == name@.len(),
            i <= n,
            match found {
                Some(k) => k < i && name@[k as int] == '.' && forall|j: int|
                    0 <= j < i && j != k ==> name@[j] != '.',
                None => forall|j: int| 0 <= j < i ==> name@[j] != '.',
            },
        decreases n - i,
    {
        if name.get_char(i) == '.' {
            match found {
                Some(k) => {
                    assert(!sole_dot_at(name@, k as int));
                    assert forall|m: int| !sole_dot_at(name@, m) by {
                        if sole_dot_at(name@, m) {
                            assert(m == k as int || m == i as int);
                        }
                    }
                    return None;
                },
                None => {
                    found = Some(i);
                },
            }
        }
        i = i + 1;
    }
    found
}

/// The text after the only `.` of `name`, when it has exactly one.
fn extension_text(name: &str) -> (r: Option<&str>)
    ensures
        match r {
            Some(e) => extension(name@) == Some(e@),
            None => extension(name@) is None,
        },
{
    match sole_dot(name) {
        Some(k) => {
            let n = name.unicode_len();
            let ghost i = choose|i: int| sole_dot_at(name@, i);
            assert(i == k as int);
            Some(name.substring_char(k + 1, n))
        },
        None => None,
    }
}

/// Resolves the decode format named by an identifier's extension.
pub fn get_image_format(file_name: &str) -> (r: Option<ImageFormat>)
    ensures
        r == format_of(file_name@),
{
    match extension_text(file_name) {
        Some(ext) => {
            if same_text(ext, "jpeg") || same_text(ext, "jpg") {
                Some(ImageFormat::Jpeg)
            } else if same_text(ext, "png") {
                Some(ImageFormat::Png)
            } else if same_text(ext, "ico") {
                Some(ImageFormat::Ico)
            } else if same_text(ext, "gif") {
                Some(ImageFormat::Gif)
            } else {
                None
            }
        },
        None => None,
    }
}

/// Resolves the encode format named by an identifier's extension.
pub fn get_image_output_format(file_name: &str) -> (r: Option<ImageOutputFormat>)
    ensures
        r == output_format_of(file_name@),
{
    match get_image_format(file_name) {
        Some(ImageFormat::Jpeg) => Some(ImageOutputFormat::Jpeg(JPEG_QUALITY)),
        Some(ImageFormat::Png) => Some(ImageOutputFormat::Png),
        Some(ImageFormat::Ico) => Some(ImageOutputFormat::Ico),
        Some(ImageFormat::Gif) => Some(ImageOutputFormat::Gif),
        None => None,
    }
}

/// The content type served for a format.
pub fn get_content_header(format: &ImageFormat) -> (r: &'static str)
    ensures
        r@ == content_type(*format),
{
    match format {
        ImageFormat::Jpeg => "image/jpeg",
        ImageFormat::Png => "image/png",
        ImageFormat::Ico => "image/ico",
        ImageFormat::Gif => "image/gif",
    }
}

/// The content type served for an identifier, falling back to JPEG's.
pub fn content_header_for(file_name: &str) -> (r: &'static str)
    ensures
        r@ == content_type_of(file_name@),
{
    match get_image_format(file_name) {
        Some(f) => get_content_header(&f),
        None => get_content_header(&ImageFormat::Jpeg),
    }
}

/// The number of `.` characters in `s`.
pub open spec fn dot_count(s: Seq<char>) -> nat
    decreases s.len(),
{
    if s.len() == 0 {
        0
    } else {
        dot_count(s.drop_last()) + if s.last() == '.' {
            1nat
        } else {
            0nat
        }
    }
}

proof fn lemma_no_dots(s: Seq<char>)
    requires
        forall|j: int| 0 <= j < s.len() ==> s[j] != '.',
    ensures
        dot_count(s) == 0,
    decreases s.len(),
{
    if s.len() > 0 {
        lemma_no_dots(s.drop_last());
    }
}

proof fn lemma_sole_dot_counts_one(s: Seq<char>, i: int)
    requires
        sole_dot_at(s, i),
    ensures
        dot_count(s) == 1,
    decreases s.len(),
{
    if i == s.len() - 1 {
        lemma_no_dots(s.drop_last());
    } else {
        assert(sole_dot_at(s.drop_last(), i));
        lemma_sole_dot_counts_one(s.drop_last(), i);
    }
}

/// An identifier with no `.` or with more than one names no format.
pub proof fn lemma_format_needs_one_dot(name: Seq<char>)
    ensures
        dot_count(name) != 1 ==> format_of(name) is None,
{
    if exists|i: int| sole_dot_at(name, i) {
        let i = choose|i: int| sole_dot_at(name, i);
        lemma_sole_dot_counts_one(name, i);
    }
}

/// A dot-free token, a dot and a dot-free extension name the format that the table gives the
/// extension: `jpeg` and `jpg` JPEG, `png` PNG, `ico` ICO, `gif` GIF, and none for any other.
pub proof fn lemma_identifier_format(token: Seq<char>, ext: Seq<char>)
    requires
        forall|j: int| 0 <= j < token.len() ==> token[j] != '.',
        forall|j: int| 0 <= j < ext.len() ==> ext[j] != '.',
    ensures
        format_of(token + seq!['.'] + ext) == format_of_extension(ext),
        ext == "jpeg"@ ==> format_of(token + seq!['.'] + ext) == Some(ImageFormat::Jpeg),
        ext == "jpg"@ ==> format_of(token + seq!['.'] + ext) == Some(ImageFormat::Jpeg),
        ext == "png"@ ==> format_of(token + seq!['.'] + ext) == Some(ImageFormat::Png),
        ext == "ico"@ ==> format_of(token + seq!['.'] + ext) == Some(ImageFormat::Ico),
        ext == "gif"@ ==> format_of(token + seq!['.'] + ext) == Some(ImageFormat::Gif),
        output_format_of(token + seq!['.'] + ext) == match format_of_extension(ext) {
            Some(f) => Some(output_format(f)),
            None => None,
        },
{
    let name = token + seq!['.'] + ext;
    let k = token.len() as int;
    assert(name[k] == '.');
    assert forall|j: int| 0 <= j < name.len() && j != k implies name[j] != '.' by {
        if j < k {
            assert(name[j] == token[j]);
        } else {
            assert(name[j] == ext[j - k - 1]);
        }
    }
    assert(sole_dot_at(name, k));
    let i = choose|i: int| sole_dot_at(name, i);
    assert(i == k);
    assert(name.subrange(k + 1, name.len() as int) =~= ext);
    reveal_strlit("jpeg");
    reveal_strlit("jpg");
    reveal_strlit("png");
    reveal_strlit("ico");
    reveal_strlit("gif");
    assert("png"@[0] != "jpeg"@[0] && "png"@[0] != "jpg"@[0]);
    assert("ico"@[0] != "jpeg"@[0] && "ico"@[0] != "jpg"@[0] && "ico"@[0] != "png"@[0]);
    assert("gif"@[0] != "jpeg"@[0] && "gif"@[0] != "jpg"@[0] && "gif"@[0] != "png"@[0]
        && "gif"@[0] != "ico"@[0]);
}

/// Every format has a content type, and an identifier that names no format is served as JPEG.
pub proof fn lemma_content_type_default(name: Seq<char>)
    ensures
        format_of(name) is None ==> content_type_of(name) == "image/jpeg"@,
        format_of(name) is Some ==> content_type_of(name) == content_type(format_of(name)->Some_0),
{
}

} // verus!
