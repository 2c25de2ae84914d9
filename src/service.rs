//! Upload naming and the cache-aside fetch, written as steps that the caller performs
//! against storage.

use vstd::prelude::*;
use crate::codec::{resize_image, resize_result};
use crate::format::{
    content_header_for, content_type_of, format_of, get_image_format, get_image_output_format,
    lemma_identifier_format, output_format, ImageFormat,
};
use crate::storage::{object_key, storage_key, write_outcome, StorageError, STATUS_OK};

verus! {

/// Why a fetch yields no image.
#[derive(Clone, Copy, Debug, PartialEq, Eq, Structural)]
pub enum FetchError {
    /// No object under the key, the original is missing, or the identifier names no format.
    NotFound,
    /// The stored original is not a valid image of its format.
    DecodeFailure,
    /// The requested size cannot be held in memory.
    TooLarge,
}

/// How far a fetch has come.
pub enum Stage {
    /// The requested key has been asked for.
    Lookup,
    /// The original has been asked for.
    Original,
    /// The resized bytes are being written to the cache.
    Caching { data: Vec<u8> },
    /// The reply has been given.
    Done,
}

/// What the caller does next for a fetch.
pub enum Step {
    /// Read the object under this key and answer with `Fetch::on_read`.
    Read(String),
    /// Write these bytes under this key and answer with `Fetch::on_write`.
    Write(String, Vec<u8>),
    /// Answer the request: the bytes and their content type, or why there are none.
    Reply(Result<(Vec<u8>, &'static str), FetchError>),
}

/// One request for an image, at an optional width and height.
pub struct Fetch {
    pub image_name: String,
    pub width: Option<u32>,
    pub height: Option<u32>,
    pub stage: Stage,
}

pub enum StageView {
    Lookup,
    Original,
    Caching(Seq<u8>),
    Done,
}

pub enum StepView {
    Read(Seq<char>),
    Write(Seq<char>, Seq<u8>),
    Reply(Result<(Seq<u8>, Seq<char>), FetchError>),
}

pub struct FetchView {
    pub name: Seq<char>,
    pub width: Option<u32>,
    pub height: Option<u32>,
    pub stage: StageView,
}

impl View for Stage {
    type V = StageView;

    open spec fn view(&self) -> StageView {
        match self {
            Stage::Lookup => StageView::Lookup,
            Stage::Original => StageView::Original,
            Stage::Caching { data } => StageView::Caching(data@),
            Stage::Done => StageView::Done,
        }
    }
}

impl View for Step {
    type V = StepView;

    open spec fn view(&self) -> StepView {
        match self {
            Step::Read(key) => StepView::Read(key@),
            Step::Write(key, data) => StepView::Write(key@, data@),
            Step::Reply(Ok((data, content_type))) => StepView::Reply(Ok((data@, content_type@))),
            Step::Reply(Err(e)) => StepView::Reply(Err(*e)),
        }
    }
}

impl View for Fetch {
    type V = FetchView;

    open spec fn view(&self) -> FetchView {
        FetchView { name: self.image_name@, width: self.width, height: self.height, stage: self.stage@ }
    }
}

pub open spec fn bytes_of(found: Option<Vec<u8>>) -> Option<Seq<u8>> {
    match found {
        Some(d) => Some(d@),
        None => None,
    }
}

/// The first step of a fetch: read the key of the requested variant, or of the original
/// when no side is requested.
pub open spec fn first_step(name: Seq<char>, width: Option<u32>, height: Option<u32>) -> StepView {
    StepView::Read(storage_key(name, width, height))
}

/// Serve bytes under the identifier's content type.
pub open spec fn serve(name: Seq<char>, data: Seq<u8>) -> StepView {
    StepView::Reply(Ok((data, content_type_of(name))))
}

/// The next stage and step after the read that `f` waits for has found `found`.
pub open spec fn read_transition(f: FetchView, found: Option<Seq<u8>>) -> (StageView, StepView) {
    match f.stage {
        StageView::Lookup => match found {
            Some(d) => (StageView::Done, serve(f.name, d)),
            None => if f.width is None && f.height is None {
                (StageView::Done, StepView::Reply(Err(FetchError::NotFound)))
            } else {
                (StageView::Original, StepView::Read(storage_key(f.name, None, None)))
            },
        },
        _ => match found {
            None => (StageView::Done, StepView::Reply(Err(FetchError::NotFound))),
            Some(original) => match format_of(f.name) {
                None => (StageView::Done, StepView::Reply(Err(FetchError::NotFound))),
                Some(fmt) => match resize_result(
                    original,
                    f.width,
                    f.height,
                    fmt,
                    output_format(fmt),
                ) {
                    Ok(b) => (
                        StageView::Caching(b),
                        StepView::Write(storage_key(f.name, f.width, f.height), b),
                    ),
                    Err(e) => (StageView::Done, StepView::Reply(Err(e))),
                },
            },
        },
    }
}

/// A fetch that waits for a read.
pub open spec fn awaits_read(f: FetchView) -> bool {
    f.stage is Lookup || f.stage is Original
}

impl Fetch {
    /// Starts a fetch of `image_name` at the requested sides, with the read it begins with.
    pub fn begin(image_name: &str, width: Option<u32>, height: Option<u32>) -> (r: (Fetch, Step))
        ensures
            r.0@ == (FetchView { name: image_name@, width, height, stage: StageView::Lookup }),
            r.1@ == first_step(image_name@, width, height),
    {
        let key = object_key(image_name, width, height);
        let fetch = Fetch { image_name: String::from_str(image_name), width, height, stage: Stage::Lookup };
        (fetch, Step::Read(key))
    }

    /// Whether the fetch waits for the answer to a read.
    pub fn waits_for_read(&self) -> (r: bool)
        ensures
            r == awaits_read(self@),
    {
        match self.stage {
            Stage::Lookup => true,
            Stage::Original => true,
            _ => false,
        }
    }

    /// Whether the fetch waits for the answer to a write.
    pub fn waits_for_write(&self) -> (r: bool)
        ensures
            r == self@.stage is Caching,
    {
        match self.stage {
            Stage::Caching { .. } => true,
            _ => false,
        }
    }

    /// Takes the answer to the pending read: the bytes found, or `None` when there were none.
    /// A hit is served; a miss of the requested variant moves on to the original; the
    /// original is resized and the result written to the cache.
    pub fn on_read(&mut self, found: Option<Vec<u8>>) -> (step: Step)
        requires
            awaits_read(old(self)@),
        ensures
            (final(self)@.stage, step@) == read_transition(old(self)@, bytes_of(found)),
            step@ is Write ==> step@->Write_1.len() > 0,
            final(self)@.name == old(self)@.name,
            final(self)@.width == old(self)@.width,
            final(self)@.height == old(self)@.height,
    {
        let in_lookup = match self.stage {
            Stage::Lookup => true,
            _ => false,
        };
        if in_lookup {
            match found {
                Some(data) => {
                    self.stage = Stage::Done;
                    Step::Reply(Ok((data, content_header_for(self.image_name.as_str()))))
                },
                None => {
                    if self.width.is_none() && self.height.is_none() {
                        self.stage = Stage::Done;
                        Step::Reply(Err(FetchError::NotFound))
                    } else {
                        self.stage = Stage::Original;
                        Step::Read(object_key(self.image_name.as_str(), None, None))
                    }
                },
            }
        } else {
            let original = match found {
                Some(data) => data,
                None => {
                    self.stage = Stage::Done;
                    return Step::Reply(Err(FetchError::NotFound));
                },
            };
            let read_format = match get_image_format(self.image_name.as_str()) {
                Some(f) => f,
                None => {
                    self.stage = Stage::Done;
                    return Step::Reply(Err(FetchError::NotFound));
                },
            };
            let write_format = match get_image_output_format(self.image_name.as_str()) {
                Some(f) => f,
                None => {
                    self.stage = Stage::Done;
                    return Step::Reply(Err(FetchError::NotFound));
                },
            };
            match resize_image(&original, self.width, self.height, read_format, write_format) {
                Ok(bytes) => {
                    let kept = bytes.clone();
                    assert(kept@ =~= bytes@);
                    self.stage = Stage::Caching { data: kept };
                    Step::Write(object_key(self.image_name.as_str(), self.width, self.height), bytes)
                },
                Err(e) => {
                    self.stage = Stage::Done;
                    Step::Reply(Err(e))
                },
            }
        }
    }

    /// Takes the answer to the cache write. Whether or not it was stored, the resized bytes
    /// are served.
    pub fn on_write(&mut self, stored: bool) -> (step: Step)
        requires
            old(self)@.stage is Caching,
        ensures
            step@ == serve(old(self)@.name, old(self)@.stage->Caching_0),
            final(self)@ == (FetchView { stage: StageView::Done, ..old(self)@ }),
    {
        let mut stage = Stage::Done;
        std::mem::swap(&mut self.stage, &mut stage);
        match stage {
            Stage::Caching { data } => Step::Reply(Ok((data, content_header_for(self.image_name.as_str())))),
            _ => Step::Reply(Err(FetchError::NotFound)),
        }
    }
}

/// `i` is the position of the last `/` in `s`.
pub open spec fn last_slash_at(s: Seq<char>, i: int) -> bool {
    &&& 0 <= i < s.len()
    &&& s[i] == '/'
    &&& forall|j: int| i < j < s.len() ==> s[j] != '/'
}

/// The subtype of a content type: the text after its last `/`, or all of it when it has none.
pub open spec fn subtype(content_type: Seq<char>) -> Seq<char> {
    if exists|i: int| last_slash_at(content_type, i) {
        let i = choose|i: int| last_slash_at(content_type, i);
        content_type.subrange(i + 1, content_type.len() as int)
    } else {
        content_type
    }
}

/// The identifier made of a unique token and the extension a content type declares.
pub open spec fn image_name_of(token: Seq<char>, content_type: Seq<char>) -> Seq<char> {
    token + seq!['.'] + subtype(content_type)
}

pub open spec fn is_token_char(c: char) -> bool {
    ('0' <= c <= '9') || ('a' <= c <= 'f') || c == '-'
}

/// A unique token: a hyphenated, lower-case UUID.
pub open spec fn is_token(t: Seq<char>) -> bool {
    t.len() == 36 && forall|i: int| 0 <= i < t.len() ==> is_token_char(#[trigger] t[i])
}

/// Relies on uuid::Uuid::new_v4 and its Display form, the hyphenated lower-case rendering:
/// 36 characters, each a hex digit or a dash.
#[verifier::external_body]
fn new_token() -> (r: String)
    ensures
        is_token(r@),
{
    uuid::Uuid::new_v4().to_string()
}

/// The subtype of a content type: the text after its last `/`.
pub fn mime_subtype(content_type: &str) -> (r: &str)
    ensures
        r@ == subtype(content_type@),
{
    let n = content_type.unicode_len();
    let mut last: Option<usize> = None;
    let mut i: usize = 0;
    while i < n
        invariant
            n == content_type@.len(),
            i <= n,
            match last {
                Some(k) => k < i && content_type@[k as int] == '/' && forall|j: int|
                    k < j < i ==> content_type@[j] != '/',
                None => forall|j: int| 0 <= j < i ==> content_type@[j] != '/',
            },
        decreases n - i,
    {
        if content_type.get_char(i) == '/' {
            last = Some(i);
        }
        i = i + 1;
    }
    match last {
        Some(k) => {
            let ghost c = choose|c: int| last_slash_at(content_type@, c);
            assert(last_slash_at(content_type@, k as int));
            assert(c == k as int) by {
                if c < k as int {
                    assert(content_type@[k as int] != '/');
                } else if c > k as int {
                    assert(content_type@[c] != '/');
                }
            }
            content_type.substring_char(k + 1, n)
        },
        None => {
            assert(!exists|c: int| last_slash_at(content_type@, c));
            content_type
        },
    }
}

/// The identifier for `token` and the extension that `content_type` declares.
pub fn compose_image_name(token: &str, content_type: &str) -> (r: String)
    ensures
        r@ == image_name_of(token@, content_type@),
{
    let mut name = String::from_str(token);
    name.append(".");
    name.append(mime_subtype(content_type));
    proof {
        reveal_strlit(".");
    }
    assert(name@ =~= image_name_of(token@, content_type@));
    name
}

/// An upload in progress: the identifier it was given and the write it waits for.
pub struct ImageUpload {
    pub image_name: String,
}

impl ImageUpload {
    /// Names a new upload with a fresh token and the extension that `content_type` declares.
    pub fn new(content_type: &str) -> (r: ImageUpload)
        ensures
            exists|t: Seq<char>| is_token(t) && r.image_name@ == image_name_of(t, content_type@),
    {
        let token = new_token();
        ImageUpload { image_name: compose_image_name(token.as_str(), content_type) }
    }

    /// The key the original is written under.
    pub fn key(&self) -> (r: String)
        ensures
            r@ == storage_key(self.image_name@, None, None),
    {
        object_key(self.image_name.as_str(), None, None)
    }

    /// Takes the backend's status for the write: the identifier when it was acknowledged,
    /// the failure otherwise.
    pub fn finish(self, status: Option<u16>) -> (r: Result<String, StorageError>)
        ensures
            status == Some(STATUS_OK) ==> r is Ok && r->Ok_0@ == self.image_name@,
            status != Some(STATUS_OK) ==> r == Err::<String, StorageError>(StorageError::WriteFailed),
    {
        match write_outcome(status) {
            Ok(_) => Ok(self.image_name),
            Err(e) => Err(e),
        }
    }
}

pub open spec fn fetch_at(name: Seq<char>, width: Option<u32>, height: Option<u32>, stage: StageView) -> FetchView {
    FetchView { name, width, height, stage }
}

/// A PNG upload gets an identifier ending in `.png` whose original is written under the key
/// that a fetch without sides reads; when that read finds bytes `B`, the fetch serves exactly
/// `B` as `image/png`.
pub proof fn lemma_upload_round_trip(token: Seq<char>, content_type: Seq<char>, bytes: Seq<u8>)
    requires
        is_token(token),
        subtype(content_type) == "png"@,
    ensures
        ({
            let name = image_name_of(token, content_type);
            &&& name.subrange(name.len() - 4, name.len() as int) == ".png"@
            &&& format_of(name) == Some(ImageFormat::Png)
            &&& first_step(name, None, None) == StepView::Read(storage_key(name, None, None))
            &&& read_transition(fetch_at(name, None, None, StageView::Lookup), Some(bytes)) == (
            StageView::Done,
            StepView::Reply(Ok((bytes, "image/png"@))),
            )
        }),
{
    let name = image_name_of(token, content_type);
    reveal_strlit("png");
    reveal_strlit(".png");
    assert forall|j: int| 0 <= j < token.len() implies token[j] != '.' by {
        assert(is_token_char(token[j]));
    }
    lemma_identifier_format(token, "png"@);
    assert(name.subrange(name.len() - 4, name.len() as int) =~= ".png"@);
}

/// When a fetch that requests sides resizes the original, it writes the result under the key
/// that the same request reads first and then serves those same bytes; a later fetch of the
/// same request that finds them there serves them unchanged.
pub proof fn lemma_cache_population(
    name: Seq<char>,
    width: Option<u32>,
    height: Option<u32>,
    original: Seq<u8>,
)
    requires
        width is Some || height is Some,
    ensures
        ({
            let (stage, step) = read_transition(
                fetch_at(name, width, height, StageView::Original),
                Some(original),
            );
            step is Write ==> {
                let key = step->Write_0;
                let written = step->Write_1;
                &&& key == storage_key(name, width, height)
                &&& first_step(name, width, height) == StepView::Read(key)
                &&& stage == StageView::Caching(written)
                &&& read_transition(fetch_at(name, width, height, StageView::Lookup), Some(written))
                    == (StageView::Done, serve(name, written))
            }
        }),
{
}

/// A fetch of an identifier with nothing stored ends in `NotFound`: at once without sides,
/// and after the original is found missing with sides, without any resize.
pub proof fn lemma_missing_not_found(name: Seq<char>, width: Option<u32>, height: Option<u32>)
    ensures
        width is None && height is None ==> read_transition(
            fetch_at(name, width, height, StageView::Lookup),
            None,
        ) == (StageView::Done, StepView::Reply(Err(FetchError::NotFound))),
        width is Some || height is Some ==> read_transition(
            fetch_at(name, width, height, StageView::Lookup),
            None,
        ) == (StageView::Original, StepView::Read(storage_key(name, None, None))),
        read_transition(fetch_at(name, width, height, StageView::Original), None) == (
            StageView::Done,
            StepView::Reply(Err(FetchError::NotFound)),
        ),
{
}

} // verus!
