//! The read path for uploaded files: which name a request asks for, and the
//! response that what was read makes.
use vstd::prelude::*;
use vstd::string::StrSliceExecFns;

verus! {

pub const STATUS_OK: u16 = 200;

pub const STATUS_NO_CONTENT: u16 = 204;

/// The content type guessed for a file name.
pub uninterp spec fn mime_of(path: Seq<char>) -> Seq<char>;

/// Relies on `mime_guess::from_path(..).first_or_text_plain()`: the first
/// MIME type known for the name's extension, or `text/plain`. It depends on
/// the name alone.
#[verifier::external_body]
fn guess_mime(path: &str) -> (r: String)
    ensures
        r@ == mime_of(path@),
{
    mime_guess::from_path(path).first_or_text_plain().as_ref().to_string()
}

/// `s` without its leading separators.
pub open spec fn trim_leading_slashes(s: Seq<char>) -> Seq<char>
    decreases s.len(),
{
    if s.len() > 0 && s[0] == '/' {
        trim_leading_slashes(s.drop_first())
    } else {
        s
    }
}

/// The file name that a request path asks for: the path with its leading
/// separators taken off.
pub fn upload_name(path: &str) -> (r: String)
    ensures
        r@ == trim_leading_slashes(path@),
{
    let n = path.unicode_len();
    let mut i: usize = 0;
    assert(path@.skip(0) =~= path@);
    while i < n && path.get_char(i) == '/'
        invariant
            i <= n == path@.len(),
            trim_leading_slashes(path@) == trim_leading_slashes(path@.skip(i as int)),
        decreases n - i,
    {
        assert(path@.skip(i as int).drop_first() =~= path@.skip(i as int + 1));
        i = i + 1;
    }
    let rest = path.substring_char(i, n);
    assert(rest@ =~= path@.skip(i as int));
    rest.to_owned()
}

/// The answer to a request for a file.
#[derive(Debug)]
pub struct FileResponse {
    pub status: u16,
    pub content_type: String,
    pub body: Vec<u8>,
}

/// The response for a file that was read (`Some`) or could not be read
/// (`None`), given the content type guessed for its name.
pub fn respond(contents: Option<Vec<u8>>, mime: String) -> (r: FileResponse)
    ensures
        match contents {
            Some(c) => r.status == STATUS_OK && r.content_type@ == mime@ && r.body@ == c@,
            None => r.status == STATUS_NO_CONTENT && r.content_type@.len() == 0 && r.body@.len()
                == 0,
        },
{
    match contents {
        Some(c) => FileResponse { status: STATUS_OK, content_type: mime, body: c },
        None => FileResponse {
            status: STATUS_NO_CONTENT,
            content_type: String::new(),
            body: Vec::new(),
        },
    }
}

/// The response to a request for `path`, given what reading the named file
/// gave: its bytes with the content type guessed from the name, or an empty
/// answer when it could not be read.
pub fn file_response(path: &str, contents: Option<Vec<u8>>) -> (r: FileResponse)
    ensures
        match contents {
            Some(c) => r.status == STATUS_OK && r.content_type@ == mime_of(
                trim_leading_slashes(path@),
            ) && r.body@ == c@,
            None => r.status == STATUS_NO_CONTENT && r.content_type@.len() == 0 && r.body@.len()
                == 0,
        },
{
    let name = upload_name(path);
    let mime = guess_mime(name.as_str());
    respond(contents, mime)
}

} // verus!
