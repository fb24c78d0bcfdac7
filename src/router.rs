use vstd::prelude::*;

use vstd::string::StringSliceAdditionalSpecFns;

use crate::text::{is_prefix, starts_with, suffix_from};

verus! {

/// The custom scheme under which the UI addresses local resources.
pub open spec fn scheme() -> Seq<char> {
    "melange://"@
}

/// The request token: the URI with the custom scheme taken off its front, if it is there.
pub open spec fn token_of(uri: Seq<char>) -> Seq<char> {
    if is_prefix(scheme(), uri) {
        uri.subrange(scheme().len() as int, uri.len() as int)
    } else {
        uri
    }
}

/// Takes the custom scheme off the front of `uri`.
pub fn strip_scheme(uri: &str) -> (r: String)
    ensures
        r@ == token_of(uri@),
{
    let prefix = "melange://";
    if starts_with(uri, prefix) {
        suffix_from(uri, prefix.unicode_len())
    } else {
        String::from_str(uri)
    }
}

/// A target that the UI loads straight from a web server (local development),
/// without going through the custom scheme.
pub open spec fn is_dev_target(target: Seq<char>) -> bool {
    is_prefix("http"@, target)
}

pub fn is_dev_server(target: &str) -> (r: bool)
    ensures
        r == is_dev_target(target@),
{
    starts_with(target, "http")
}

/// The page that the UI opens first for a configuration directory.
pub open spec fn start_url_of(config_dir: Seq<char>) -> Seq<char> {
    if is_dev_target(config_dir) {
        config_dir
    } else {
        scheme() + config_dir + "/index.html"@
    }
}

pub fn start_url(config_dir: &str) -> (r: String)
    ensures
        r@ == start_url_of(config_dir@),
{
    if is_dev_server(config_dir) {
        String::from_str(config_dir)
    } else {
        let mut url = String::from_str("melange://");
        url.append(config_dir);
        url.append("/index.html");
        url
    }
}

/// `path` lies at or below the directory `root`: it begins with `root`, and the
/// match ends at a path separator.
pub open spec fn within(root: Seq<char>, path: Seq<char>) -> bool {
    &&& is_prefix(root, path)
    &&& (path.len() == root.len() || (root.len() > 0 && root.last() == '/') || path[root.len() as int]
        == '/')
}

pub fn is_within(root: &str, path: &str) -> (r: bool)
    ensures
        r == within(root@, path@),
{
    if !starts_with(path, root) {
        return false;
    }
    let n = root.unicode_len();
    let m = path.unicode_len();
    if m == n {
        return true;
    }
    if n > 0 && root.get_char(n - 1) == '/' {
        return true;
    }
    path.get_char(n) == '/'
}

/// Why a request was not fulfilled.
#[derive(Clone, Copy, PartialEq, Eq, Structural, Debug)]
pub enum RouteError {
    /// The canonical path of a file request lies outside the base directory.
    PathForbidden,
    /// The file could not be resolved or read.
    FileNotFound,
    /// The token names no configured command.
    CommandNotFound,
    /// The command's program could not be launched.
    ProcessSpawnError,
}

/// The header that lets the hosting UI runtime accept a response.
pub open spec fn cors_header() -> (Seq<char>, Seq<char>) {
    ("Access-Control-Allow-Origin"@, "*"@)
}

/// The body of the answer to a token that names no command.
pub open spec fn command_not_found_body() -> Seq<u8> {
    "Command not found in config!".spec_bytes()
}

/// The MIME type of command output.
pub open spec fn command_mime() -> Seq<char> {
    "text/strings"@
}

/// A response, as plain values.
pub struct ResponseView {
    pub status: u16,
    pub mime_type: Seq<char>,
    pub headers: Seq<(Seq<char>, Seq<char>)>,
    pub body: Seq<u8>,
}

/// A response with the cross-origin header and nothing else in its headers.
pub open spec fn response_of(status: u16, mime_type: Seq<char>, body: Seq<u8>) -> ResponseView {
    ResponseView { status, mime_type, headers: seq![cors_header()], body }
}

impl RouteError {
    pub open spec fn spec_status(self) -> u16 {
        match self {
            RouteError::PathForbidden => 403,
            RouteError::FileNotFound => 404,
            RouteError::CommandNotFound => 404,
            RouteError::ProcessSpawnError => 500,
        }
    }

    /// The response that reports this error to the UI.
    pub open spec fn spec_response(self) -> ResponseView {
        match self {
            RouteError::CommandNotFound => response_of(404, Seq::empty(), command_not_found_body()),
            _ => response_of(self.spec_status(), Seq::empty(), Seq::empty()),
        }
    }

    pub fn status(&self) -> (r: u16)
        ensures
            r == self.spec_status(),
    {
        match self {
            RouteError::PathForbidden => 403,
            RouteError::FileNotFound => 404,
            RouteError::CommandNotFound => 404,
            RouteError::ProcessSpawnError => 500,
        }
    }

    pub fn to_response(&self) -> (r: Response)
        ensures
            r@ == self.spec_response(),
    {
        let body = match self {
            RouteError::CommandNotFound => "Command not found in config!".as_bytes_vec(),
            _ => Vec::new(),
        };
        Response::new(self.status(), String::new(), body)
    }
}

/// A response handed back to the UI.
pub struct Response {
    pub status: u16,
    pub mime_type: String,
    pub headers: Vec<(String, String)>,
    pub body: Vec<u8>,
}

impl View for Response {
    type V = ResponseView;

    open spec fn view(&self) -> ResponseView {
        ResponseView {
            status: self.status,
            mime_type: self.mime_type@,
            headers: self.headers@.map_values(|h: (String, String)| (h.0.view(), h.1.view())),
            body: self.body@,
        }
    }
}

impl Response {
    /// A response whose headers hold the cross-origin header, also where the body is empty.
    pub fn new(status: u16, mime_type: String, body: Vec<u8>) -> (r: Response)
        ensures
            r@ == response_of(status, mime_type@, body@),
    {
        let mut headers: Vec<(String, String)> = Vec::new();
        headers.push((String::from_str("Access-Control-Allow-Origin"), String::from_str("*")));
        let r = Response { status, mime_type, headers, body };
        assert(r@.headers =~= seq![cors_header()]);
        r
    }

    /// The response handed to the UI for an outcome: the response itself, or the
    /// one that reports the error.
    pub fn respond(outcome: Result<Response, RouteError>) -> (r: Response)
        ensures
            match outcome {
                Ok(resp) => r@ == resp@,
                Err(e) => r@ == e.spec_response(),
            },
    {
        match outcome {
            Ok(resp) => resp,
            Err(e) => e.to_response(),
        }
    }
}

/// Every response carries the cross-origin header, also one with an empty body.
pub proof fn lemma_responses_carry_cors(status: u16, mime_type: Seq<char>, body: Seq<u8>)
    ensures
        response_of(status, mime_type, body).headers.contains(cors_header()),
        forall|e: RouteError| #[trigger] e.spec_response().headers.contains(cors_header()),
{
    assert(response_of(status, mime_type, body).headers[0] == cors_header());
    assert forall|e: RouteError| #[trigger] e.spec_response().headers.contains(cors_header()) by {
        assert(e.spec_response().headers[0] == cors_header());
    }
}

/// A name for the first MIME type that mime_guess registers for a path's
/// extension, if there is one.
pub uninterp spec fn mime_of(path: Seq<char>) -> Option<Seq<char>>;

/// Relies on `mime_guess::from_path(path).first_raw()`: the first MIME type known for
/// the extension of `path`, looked up in a fixed table without touching the disk.
#[verifier::external_body]
fn guess_mime(path: &str) -> (r: Option<String>)
    ensures
        r.is_some() == mime_of(path@).is_some(),
        r.is_some() ==> r.unwrap()@ == mime_of(path@).unwrap(),
{
    mime_guess::from_path(path).first_raw().map(String::from)
}

/// The MIME type that a guess gives, or the empty type where there is none.
pub open spec fn mime_or_empty(m: Option<Seq<char>>) -> Seq<char> {
    match m {
        Some(t) => t,
        None => Seq::empty(),
    }
}

/// The answer to a file request, given the file's MIME type as guessed and its
/// contents as read (`None` where reading failed).
pub fn file_response_with_mime(mime: Option<String>, contents: Option<Vec<u8>>) -> (r: Result<
    Response,
    RouteError,
>)
    ensures
        contents.is_none() ==> r == Err::<Response, RouteError>(RouteError::FileNotFound),
        contents.is_some() ==> r.is_ok() && r.unwrap()@ == response_of(
            200,
            mime_or_empty(
                match mime {
                    Some(m) => Some(m@),
                    None => None,
                },
            ),
            contents.unwrap()@,
        ),
{
    match contents {
        None => Err(RouteError::FileNotFound),
        Some(bytes) => {
            let m = match mime {
                Some(m) => m,
                None => String::new(),
            };
            Ok(Response::new(200, m, bytes))
        },
    }
}

/// The answer to a file request for the canonical `path`, given its contents as
/// read (`None` where reading failed); the MIME type comes from the extension.
pub fn file_response(path: &str, contents: Option<Vec<u8>>) -> (r: Result<Response, RouteError>)
    ensures
        contents.is_none() ==> r == Err::<Response, RouteError>(RouteError::FileNotFound),
        contents.is_some() ==> r.is_ok() && r.unwrap()@ == response_of(
            200,
            mime_or_empty(mime_of(path@)),
            contents.unwrap()@,
        ),
{
    let mime = guess_mime(path);
    file_response_with_mime(mime, contents)
}

/// The answer to a command request, given what the process wrote to standard
/// output (`None` where it could not be launched); the exit status is not read.
pub open spec fn command_output(stdout: Seq<u8>) -> ResponseView {
    response_of(200, command_mime(), stdout)
}

pub fn command_response(stdout: Option<Vec<u8>>) -> (r: Result<Response, RouteError>)
    ensures
        stdout.is_none() ==> r == Err::<Response, RouteError>(RouteError::ProcessSpawnError),
        stdout.is_some() ==> r.is_ok() && r.unwrap()@ == command_output(stdout.unwrap()@),
{
    match stdout {
        None => Err(RouteError::ProcessSpawnError),
        Some(out) => Ok(Response::new(200, String::from_str("text/strings"), out)),
    }
}

/// What a command wrote to standard output comes back byte for byte as the body
/// of its response.
pub proof fn lemma_stdout_round_trip(stdout: Seq<u8>)
    ensures
        command_output(stdout).body == stdout,
        command_output(stdout).status == 200,
{
}

} // verus!
