//! The local file behind an `observe` request's URI.
//!
//! `observe get-card` and `observe graph-slice` read the file a `file://`
//! URI names. A URI that does not parse, that has another scheme, or that
//! names no local path is refused with `InvalidArguments`; each operation
//! words its refusals in its own way.

use vstd::prelude::*;

use crate::errors::DispatchError;
use crate::text::{first_index, str_eq};

verus! {

/// What `url::Url::parse` makes of a text: the URL's scheme and its
/// serialized form, or the text of the parse error.
pub uninterp spec fn url_parse_result(text: Seq<char>) -> Result<(Seq<char>, Seq<char>), Seq<char>>;

/// Parses a URL with `url::Url::parse`.
///
/// Trusted: the parse (WHATWG URL parsing) depends on the text alone; its
/// outcome, read as the scheme and serialization of the URL or the
/// `Display` text of the error, is named [`url_parse_result`].
#[verifier::external_body]
fn parse_url(text: &str) -> (r: Result<(String, String), String>)
    ensures
        match r {
            Ok((scheme, serialized)) => url_parse_result(text@) == Ok::<
                (Seq<char>, Seq<char>),
                Seq<char>,
            >((scheme@, serialized@)),
            Err(message) => url_parse_result(text@) == Err::<(Seq<char>, Seq<char>), Seq<char>>(
                message@,
            ),
        },
{
    match url::Url::parse(text) {
        Ok(url) => Ok((url.scheme().to_owned(), url.to_string())),
        Err(error) => Err(error.to_string()),
    }
}

/// Whether a serialized URL holds no percent escape, query or fragment.
pub open spec fn plain_url(serialized: Seq<char>) -> bool {
    !serialized.contains('%') && !serialized.contains('?') && !serialized.contains('#')
}

/// The path of a serialized URL with scheme `scheme`: what follows
/// `scheme:` and, when the URL has an authority (`//host`), that authority.
pub open spec fn url_path_part(scheme: Seq<char>, serialized: Seq<char>) -> Seq<char> {
    let rest = serialized.subrange(scheme.len() + 1int, serialized.len() as int);
    if rest.len() >= 2 && rest[0] == '/' && rest[1] == '/' {
        let authority_and_path = rest.subrange(2, rest.len() as int);
        authority_and_path.subrange(
            first_index(authority_and_path, '/'),
            authority_and_path.len() as int,
        )
    } else {
        rest
    }
}

/// Whether a path ends in what reads as a drive letter: an ASCII letter
/// followed by `:` or `|`, after at least one other character.
pub open spec fn ends_in_drive_letter(path: Seq<char>) -> bool {
    let n = path.len();
    n > 2 && (('a' <= path[n - 2] && path[n - 2] <= 'z') || ('A' <= path[n - 2] && path[n
        - 2] <= 'Z')) && (path[n - 1] == ':' || path[n - 1] == '|')
}

/// The local path of a plain URL (see [`plain_url`]): its path, with a `/`
/// appended after a trailing drive letter.
pub open spec fn plain_file_path(scheme: Seq<char>, serialized: Seq<char>) -> Seq<char> {
    let path = url_path_part(scheme, serialized);
    if ends_in_drive_letter(path) {
        path.push('/')
    } else {
        path
    }
}

/// The local path of a URL with `url::Url::to_file_path`, as text.
///
/// Trusted: a text that does not parse as a URL has no path. On Unix, the
/// path of a URL whose serialization holds no percent escape, query or
/// fragment is the serialization's path (its segments, each after a `/`),
/// with a `/` appended after a trailing drive letter. Nothing more is
/// claimed: which URLs have a path, and the path of a URL with escapes,
/// depend on the platform (host names and drive letters are read
/// differently on Windows), and a path that is not valid Unicode is shown
/// lossily.
#[verifier::external_body]
fn url_file_path(text: &str) -> (r: Option<String>)
    ensures
        url_parse_result(text@) is Err ==> r is None,
        r matches Some(p) ==> (url_parse_result(text@) matches Ok((scheme, serialized)) && (
        plain_url(serialized) ==> p@ == plain_file_path(scheme, serialized))),
{
    match url::Url::parse(text) {
        Ok(url) => match url.to_file_path() {
            Ok(path) => Some(path.to_string_lossy().into_owned()),
            Err(()) => None,
        },
        Err(_) => None,
    }
}

/// The refusal of `get-card` for a URI that does not parse.
pub open spec fn card_invalid_uri_text(uri: Seq<char>, error: Seq<char>) -> Seq<char> {
    "invalid URI '"@ + uri + "': "@ + error
}

/// The refusal of `get-card` for a URI of another scheme.
pub open spec fn card_scheme_text(scheme: Seq<char>) -> Seq<char> {
    "unsupported URI scheme '"@ + scheme + "': expected file"@
}

/// The refusal of `get-card` for a file URI without a local path.
pub open spec fn card_not_a_path_text(serialized: Seq<char>) -> Seq<char> {
    "URI is not a valid file path: "@ + serialized
}

/// The refusal of `graph-slice` for a URI that does not parse.
pub open spec fn slice_invalid_uri_text(error: Seq<char>) -> Seq<char> {
    "invalid URI: "@ + error
}

/// The refusal of `graph-slice` for a URI of another scheme.
pub open spec fn slice_scheme_text(scheme: Seq<char>) -> Seq<char> {
    "unsupported URI scheme '"@ + scheme + "': expected a file URI"@
}

/// Whether an error is `InvalidArguments` with the given message.
pub open spec fn invalid_arguments_with(e: DispatchError, message: Seq<char>) -> bool {
    e matches DispatchError::InvalidArguments { message: m } && m@ == message
}

fn invalid_arguments_from(message: String) -> (e: DispatchError)
    ensures
        invalid_arguments_with(e, message@),
{
    DispatchError::InvalidArguments { message }
}

/// The path a file URI names, once converted: the path itself, or the
/// refusal `message` when the URI names no local path.
pub fn path_or_refusal(path: Option<String>, message: &str) -> (r: Result<String, DispatchError>)
    ensures
        match path {
            Some(p) => r == Ok::<String, DispatchError>(p),
            None => r matches Err(e) && invalid_arguments_with(e, message@),
        },
{
    match path {
        Some(p) => Ok(p),
        None => Err(DispatchError::invalid_arguments(message)),
    }
}

/// The local file an `observe get-card` URI names.
///
/// Refusals: a URI that does not parse (`invalid URI '<uri>': <error>`), a
/// scheme other than `file` (`unsupported URI scheme '<scheme>': expected
/// file`), and a file URI without a local path (`URI is not a valid file
/// path: <URI>`).
pub fn card_source_path(uri: &str) -> (r: Result<String, DispatchError>)
    ensures
        match url_parse_result(uri@) {
            Err(m) => r matches Err(e) && invalid_arguments_with(e, card_invalid_uri_text(uri@, m)),
            Ok((scheme, serialized)) => if scheme != "file"@ {
                r matches Err(e) && invalid_arguments_with(e, card_scheme_text(scheme))
            } else {
                (r is Ok || (r matches Err(e) && invalid_arguments_with(
                    e,
                    card_not_a_path_text(serialized),
                ))) && (r matches Ok(p) ==> (plain_url(serialized) ==> p@ == plain_file_path(
                    scheme,
                    serialized,
                )))
            },
        },
{
    let (scheme, serialized) = match parse_url(uri) {
        Ok(parts) => parts,
        Err(error) => {
            let mut m = String::from_str("invalid URI '");
            m.append(uri);
            m.append("': ");
            m.append(error.as_str());
            return Err(invalid_arguments_from(m));
        },
    };
    if !str_eq(scheme.as_str(), "file") {
        proof {
            reveal_strlit("file");
        }
        let mut m = String::from_str("unsupported URI scheme '");
        m.append(scheme.as_str());
        m.append("': expected file");
        return Err(invalid_arguments_from(m));
    }
    proof {
        reveal_strlit("file");
    }
    let mut m = String::from_str("URI is not a valid file path: ");
    m.append(serialized.as_str());
    path_or_refusal(url_file_path(uri), m.as_str())
}

/// The local file an `observe graph-slice` URI names.
///
/// Refusals: a URI that does not parse (`invalid URI: <error>`), a scheme
/// other than `file` (`unsupported URI scheme '<scheme>': expected a file
/// URI`), and a file URI without a local path (`URI is not a valid file
/// path`).
pub fn slice_source_path(uri: &str) -> (r: Result<String, DispatchError>)
    ensures
        match url_parse_result(uri@) {
            Err(m) => r matches Err(e) && invalid_arguments_with(e, slice_invalid_uri_text(m)),
            Ok((scheme, serialized)) => if scheme != "file"@ {
                r matches Err(e) && invalid_arguments_with(e, slice_scheme_text(scheme))
            } else {
                (r is Ok || (r matches Err(e) && invalid_arguments_with(
                    e,
                    "URI is not a valid file path"@,
                ))) && (r matches Ok(p) ==> (plain_url(serialized) ==> p@ == plain_file_path(
                    scheme,
                    serialized,
                )))
            },
        },
{
    let scheme = match parse_url(uri) {
        Ok((scheme, _serialized)) => scheme,
        Err(error) => {
            let mut m = String::from_str("invalid URI: ");
            m.append(error.as_str());
            return Err(invalid_arguments_from(m));
        },
    };
    if !str_eq(scheme.as_str(), "file") {
        proof {
            reveal_strlit("file");
        }
        let mut m = String::from_str("unsupported URI scheme '");
        m.append(scheme.as_str());
        m.append("': expected a file URI");
        return Err(invalid_arguments_from(m));
    }
    proof {
        reveal_strlit("file");
    }
    path_or_refusal(url_file_path(uri), "URI is not a valid file path")
}

} // verus!
