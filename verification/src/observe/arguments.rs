//! Argument parsing for observe domain operations.
//!
//! `get-definition` takes `--uri <URI> --position <LINE:COL>`, in any order;
//! both are required. Positions are one-indexed for users and zero-indexed
//! in the language-server protocol.

use vstd::prelude::*;

use crate::errors::DispatchError;
use crate::num::{parse_u32, parse_u32_spec};
use crate::observe::responses::{location_fields, Location, Position};
use crate::text::{
    ascii_lower, concat2, count_char, find_char, first_index, last_char_index, last_index,
    lemma_count_concat, lemma_count_first, lemma_first_index_none, str_eq, sub_vec,
    to_ascii_lowercase, byte_len, utf8_len,
};

verus! {

/// Whether `lsp_types::Uri::from_str` accepts `text`.
pub uninterp spec fn lsp_uri_valid(text: Seq<char>) -> bool;

/// The path component of the URI that `lsp_types::Uri::from_str` reads from `text`.
pub uninterp spec fn lsp_uri_path(text: Seq<char>) -> Seq<char>;

/// The longest URI text, in bytes, that the URI parser accepts to read.
pub const MAX_URI_BYTES: usize = 2147483647;

/// Whether a URI is accepted: it is at most [`MAX_URI_BYTES`] bytes long and
/// parses as a URI.
pub open spec fn uri_accepted(text: Seq<char>) -> bool {
    utf8_len(text) <= MAX_URI_BYTES && lsp_uri_valid(text)
}

/// Checks a URI with `lsp_types::Uri::from_str`.
///
/// Trusted: the answer is whether the parse succeeds, a function of the text
/// alone (named [`lsp_uri_valid`]). The parser (`fluent_uri::Uri::parse`)
/// panics on input longer than `i32::MAX` bytes; such text is shut out.
#[verifier::external_body]
fn uri_is_valid(text: &str) -> (r: bool)
    requires
        utf8_len(text@) <= MAX_URI_BYTES,
    ensures
        r == lsp_uri_valid(text@),
{
    text.parse::<lsp_types::Uri>().is_ok()
}

/// Reads the path of a URI with `lsp_types::Uri::from_str` and `path()`.
///
/// Trusted: a URI that parses yields its path (named [`lsp_uri_path`]).
/// Text longer than `i32::MAX` bytes, on which the parser panics, is shut
/// out.
#[verifier::external_body]
fn uri_path(text: &str) -> (r: Option<String>)
    requires
        utf8_len(text@) <= MAX_URI_BYTES,
    ensures
        r is Some <==> lsp_uri_valid(text@),
        r matches Some(p) ==> p@ == lsp_uri_path(text@),
{
    match text.parse::<lsp_types::Uri>() {
        Ok(uri) => Some(uri.path().as_str().to_owned()),
        Err(_) => None,
    }
}

/// Languages served by the language-server host.
#[derive(Debug, Clone, Copy, PartialEq, Eq, Structural)]
pub enum Language {
    Rust,
    Python,
    TypeScript,
}

pub open spec fn language_name(l: Language) -> Seq<char> {
    match l {
        Language::Rust => "rust"@,
        Language::Python => "python"@,
        Language::TypeScript => "typescript"@,
    }
}

impl Language {
    /// The language's name.
    pub fn as_str(&self) -> (r: &'static str)
        ensures
            r@ == language_name(*self),
    {
        match self {
            Language::Rust => "rust",
            Language::Python => "python",
            Language::TypeScript => "typescript",
        }
    }
}

/// `LINE:COL` parsing: exactly one colon, two numbers of at least one.
pub open spec fn position_spec(value: Seq<char>) -> Result<(u32, u32), Seq<char>> {
    if count_char(value, ':') != 1 {
        Err("position must be LINE:COL, got: "@ + value)
    } else {
        let k = first_index(value, ':');
        let line_text = value.subrange(0, k);
        let column_text = value.subrange(k + 1, value.len() as int);
        match parse_u32_spec(line_text) {
            None => Err("invalid line number: "@ + line_text),
            Some(line) => match parse_u32_spec(column_text) {
                None => Err("invalid column number: "@ + column_text),
                Some(column) => if line == 0 {
                    Err("line number must be >= 1"@)
                } else if column == 0 {
                    Err("column number must be >= 1"@)
                } else {
                    Ok((line, column))
                },
            },
        }
    }
}

/// `get-definition` argument parsing over the remaining tokens, with the
/// values seen so far.
pub open spec fn definition_args_spec(
    args: Seq<Seq<char>>,
    uri: Option<Seq<char>>,
    position: Option<(u32, u32)>,
) -> Result<(Seq<char>, u32, u32), Seq<char>>
    decreases args.len(),
{
    if args.len() == 0 {
        match uri {
            None => Err("missing required --uri"@),
            Some(u) => match position {
                None => Err("missing required --position"@),
                Some((line, column)) => Ok((u, line, column)),
            },
        }
    } else if args[0] == "--uri"@ {
        if args.len() < 2 {
            Err("--uri requires a value"@)
        } else if !uri_accepted(args[1]) {
            Err("invalid URI: "@ + args[1])
        } else {
            definition_args_spec(args.subrange(2, args.len() as int), Some(args[1]), position)
        }
    } else if args[0] == "--position"@ {
        if args.len() < 2 {
            Err("--position requires a value"@)
        } else {
            match position_spec(args[1]) {
                Err(m) => Err(m),
                Ok(p) => definition_args_spec(args.subrange(2, args.len() as int), uri, Some(p)),
            }
        }
    } else {
        Err("unknown argument: "@ + args[0])
    }
}

/// The extension of a path: the text after its last `.`, or all of it.
pub open spec fn extension_of(path: Seq<char>) -> Seq<char> {
    path.subrange(last_index(path, '.') + 1, path.len() as int)
}

/// The language of a (lower-cased) extension.
pub open spec fn language_for_extension(ext: Seq<char>) -> Option<Language> {
    if ext == "rs"@ {
        Some(Language::Rust)
    } else if ext == "py"@ {
        Some(Language::Python)
    } else if ext == "ts"@ || ext == "tsx"@ {
        Some(Language::TypeScript)
    } else {
        None
    }
}

/// Parses a position string in `LINE:COL` format.
pub fn parse_position(value: &str) -> (r: Result<(u32, u32), DispatchError>)
    ensures
        match position_spec(value@) {
            Ok(p) => r == Ok::<(u32, u32), DispatchError>(p),
            Err(m) => r matches Err(DispatchError::InvalidArguments { message }) && message@
                == m,
        },
{
    let v = crate::text::chars_of(value);
    let k = find_char(&v, ':');
    proof {
        lemma_count_first(v@, ':');
    }
    if k >= v.len() {
        let mut m = String::from_str("position must be LINE:COL, got: ");
        m.append(value);
        return Err(DispatchError::InvalidArguments { message: m });
    }
    let line_chars = sub_vec(&v, 0, k);
    let column_chars = sub_vec(&v, k + 1, v.len());
    proof {
        assert(v@ =~= line_chars@ + seq![':'] + column_chars@);
        lemma_count_concat(line_chars@ + seq![':'], column_chars@, ':');
        lemma_count_concat(line_chars@, seq![':'], ':');
        lemma_count_first(line_chars@, ':');
        assert(first_index(line_chars@, ':') == line_chars@.len()) by {
            assert forall|i: int| 0 <= i < line_chars@.len() implies line_chars@[i] != ':' by {
                assert(line_chars@[i] == v@[i]);
            }
            lemma_first_index_none(line_chars@, ':');
        }
        assert(count_char(seq![':'], ':') == 1) by {
            assert(seq![':'].drop_last() =~= Seq::<char>::empty());
            assert(seq![':'].last() == ':');
            assert(count_char(Seq::<char>::empty(), ':') == 0);
        }
    }
    if find_char(&column_chars, ':') < column_chars.len() {
        proof {
            lemma_count_first(column_chars@, ':');
        }
        let mut m = String::from_str("position must be LINE:COL, got: ");
        m.append(value);
        return Err(DispatchError::InvalidArguments { message: m });
    }
    proof {
        lemma_count_first(column_chars@, ':');
    }
    let line = match crate::num::parse_u32_chars(&line_chars) {
        Some(n) => n,
        None => {
            let text = crate::text::string_from_chars(&line_chars);
            let m = concat2("invalid line number: ", text.as_str());
            return Err(DispatchError::InvalidArguments { message: m });
        },
    };
    let column = match crate::num::parse_u32_chars(&column_chars) {
        Some(n) => n,
        None => {
            let text = crate::text::string_from_chars(&column_chars);
            let m = concat2("invalid column number: ", text.as_str());
            return Err(DispatchError::InvalidArguments { message: m });
        },
    };
    if line == 0 {
        return Err(DispatchError::invalid_arguments("line number must be >= 1"));
    }
    if column == 0 {
        return Err(DispatchError::invalid_arguments("column number must be >= 1"));
    }
    Ok((line, column))
}

/// Parsed arguments for the `get-definition` operation.
#[derive(Debug)]
pub struct GetDefinitionArgs {
    /// The document URI, as given (a URI that parses).
    uri: String,
    /// Line number (1-indexed for user-facing).
    line: u32,
    /// Column number (1-indexed for user-facing).
    column: u32,
}

/// Parameters of a `textDocument/definition` request (zero-indexed).
#[derive(Debug)]
pub struct DefinitionParams {
    pub uri: String,
    pub line: u32,
    pub character: u32,
}

/// A one-indexed number made zero-indexed, saturating at zero.
pub open spec fn zero_indexed(n: u32) -> u32 {
    if n == 0 {
        0
    } else {
        (n - 1) as u32
    }
}

/// A user position sent to the language server and read back from the
/// location it answers with is the same position: parameters are
/// zero-indexed, reported locations one-indexed (`10:5` goes out as `9:4`
/// and comes back as `10:5`).
pub proof fn lemma_definition_position_round_trip(params: DefinitionParams, line: u32, column: u32)
    requires
        line >= 1,
        column >= 1,
        params.line == zero_indexed(line),
        params.character == zero_indexed(column),
    ensures
        location_fields(
            (Location {
                uri: params.uri,
                start: Position { line: params.line, character: params.character },
            }),
        ) == (params.uri@, line, column),
{
}

pub open spec fn arg_views(args: Seq<String>) -> Seq<Seq<char>> {
    args.map_values(|s: String| s@)
}

impl GetDefinitionArgs {
    #[verifier::type_invariant]
    spec fn uri_parses(self) -> bool {
        uri_accepted(self.uri@)
    }

    pub closed spec fn spec_uri(&self) -> Seq<char> {
        self.uri@
    }

    pub closed spec fn spec_line(&self) -> u32 {
        self.line
    }

    pub closed spec fn spec_column(&self) -> u32 {
        self.column
    }

    /// The document URI.
    pub fn uri(&self) -> (r: &str)
        ensures
            r@ == self.spec_uri(),
            uri_accepted(r@),
    {
        proof {
            use_type_invariant(self);
        }
        self.uri.as_str()
    }

    /// The one-indexed line.
    pub fn line(&self) -> (r: u32)
        ensures
            r == self.spec_line(),
    {
        self.line
    }

    /// The one-indexed column.
    pub fn column(&self) -> (r: u32)
        ensures
            r == self.spec_column(),
    {
        self.column
    }

    /// Parses arguments from a CLI argument list.
    ///
    /// Expects `--uri <URI> --position <LINE:COL>`, in any order; a later
    /// flag replaces an earlier one. Missing flags, missing values, malformed
    /// values, URIs that do not parse (or are longer than
    /// [`MAX_URI_BYTES`] bytes) and unknown tokens are `InvalidArguments`.
    pub fn parse(arguments: &[String]) -> (r: Result<Self, DispatchError>)
        ensures
            match definition_args_spec(arg_views(arguments@), None, None) {
                Ok((uri, line, column)) => r matches Ok(a) && a.spec_uri() == uri && a.spec_line()
                    == line && a.spec_column() == column,
                Err(m) => r matches Err(DispatchError::InvalidArguments { message }) && message@
                    == m,
            },
    {
        let ghost all = arg_views(arguments@);
        let mut uri: Option<String> = None;
        let mut position: Option<(u32, u32)> = None;
        let mut i: usize = 0;
        assert(all.subrange(0, all.len() as int) =~= all);
        while i < arguments.len()
            invariant
                all == arg_views(arguments@),
                i <= arguments@.len(),
                definition_args_spec(all, None, None) == definition_args_spec(
                    all.subrange(i as int, all.len() as int),
                    match uri {
                        Some(u) => Some(u@),
                        None => None,
                    },
                    position,
                ),
                uri matches Some(u) ==> uri_accepted(u@),
            decreases arguments.len() - i,
        {
            let ghost rest = all.subrange(i as int, all.len() as int);
            assert(rest[0] == arguments@[i as int]@);
            let arg = arguments[i].as_str();
            proof {
                reveal_strlit("--uri");
                reveal_strlit("--position");
            }
            if str_eq(arg, "--uri") {
                if i + 1 >= arguments.len() {
                    return Err(DispatchError::invalid_arguments("--uri requires a value"));
                }
                let value = arguments[i + 1].as_str();
                assert(rest[1] == value@);
                if byte_len(value) > MAX_URI_BYTES || !uri_is_valid(value) {
                    let m = concat2("invalid URI: ", value);
                    return Err(DispatchError::InvalidArguments { message: m });
                }
                uri = Some(value.to_owned());
                assert(rest.subrange(2, rest.len() as int) =~= all.subrange(i + 2, all.len() as int));
                i = i + 2;
            } else if str_eq(arg, "--position") {
                if i + 1 >= arguments.len() {
                    return Err(DispatchError::invalid_arguments("--position requires a value"));
                }
                let value = arguments[i + 1].as_str();
                assert(rest[1] == value@);
                let p = parse_position(value)?;
                position = Some(p);
                assert(rest.subrange(2, rest.len() as int) =~= all.subrange(i + 2, all.len() as int));
                i = i + 2;
            } else {
                let m = concat2("unknown argument: ", arg);
                return Err(DispatchError::InvalidArguments { message: m });
            }
        }
        assert(all.subrange(i as int, all.len() as int).len() == 0);
        match uri {
            None => Err(DispatchError::invalid_arguments("missing required --uri")),
            Some(u) => match position {
                None => Err(DispatchError::invalid_arguments("missing required --position")),
                Some((line, column)) => Ok(GetDefinitionArgs { uri: u, line, column }),
            },
        }
    }

    /// Infers the language from the URI's file extension (ASCII
    /// case-insensitive): `rs`, `py`, `ts` and `tsx` are known.
    ///
    /// Returns `UnsupportedLanguage` with the lower-cased extension otherwise.
    pub fn language(&self) -> (r: Result<Language, DispatchError>)
        ensures
            ({
                let ext = ascii_lower(extension_of(lsp_uri_path(self.spec_uri())));
                match language_for_extension(ext) {
                    Some(l) => r == Ok::<Language, DispatchError>(l),
                    None => r matches Err(DispatchError::UnsupportedLanguage { extension })
                        && extension@ == ext,
                }
            }),
    {
        proof {
            use_type_invariant(self);
        }
        let path = match uri_path(self.uri.as_str()) {
            Some(p) => p,
            None => {
                return Err(DispatchError::unsupported_language("(no extension)"));
            },
        };
        let chars = crate::text::chars_of(path.as_str());
        let start = match last_char_index(&chars, '.') {
            Some(k) => k + 1,
            None => 0,
        };
        let ext_chars = sub_vec(&chars, start, chars.len());
        let ext_text = crate::text::string_from_chars(&ext_chars);
        let ext = to_ascii_lowercase(ext_text.as_str());
        if str_eq(ext.as_str(), "rs") {
            Ok(Language::Rust)
        } else if str_eq(ext.as_str(), "py") {
            Ok(Language::Python)
        } else if str_eq(ext.as_str(), "ts") || str_eq(ext.as_str(), "tsx") {
            Ok(Language::TypeScript)
        } else {
            Err(DispatchError::unsupported_language(ext.as_str()))
        }
    }

    /// Converts to definition-request parameters: line and column become
    /// zero-indexed (saturating at zero).
    pub fn into_params(self) -> (p: DefinitionParams)
        ensures
            p.uri@ == self.spec_uri(),
            p.line == zero_indexed(self.spec_line()),
            p.character == zero_indexed(self.spec_column()),
    {
        DefinitionParams {
            uri: self.uri,
            line: if self.line == 0 {
                0
            } else {
                self.line - 1
            },
            character: if self.column == 0 {
                0
            } else {
                self.column - 1
            },
        }
    }
}

} // verus!
