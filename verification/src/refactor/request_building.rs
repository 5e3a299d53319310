//! Builds the plugin arguments of an `act refactor` request.
//!
//! Trailing `KEY=VALUE` arguments become plugin arguments (a bare `KEY` is a
//! boolean flag); `rename-symbol` then gains the file's URI and the byte
//! offset of the requested position.

use vstd::prelude::*;

use crate::errors::DispatchError;
use crate::num::{decimal_digits, format_usize};
use crate::text::{
    chars_of, concat2, find_char, first_index, lemma_count_first, str_eq, string_from_chars,
    string_views, sub_vec, trim, trim_spec,
};

use super::arguments::RefactorArgs;
use super::manifests::CapabilityId;
use super::metrics::{next_count, AtomicPositionMetrics};
use super::plugin_args::{arg_model, ArgModel, PluginArgValue, PluginArgs};
use super::positions::{byte_offset_spec, line_col_to_byte_offset, out_of_range_text, LineCol};

verus! {

/// The `file://` URL that `url::Url::from_file_path` makes of an absolute
/// path.
pub uninterp spec fn file_url_text(path: Seq<char>) -> Seq<char>;

/// Makes a `file://` URL of a path with `url::Url::from_file_path`.
///
/// Trusted: on Unix the call fails exactly when the path is not absolute (does
/// not start with `/`); otherwise the URL's text is a function of the path
/// alone (named [`file_url_text`]). This holds of Unix only (Windows paths
/// are read with drive letters and `\\`), so the library targets Unix.
#[verifier::external_body]
fn file_url(path: &str) -> (r: Option<String>)
    ensures
        r is Some <==> (path@.len() > 0 && path@[0] == '/'),
        r matches Some(u) ==> u@ == file_url_text(path@),
{
    match url::Url::from_file_path(path) {
        Ok(url) => Some(url.to_string()),
        Err(()) => None,
    }
}

/// The key of a trailing argument: the text before its first `=`, trimmed.
pub open spec fn extra_key(e: Seq<char>) -> Seq<char> {
    trim_spec(e.subrange(0, first_index(e, '=')))
}

/// The value of a trailing argument: the text after its first `=`, or the
/// flag `true` when it has none.
pub open spec fn extra_value(e: Seq<char>) -> ArgModel {
    let k = first_index(e, '=');
    if k < e.len() {
        ArgModel::Text(e.subrange(k + 1, e.len() as int))
    } else {
        ArgModel::Bool(true)
    }
}

/// Adds one trailing argument to the map, or refuses it.
pub open spec fn extra_step(m: Map<Seq<char>, ArgModel>, e: Seq<char>) -> Result<
    Map<Seq<char>, ArgModel>,
    Seq<char>,
> {
    let key = extra_key(e);
    if key.len() == 0 {
        Err("refactor extra argument has an empty key: '"@ + e + "'"@)
    } else if key == "refactoring"@ {
        Err("refactor extra argument must not override reserved key 'refactoring'"@)
    } else {
        Ok(m.insert(key, extra_value(e)))
    }
}

/// The plugin arguments of the trailing arguments, taken in order (a later
/// key wins), or the first refusal.
pub open spec fn plugin_args_spec(extras: Seq<Seq<char>>) -> Result<Map<Seq<char>, ArgModel>, Seq<char>>
    decreases extras.len(),
{
    if extras.len() == 0 {
        Ok(Map::empty())
    } else {
        match plugin_args_spec(extras.drop_last()) {
            Ok(m) => extra_step(m, extras.last()),
            Err(msg) => Err(msg),
        }
    }
}

/// A refusal of a prefix of the trailing arguments is the refusal of all of
/// them.
proof fn lemma_refusal_persists(extras: Seq<Seq<char>>, j: int)
    requires
        0 <= j <= extras.len(),
        plugin_args_spec(extras.subrange(0, j)) is Err,
    ensures
        plugin_args_spec(extras) == plugin_args_spec(extras.subrange(0, j)),
    decreases extras.len(),
{
    if j == extras.len() {
        assert(extras.subrange(0, j) =~= extras);
    } else {
        let p = extras.drop_last();
        assert(p.subrange(0, j) =~= extras.subrange(0, j));
        lemma_refusal_persists(p, j);
    }
}

/// Builds plugin arguments from the trailing `KEY=VALUE` arguments.
pub fn build_plugin_args(args: &RefactorArgs) -> (r: Result<PluginArgs, DispatchError>)
    ensures
        match plugin_args_spec(string_views(args.extra@)) {
            Ok(m) => r matches Ok(p) && p@ == m,
            Err(msg) => r matches Err(DispatchError::InvalidArguments { message }) && message@
                == msg,
        },
{
    let ghost extras = string_views(args.extra@);
    let mut plugin_args = PluginArgs::new();
    let mut i: usize = 0;
    assert(extras.subrange(0, 0) =~= Seq::<Seq<char>>::empty());
    while i < args.extra.len()
        invariant
            i <= args.extra@.len(),
            extras == string_views(args.extra@),
            plugin_args_spec(extras.subrange(0, i as int)) == Ok::<
                Map<Seq<char>, ArgModel>,
                Seq<char>,
            >(plugin_args@),
        decreases args.extra@.len() - i,
    {
        let extra = args.extra[i].as_str();
        let ghost e = extra@;
        assert(extras.subrange(0, i + 1).drop_last() =~= extras.subrange(0, i as int));
        assert(extras.subrange(0, i + 1).last() == e);
        let chars = chars_of(extra);
        let k = find_char(&chars, '=');
        proof {
            lemma_count_first(e, '=');
        }
        let key_chars = sub_vec(&chars, 0, k);
        let key_text = string_from_chars(&key_chars);
        let key = trim(key_text.as_str());
        if key.unicode_len() == 0 {
            proof {
                lemma_refusal_persists(extras, i + 1);
            }
            let mut m = String::from_str("refactor extra argument has an empty key: '");
            m.append(extra);
            m.append("'");
            return Err(DispatchError::InvalidArguments { message: m });
        }
        if str_eq(key.as_str(), "refactoring") {
            proof {
                lemma_refusal_persists(extras, i + 1);
            }
            return Err(
                DispatchError::invalid_arguments(
                    "refactor extra argument must not override reserved key 'refactoring'",
                ),
            );
        }
        if k < chars.len() {
            let value_chars = sub_vec(&chars, k + 1, chars.len());
            let value = string_from_chars(&value_chars);
            plugin_args.insert(key, PluginArgValue::Text(value));
        } else {
            plugin_args.insert(key, PluginArgValue::Bool(true));
        }
        i = i + 1;
    }
    assert(extras.subrange(0, args.extra@.len() as int) =~= extras);
    Ok(plugin_args)
}

/// The message for a refused rename request on `file`.
pub open spec fn invalid_rename_text(message: Seq<char>, file: Seq<char>) -> Seq<char> {
    message + " for '"@ + file + "'"@
}

/// The message when the plugin arguments already hold `position`.
pub open spec fn position_reserved_text() -> Seq<char> {
    "refactor rename must use '--position LINE:COL'; trailing 'position=' is reserved for the internal plugin contract"@
}

/// The message for a deprecated offset that is neither text nor a number.
pub open spec fn bad_offset_text() -> Seq<char> {
    "refactor rename deprecated offset= must be a numeric or string byte offset"@
}

/// The message when no position is given.
pub open spec fn missing_position_text() -> Seq<char> {
    "refactor rename requires --position LINE:COL"@
}

/// The `rename-symbol` mapping: the plugin arguments afterwards, and the
/// error if the mapping is refused.
///
/// The file's URL goes under `uri`. A `position` key already present is
/// refused; a requested position becomes its byte offset under `position`;
/// otherwise a deprecated `offset` (text or number) moves to `position`.
pub open spec fn rename_mapping_spec(
    m: Map<Seq<char>, ArgModel>,
    file: Seq<char>,
    content: Seq<char>,
    position: Option<LineCol>,
) -> (Map<Seq<char>, ArgModel>, Option<Seq<char>>) {
    if !(file.len() > 0 && file[0] == '/') {
        (m, Some("cannot construct file URI for '"@ + file + "'"@))
    } else {
        let m1 = m.insert("uri"@, ArgModel::Text(file_url_text(file)));
        if m1.dom().contains("position"@) {
            (m1, Some(invalid_rename_text(position_reserved_text(), file)))
        } else {
            match position {
                Some(p) => match byte_offset_spec(content, p.line as int, p.column as int) {
                    Some(offset) => (
                        m1.insert("position"@, ArgModel::Text(decimal_digits(offset))),
                        None,
                    ),
                    None => (m1, Some(out_of_range_text(p.line, p.column, Some(file)))),
                },
                None => if m1.dom().contains("offset"@) {
                    let v = m1["offset"@];
                    let m2 = m1.remove("offset"@);
                    if v is Text || v is Number {
                        (m2.insert("position"@, v), None)
                    } else {
                        (m2, Some(invalid_rename_text(bad_offset_text(), file)))
                    }
                } else {
                    (m1, Some(invalid_rename_text(missing_position_text(), file)))
                },
            }
        }
    }
}

/// Whether the mapping fails because the position is outside the file.
pub open spec fn conversion_failed(
    m: Map<Seq<char>, ArgModel>,
    file: Seq<char>,
    content: Seq<char>,
    position: Option<LineCol>,
) -> bool {
    &&& file.len() > 0 && file[0] == '/'
    &&& !m.insert("uri"@, ArgModel::Text(file_url_text(file))).dom().contains("position"@)
    &&& position matches Some(p) && byte_offset_spec(content, p.line as int, p.column as int) is None
}

fn invalid_rename_arguments(file: &str, message: &str) -> (e: DispatchError)
    ensures
        e matches DispatchError::InvalidArguments { message: m } && m@ == invalid_rename_text(
            message@,
            file@,
        ),
{
    let mut m = message.to_owned();
    m.append(" for '");
    m.append(file);
    m.append("'");
    DispatchError::InvalidArguments { message: m }
}

/// Rewrites the plugin arguments to the `rename-symbol` contract (see
/// [`rename_mapping_spec`]). A position outside the file counts one
/// conversion error.
pub fn apply_rename_symbol_mapping(
    plugin_args: &mut PluginArgs,
    file_path: &str,
    file_content: &str,
    position: Option<LineCol>,
    metrics: &mut AtomicPositionMetrics,
) -> (r: Result<(), DispatchError>)
    requires
        position matches Some(p) ==> p.column >= 1,
    ensures
        ({
            let (m, error) = rename_mapping_spec(
                old(plugin_args)@,
                file_path@,
                file_content@,
                position,
            );
            &&& final(plugin_args)@ == m
            &&& match error {
                None => r is Ok,
                Some(msg) => r matches Err(DispatchError::InvalidArguments { message })
                    && message@ == msg,
            }
        }),
        final(metrics).conversion_errors == if conversion_failed(
            old(plugin_args)@,
            file_path@,
            file_content@,
            position,
        ) {
            next_count(old(metrics).conversion_errors)
        } else {
            old(metrics).conversion_errors
        },
        final(metrics).parse_errors == old(metrics).parse_errors,
{
    let uri = match file_url(file_path) {
        Some(u) => u,
        None => {
            return Err(
                DispatchError::InvalidArguments {
                    message: {
                        let mut m = String::from_str("cannot construct file URI for '");
                        m.append(file_path);
                        m.append("'");
                        m
                    },
                },
            );
        },
    };
    plugin_args.insert(String::from_str("uri"), PluginArgValue::Text(uri));
    if plugin_args.contains_key("position") {
        return Err(
            invalid_rename_arguments(
                file_path,
                "refactor rename must use '--position LINE:COL'; trailing 'position=' is reserved for the internal plugin contract",
            ),
        );
    }
    match position {
        Some(p) => {
            match line_col_to_byte_offset(file_content, p.line, p.column, Some(file_path)) {
                Ok(offset) => {
                    let text = format_usize(offset);
                    plugin_args.insert(String::from_str("position"), PluginArgValue::Text(text));
                    Ok(())
                },
                Err(e) => {
                    metrics.increment_conversion_error();
                    Err(e)
                },
            }
        },
        None => {
            match plugin_args.remove("offset") {
                Some(v) => {
                    let usable = match &v {
                        PluginArgValue::Text(_) => true,
                        PluginArgValue::Number(_) => true,
                        PluginArgValue::Bool(_) => false,
                    };
                    if usable {
                        plugin_args.insert(String::from_str("position"), v);
                        Ok(())
                    } else {
                        Err(
                            invalid_rename_arguments(
                                file_path,
                                "refactor rename deprecated offset= must be a numeric or string byte offset",
                            ),
                        )
                    }
                },
                None => Err(
                    invalid_rename_arguments(
                        file_path,
                        "refactor rename requires --position LINE:COL",
                    ),
                ),
            }
        },
    }
}

/// Applies the argument mapping of a capability: `rename-symbol` is the only
/// one, so this is the rename mapping.
pub fn apply_capability_argument_mapping(
    plugin_args: &mut PluginArgs,
    capability: CapabilityId,
    file_path: &str,
    file_content: &str,
    position: Option<LineCol>,
    metrics: &mut AtomicPositionMetrics,
) -> (r: Result<(), DispatchError>)
    requires
        position matches Some(p) ==> p.column >= 1,
    ensures
        ({
            let (m, error) = rename_mapping_spec(
                old(plugin_args)@,
                file_path@,
                file_content@,
                position,
            );
            &&& final(plugin_args)@ == m
            &&& match error {
                None => r is Ok,
                Some(msg) => r matches Err(DispatchError::InvalidArguments { message })
                    && message@ == msg,
            }
        }),
        final(metrics).conversion_errors == if conversion_failed(
            old(plugin_args)@,
            file_path@,
            file_content@,
            position,
        ) {
            next_count(old(metrics).conversion_errors)
        } else {
            old(metrics).conversion_errors
        },
        final(metrics).parse_errors == old(metrics).parse_errors,
{
    match capability {
        CapabilityId::RenameSymbol => apply_rename_symbol_mapping(
            plugin_args,
            file_path,
            file_content,
            position,
            metrics,
        ),
    }
}

/// Plugin arguments built from trailing arguments never hold the reserved
/// `refactoring` key, and never an empty key.
pub proof fn lemma_plugin_args_keys(extras: Seq<Seq<char>>)
    requires
        plugin_args_spec(extras) is Ok,
    ensures
        !plugin_args_spec(extras)->Ok_0.dom().contains("refactoring"@),
        forall|k: Seq<char>| #[trigger] plugin_args_spec(extras)->Ok_0.dom().contains(k) ==> k.len()
            > 0,
    decreases extras.len(),
{
    if extras.len() > 0 {
        lemma_plugin_args_keys(extras.drop_last());
    }
}

} // verus!
