//! Language-server enrichment of symbol cards: reading hover responses and
//! converting positions.
//!
//! A hover response becomes the card's `lsp` information: the hover text,
//! the first line that reads as a type signature, and whether the text marks
//! the symbol as deprecated. Card positions count UTF-8 bytes; language
//! servers that did not negotiate UTF-8 count UTF-16 code units.

use vstd::prelude::*;

use crate::observe::arguments::Language;
use crate::text::{
    ascii_lower, char_utf16_width, char_utf8_width, chars_of, lines, lines_spec, starts_with,
    str_starts_with, to_ascii_lowercase, trim, trim_spec, trim_str, utf16_len, utf16_width,
    utf8_len, utf8_width,
};

verus! {

/// Result of an LSP enrichment attempt.
#[derive(Debug, Clone, Copy, PartialEq, Eq, Structural)]
pub enum EnrichmentOutcome {
    /// LSP enrichment succeeded; provenance should include `"lsp_hover"`.
    Enriched,
    /// LSP was unavailable; provenance is unchanged (degraded).
    Degraded,
}

/// A marked string of a hover response.
#[derive(Debug)]
pub enum MarkedString {
    /// Plain or markdown text.
    String(String),
    /// A code block in a named language.
    LanguageString { language: String, value: String },
}

/// The contents of a hover response.
#[derive(Debug)]
pub enum HoverContents {
    Scalar(MarkedString),
    Array(Vec<MarkedString>),
    /// Markup content, by its text.
    Markup(String),
}

/// Language-server information attached to a symbol card.
#[derive(Debug)]
pub struct LspInfo {
    pub hover: String,
    pub type_info: String,
    pub deprecated: bool,
    pub source: String,
}

/// Languages of symbol cards.
#[derive(Debug, Clone, Copy, PartialEq, Eq, Structural)]
pub enum CardLanguage {
    Rust,
    Python,
    TypeScript,
}

pub open spec fn marked_text(m: MarkedString) -> Seq<char> {
    match m {
        MarkedString::String(t) => t@,
        MarkedString::LanguageString { language, value } => value@,
    }
}

/// Texts joined by line feeds.
pub open spec fn join_lines(parts: Seq<Seq<char>>) -> Seq<char>
    decreases parts.len(),
{
    if parts.len() == 0 {
        Seq::empty()
    } else if parts.len() == 1 {
        parts[0]
    } else {
        join_lines(parts.drop_last()) + "\n"@ + parts.last()
    }
}

/// Hover contents as one plain text.
pub open spec fn hover_text(c: HoverContents) -> Seq<char> {
    match c {
        HoverContents::Scalar(m) => marked_text(m),
        HoverContents::Array(items) => join_lines(
            items@.map_values(|m: MarkedString| marked_text(m)),
        ),
        HoverContents::Markup(value) => value@,
    }
}

/// Whether a line reads as a type signature: not blank, not a code fence.
pub open spec fn is_type_line(line: Seq<char>) -> bool {
    trim_spec(line).len() > 0 && !starts_with(trim_spec(line), "```"@)
}

/// The trimmed first type line, or nothing.
pub open spec fn first_type_line(ls: Seq<Seq<char>>) -> Seq<char>
    decreases ls.len(),
{
    if ls.len() == 0 {
        Seq::empty()
    } else if is_type_line(ls[0]) {
        trim_spec(ls[0])
    } else {
        first_type_line(ls.drop_first())
    }
}

/// Whether a line starts with a structured deprecation marker (ASCII
/// case-insensitive, after trimming).
pub open spec fn deprecation_marker(line: Seq<char>) -> bool {
    let l = ascii_lower(trim_spec(line));
    ||| starts_with(l, "@deprecated"@)
    ||| starts_with(l, "**deprecated**"@)
    ||| starts_with(l, "__deprecated__"@)
    ||| starts_with(l, "deprecated:"@)
    ||| starts_with(l, "deprecated."@)
    ||| starts_with(l, "deprecated "@)
}

/// Whether `l` starts with one of `markers`.
pub open spec fn starts_with_any_marker(l: Seq<char>, markers: Seq<Seq<char>>) -> bool {
    exists|k: int| 0 <= k < markers.len() && starts_with(l, #[trigger] markers[k])
}

/// A line marks a deprecation exactly when, trimmed and ASCII lower-cased,
/// it starts with `@deprecated`, `**deprecated**`, `__deprecated__`,
/// `deprecated:`, `deprecated.` or `deprecated ` (with its space).
pub proof fn lemma_deprecation_marker_literals(line: Seq<char>)
    ensures
        deprecation_marker(line) == starts_with_any_marker(
            ascii_lower(trim_spec(line)),
            seq![
                "@deprecated"@,
                "**deprecated**"@,
                "__deprecated__"@,
                "deprecated:"@,
                "deprecated."@,
                "deprecated "@,
            ],
        ),
{
    let l = ascii_lower(trim_spec(line));
    let m: Seq<Seq<char>> = seq![
        "@deprecated"@,
        "**deprecated**"@,
        "__deprecated__"@,
        "deprecated:"@,
        "deprecated."@,
        "deprecated "@,
    ];
    if deprecation_marker(line) {
        if starts_with(l, "@deprecated"@) {
            assert(starts_with(l, m[0]));
        } else if starts_with(l, "**deprecated**"@) {
            assert(starts_with(l, m[1]));
        } else if starts_with(l, "__deprecated__"@) {
            assert(starts_with(l, m[2]));
        } else if starts_with(l, "deprecated:"@) {
            assert(starts_with(l, m[3]));
        } else if starts_with(l, "deprecated."@) {
            assert(starts_with(l, m[4]));
        } else {
            assert(starts_with(l, m[5]));
        }
    }
}

/// The information read from hover contents.
pub open spec fn hover_info_spec(c: HoverContents) -> (Seq<char>, Seq<char>, bool) {
    let text = hover_text(c);
    (
        text,
        first_type_line(lines_spec(text)),
        exists|i: int|
            0 <= i < lines_spec(text).len() && deprecation_marker(#[trigger] lines_spec(text)[i]),
    )
}

fn marked_string_text(marked: &MarkedString) -> (r: String)
    ensures
        r@ == marked_text(*marked),
{
    match marked {
        MarkedString::String(text) => text.clone(),
        MarkedString::LanguageString { language: _, value } => value.clone(),
    }
}

/// Converts hover contents to a single plain-text string; array items are
/// joined by line feeds.
pub fn extract_hover_text(contents: &HoverContents) -> (r: String)
    ensures
        r@ == hover_text(*contents),
{
    match contents {
        HoverContents::Scalar(marked) => marked_string_text(marked),
        HoverContents::Array(items) => {
            let ghost texts = items@.map_values(|m: MarkedString| marked_text(m));
            let mut out = String::new();
            let mut i: usize = 0;
            while i < items.len()
                invariant
                    i <= items.len(),
                    texts == items@.map_values(|m: MarkedString| marked_text(m)),
                    out@ == join_lines(texts.subrange(0, i as int)),
                decreases items.len() - i,
            {
                let t = marked_string_text(&items[i]);
                if i > 0 {
                    out.append("\n");
                }
                out.append(t.as_str());
                proof {
                    let post = texts.subrange(0, i + 1);
                    assert(post.drop_last() =~= texts.subrange(0, i as int));
                    if i == 0 {
                        assert(join_lines(post) == post[0]);
                    }
                }
                i = i + 1;
            }
            assert(texts.subrange(0, items.len() as int) =~= texts);
            out
        },
        HoverContents::Markup(value) => value.clone(),
    }
}

/// Whether a hover line starts with a structured deprecation marker.
pub fn is_deprecation_marker(line: &str) -> (r: bool)
    ensures
        r == deprecation_marker(line@),
        ({
            let l = ascii_lower(trim_spec(line@));
            r == (starts_with(l, "@deprecated"@) || starts_with(l, "**deprecated**"@)
                || starts_with(l, "__deprecated__"@) || starts_with(l, "deprecated:"@)
                || starts_with(l, "deprecated."@) || starts_with(l, "deprecated "@))
        }),
{
    let trimmed = trim_str(line);
    let lower = to_ascii_lowercase(trimmed);
    let l = lower.as_str();
    str_starts_with(l, "@deprecated") || str_starts_with(l, "**deprecated**") || str_starts_with(
        l,
        "__deprecated__",
    ) || str_starts_with(l, "deprecated:") || str_starts_with(l, "deprecated.")
        || str_starts_with(l, "deprecated ")
}

fn is_type_line_exec(line: &str) -> (r: bool)
    ensures
        r == is_type_line(line@),
{
    let trimmed = trim_str(line);
    !trimmed.is_empty() && !str_starts_with(trimmed, "```")
}

/// Extracts structured LSP info from hover contents.
pub fn parse_hover_response(contents: &HoverContents) -> (info: LspInfo)
    ensures
        ({
            let (text, type_info, deprecated) = hover_info_spec(*contents);
            &&& info.hover@ == text
            &&& info.type_info@ == type_info
            &&& info.deprecated == deprecated
            &&& info.source@ == "lsp_hover"@
        }),
        info.deprecated == exists|i: int|
            0 <= i < lines_spec(info.hover@).len() && starts_with_any_marker(
                ascii_lower(trim_spec(#[trigger] lines_spec(info.hover@)[i])),
                seq![
                    "@deprecated"@,
                    "**deprecated**"@,
                    "__deprecated__"@,
                    "deprecated:"@,
                    "deprecated."@,
                    "deprecated "@,
                ],
            ),
{
    let hover_text = extract_hover_text(contents);
    let ls = lines(hover_text.as_str());
    let ghost views = ls@.map_values(|l: String| l@);
    let mut type_info = String::new();
    let mut found = false;
    let mut deprecated = false;
    let mut i: usize = 0;
    assert(views.subrange(0, views.len() as int) =~= views);
    while i < ls.len()
        invariant
            i <= ls.len(),
            views == ls@.map_values(|l: String| l@),
            views == lines_spec(hover_text@),
            found ==> type_info@ == first_type_line(views),
            !found ==> type_info@.len() == 0 && first_type_line(views) == first_type_line(
                views.subrange(i as int, views.len() as int),
            ),
            deprecated == exists|j: int| 0 <= j < i && deprecation_marker(#[trigger] views[j]),
        decreases ls.len() - i,
    {
        let line = ls[i].as_str();
        assert(views[i as int] == line@);
        if !found {
            let ghost rest = views.subrange(i as int, views.len() as int);
            assert(rest[0] == views[i as int]);
            assert(rest.drop_first() =~= views.subrange(i + 1, views.len() as int));
            if is_type_line_exec(line) {
                type_info = trim(line);
                found = true;
            }
        }
        if is_deprecation_marker(line) {
            deprecated = true;
        }
        i = i + 1;
    }
    if !found {
        assert(views.subrange(i as int, views.len() as int).len() == 0);
    }
    proof {
        assert forall|j: int| 0 <= j < views.len() implies deprecation_marker(#[trigger] views[j])
            == starts_with_any_marker(
            ascii_lower(trim_spec(views[j])),
            seq![
                "@deprecated"@,
                "**deprecated**"@,
                "__deprecated__"@,
                "deprecated:"@,
                "deprecated."@,
                "deprecated "@,
            ],
        ) by {
            lemma_deprecation_marker_literals(views[j]);
        }
    }
    LspInfo { hover: hover_text, type_info, deprecated, source: String::from_str("lsp_hover") }
}

/// Maps a card language to a language-server language.
pub fn to_lsp_language(card_lang: CardLanguage) -> (r: Option<Language>)
    ensures
        r == Some(
            match card_lang {
                CardLanguage::Rust => Language::Rust,
                CardLanguage::Python => Language::Python,
                CardLanguage::TypeScript => Language::TypeScript,
            },
        ),
{
    match card_lang {
        CardLanguage::Rust => Some(Language::Rust),
        CardLanguage::Python => Some(Language::Python),
        CardLanguage::TypeScript => Some(Language::TypeScript),
    }
}

/// UTF-16 offset of a byte offset into a line: defined when the byte offset
/// ends a character prefix of the line.
pub open spec fn utf16_offset_spec(line: Seq<char>, byte_col: int) -> Option<nat> {
    if exists|k: int| 0 <= k <= line.len() && utf8_len(#[trigger] line.subrange(0, k)) == byte_col {
        let k = choose|k: int|
            0 <= k <= line.len() && utf8_len(#[trigger] line.subrange(0, k)) == byte_col;
        Some(utf16_len(line.subrange(0, k)))
    } else {
        None
    }
}

proof fn lemma_prefix_unique(line: Seq<char>, k1: int, k2: int)
    requires
        0 <= k1 <= line.len(),
        0 <= k2 <= line.len(),
        utf8_len(line.subrange(0, k1)) == utf8_len(line.subrange(0, k2)),
    ensures
        k1 == k2,
{
    if k1 < k2 {
        crate::text::lemma_utf8_len_prefix(line, k1, k2);
    } else if k2 < k1 {
        crate::text::lemma_utf8_len_prefix(line, k2, k1);
    }
}

/// Converts a byte column offset to a UTF-16 code unit offset.
///
/// Returns `None` when the offset is past the end of the line or inside a
/// character.
pub fn byte_col_to_utf16(line_text: &str, byte_col: u32) -> (r: Option<u32>)
    ensures
        match utf16_offset_spec(line_text@, byte_col as int) {
            Some(n) => r == Some(n as u32),
            None => r is None,
        },
{
    let v = chars_of(line_text);
    let mut bytes: u64 = 0;
    let mut units: u64 = 0;
    let mut k: usize = 0;
    let target = byte_col as u64;
    while k < v.len() && bytes < target
        invariant
            k <= v@.len(),
            v@ == line_text@,
            bytes == utf8_len(v@.subrange(0, k as int)),
            units == utf16_len(v@.subrange(0, k as int)),
            units <= bytes,
            bytes <= target + 4,
            target == byte_col,
            forall|j: int| 0 <= j < k ==> utf8_len(#[trigger] v@.subrange(0, j)) < target,
        decreases v.len() - k,
    {
        proof {
            let next = v@.subrange(0, k + 1);
            assert(next.drop_last() =~= v@.subrange(0, k as int));
        }
        bytes = bytes + char_utf8_width(v[k]) as u64;
        units = units + char_utf16_width(v[k]) as u64;
        k = k + 1;
    }
    if bytes == target {
        proof {
            assert(utf8_len(line_text@.subrange(0, k as int)) == byte_col);
            let w = choose|w: int|
                0 <= w <= line_text@.len() && utf8_len(#[trigger] line_text@.subrange(0, w))
                    == byte_col as int;
            lemma_prefix_unique(line_text@, w, k as int);
        }
        Some(units as u32)
    } else {
        proof {
            assert forall|w: int| 0 <= w <= line_text@.len() implies utf8_len(
                #[trigger] line_text@.subrange(0, w),
            ) != byte_col as int by {
                if w < k {
                } else if w == k {
                } else {
                    crate::text::lemma_utf8_len_prefix(line_text@, k as int, w);
                    if k == v.len() {
                    }
                }
            }
        }
        None
    }
}

/// Computes the UTF-16 character offset for a byte column on a line of the
/// source (both zero-indexed).
///
/// Returns `None` if the line does not exist or the byte offset is out of
/// range or inside a character.
pub fn compute_utf16_character(source: &str, line: u32, byte_column: u32) -> (r: Option<u32>)
    ensures
        ({
            let ls = lines_spec(source@);
            if line < ls.len() {
                match utf16_offset_spec(ls[line as int], byte_column as int) {
                    Some(n) => r == Some(n as u32),
                    None => r is None,
                }
            } else {
                r is None
            }
        }),
{
    let ls = lines(source);
    if (line as usize) < ls.len() {
        let text = ls[line as usize].as_str();
        assert(ls@.map_values(|l: String| l@)[line as int] == text@);
        byte_col_to_utf16(text, byte_column)
    } else {
        None
    }
}

/// The hover position's character: the byte column itself when the server
/// negotiated UTF-8 positions, else its UTF-16 offset.
pub fn hover_character(source: &str, line: u32, byte_column: u32, utf8_negotiated: bool) -> (r:
    Option<u32>)
    ensures
        utf8_negotiated ==> r == Some(byte_column),
        !utf8_negotiated ==> ({
            let ls = lines_spec(source@);
            if line < ls.len() {
                match utf16_offset_spec(ls[line as int], byte_column as int) {
                    Some(n) => r == Some(n as u32),
                    None => r is None,
                }
            } else {
                r is None
            }
        }),
{
    if utf8_negotiated {
        Some(byte_column)
    } else {
        compute_utf16_character(source, line, byte_column)
    }
}

} // verus!
