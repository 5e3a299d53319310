//! Source position conversion for `act refactor`.
//!
//! The command line takes human-facing `LINE:COL` positions (one-indexed, the
//! column counted in Unicode characters), while rename actuators consume UTF-8
//! byte offsets into the file.

use vstd::prelude::*;

use crate::errors::DispatchError;
use crate::num::{decimal_digits, format_u64, parse_u32_chars, parse_u32_spec};
use crate::text::{
    byte_len, char_utf8_width, chars_of, concat2, find_char, first_index, lemma_count_first,
    lemma_utf8_len_concat, lemma_utf8_len_prefix, lemma_utf8_len_single, string_from_chars,
    strip_cr, sub_vec, utf8_len, utf8_width,
};

verus! {

/// A validated, one-indexed line and Unicode-character column.
#[derive(Debug, Clone, Copy, PartialEq, Eq, Structural)]
pub struct LineCol {
    pub line: u32,
    pub column: u32,
}

/// `LINE:COL` split at the first colon; both parts are `u32` numbers of at
/// least one.
pub open spec fn line_col_spec(value: Seq<char>) -> Result<LineCol, Seq<char>> {
    let k = first_index(value, ':');
    if k == value.len() {
        Err("position must be LINE:COL, got: "@ + value)
    } else {
        let line_text = value.subrange(0, k);
        let column_text = value.subrange(k + 1, value.len() as int);
        match parse_u32_spec(line_text) {
            None => Err("invalid line number: "@ + line_text),
            Some(line) => match parse_u32_spec(column_text) {
                None => Err("invalid column number: "@ + column_text),
                Some(column) => if line == 0 {
                    Err("line number must be >= 1"@)
                } else if column == 0 {
                    Err("column number must be >= 1"@)
                } else {
                    Ok(LineCol { line, column })
                },
            },
        }
    }
}

/// The first piece of `str::split_inclusive('\n')`: up to and including the
/// first newline, or the whole text.
pub open spec fn first_segment(s: Seq<char>) -> Seq<char> {
    let k = first_index(s, '\n');
    if k < s.len() {
        s.subrange(0, k + 1)
    } else {
        s
    }
}

/// Moves an entry's start by `by` characters.
pub open spec fn shifted(e: Option<(nat, Seq<char>)>, by: nat) -> Option<(nat, Seq<char>)> {
    match e {
        Some((start, text)) => Some((start + by, text)),
        None => None,
    }
}

/// Line `line` (one-indexed) of a text: the character index where it starts
/// and its text with its line ending, as `split_inclusive('\n')` yields the
/// lines. `None` past the last line and for line 0.
pub open spec fn line_entry_spec(s: Seq<char>, line: int) -> Option<(nat, Seq<char>)>
    decreases s.len(),
{
    if s.len() == 0 || line < 1 {
        None
    } else {
        let seg = first_segment(s);
        if line == 1 {
            Some((0nat, seg))
        } else {
            proof {
                lemma_count_first(s, '\n');
            }
            shifted(line_entry_spec(s.subrange(seg.len() as int, s.len() as int), line - 1), seg.len())
        }
    }
}

/// Number of lines that `split_inclusive('\n')` yields.
pub open spec fn line_count(s: Seq<char>) -> nat
    decreases s.len(),
{
    if s.len() == 0 {
        0
    } else {
        proof {
            lemma_count_first(s, '\n');
        }
        1 + line_count(s.subrange(first_segment(s).len() as int, s.len() as int))
    }
}

/// A line without its line ending: one `\n`, then one `\r`, removed.
pub open spec fn visible_line(seg: Seq<char>) -> Seq<char> {
    let without_newline = if seg.len() > 0 && seg.last() == '\n' {
        seg.drop_last()
    } else {
        seg
    };
    strip_cr(without_newline)
}

/// The byte offset of a one-indexed line and character column, if the line
/// exists and the column is at most one past the line's last visible
/// character.
pub open spec fn byte_offset_spec(content: Seq<char>, line: int, column: int) -> Option<nat> {
    match line_entry_spec(content, line) {
        None => None,
        Some((start, seg)) => if column < 1 || column > visible_line(seg).len() + 1 {
            None
        } else {
            Some(utf8_len(content.subrange(0, start + column - 1)))
        },
    }
}

/// The message for a position that does not exist in the file.
pub open spec fn out_of_range_text(line: u32, column: u32, file_path: Option<Seq<char>>) -> Seq<
    char,
> {
    "position "@ + decimal_digits(line as nat) + ":"@ + decimal_digits(column as nat)
        + " is out of range for the target file"@ + match file_path {
        Some(p) => " '"@ + p + "'"@,
        None => ""@,
    }
}

/// Parses a one-indexed `LINE:COL` value.
pub fn parse_line_col(value: &str) -> (r: Result<LineCol, DispatchError>)
    ensures
        match line_col_spec(value@) {
            Ok(p) => r == Ok::<LineCol, DispatchError>(p),
            Err(m) => r matches Err(DispatchError::InvalidArguments { message }) && message@
                == m,
        },
{
    let v = chars_of(value);
    let k = find_char(&v, ':');
    proof {
        lemma_count_first(v@, ':');
    }
    if k >= v.len() {
        let m = concat2("position must be LINE:COL, got: ", value);
        return Err(DispatchError::InvalidArguments { message: m });
    }
    let line_chars = sub_vec(&v, 0, k);
    let column_chars = sub_vec(&v, k + 1, v.len());
    let line = match parse_u32_chars(&line_chars) {
        Some(n) => n,
        None => {
            let text = string_from_chars(&line_chars);
            let m = concat2("invalid line number: ", text.as_str());
            return Err(DispatchError::InvalidArguments { message: m });
        },
    };
    let column = match parse_u32_chars(&column_chars) {
        Some(n) => n,
        None => {
            let text = string_from_chars(&column_chars);
            let m = concat2("invalid column number: ", text.as_str());
            return Err(DispatchError::InvalidArguments { message: m });
        },
    };
    if line == 0 {
        return Err(DispatchError::invalid_arguments("line number must be >= 1"));
    }
    if column == 0 {
        return Err(DispatchError::invalid_arguments("column number must be >= 1"));
    }
    Ok(LineCol { line, column })
}

fn out_of_range(line: u32, column: u32, file_path: Option<&str>) -> (e: DispatchError)
    ensures
        e matches DispatchError::InvalidArguments { message } && message@ == out_of_range_text(
            line,
            column,
            match file_path {
                Some(p) => Some(p@),
                None => None,
            },
        ),
{
    let line_text = format_u64(line as u64);
    let column_text = format_u64(column as u64);
    let mut m = String::from_str("position ");
    m.append(line_text.as_str());
    m.append(":");
    m.append(column_text.as_str());
    m.append(" is out of range for the target file");
    match file_path {
        Some(p) => {
            m.append(" '");
            m.append(p);
            m.append("'");
        },
        None => {},
    }
    proof {
        reveal_strlit("position ");
        reveal_strlit(":");
        reveal_strlit(" is out of range for the target file");
        reveal_strlit(" '");
        reveal_strlit("'");
        reveal_strlit("");
    }
    DispatchError::InvalidArguments { message: m }
}

/// `first_index` is the unique index with nothing equal before it and the
/// character (or the end) at it.
proof fn lemma_first_index_is(s: Seq<char>, c: char, m: int)
    requires
        0 <= m <= s.len(),
        forall|q: int| 0 <= q < m ==> s[q] != c,
        m < s.len() ==> s[m] == c,
    ensures
        first_index(s, c) == m,
{
    lemma_count_first(s, c);
}

/// Splits the UTF-8 length of a prefix at an inner index.
proof fn lemma_utf8_len_split(s: Seq<char>, i: int, j: int)
    requires
        0 <= i <= j <= s.len(),
    ensures
        utf8_len(s.subrange(0, j)) == utf8_len(s.subrange(0, i)) + utf8_len(s.subrange(i, j)),
{
    assert(s.subrange(0, j) =~= s.subrange(0, i) + s.subrange(i, j));
    lemma_utf8_len_concat(s.subrange(0, i), s.subrange(i, j));
}

/// Extending a prefix by one character adds its width.
proof fn lemma_utf8_len_step(s: Seq<char>, j: int)
    requires
        0 <= j < s.len(),
    ensures
        utf8_len(s.subrange(0, j + 1)) == utf8_len(s.subrange(0, j)) + utf8_width(s[j]),
{
    assert(s.subrange(0, j + 1).drop_last() =~= s.subrange(0, j));
}

/// Scans from `start` to the next newline (or the end), adding up the
/// UTF-8 widths on the way.
fn scan_line(chars: &Vec<char>, start: usize, bytes: usize, total: usize) -> (r: (usize, usize))
    requires
        start <= chars@.len(),
        bytes == utf8_len(chars@.subrange(0, start as int)),
        total == utf8_len(chars@),
    ensures
        start <= r.0 <= chars@.len(),
        r.1 == utf8_len(chars@.subrange(0, r.0 as int)),
        forall|q: int| start <= q < r.0 ==> chars@[q] != '\n',
        r.0 < chars@.len() ==> chars@[r.0 as int] == '\n',
        first_index(chars@.subrange(start as int, chars@.len() as int), '\n') == r.0 - start,
{
    let ghost c = chars@;
    assert(c.subrange(0, c.len() as int) =~= c);
    let mut j = start;
    let mut bj = bytes;
    while j < chars.len() && chars[j] != '\n'
        invariant
            chars@ == c,
            total == utf8_len(c),
            c.subrange(0, c.len() as int) == c,
            start <= j <= c.len(),
            bj == utf8_len(c.subrange(0, j as int)),
            forall|q: int| start <= q < j ==> c[q] != '\n',
        decreases c.len() - j,
    {
        proof {
            lemma_utf8_len_step(c, j as int);
            lemma_utf8_len_prefix(c, (j + 1) as int, c.len() as int);
        }
        bj = bj + char_utf8_width(chars[j]);
        j = j + 1;
    }
    proof {
        let rest = c.subrange(start as int, c.len() as int);
        assert forall|q: int| 0 <= q < j - start implies rest[q] != '\n' by {
            assert(rest[q] == c[start + q]);
        }
        if j < c.len() {
            assert(rest[j - start] == c[j as int]);
        }
        lemma_first_index_is(rest, '\n', (j - start) as int);
    }
    (j, bj)
}

/// Finds where line `line` (at least 1) starts: its character index and
/// byte offset, or `None` past the last line.
fn find_line_start(chars: &Vec<char>, line: u32, total: usize) -> (r: Option<(usize, usize)>)
    requires
        line >= 1,
        total == utf8_len(chars@),
    ensures
        match r {
            Some((i, b)) => i < chars@.len() && b == utf8_len(chars@.subrange(0, i as int))
                && line_entry_spec(chars@, line as int) == shifted(
                line_entry_spec(chars@.subrange(i as int, chars@.len() as int), 1),
                i as nat,
            ),
            None => line_entry_spec(chars@, line as int) is None,
        },
{
    let ghost c = chars@;
    let mut i: usize = 0;
    let mut b: usize = 0;
    let mut n: u32 = 1;
    assert(c.subrange(0, 0).len() == 0);
    assert(c.subrange(0, c.len() as int) =~= c);
    while n < line
        invariant
            chars@ == c,
            total == utf8_len(c),
            1 <= n <= line,
            i <= c.len(),
            b == utf8_len(c.subrange(0, i as int)),
            line_entry_spec(c, line as int) == shifted(
                line_entry_spec(c.subrange(i as int, c.len() as int), line - n + 1),
                i as nat,
            ),
        decreases line - n,
    {
        let ghost rest = c.subrange(i as int, c.len() as int);
        if i == chars.len() {
            assert(rest.len() == 0);
            return None;
        }
        let (j, bj) = scan_line(chars, i, b, total);
        if j == chars.len() {
            assert(first_segment(rest) == rest);
            assert(rest.subrange(rest.len() as int, rest.len() as int).len() == 0);
            assert(line_entry_spec(rest.subrange(rest.len() as int, rest.len() as int), line - n)
                is None);
            return None;
        }
        proof {
            assert(c.subrange(0, c.len() as int) =~= c);
            lemma_utf8_len_step(c, j as int);
            lemma_utf8_len_prefix(c, (j + 1) as int, c.len() as int);
            assert(first_segment(rest) == rest.subrange(0, j - i + 1));
            assert(rest.subrange(j - i + 1, rest.len() as int) =~= c.subrange(
                j + 1,
                c.len() as int,
            ));
        }
        i = j + 1;
        b = bj + 1;
        n = n + 1;
    }
    if i == chars.len() {
        assert(c.subrange(i as int, c.len() as int).len() == 0);
        return None;
    }
    Some((i, b))
}

/// Converts a one-indexed line and Unicode-character column into a UTF-8
/// byte offset into `content`.
///
/// Lines are those of `split_inclusive('\n')`; the column may be one past the
/// last visible character of the line (a `\n` or `\r\n` ending is not
/// visible). Other positions are out of range, and the error names
/// `file_path` when it is given.
pub fn line_col_to_byte_offset(content: &str, line: u32, column: u32, file_path: Option<&str>) -> (r:
    Result<usize, DispatchError>)
    requires
        column >= 1,
    ensures
        match byte_offset_spec(content@, line as int, column as int) {
            Some(offset) => r matches Ok(o) && o == offset,
            None => r matches Err(DispatchError::InvalidArguments { message }) && message@
                == out_of_range_text(
                line,
                column,
                match file_path {
                    Some(p) => Some(p@),
                    None => None,
                },
            ),
        },
{
    let chars = chars_of(content);
    let total = byte_len(content);
    let ghost c = content@;
    if line == 0 {
        return Err(out_of_range(line, column, file_path));
    }
    let (i, b) = match find_line_start(&chars, line, total) {
        Some(found) => found,
        None => {
            return Err(out_of_range(line, column, file_path));
        },
    };
    let ghost rest = c.subrange(i as int, c.len() as int);
    let (j, _) = scan_line(&chars, i, b, total);
    let mut e = j;
    if e > i && chars[e - 1] == '\r' {
        e = e - 1;
    }
    let ghost seg = first_segment(rest);
    assert(visible_line(seg) =~= c.subrange(i as int, e as int)) by {
        if j < c.len() {
            assert(seg == rest.subrange(0, j - i + 1));
            assert(seg.drop_last() =~= c.subrange(i as int, j as int));
        } else {
            assert(seg == rest);
            assert(rest =~= c.subrange(i as int, j as int));
        }
    }
    let visible = e - i;
    let steps = (column - 1) as usize;
    if steps > visible {
        return Err(out_of_range(line, column, file_path));
    }
    let target = i + steps;
    let mut k = i;
    let mut off = b;
    assert(c.subrange(0, c.len() as int) =~= c);
    while k < target
        invariant
            chars@ == c,
            total == utf8_len(c),
            c.subrange(0, c.len() as int) == c,
            i <= k <= target <= c.len(),
            off == utf8_len(c.subrange(0, k as int)),
        decreases target - k,
    {
        proof {
            lemma_utf8_len_step(c, k as int);
            lemma_utf8_len_prefix(c, (k + 1) as int, c.len() as int);
        }
        off = off + char_utf8_width(chars[k]);
        k = k + 1;
    }
    Ok(off)
}

/// A line entry lies inside the text: the text holds the line's characters
/// at the entry's start.
pub proof fn lemma_line_entry_in_text(s: Seq<char>, line: int)
    requires
        line_entry_spec(s, line) is Some,
    ensures
        ({
            let (start, seg) = line_entry_spec(s, line)->0;
            &&& start + seg.len() <= s.len()
            &&& s.subrange(start as int, (start + seg.len()) as int) == seg
            &&& seg.len() > 0
        }),
    decreases s.len(),
{
    lemma_count_first(s, '\n');
    let seg = first_segment(s);
    if line != 1 {
        let rest = s.subrange(seg.len() as int, s.len() as int);
        lemma_line_entry_in_text(rest, line - 1);
        let (st, t) = line_entry_spec(rest, line - 1)->0;
        assert(s.subrange((seg.len() + st) as int, (seg.len() + st + t.len()) as int)
            =~= rest.subrange(st as int, (st + t.len()) as int));
    } else {
        assert(s.subrange(0, seg.len() as int) =~= seg);
    }
}

/// A line exists exactly from line 1 up to `line_count`.
pub proof fn lemma_line_entry_exists(s: Seq<char>, line: int)
    ensures
        line_entry_spec(s, line) is Some <==> 1 <= line <= line_count(s),
    decreases s.len(),
{
    if s.len() > 0 && line > 1 {
        lemma_count_first(s, '\n');
        lemma_line_entry_exists(s.subrange(first_segment(s).len() as int, s.len() as int), line - 1);
    }
}

/// Converted offsets fall on a character boundary of the file's UTF-8 bytes
/// (`encode_utf8(content)` is what `str::as_bytes` holds).
pub proof fn lemma_offset_on_char_boundary(content: Seq<char>, line: int, column: int)
    requires
        byte_offset_spec(content, line, column) is Some,
    ensures
        vstd::utf8::is_char_boundary(
            vstd::utf8::encode_utf8(content),
            byte_offset_spec(content, line, column)->0 as int,
        ),
{
    lemma_line_entry_in_text(content, line);
    let (start, seg) = line_entry_spec(content, line)->0;
    assert(visible_line(seg).len() <= seg.len());
    crate::text::lemma_prefix_is_char_boundary(content, start + column - 1);
}

/// On one line, a later column never gives a smaller offset, and a strictly
/// later column a strictly larger one.
pub proof fn lemma_offset_monotonic(content: Seq<char>, line: int, c1: int, c2: int)
    requires
        c1 <= c2,
        byte_offset_spec(content, line, c1) is Some,
        byte_offset_spec(content, line, c2) is Some,
    ensures
        byte_offset_spec(content, line, c1)->0 <= byte_offset_spec(content, line, c2)->0,
        c1 < c2 ==> byte_offset_spec(content, line, c1)->0 < byte_offset_spec(
            content,
            line,
            c2,
        )->0,
{
    lemma_line_entry_in_text(content, line);
    let (start, seg) = line_entry_spec(content, line)->0;
    assert(visible_line(seg).len() <= seg.len());
    lemma_utf8_len_prefix(content, start + c1 - 1, start + c2 - 1);
}

/// Lines past the end of the text are rejected, whatever the column.
pub proof fn lemma_lines_past_end_rejected(content: Seq<char>, line: int, column: int)
    requires
        line > line_count(content),
    ensures
        byte_offset_spec(content, line, column) is None,
{
    lemma_line_entry_exists(content, line);
}

/// Positions printed as `LINE:COL` parse back to the same position.
pub proof fn lemma_line_col_round_trip(line: u32, column: u32)
    requires
        line >= 1,
        column >= 1,
    ensures
        line_col_spec(decimal_digits(line as nat) + ":"@ + decimal_digits(column as nat)) == Ok::<
            LineCol,
            Seq<char>,
        >(LineCol { line, column }),
{
    let l = decimal_digits(line as nat);
    let c = decimal_digits(column as nat);
    let v = l + ":"@ + c;
    crate::num::lemma_parse_u32_of_decimal(line);
    crate::num::lemma_parse_u32_of_decimal(column);
    crate::num::lemma_decimal_digits_value(line as nat);
    reveal_strlit(":");
    assert forall|q: int| 0 <= q < l.len() implies v[q] != ':' by {
        assert(v[q] == l[q]);
        assert(crate::num::is_digit(l[q]));
    }
    assert(v[l.len() as int] == ':');
    lemma_first_index_is(v, ':', l.len() as int);
    assert(v.subrange(0, l.len() as int) =~= l);
    assert(v.subrange((l.len() + 1) as int, v.len() as int) =~= c);
}

/// Lines, each followed by `ending`.
pub open spec fn terminated_lines(ls: Seq<Seq<char>>, ending: Seq<char>) -> Seq<char>
    decreases ls.len(),
{
    if ls.len() == 0 {
        Seq::empty()
    } else {
        ls[0] + ending + terminated_lines(ls.drop_first(), ending)
    }
}

/// A line with no `\n` or `\r` in it.
pub open spec fn plain_line(l: Seq<char>) -> bool {
    forall|q: int| 0 <= q < l.len() ==> l[q] != '\n' && l[q] != '\r'
}

/// The byte offset at which a line starts (0 for a line that does not exist).
pub open spec fn line_start_offset(content: Seq<char>, line: int) -> nat {
    match line_entry_spec(content, line) {
        Some((start, _)) => utf8_len(content.subrange(0, start as int)),
        None => 0,
    }
}

/// In plain lines each followed by `\n` or by `\r\n`, line `line` is that
/// line with its ending.
proof fn lemma_terminated_line_entry(ls: Seq<Seq<char>>, ending: Seq<char>, line: int)
    requires
        ending == "\n"@ || ending == "\r\n"@,
        forall|k: int| 0 <= k < ls.len() ==> plain_line(#[trigger] ls[k]),
        1 <= line <= ls.len(),
    ensures
        line_entry_spec(terminated_lines(ls, ending), line) matches Some((_, seg)) && seg
            == ls[line - 1] + ending,
    decreases ls.len(),
{
    reveal_strlit("\n");
    reveal_strlit("\r\n");
    let s = terminated_lines(ls, ending);
    let head = ls[0] + ending;
    let rest = terminated_lines(ls.drop_first(), ending);
    assert(s =~= head + rest);
    assert(plain_line(ls[0]));
    let m = head.len() - 1;
    assert forall|q: int| 0 <= q < m implies s[q] != '\n' by {
        if q < ls[0].len() {
            assert(s[q] == ls[0][q]);
        } else {
            assert(s[q] == ending[q - ls[0].len()]);
        }
    }
    assert(s[m] == '\n');
    lemma_first_index_is(s, '\n', m);
    assert(first_segment(s) =~= head);
    if line > 1 {
        assert(s.subrange(head.len() as int, s.len() as int) =~= rest);
        assert forall|k: int| 0 <= k < ls.drop_first().len() implies plain_line(
            #[trigger] ls.drop_first()[k],
        ) by {
            assert(ls.drop_first()[k] == ls[k + 1]);
        }
        lemma_terminated_line_entry(ls.drop_first(), ending, line - 1);
    }
}

/// LF and CRLF line endings give the same offset relative to the line's
/// start: the line ending never shifts positions within a line.
pub proof fn lemma_crlf_lf_parity(ls: Seq<Seq<char>>, line: int, column: int)
    requires
        forall|k: int| 0 <= k < ls.len() ==> plain_line(#[trigger] ls[k]),
        1 <= line <= ls.len(),
        1 <= column <= ls[line - 1].len() + 1,
    ensures
        ({
            let lf = terminated_lines(ls, "\n"@);
            let crlf = terminated_lines(ls, "\r\n"@);
            &&& byte_offset_spec(lf, line, column) is Some
            &&& byte_offset_spec(crlf, line, column) is Some
            &&& byte_offset_spec(lf, line, column)->0 - line_start_offset(lf, line)
                == byte_offset_spec(crlf, line, column)->0 - line_start_offset(crlf, line)
        }),
{
    reveal_strlit("\n");
    reveal_strlit("\r\n");
    let l = ls[line - 1];
    assert(plain_line(l));
    lemma_relative_offset(ls, "\n"@, line, column);
    lemma_relative_offset(ls, "\r\n"@, line, column);
}

/// The offset relative to the line's start is the UTF-8 length of the
/// line's characters before the column.
proof fn lemma_relative_offset(ls: Seq<Seq<char>>, ending: Seq<char>, line: int, column: int)
    requires
        ending == "\n"@ || ending == "\r\n"@,
        forall|k: int| 0 <= k < ls.len() ==> plain_line(#[trigger] ls[k]),
        1 <= line <= ls.len(),
        1 <= column <= ls[line - 1].len() + 1,
    ensures
        ({
            let s = terminated_lines(ls, ending);
            &&& byte_offset_spec(s, line, column) is Some
            &&& byte_offset_spec(s, line, column)->0 - line_start_offset(s, line) == utf8_len(
                ls[line - 1].subrange(0, column - 1),
            )
        }),
{
    reveal_strlit("\n");
    reveal_strlit("\r\n");
    let s = terminated_lines(ls, ending);
    let l = ls[line - 1];
    lemma_terminated_line_entry(ls, ending, line);
    lemma_line_entry_in_text(s, line);
    let (start, seg) = line_entry_spec(s, line)->0;
    assert(plain_line(l));
    assert(visible_line(seg) =~= l) by {
        assert(seg.last() == '\n');
        if ending == "\r\n"@ {
            assert(seg.drop_last() =~= l + seq!['\r']);
        } else {
            assert(seg.drop_last() =~= l);
            if l.len() > 0 {
                assert(l.last() != '\r');
            }
        }
    }
    lemma_utf8_len_split(s, start as int, start + column - 1);
    assert(s.subrange(start as int, start + column - 1) =~= l.subrange(0, column - 1)) by {
        assert forall|q: int| 0 <= q < column - 1 implies s.subrange(
            start as int,
            start + column - 1,
        )[q] == l[q] by {
            assert(s.subrange(start as int, (start + seg.len()) as int)[q] == seg[q]);
        }
    }
}

} // verus!
