//! Character-level helpers shared by the dispatch modules.
//!
//! Strings are reasoned about through their character sequences (`s@`).
//! Byte lengths follow the UTF-8 encoding given by `vstd::utf8`.

use vstd::prelude::*;
use vstd::utf8::*;

verus! {

/// `char::is_whitespace`: the Unicode `White_Space` property.
pub open spec fn is_unicode_whitespace(c: char) -> bool {
    let u = c as u32;
    ||| 0x09 <= u <= 0x0D
    ||| u == 0x20
    ||| u == 0x85
    ||| u == 0xA0
    ||| u == 0x1680
    ||| 0x2000 <= u <= 0x200A
    ||| u == 0x2028
    ||| u == 0x2029
    ||| u == 0x202F
    ||| u == 0x205F
    ||| u == 0x3000
}

/// `u8::is_ascii_whitespace`: space, tab, line feed, form feed, carriage return.
pub open spec fn is_ascii_whitespace_byte(b: u8) -> bool {
    b == 0x20 || b == 0x09 || b == 0x0A || b == 0x0C || b == 0x0D
}

/// Index of the first character that is not whitespace, or `s.len()`.
pub open spec fn leading_ws_end(s: Seq<char>) -> int
    decreases s.len(),
{
    if s.len() == 0 {
        0
    } else if is_unicode_whitespace(s[0]) {
        1 + leading_ws_end(s.drop_first())
    } else {
        0
    }
}

/// One past the index of the last character that is not whitespace, or 0.
pub open spec fn trailing_ws_start(s: Seq<char>) -> int
    decreases s.len(),
{
    if s.len() == 0 {
        0
    } else if is_unicode_whitespace(s.last()) {
        trailing_ws_start(s.drop_last())
    } else {
        s.len() as int
    }
}

/// `str::trim`: the input without leading and trailing whitespace.
pub open spec fn trim_spec(s: Seq<char>) -> Seq<char> {
    if leading_ws_end(s) >= trailing_ws_start(s) {
        Seq::empty()
    } else {
        s.subrange(leading_ws_end(s), trailing_ws_start(s))
    }
}

/// `char::to_ascii_lowercase`.
pub open spec fn ascii_lower_char(c: char) -> char {
    if 'A' <= c <= 'Z' {
        ((c as u32) + 32) as char
    } else {
        c
    }
}

/// `str::to_ascii_lowercase` on a character sequence.
pub open spec fn ascii_lower(s: Seq<char>) -> Seq<char> {
    s.map_values(|c: char| ascii_lower_char(c))
}

pub proof fn lemma_leading_ws_end_bounds(s: Seq<char>)
    ensures
        0 <= leading_ws_end(s) <= s.len(),
        forall|i: int| 0 <= i < leading_ws_end(s) ==> is_unicode_whitespace(#[trigger] s[i]),
        leading_ws_end(s) < s.len() ==> !is_unicode_whitespace(s[leading_ws_end(s)]),
    decreases s.len(),
{
    if s.len() > 0 && is_unicode_whitespace(s[0]) {
        lemma_leading_ws_end_bounds(s.drop_first());
        assert forall|i: int| 0 <= i < leading_ws_end(s) implies is_unicode_whitespace(
            #[trigger] s[i],
        ) by {
            if i > 0 {
                assert(s[i] == s.drop_first()[i - 1]);
            }
        }
    }
}

pub proof fn lemma_trailing_ws_start_bounds(s: Seq<char>)
    ensures
        0 <= trailing_ws_start(s) <= s.len(),
        forall|i: int|
            trailing_ws_start(s) <= i < s.len() ==> is_unicode_whitespace(#[trigger] s[i]),
        trailing_ws_start(s) > 0 ==> !is_unicode_whitespace(s[trailing_ws_start(s) - 1]),
    decreases s.len(),
{
    if s.len() > 0 && is_unicode_whitespace(s.last()) {
        lemma_trailing_ws_start_bounds(s.drop_last());
        assert forall|i: int| trailing_ws_start(s) <= i < s.len() implies is_unicode_whitespace(
            #[trigger] s[i],
        ) by {
            if i < s.len() - 1 {
                assert(s[i] == s.drop_last()[i]);
            }
        }
    }
}

/// `char::is_whitespace`.
pub fn char_is_whitespace(c: char) -> (b: bool)
    ensures
        b == is_unicode_whitespace(c),
{
    let u = c as u32;
    (0x09 <= u && u <= 0x0D) || u == 0x20 || u == 0x85 || u == 0xA0 || u == 0x1680 || (0x2000
        <= u && u <= 0x200A) || u == 0x2028 || u == 0x2029 || u == 0x202F || u == 0x205F || u
        == 0x3000
}

/// `char::to_ascii_lowercase`.
pub fn char_to_ascii_lowercase(c: char) -> (r: char)
    ensures
        r == ascii_lower_char(c),
{
    if 'A' <= c && c <= 'Z' {
        let u = (c as u32) + 32;
        assert(0x61 <= u <= 0x7A);
        char_from_ascii_code(u)
    } else {
        c
    }
}

/// Converts an ASCII code point to its character.
fn char_from_ascii_code(u: u32) -> (c: char)
    requires
        u < 0x80,
    ensures
        c == u as char,
        c as u32 == u,
{
    let b = u as u8;
    let c = b as char;
    assert(c as u32 == u);
    c
}

/// Appends one character to a string.
#[verifier::external_body]
pub fn push_char(s: &mut String, c: char)
    ensures
        final(s)@ == old(s)@.push(c),
{
    s.push(c);
}

/// Builds a string from a character vector.
pub fn string_from_chars(v: &Vec<char>) -> (s: String)
    ensures
        s@ == v@,
{
    let mut s = String::new();
    let mut i: usize = 0;
    while i < v.len()
        invariant
            i <= v.len(),
            s@ == v@.subrange(0, i as int),
        decreases v.len() - i,
    {
        push_char(&mut s, v[i]);
        i = i + 1;
    }
    s
}

/// Copies a string slice into an owned string.
pub fn owned(s: &str) -> (r: String)
    ensures
        r@ == s@,
{
    s.to_owned()
}

/// Concatenates two string slices.
pub fn concat2(a: &str, b: &str) -> (r: String)
    ensures
        r@ == a@ + b@,
{
    let mut r = a.to_owned();
    r.append(b);
    r
}

/// Character-wise equality of two string slices.
pub fn str_eq(a: &str, b: &str) -> (r: bool)
    ensures
        r == (a@ == b@),
{
    let x = a.to_owned();
    let y = b.to_owned();
    x == y
}

/// Collects the characters of `s` into a vector.
pub fn chars_of(s: &str) -> (v: Vec<char>)
    ensures
        v@ == s@,
{
    let mut v: Vec<char> = Vec::new();
    let n = s.unicode_len();
    let mut i: usize = 0;
    while i < n
        invariant
            n == s@.len(),
            i <= n,
            v@ == s@.subrange(0, i as int),
        decreases n - i,
    {
        v.push(s.get_char(i));
        i = i + 1;
    }
    v
}

/// `str::trim`: removes leading and trailing Unicode whitespace.
pub fn trim(s: &str) -> (r: String)
    ensures
        r@ == trim_spec(s@),
{
    let v = chars_of(s);
    let n = v.len();
    let mut start: usize = 0;
    while start < n && char_is_whitespace(v[start])
        invariant
            n == v@.len(),
            v@ == s@,
            start <= n,
            forall|i: int| 0 <= i < start ==> is_unicode_whitespace(#[trigger] v@[i]),
        decreases n - start,
    {
        start = start + 1;
    }
    let mut end: usize = n;
    while end > 0 && char_is_whitespace(v[end - 1])
        invariant
            n == v@.len(),
            v@ == s@,
            end <= n,
            forall|i: int| end <= i < n ==> is_unicode_whitespace(#[trigger] v@[i]),
        decreases end,
    {
        end = end - 1;
    }
    proof {
        lemma_leading_ws_end_bounds(s@);
        lemma_trailing_ws_start_bounds(s@);
        lemma_first_non_ws_unique(s@, start as int);
        lemma_last_non_ws_unique(s@, end as int);
    }
    if start >= end {
        String::new()
    } else {
        let mut out = String::new();
        let mut i = start;
        while i < end
            invariant
                start <= i <= end <= n,
                n == v@.len(),
                out@ == v@.subrange(start as int, i as int),
            decreases end - i,
        {
            push_char(&mut out, v[i]);
            i = i + 1;
        }
        out
    }
}

proof fn lemma_first_non_ws_unique(s: Seq<char>, k: int)
    requires
        0 <= k <= s.len(),
        forall|i: int| 0 <= i < k ==> is_unicode_whitespace(#[trigger] s[i]),
        k < s.len() ==> !is_unicode_whitespace(s[k]),
    ensures
        leading_ws_end(s) == k,
    decreases s.len(),
{
    if k > 0 {
        assert(is_unicode_whitespace(s[0]));
        assert forall|i: int| 0 <= i < k - 1 implies is_unicode_whitespace(
            #[trigger] s.drop_first()[i],
        ) by {
            assert(s.drop_first()[i] == s[i + 1]);
        }
        lemma_first_non_ws_unique(s.drop_first(), k - 1);
    }
}

proof fn lemma_last_non_ws_unique(s: Seq<char>, k: int)
    requires
        0 <= k <= s.len(),
        forall|i: int| k <= i < s.len() ==> is_unicode_whitespace(#[trigger] s[i]),
        k > 0 ==> !is_unicode_whitespace(s[k - 1]),
    ensures
        trailing_ws_start(s) == k,
    decreases s.len(),
{
    if k < s.len() {
        assert(is_unicode_whitespace(s.last()));
        assert forall|i: int| k <= i < s.len() - 1 implies is_unicode_whitespace(
            #[trigger] s.drop_last()[i],
        ) by {
            assert(s.drop_last()[i] == s[i]);
        }
        lemma_last_non_ws_unique(s.drop_last(), k);
    }
}

/// `str::trim`, borrowing from the input.
pub fn trim_str(s: &str) -> (r: &str)
    ensures
        r@ == trim_spec(s@),
{
    let n = s.unicode_len();
    let mut start: usize = 0;
    while start < n && char_is_whitespace(s.get_char(start))
        invariant
            n == s@.len(),
            start <= n,
            forall|i: int| 0 <= i < start ==> is_unicode_whitespace(#[trigger] s@[i]),
        decreases n - start,
    {
        start = start + 1;
    }
    let mut end: usize = n;
    while end > 0 && char_is_whitespace(s.get_char(end - 1))
        invariant
            n == s@.len(),
            end <= n,
            forall|i: int| end <= i < n ==> is_unicode_whitespace(#[trigger] s@[i]),
        decreases end,
    {
        end = end - 1;
    }
    proof {
        lemma_leading_ws_end_bounds(s@);
        lemma_trailing_ws_start_bounds(s@);
        lemma_first_non_ws_unique(s@, start as int);
        lemma_last_non_ws_unique(s@, end as int);
    }
    if start >= end {
        let r = s.substring_char(0, 0);
        assert(r@ =~= Seq::<char>::empty());
        r
    } else {
        s.substring_char(start, end)
    }
}

/// `str::to_ascii_lowercase`.
pub fn to_ascii_lowercase(s: &str) -> (r: String)
    ensures
        r@ == ascii_lower(s@),
{
    let v = chars_of(s);
    let mut out = String::new();
    let mut i: usize = 0;
    while i < v.len()
        invariant
            i <= v.len(),
            v@ == s@,
            out@ == ascii_lower(s@.subrange(0, i as int)),
        decreases v.len() - i,
    {
        let c = char_to_ascii_lowercase(v[i]);
        push_char(&mut out, c);
        i = i + 1;
        assert(ascii_lower(s@.subrange(0, i as int)) =~= ascii_lower(
            s@.subrange(0, (i - 1) as int),
        ).push(c));
    }
    assert(s@.subrange(0, v.len() as int) =~= s@);
    out
}

/// Number of occurrences of `c` in `s`.
pub open spec fn count_char(s: Seq<char>, c: char) -> nat
    decreases s.len(),
{
    if s.len() == 0 {
        0
    } else {
        count_char(s.drop_last(), c) + if s.last() == c {
            1nat
        } else {
            0nat
        }
    }
}

/// Index of the first `c` in `s`, or `s.len()`.
pub open spec fn first_index(s: Seq<char>, c: char) -> int
    decreases s.len(),
{
    if s.len() == 0 {
        0
    } else if s[0] == c {
        0
    } else {
        1 + first_index(s.drop_first(), c)
    }
}

/// Index of the last `c` in `s`, or -1.
pub open spec fn last_index(s: Seq<char>, c: char) -> int
    decreases s.len(),
{
    if s.len() == 0 {
        -1
    } else if s.last() == c {
        s.len() - 1
    } else {
        last_index(s.drop_last(), c)
    }
}

pub proof fn lemma_count_first(s: Seq<char>, c: char)
    ensures
        0 <= first_index(s, c) <= s.len(),
        forall|i: int| 0 <= i < first_index(s, c) ==> s[i] != c,
        first_index(s, c) < s.len() ==> s[first_index(s, c)] == c,
        count_char(s, c) == 0 <==> first_index(s, c) == s.len(),
    decreases s.len(),
{
    if s.len() > 0 {
        lemma_count_first(s.drop_first(), c);
        lemma_count_split(s, c);
        assert forall|i: int| 0 <= i < first_index(s, c) implies s[i] != c by {
            if i > 0 {
                assert(s[i] == s.drop_first()[i - 1]);
            }
        }
    }
}

/// Counting splits at the first element.
pub proof fn lemma_count_split(s: Seq<char>, c: char)
    requires
        s.len() > 0,
    ensures
        count_char(s, c) == count_char(s.drop_first(), c) + if s[0] == c {
            1nat
        } else {
            0nat
        },
    decreases s.len(),
{
    if s.len() > 1 {
        lemma_count_split(s.drop_last(), c);
        assert(s.drop_last().drop_first() =~= s.drop_first().drop_last());
        assert(s.drop_first().last() == s.last());
        assert(s.drop_last()[0] == s[0]);
        assert(count_char(s.drop_first(), c) == count_char(s.drop_first().drop_last(), c) + (if s.drop_first().last() == c {
            1nat
        } else {
            0nat
        }));
    } else {
        assert(s.drop_first().len() == 0);
        assert(s.drop_last().len() == 0);
        assert(count_char(s.drop_first(), c) == 0);
        assert(count_char(s.drop_last(), c) == 0);
        assert(s.last() == s[0]);
    }
}

pub proof fn lemma_count_concat(a: Seq<char>, b: Seq<char>, c: char)
    ensures
        count_char(a + b, c) == count_char(a, c) + count_char(b, c),
    decreases b.len(),
{
    if b.len() == 0 {
        assert(a + b =~= a);
    } else {
        lemma_count_concat(a, b.drop_last(), c);
        assert((a + b).drop_last() =~= a + b.drop_last());
    }
}

pub fn find_char(v: &Vec<char>, c: char) -> (r: usize)
    ensures
        r == first_index(v@, c),
{
    proof {
        lemma_count_first(v@, c);
    }
    let mut i: usize = 0;
    while i < v.len() && v[i] != c
        invariant
            i <= v.len(),
            forall|j: int| 0 <= j < i ==> v@[j] != c,
            0 <= first_index(v@, c) <= v@.len(),
            forall|j: int| 0 <= j < first_index(v@, c) ==> v@[j] != c,
            first_index(v@, c) < v@.len() ==> v@[first_index(v@, c)] == c,
        decreases v.len() - i,
    {
        i = i + 1;
    }
    i
}

pub fn last_char_index(v: &Vec<char>, c: char) -> (r: Option<usize>)
    ensures
        match r {
            Some(k) => k == last_index(v@, c) && k < v@.len(),
            None => last_index(v@, c) == -1,
        },
{
    let mut i: usize = v.len();
    assert(v@.subrange(0, v@.len() as int) =~= v@);
    while i > 0
        invariant
            i <= v.len(),
            last_index(v@, c) == last_index(v@.subrange(0, i as int), c),
        decreases i,
    {
        let ghost pre = v@.subrange(0, i as int);
        assert(pre.last() == v@[i - 1]);
        assert(pre.drop_last() =~= v@.subrange(0, i - 1));
        if v[i - 1] == c {
            return Some(i - 1);
        }
        i = i - 1;
    }
    assert(v@.subrange(0, 0).len() == 0);
    None
}

pub fn sub_vec(v: &Vec<char>, from: usize, to: usize) -> (r: Vec<char>)
    requires
        from <= to <= v.len(),
    ensures
        r@ == v@.subrange(from as int, to as int),
{
    let mut r: Vec<char> = Vec::new();
    let mut i = from;
    while i < to
        invariant
            from <= i <= to <= v.len(),
            r@ == v@.subrange(from as int, i as int),
        decreases to - i,
    {
        r.push(v[i]);
        i = i + 1;
    }
    r
}

pub proof fn lemma_first_index_none(s: Seq<char>, c: char)
    requires
        forall|i: int| 0 <= i < s.len() ==> s[i] != c,
    ensures
        first_index(s, c) == s.len(),
    decreases s.len(),
{
    if s.len() > 0 {
        assert(s[0] != c);
        assert forall|i: int| 0 <= i < s.drop_first().len() implies s.drop_first()[i] != c by {
            assert(s.drop_first()[i] == s[i + 1]);
        }
        lemma_first_index_none(s.drop_first(), c);
    }
}


/// Drops one trailing carriage return.
pub open spec fn strip_cr(line: Seq<char>) -> Seq<char> {
    if line.len() > 0 && line.last() == '\r' {
        line.drop_last()
    } else {
        line
    }
}

/// `str::lines`: the text split at `\n` (and `\r\n`) line endings; a final
/// line ending adds no empty line.
pub open spec fn lines_spec(s: Seq<char>) -> Seq<Seq<char>>
    decreases s.len(),
{
    if s.len() == 0 {
        Seq::empty()
    } else {
        let k = first_index(s, '\n');
        if k >= s.len() {
            seq![s]
        } else {
            proof {
                lemma_count_first(s, '\n');
            }
            seq![strip_cr(s.subrange(0, k))] + lines_spec(s.subrange(k + 1, s.len() as int))
        }
    }
}

/// The first occurrence is at `k` when `k` holds it and no earlier index does.
pub proof fn lemma_first_index_at(s: Seq<char>, c: char, k: int)
    requires
        0 <= k < s.len(),
        s[k] == c,
        forall|j: int| 0 <= j < k ==> s[j] != c,
    ensures
        first_index(s, c) == k,
    decreases k,
{
    if k > 0 {
        assert(s[0] != c);
        assert forall|j: int| 0 <= j < k - 1 implies s.drop_first()[j] != c by {
            assert(s.drop_first()[j] == s[j + 1]);
        }
        assert(s.drop_first()[k - 1] == s[k]);
        lemma_first_index_at(s.drop_first(), c, k - 1);
    }
}

fn strip_cr_vec(v: Vec<char>) -> (r: Vec<char>)
    ensures
        r@ == strip_cr(v@),
{
    let mut v = v;
    if v.len() > 0 && v[v.len() - 1] == '\r' {
        v.pop();
    }
    v
}

/// `str::lines`.
pub fn lines(s: &str) -> (r: Vec<String>)
    ensures
        r@.map_values(|l: String| l@) == lines_spec(s@),
{
    let v = chars_of(s);
    let n = v.len();
    let mut out: Vec<String> = Vec::new();
    let mut current: Vec<char> = Vec::new();
    let mut seg: usize = 0;
    let mut i: usize = 0;
    assert(s@.subrange(0, n as int) =~= s@);
    while i < n
        invariant
            n == v@.len(),
            v@ == s@,
            seg <= i <= n,
            current@ == s@.subrange(seg as int, i as int),
            forall|j: int| seg <= j < i ==> s@[j] != '\n',
            lines_spec(s@) == out@.map_values(|l: String| l@) + lines_spec(
                s@.subrange(seg as int, n as int),
            ),
        decreases n - i,
    {
        if v[i] == '\n' {
            let ghost rest = s@.subrange(seg as int, n as int);
            proof {
                assert forall|j: int| 0 <= j < i - seg implies rest[j] != '\n' by {
                    assert(rest[j] == s@[seg + j]);
                }
                lemma_first_index_at(rest, '\n', i - seg);
                assert(rest.subrange(0, i - seg) =~= current@);
                assert(rest.subrange(i - seg + 1, rest.len() as int) =~= s@.subrange(
                    i + 1,
                    n as int,
                ));
            }
            let line_chars = strip_cr_vec(current);
            let line = string_from_chars(&line_chars);
            let ghost before = out@.map_values(|l: String| l@);
            out.push(line);
            assert(out@.map_values(|l: String| l@) =~= before.push(line@));
            current = Vec::new();
            seg = i + 1;
            i = i + 1;
            assert(current@ =~= s@.subrange(seg as int, i as int));
        } else {
            current.push(v[i]);
            i = i + 1;
            assert(current@ =~= s@.subrange(seg as int, i as int));
        }
    }
    if seg < n {
        let ghost rest = s@.subrange(seg as int, n as int);
        proof {
            assert forall|j: int| 0 <= j < rest.len() implies rest[j] != '\n' by {
                assert(rest[j] == s@[seg + j]);
            }
            lemma_first_index_none(rest, '\n');
            assert(current@ =~= rest);
        }
        let line = string_from_chars(&current);
        let ghost before = out@.map_values(|l: String| l@);
        out.push(line);
        assert(out@.map_values(|l: String| l@) =~= before.push(line@));
    } else {
        assert(s@.subrange(seg as int, n as int).len() == 0);
        assert(out@.map_values(|l: String| l@) + Seq::<Seq<char>>::empty() =~= out@.map_values(|l: String| l@));
    }
    out
}

/// Whether `s` begins with `prefix`.
pub open spec fn starts_with(s: Seq<char>, prefix: Seq<char>) -> bool {
    prefix.len() <= s.len() && s.subrange(0, prefix.len() as int) == prefix
}

/// `str::starts_with`.
pub fn str_starts_with(s: &str, prefix: &str) -> (r: bool)
    ensures
        r == starts_with(s@, prefix@),
{
    let n = s.unicode_len();
    let m = prefix.unicode_len();
    if m > n {
        return false;
    }
    let mut i: usize = 0;
    while i < m
        invariant
            n == s@.len(),
            m == prefix@.len(),
            m <= n,
            i <= m,
            forall|j: int| 0 <= j < i ==> s@[j] == prefix@[j],
        decreases m - i,
    {
        if s.get_char(i) != prefix.get_char(i) {
            assert(s@.subrange(0, m as int)[i as int] != prefix@[i as int]);
            return false;
        }
        i = i + 1;
    }
    assert(s@.subrange(0, m as int) =~= prefix@);
    true
}

/// Bytes in the UTF-8 encoding of a character (`char::len_utf8`).
pub open spec fn utf8_width(c: char) -> nat {
    let u = c as u32;
    if u < 0x80 {
        1
    } else if u < 0x800 {
        2
    } else if u < 0x10000 {
        3
    } else {
        4
    }
}

/// Code units in the UTF-16 encoding of a character (`char::len_utf16`).
pub open spec fn utf16_width(c: char) -> nat {
    if (c as u32) < 0x10000 {
        1
    } else {
        2
    }
}

/// Bytes in the UTF-8 encoding of a text.
pub open spec fn utf8_len(s: Seq<char>) -> nat
    decreases s.len(),
{
    if s.len() == 0 {
        0
    } else {
        utf8_len(s.drop_last()) + utf8_width(s.last())
    }
}

/// Code units in the UTF-16 encoding of a text.
pub open spec fn utf16_len(s: Seq<char>) -> nat
    decreases s.len(),
{
    if s.len() == 0 {
        0
    } else {
        utf16_len(s.drop_last()) + utf16_width(s.last())
    }
}

/// `char::len_utf8`.
pub fn char_utf8_width(c: char) -> (r: usize)
    ensures
        r == utf8_width(c),
{
    let u = c as u32;
    if u < 0x80 {
        1
    } else if u < 0x800 {
        2
    } else if u < 0x10000 {
        3
    } else {
        4
    }
}

/// `char::len_utf16`.
pub fn char_utf16_width(c: char) -> (r: usize)
    ensures
        r == utf16_width(c),
{
    if (c as u32) < 0x10000 {
        1
    } else {
        2
    }
}

/// A text's UTF-16 length never exceeds its UTF-8 length.
pub proof fn lemma_utf16_le_utf8(s: Seq<char>)
    ensures
        utf16_len(s) <= utf8_len(s),
    decreases s.len(),
{
    if s.len() > 0 {
        lemma_utf16_le_utf8(s.drop_last());
    }
}

/// UTF-8 length grows with the prefix.
pub proof fn lemma_utf8_len_prefix(s: Seq<char>, i: int, j: int)
    requires
        0 <= i <= j <= s.len(),
    ensures
        utf8_len(s.subrange(0, i)) <= utf8_len(s.subrange(0, j)),
        i < j ==> utf8_len(s.subrange(0, i)) < utf8_len(s.subrange(0, j)),
    decreases j - i,
{
    if i < j {
        lemma_utf8_len_prefix(s, i, j - 1);
        assert(s.subrange(0, j).drop_last() =~= s.subrange(0, j - 1));
    }
}


/// `utf8_len` adds up over concatenation.
pub proof fn lemma_utf8_len_concat(a: Seq<char>, b: Seq<char>)
    ensures
        utf8_len(a + b) == utf8_len(a) + utf8_len(b),
    decreases b.len(),
{
    if b.len() == 0 {
        assert(a + b =~= a);
    } else {
        lemma_utf8_len_concat(a, b.drop_last());
        assert((a + b).drop_last() =~= a + b.drop_last());
    }
}

/// The UTF-8 length of a one-character text is that character's width.
pub proof fn lemma_utf8_len_single(c: char)
    ensures
        utf8_len(seq![c]) == utf8_width(c),
{
    let s = seq![c];
    assert(s.drop_last() =~= Seq::<char>::empty());
    assert(s.last() == c);
    assert(utf8_len(s.drop_last()) == 0);
}

/// The UTF-8 encoding of one character has `utf8_width` bytes.
pub proof fn lemma_encode_scalar_len(c: char)
    ensures
        vstd::utf8::encode_scalar(c as u32).len() == utf8_width(c),
{
    vstd::utf8::char_is_scalar(c);
}

/// The UTF-8 encoding of a text has `utf8_len` bytes.
pub proof fn lemma_encode_utf8_len(s: Seq<char>)
    ensures
        vstd::utf8::encode_utf8(s).len() == utf8_len(s),
    decreases s.len(),
{
    if s.len() > 0 {
        lemma_encode_utf8_len(s.drop_first());
        lemma_encode_scalar_len(s[0]);
        assert(s =~= seq![s[0]] + s.drop_first());
        lemma_utf8_len_concat(seq![s[0]], s.drop_first());
        lemma_utf8_len_single(s[0]);
    }
}

/// Every prefix of a text ends on a character boundary of its UTF-8 encoding.
pub proof fn lemma_prefix_is_char_boundary(s: Seq<char>, k: int)
    requires
        0 <= k <= s.len(),
    ensures
        vstd::utf8::is_char_boundary(
            vstd::utf8::encode_utf8(s),
            utf8_len(s.subrange(0, k)) as int,
        ),
    decreases k,
{
    let bytes = vstd::utf8::encode_utf8(s);
    vstd::utf8::encode_utf8_valid_utf8(s);
    if k == 0 {
        assert(s.subrange(0, 0).len() == 0);
    } else {
        let t = s.drop_first();
        lemma_prefix_is_char_boundary(t, k - 1);
        vstd::utf8::encode_utf8_first_scalar(s);
        lemma_encode_scalar_len(s[0]);
        assert(vstd::utf8::pop_first_scalar(bytes) =~= vstd::utf8::encode_utf8(t));
        assert(s.subrange(0, k) =~= seq![s[0]] + t.subrange(0, k - 1));
        lemma_utf8_len_concat(seq![s[0]], t.subrange(0, k - 1));
        lemma_utf8_len_single(s[0]);
        lemma_encode_utf8_len(s);
        lemma_utf8_len_prefix(s, k, s.len() as int);
        assert(s.subrange(0, s.len() as int) =~= s);
    }
}

/// Byte length of a string slice (`str::len`).
pub fn byte_len(s: &str) -> (n: usize)
    ensures
        n == utf8_len(s@),
{
    let b = s.as_bytes();
    proof {
        lemma_encode_utf8_len(s@);
    }
    b.len()
}

/// Views of a list of strings.
pub open spec fn string_views(v: Seq<String>) -> Seq<Seq<char>> {
    v.map_values(|s: String| s@)
}

/// Views of a list of string slices.
pub open spec fn str_views(v: Seq<&str>) -> Seq<Seq<char>> {
    v.map_values(|s: &str| s@)
}

/// `[T]::join`: the parts with `sep` between each two.
pub open spec fn joined(parts: Seq<Seq<char>>, sep: Seq<char>) -> Seq<char>
    decreases parts.len(),
{
    if parts.len() == 0 {
        Seq::empty()
    } else if parts.len() == 1 {
        parts[0]
    } else {
        joined(parts.drop_last(), sep) + sep + parts.last()
    }
}

/// Joins strings with a separator.
pub fn join_strings(parts: &Vec<String>, sep: &str) -> (r: String)
    ensures
        r@ == joined(string_views(parts@), sep@),
{
    let ghost views = string_views(parts@);
    if parts.len() == 0 {
        return String::new();
    }
    let mut r = parts[0].clone();
    assert(views.subrange(0, 1) =~= seq![parts@[0]@]);
    let mut i: usize = 1;
    while i < parts.len()
        invariant
            1 <= i <= parts.len(),
            views == string_views(parts@),
            r@ == joined(views.subrange(0, i as int), sep@),
        decreases parts.len() - i,
    {
        r.append(sep);
        r.append(parts[i].as_str());
        assert(views.subrange(0, i + 1).drop_last() =~= views.subrange(0, i as int));
        i = i + 1;
    }
    assert(views.subrange(0, parts.len() as int) =~= views);
    r
}

/// Owned copies of string slices.
pub fn to_strings(v: &Vec<&str>) -> (r: Vec<String>)
    ensures
        string_views(r@) == str_views(v@),
{
    let mut r: Vec<String> = Vec::new();
    let mut i: usize = 0;
    while i < v.len()
        invariant
            i <= v.len(),
            r@.len() == i,
            forall|k: int| 0 <= k < i ==> (#[trigger] r@[k])@ == v@[k]@,
        decreases v.len() - i,
    {
        let item: &str = v[i];
        let copy = owned(item);
        r.push(copy);
        i = i + 1;
    }
    assert(string_views(r@) =~= str_views(v@));
    r
}

/// Whether a list of string slices holds `value`.
pub fn contains_str(v: &Vec<&str>, value: &str) -> (r: bool)
    ensures
        r == str_views(v@).contains(value@),
{
    let mut i: usize = 0;
    while i < v.len()
        invariant
            i <= v.len(),
            forall|k: int| 0 <= k < i ==> str_views(v@)[k] != value@,
        decreases v.len() - i,
    {
        if str_eq(v[i], value) {
            assert(str_views(v@)[i as int] == value@);
            return true;
        }
        i = i + 1;
    }
    false
}

/// Lexicographic order of texts by code point, as `str`'s `Ord` orders them
/// (UTF-8 keeps code point order).
pub open spec fn seq_lt(a: Seq<char>, b: Seq<char>) -> bool
    decreases a.len(),
{
    if a.len() == 0 {
        b.len() > 0
    } else if b.len() == 0 {
        false
    } else if a[0] != b[0] {
        (a[0] as u32) < (b[0] as u32)
    } else {
        seq_lt(a.drop_first(), b.drop_first())
    }
}

/// `seq_lt` is irreflexive, asymmetric and transitive.
pub proof fn lemma_seq_lt_order(a: Seq<char>, b: Seq<char>, c: Seq<char>)
    ensures
        !seq_lt(a, a),
        seq_lt(a, b) ==> !seq_lt(b, a),
        seq_lt(a, b) && seq_lt(b, c) ==> seq_lt(a, c),
    decreases a.len(),
{
    if a.len() > 0 && b.len() > 0 && c.len() > 0 {
        lemma_seq_lt_order(a.drop_first(), b.drop_first(), c.drop_first());
    }
    if a.len() > 0 {
        lemma_seq_lt_order(a.drop_first(), a.drop_first(), a.drop_first());
    }
    if a.len() > 0 && b.len() > 0 {
        lemma_seq_lt_order(a.drop_first(), b.drop_first(), b.drop_first());
    }
}

/// Two different texts are ordered one way or the other.
pub proof fn lemma_seq_lt_total(a: Seq<char>, b: Seq<char>)
    requires
        a != b,
    ensures
        seq_lt(a, b) || seq_lt(b, a),
    decreases a.len(),
{
    if a.len() == 0 {
        if b.len() == 0 {
            assert(a =~= b);
        }
    } else if b.len() > 0 && a[0] == b[0] {
        if a.drop_first() == b.drop_first() {
            assert(a =~= seq![a[0]] + a.drop_first());
            assert(b =~= seq![b[0]] + b.drop_first());
        }
        lemma_seq_lt_total(a.drop_first(), b.drop_first());
    } else if b.len() > 0 {
        vstd::utf8::char_u32_cast(a[0], a[0] as u32);
        vstd::utf8::char_u32_cast(b[0], b[0] as u32);
    }
}

/// Whether `a` sorts before `b`.
pub fn str_lt(a: &str, b: &str) -> (r: bool)
    ensures
        r == seq_lt(a@, b@),
{
    let n = a.unicode_len();
    let m = b.unicode_len();
    let mut i: usize = 0;
    assert(a@.subrange(0, n as int) =~= a@);
    assert(b@.subrange(0, m as int) =~= b@);
    while i < n && i < m
        invariant
            n == a@.len(),
            m == b@.len(),
            i <= n,
            i <= m,
            seq_lt(a@, b@) == seq_lt(a@.subrange(i as int, n as int), b@.subrange(i as int, m as int)),
        decreases n - i,
    {
        let x = a.get_char(i);
        let y = b.get_char(i);
        let ghost sa = a@.subrange(i as int, n as int);
        let ghost sb = b@.subrange(i as int, m as int);
        assert(sa[0] == x && sb[0] == y);
        if x != y {
            return (x as u32) < (y as u32);
        }
        assert(sa.drop_first() =~= a@.subrange(i + 1, n as int));
        assert(sb.drop_first() =~= b@.subrange(i + 1, m as int));
        i = i + 1;
    }
    i < m
}

} // verus!
