//! Verified string helpers used across the library.

use vstd::prelude::*;

verus! {

/// The single decimal digit `d` as text.
pub open spec fn spec_digit(d: int) -> Seq<char> {
    if d == 0 {
        "0"@
    } else if d == 1 {
        "1"@
    } else if d == 2 {
        "2"@
    } else if d == 3 {
        "3"@
    } else if d == 4 {
        "4"@
    } else if d == 5 {
        "5"@
    } else if d == 6 {
        "6"@
    } else if d == 7 {
        "7"@
    } else if d == 8 {
        "8"@
    } else {
        "9"@
    }
}

/// The decimal rendering of a non-negative integer, without sign or
/// leading zeros.
pub open spec fn spec_udec(n: int) -> Seq<char>
    decreases n,
{
    if n < 10 {
        spec_digit(n)
    } else {
        spec_udec(n / 10) + spec_digit(n % 10)
    }
}

/// The decimal rendering of an integer: a minus sign and the magnitude
/// for negative values.
pub open spec fn spec_idec(n: int) -> Seq<char> {
    if n >= 0 {
        spec_udec(n)
    } else {
        "-"@ + spec_udec(-n)
    }
}

/// Appends the single decimal digit `d` to `out`.
fn append_digit(out: &mut String, d: u64)
    requires
        d < 10,
    ensures
        final(out)@ == old(out)@ + spec_digit(d as int),
{
    match d {
        0 => out.append("0"),
        1 => out.append("1"),
        2 => out.append("2"),
        3 => out.append("3"),
        4 => out.append("4"),
        5 => out.append("5"),
        6 => out.append("6"),
        7 => out.append("7"),
        8 => out.append("8"),
        _ => out.append("9"),
    }
}

/// Appends the decimal rendering of `n` to `out`.
fn append_udec(out: &mut String, n: u64)
    ensures
        final(out)@ == old(out)@ + spec_udec(n as int),
    decreases n,
{
    if n < 10 {
        append_digit(out, n);
    } else {
        append_udec(out, n / 10);
        append_digit(out, n % 10);
        proof {
            assert(final(out)@ == old(out)@ + spec_udec(n as int / 10) + spec_digit(
                n as int % 10,
            ));
            assert(old(out)@ + spec_udec(n as int / 10) + spec_digit(n as int % 10) =~= old(out)@
                + (spec_udec(n as int / 10) + spec_digit(n as int % 10)));
        }
    }
}

/// Renders a non-negative integer in decimal.
pub fn u64_to_string(n: u64) -> (r: String)
    ensures
        r@ == spec_udec(n as int),
{
    let mut out = String::new();
    append_udec(&mut out, n);
    proof {
        assert(Seq::<char>::empty() + spec_udec(n as int) =~= spec_udec(n as int));
    }
    out
}

/// Renders an integer in decimal, with a minus sign for negatives.
pub fn i32_to_string(n: i32) -> (r: String)
    ensures
        r@ == spec_idec(n as int),
{
    if n >= 0 {
        let r = u64_to_string(n as u64);
        r
    } else {
        let wide: i64 = n as i64;
        let mag: u64 = (-wide) as u64;
        let mut out = String::from_str("-");
        append_udec(&mut out, mag);
        out
    }
}

/// A decimal digit.
pub open spec fn is_digit(c: char) -> bool {
    '0' <= c && c <= '9'
}

/// Whether the character is a decimal digit.
pub fn is_digit_char(c: char) -> (r: bool)
    ensures
        r == is_digit(c),
{
    '0' <= c && c <= '9'
}

/// The numeric value of a digit character.
pub open spec fn spec_digit_val(c: char) -> int {
    c as int - '0' as int
}

/// The numeric value of a digit string, most significant first.
pub open spec fn spec_digits_val(s: Seq<char>) -> int
    decreases s.len(),
{
    if s.len() == 0 {
        0
    } else {
        spec_digits_val(s.drop_last()) * 10 + spec_digit_val(s.last())
    }
}

/// Ten to the `n`-th power.
pub open spec fn spec_pow10(n: nat) -> int
    decreases n,
{
    if n == 0 {
        1
    } else {
        10 * spec_pow10((n - 1) as nat)
    }
}

/// A digit string's value is bounded by ten to its length.
pub proof fn lemma_digits_val_bound(s: Seq<char>)
    requires
        forall|i: int| 0 <= i < s.len() ==> is_digit(s[i]),
    ensures
        0 <= spec_digits_val(s) < spec_pow10(s.len()),
    decreases s.len(),
{
    if s.len() > 0 {
        lemma_digits_val_bound(s.drop_last());
        assert(is_digit(s.last()));
        assert(0 <= spec_digit_val(s.last()) <= 9);
    }
}

/// Relies on `String::push`: appends exactly the given character.
#[verifier::external_body]
pub fn push_char(s: &mut String, c: char)
    ensures
        final(s)@ == old(s)@.push(c),
{
    s.push(c);
}

/// Clones an optional string.
pub fn clone_opt_string(o: &Option<String>) -> (r: Option<String>)
    ensures
        r == *o,
{
    match o {
        Some(s) => Some(s.clone()),
        None => None,
    }
}

/// Whether `needle` occurs in `s` starting at position `i`.
pub open spec fn spec_matches_at(s: Seq<char>, needle: Seq<char>, i: int) -> bool {
    0 <= i && i + needle.len() <= s.len() && s.subrange(i, i + needle.len()) == needle
}

/// Whether `needle` occurs anywhere in `s`.
pub open spec fn spec_contains(s: Seq<char>, needle: Seq<char>) -> bool {
    exists|i: int| spec_matches_at(s, needle, i)
}

/// The position of the first occurrence of `needle` in `s`.
pub open spec fn spec_first_match(s: Seq<char>, needle: Seq<char>) -> int {
    choose|i: int|
        spec_matches_at(s, needle, i) && (forall|j: int|
            0 <= j < i ==> !spec_matches_at(s, needle, j))
}

/// Whether one of the two characters occurs in `s` at or after `from`.
pub open spec fn spec_exists_char(s: Seq<char>, from: int, c1: char, c2: char) -> bool {
    exists|k: int| from <= k < s.len() && (s[k] == c1 || s[k] == c2)
}

/// The first position at or after `from` where one of the two characters
/// occurs in `s`.
pub open spec fn spec_first_char(s: Seq<char>, from: int, c1: char, c2: char) -> int {
    choose|k: int|
        from <= k < s.len() && (s[k] == c1 || s[k] == c2) && (forall|j: int|
            from <= j < k ==> !(s[j] == c1 || s[j] == c2))
}

/// Whitespace as trimming understands it.
pub open spec fn is_space(c: char) -> bool {
    c == ' ' || c == '\t' || c == '\r' || c == '\n'
}

/// `s` without leading and trailing whitespace.
pub open spec fn spec_trim(s: Seq<char>) -> Seq<char>
    decreases s.len(),
{
    if s.len() == 0 {
        s
    } else if is_space(s[0]) {
        spec_trim(s.drop_first())
    } else if is_space(s.last()) {
        spec_trim(s.drop_last())
    } else {
        s
    }
}

/// Trimming a sequence keeps exactly the part between the first and the
/// last non-whitespace characters.
proof fn lemma_trim_range(s: Seq<char>, i: int, j: int)
    requires
        0 <= i <= j <= s.len(),
        forall|k: int| 0 <= k < i ==> is_space(s[k]),
        forall|k: int| j <= k < s.len() ==> is_space(s[k]),
        i < j ==> !is_space(s[i]) && !is_space(s[j - 1]),
    ensures
        spec_trim(s) == s.subrange(i, j),
    decreases s.len(),
{
    if s.len() == 0 {
        assert(s.subrange(0, 0) =~= s);
    } else if is_space(s[0]) {
        let s1 = s.drop_first();
        if i == 0 {
            assert(j == 0);
            lemma_trim_range(s1, 0, 0);
            assert(s.subrange(0, 0) =~= s1.subrange(0, 0));
        } else {
            lemma_trim_range(s1, i - 1, j - 1);
            assert(s.subrange(i, j) =~= s1.subrange(i - 1, j - 1));
        }
    } else if is_space(s.last()) {
        let s1 = s.drop_last();
        if j == s.len() {
            assert(i < j ==> !is_space(s[j - 1]));
            assert(i == j || !is_space(s.last()));
            assert(i == j);
            assert(is_space(s[0]));
            assert(false);
        } else {
            lemma_trim_range(s1, i, j);
            assert(s.subrange(i, j) =~= s1.subrange(i, j));
        }
    } else {
        assert(i == 0 || is_space(s[0]));
        assert(i == 0);
        assert(j == s.len() || is_space(s.last()));
        assert(j == s.len());
        assert(s.subrange(0, s.len() as int) =~= s);
    }
}

/// Removes leading and trailing whitespace.
pub fn trim_str(s: &str) -> (r: String)
    ensures
        r@ == spec_trim(s@),
{
    let n = s.unicode_len();
    let mut i: usize = 0;
    while i < n && is_space_char(s.get_char(i))
        invariant
            n == s@.len(),
            i <= n,
            forall|k: int| 0 <= k < i ==> is_space(s@[k]),
        decreases n - i,
    {
        i += 1;
    }
    let mut j: usize = n;
    while j > i && is_space_char(s.get_char(j - 1))
        invariant
            n == s@.len(),
            i <= j <= n,
            forall|k: int| 0 <= k < i ==> is_space(s@[k]),
            forall|k: int| j <= k < n ==> is_space(s@[k]),
        decreases j,
    {
        j -= 1;
    }
    proof {
        lemma_trim_range(s@, i as int, j as int);
    }
    let sub = s.substring_char(i, j);
    String::from_str(sub)
}

/// Whether the character counts as whitespace.
pub fn is_space_char(c: char) -> (r: bool)
    ensures
        r == is_space(c),
{
    c == ' ' || c == '\t' || c == '\r' || c == '\n'
}

/// Whether `needle` occurs in `s` at position `i`.
pub fn matches_at(s: &str, needle: &str, i: usize) -> (r: bool)
    ensures
        r == spec_matches_at(s@, needle@, i as int),
{
    let slen = s.unicode_len();
    let nlen = needle.unicode_len();
    if i > slen || nlen > slen - i {
        return false;
    }
    let mut k: usize = 0;
    while k < nlen
        invariant
            slen == s@.len(),
            nlen == needle@.len(),
            i + nlen <= slen,
            k <= nlen,
            forall|j: int| 0 <= j < k ==> s@[i + j] == needle@[j],
        decreases nlen - k,
    {
        if s.get_char(i + k) != needle.get_char(k) {
            assert(s@.subrange(i as int, i + nlen) != needle@) by {
                assert(s@.subrange(i as int, i + nlen)[k as int] == s@[i + k]);
            }
            return false;
        }
        k += 1;
    }
    assert(s@.subrange(i as int, i + nlen) =~= needle@);
    true
}

/// Finds the first occurrence of `needle` in `s`.
pub fn find_substring(s: &str, needle: &str) -> (r: Option<usize>)
    ensures
        match r {
            Some(k) => spec_matches_at(s@, needle@, k as int) && (forall|j: int|
                0 <= j < k ==> !spec_matches_at(s@, needle@, j)) && k as int == spec_first_match(
                s@,
                needle@,
            ),
            None => !spec_contains(s@, needle@),
        },
{
    let slen = s.unicode_len();
    let nlen = needle.unicode_len();
    if nlen == 0 {
        proof {
            assert(s@.subrange(0, 0) =~= needle@);
            let w = spec_first_match(s@, needle@);
            if w != 0 {
                assert(!spec_matches_at(s@, needle@, w) || !spec_matches_at(s@, needle@, 0));
            }
        }
        return Some(0);
    }
    if nlen > slen {
        return None;
    }
    let limit = slen - nlen + 1;
    let mut k: usize = 0;
    while k < limit
        invariant
            slen == s@.len(),
            nlen == needle@.len(),
            1 <= nlen <= slen,
            limit == slen - nlen + 1,
            k <= limit,
            forall|j: int| 0 <= j < k ==> !spec_matches_at(s@, needle@, j),
        decreases limit - k,
    {
        if matches_at(s, needle, k) {
            proof {
                let w = spec_first_match(s@, needle@);
                assert(spec_matches_at(s@, needle@, k as int) && (forall|j: int|
                    0 <= j < k ==> !spec_matches_at(s@, needle@, j)));
                if w != k as int {
                    assert(!spec_matches_at(s@, needle@, w) || !spec_matches_at(
                        s@,
                        needle@,
                        k as int,
                    ));
                }
            }
            return Some(k);
        }
        k += 1;
    }
    proof {
        assert forall|i: int| !spec_matches_at(s@, needle@, i) by {
            if 0 <= i < limit {
                assert(!spec_matches_at(s@, needle@, i));
            }
        }
    }
    None
}

/// Whether `needle` occurs anywhere in `s`.
pub fn contains_substring(s: &str, needle: &str) -> (r: bool)
    ensures
        r == spec_contains(s@, needle@),
{
    match find_substring(s, needle) {
        Some(_) => true,
        None => false,
    }
}

/// Finds the first position at or after `from` holding one of the two
/// characters.
pub fn find_char_from(s: &str, from: usize, c1: char, c2: char) -> (r: Option<usize>)
    ensures
        match r {
            Some(k) => from <= k < s@.len() && (s@[k as int] == c1 || s@[k as int] == c2) && (
            forall|j: int| from <= j < k ==> !(s@[j] == c1 || s@[j] == c2)) && k as int
                == spec_first_char(s@, from as int, c1, c2),
            None => !spec_exists_char(s@, from as int, c1, c2),
        },
{
    let slen = s.unicode_len();
    let mut k: usize = from;
    while k < slen
        invariant
            slen == s@.len(),
            from <= k <= slen || (from > slen && k == from),
            forall|j: int| from <= j < k ==> !(s@[j] == c1 || s@[j] == c2),
        decreases slen - k,
    {
        let c = s.get_char(k);
        if c == c1 || c == c2 {
            proof {
                let w = spec_first_char(s@, from as int, c1, c2);
                assert(from <= k < s@.len() && (s@[k as int] == c1 || s@[k as int] == c2) && (
                forall|j: int| from <= j < k ==> !(s@[j] == c1 || s@[j] == c2)));
                if w != k as int {
                    assert(!(s@[w] == c1 || s@[w] == c2) || !(s@[k as int] == c1 || s@[k as int]
                        == c2));
                }
            }
            return Some(k);
        }
        k += 1;
    }
    None
}

/// What follows the first colon after the first occurrence of `marker`
/// in `s`: the text up to the next colon or line end, trimmed. `None`
/// when the marker, or a colon after it, is missing.
pub open spec fn spec_extract_after_colon(s: Seq<char>, marker: Seq<char>) -> Option<Seq<char>> {
    if !spec_contains(s, marker) {
        None
    } else {
        let start = spec_first_match(s, marker) + marker.len();
        if !spec_exists_char(s, start, ':', ':') {
            None
        } else {
            let c = spec_first_char(s, start, ':', ':');
            let stop = if spec_exists_char(s, c + 1, ':', '\n') {
                spec_first_char(s, c + 1, ':', '\n')
            } else {
                s.len() as int
            };
            Some(spec_trim(s.subrange(c + 1, stop)))
        }
    }
}

/// Extracts the text after the colon that follows the first occurrence
/// of `marker`, up to the next colon or line end, trimmed.
pub fn extract_after_colon(s: &str, marker: &str) -> (r: Option<String>)
    ensures
        match r {
            Some(e) => spec_extract_after_colon(s@, marker@) == Some(e@),
            None => spec_extract_after_colon(s@, marker@) is None,
        },
{
    let slen = s.unicode_len();
    let mlen = marker.unicode_len();
    let m = match find_substring(s, marker) {
        Some(m) => m,
        None => {
            return None;
        },
    };
    proof {
        assert(m + marker@.len() <= s@.len());
    }
    let start = m + mlen;
    let c = match find_char_from(s, start, ':', ':') {
        Some(c) => c,
        None => {
            return None;
        },
    };
    let stop = match find_char_from(s, c + 1, ':', '\n') {
        Some(k) => k,
        None => slen,
    };
    let piece = s.substring_char(c + 1, stop);
    Some(trim_str(piece))
}

/// A line with its trailing carriage return removed.
pub open spec fn spec_strip_cr(l: Seq<char>) -> Seq<char> {
    if l.len() > 0 && l.last() == '\r' {
        l.drop_last()
    } else {
        l
    }
}

/// The lines of the remaining text, with `cur` the line accumulated so
/// far: a newline closes the current line, the end of the text closes
/// the last one, and each closed line loses a trailing carriage return.
pub open spec fn spec_lines_go(s: Seq<char>, cur: Seq<char>) -> Seq<Seq<char>>
    decreases s.len(),
{
    if s.len() == 0 {
        seq![spec_strip_cr(cur)]
    } else if s[0] == '\n' {
        seq![spec_strip_cr(cur)] + spec_lines_go(s.drop_first(), Seq::empty())
    } else {
        spec_lines_go(s.drop_first(), cur.push(s[0]))
    }
}

/// The lines of a text: split at each newline, each line without its
/// trailing carriage return. The empty text has no lines; every
/// newline opens a following line, so a trailing newline yields a
/// final empty line.
pub open spec fn spec_lines(s: Seq<char>) -> Seq<Seq<char>> {
    if s.len() == 0 {
        Seq::empty()
    } else {
        spec_lines_go(s, Seq::empty())
    }
}

/// Splits a text into its lines.
pub fn split_lines(s: &str) -> (r: Vec<String>)
    ensures
        r@.map_values(|l: String| l@) == spec_lines(s@),
{
    let n = s.unicode_len();
    let mut out: Vec<String> = Vec::new();
    if n == 0 {
        proof {
            assert(out@.map_values(|l: String| l@) =~= Seq::<Seq<char>>::empty());
        }
        return out;
    }
    let mut cur = String::new();
    let mut k: usize = 0;
    proof {
        assert(s@.subrange(0, n as int) =~= s@);
        assert(out@.map_values(|l: String| l@) =~= Seq::<Seq<char>>::empty());
        assert(Seq::<Seq<char>>::empty() + spec_lines_go(s@, cur@) =~= spec_lines_go(s@, cur@));
    }
    while k < n
        invariant
            n == s@.len(),
            n > 0,
            k <= n,
            spec_lines(s@) == out@.map_values(|l: String| l@) + spec_lines_go(
                s@.subrange(k as int, n as int),
                cur@,
            ),
        decreases n - k,
    {
        let ghost suffix = s@.subrange(k as int, n as int);
        let c = s.get_char(k);
        proof {
            assert(suffix[0] == c);
            assert(suffix.drop_first() =~= s@.subrange(k as int + 1, n as int));
        }
        if c == '\n' {
            let line = finish_line(&cur);
            let ghost done = out@.map_values(|l: String| l@);
            proof {
                assert(spec_lines_go(suffix, cur@) == seq![line@] + spec_lines_go(
                    suffix.drop_first(),
                    Seq::empty(),
                ));
                assert(done + (seq![line@] + spec_lines_go(suffix.drop_first(), Seq::empty()))
                    =~= (done + seq![line@]) + spec_lines_go(suffix.drop_first(), Seq::empty()));
            }
            out.push(line);
            proof {
                assert(out@.map_values(|l: String| l@) =~= done + seq![line@]);
            }
            cur = String::new();
        } else {
            push_char(&mut cur, c);
        }
        k += 1;
    }
    let line = finish_line(&cur);
    let ghost done = out@.map_values(|l: String| l@);
    proof {
        assert(s@.subrange(n as int, n as int) =~= Seq::<char>::empty());
        assert(spec_lines_go(s@.subrange(n as int, n as int), cur@) == seq![line@]);
        assert(done + seq![line@] =~= spec_lines(s@));
    }
    out.push(line);
    proof {
        assert(out@.map_values(|l: String| l@) =~= done + seq![line@]);
    }
    out
}

/// Closes an accumulated line: drops a trailing carriage return.
fn finish_line(cur: &String) -> (r: String)
    ensures
        r@ == spec_strip_cr(cur@),
{
    let len = cur.as_str().unicode_len();
    if len > 0 && cur.as_str().get_char(len - 1) == '\r' {
        String::from_str(cur.as_str().substring_char(0, len - 1))
    } else {
        cur.clone()
    }
}

/// Character-by-character string equality, usable on `&str` values.
pub fn str_eq(a: &str, b: &str) -> (r: bool)
    ensures
        r == (a@ == b@),
{
    let alen = a.unicode_len();
    let blen = b.unicode_len();
    if alen != blen {
        return false;
    }
    let mut i: usize = 0;
    while i < alen
        invariant
            i <= alen,
            alen == a@.len(),
            alen == b@.len(),
            forall|j: int| 0 <= j < i ==> a@[j] == b@[j],
        decreases alen - i,
    {
        if a.get_char(i) != b.get_char(i) {
            return false;
        }
        i += 1;
    }
    proof {
        assert(a@ =~= b@);
    }
    true
}

} // verus!
