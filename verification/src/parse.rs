//! Verified parsing of the query tool's line-oriented output: substring
//! markers, leading tokens, and the bounded `<digits>x<digits>`
//! resolution pattern.

use vstd::prelude::*;

verus! {

// ---------------------------------------------------------------------
// Substrings
// ---------------------------------------------------------------------

/// `p` occurs in `s` starting at position `i`.
pub open spec fn substring_at(s: Seq<char>, p: Seq<char>, i: int) -> bool {
    0 <= i && i + p.len() <= s.len() && s.subrange(i, i + p.len()) == p
}

/// `p` occurs somewhere in `s`.
pub open spec fn has_substring(s: Seq<char>, p: Seq<char>) -> bool {
    exists|i: int| substring_at(s, p, i)
}

/// Whether `p` stands in `s` at exactly position `i`, by character
/// comparison.
fn chars_match_at(s: &str, p: &str, i: usize, p_len: usize) -> (r: bool)
    requires
        p_len == p@.len(),
        i + p_len <= s@.len(),
        i + p_len <= usize::MAX,
    ensures
        r == substring_at(s@, p@, i as int),
{
    let mut j: usize = 0;
    while j < p_len
        invariant
            p_len == p@.len(),
            i + p_len <= s@.len(),
            i + p_len <= usize::MAX,
            j <= p_len,
            forall|k: int| 0 <= k < j ==> s@[i + k] == p@[k],
        decreases p_len - j,
    {
        if s.get_char(i + j) != p.get_char(j) {
            proof {
                if substring_at(s@, p@, i as int) {
                    assert(s@.subrange(i as int, i + p@.len())[j as int] == s@[i + j]);
                }
            }
            return false;
        }
        j += 1;
    }
    proof {
        assert(s@.subrange(i as int, i + p@.len()) =~= p@);
    }
    true
}

/// Whether `p` occurs anywhere in `s`.
pub fn str_has_substring(s: &str, p: &str) -> (r: bool)
    ensures
        r == has_substring(s@, p@),
{
    let s_len = s.unicode_len();
    let p_len = p.unicode_len();
    if p_len == 0 {
        proof {
            assert(s@.subrange(0, 0) =~= p@);
            assert(substring_at(s@, p@, 0));
        }
        return true;
    }
    if p_len > s_len {
        return false;
    }
    let last = s_len - p_len;
    let mut i: usize = 0;
    while i <= last
        invariant
            s_len == s@.len(),
            p_len == p@.len(),
            0 < p_len <= s_len,
            last == s_len - p_len,
            i <= last + 1,
            forall|k: int| 0 <= k < i ==> !substring_at(s@, p@, k),
        decreases last + 1 - i,
    {
        if chars_match_at(s, p, i, p_len) {
            return true;
        }
        i += 1;
    }
    false
}

/// `s` begins with `p`.
pub open spec fn starts_with(s: Seq<char>, p: Seq<char>) -> bool {
    p.len() <= s.len() && s.subrange(0, p.len() as int) == p
}

/// Whether `s` begins with `p`.
pub fn str_starts_with(s: &str, p: &str) -> (r: bool)
    ensures
        r == starts_with(s@, p@),
{
    let s_len = s.unicode_len();
    let p_len = p.unicode_len();
    if p_len > s_len {
        return false;
    }
    chars_match_at(s, p, 0, p_len)
}

// ---------------------------------------------------------------------
// Markers
// ---------------------------------------------------------------------

/// The marker the query tool prints on every line that describes an
/// output with a display attached.
pub open spec fn connected_marker() -> Seq<char> {
    " connected "@
}

/// A line describes a connected output.
pub open spec fn is_connected_line(line: Seq<char>) -> bool {
    has_substring(line, connected_marker())
}

/// Whether this line describes a connected output.
pub fn line_is_connected(line: &str) -> (r: bool)
    ensures
        r == is_connected_line(line@),
{
    str_has_substring(line, " connected ")
}

/// The marker the query tool adds to the line of the primary output.
pub open spec fn primary_marker() -> Seq<char> {
    "primary"@
}

/// A line carries the primary marker.
pub open spec fn is_primary_line(line: Seq<char>) -> bool {
    has_substring(line, primary_marker())
}

/// Whether this line carries the primary marker.
pub fn line_is_primary(line: &str) -> (r: bool)
    ensures
        r == is_primary_line(line@),
{
    str_has_substring(line, "primary")
}

// ---------------------------------------------------------------------
// Leading token
// ---------------------------------------------------------------------

/// Position of the first space at or after `i`, or the length of `s`
/// when no space follows.
pub open spec fn token_end(s: Seq<char>, i: int) -> int
    decreases s.len() - i,
{
    if i < 0 || i >= s.len() {
        s.len() as int
    } else if s[i] == ' ' {
        i
    } else {
        token_end(s, i + 1)
    }
}

/// The leading whitespace-delimited token of a line: its prefix up to
/// the first space, or the whole line when it holds none. In the query
/// tool's format this token is the output's name.
pub open spec fn first_token(s: Seq<char>) -> Seq<char> {
    s.subrange(0, token_end(s, 0))
}

/// The leading whitespace-delimited token of `line`.
pub fn leading_token(line: &str) -> (r: String)
    ensures
        r@ == first_token(line@),
{
    let len = line.unicode_len();
    let mut i: usize = 0;
    while i < len
        invariant
            len == line@.len(),
            i <= len,
            token_end(line@, 0) == token_end(line@, i as int),
        decreases len - i,
    {
        if line.get_char(i) == ' ' {
            let t = line.substring_char(0, i);
            return t.to_owned();
        }
        i += 1;
    }
    proof {
        assert(line@.subrange(0, line@.len() as int) =~= line@);
    }
    line.to_owned()
}

// ---------------------------------------------------------------------
// The resolution pattern
// ---------------------------------------------------------------------

/// A decimal digit.
pub open spec fn is_digit(c: char) -> bool {
    '0' <= c && c <= '9'
}

/// Whether `c` is a decimal digit.
pub fn char_is_digit(c: char) -> (r: bool)
    ensures
        r == is_digit(c),
{
    '0' <= c && c <= '9'
}

/// Every character of `s` in `[from, to)` is a decimal digit.
pub open spec fn all_digits(s: Seq<char>, from: int, to: int) -> bool {
    forall|k: int| from <= k < to ==> is_digit(#[trigger] s[k])
}

/// A resolution token `<digits>x<digits>` stands in `s`, bounded by the
/// non-digit characters at positions `a` and `c`, with its `x` at `b`.
/// Both digit runs are non-empty.
pub open spec fn resolution_match_at(s: Seq<char>, a: int, b: int, c: int) -> bool {
    &&& 0 <= a
    &&& a + 1 < b
    &&& b + 1 < c
    &&& c < s.len()
    &&& !is_digit(s[a])
    &&& all_digits(s, a + 1, b)
    &&& s[b] == 'x'
    &&& all_digits(s, b + 1, c)
    &&& !is_digit(s[c])
}

/// A resolution match begins at position `a` of `s`.
pub open spec fn match_starts_at(s: Seq<char>, a: int) -> bool {
    exists|b: int, c: int| resolution_match_at(s, a, b, c)
}

/// `s` holds a resolution token with non-digit boundaries.
pub open spec fn has_resolution(s: Seq<char>) -> bool {
    exists|a: int| match_starts_at(s, a)
}

/// `a` is the leftmost position of `s` where a resolution match begins.
pub open spec fn is_first_match_start(s: Seq<char>, a: int) -> bool {
    match_starts_at(s, a) && forall|a2: int| 0 <= a2 < a ==> !match_starts_at(s, a2)
}

/// The captured `<digits>x<digits>` token of the leftmost resolution
/// match of `s`, without its boundary characters.
pub open spec fn resolution_of(s: Seq<char>) -> Seq<char> {
    let a = choose|a: int| is_first_match_start(s, a);
    let bc = choose|b: int, c: int| resolution_match_at(s, a, b, c);
    s.subrange(a + 1, bc.1)
}

/// The resolution token reported on line `s`, if any.
pub open spec fn spec_resolution(s: Seq<char>) -> Option<Seq<char>> {
    if has_resolution(s) {
        Some(resolution_of(s))
    } else {
        None
    }
}

/// Given its start, a resolution match's `x` position and end are
/// uniquely determined.
pub proof fn lemma_match_unique(s: Seq<char>, a: int, b1: int, c1: int, b2: int, c2: int)
    requires
        resolution_match_at(s, a, b1, c1),
        resolution_match_at(s, a, b2, c2),
    ensures
        b1 == b2,
        c1 == c2,
{
    assert(!is_digit('x'));
    if b1 < b2 {
        assert(is_digit(s[b1]));
    }
    if b2 < b1 {
        assert(is_digit(s[b2]));
    }
    if c1 < c2 {
        assert(is_digit(s[c1]));
    }
    if c2 < c1 {
        assert(is_digit(s[c2]));
    }
}

/// Where some match begins, a leftmost match start exists.
pub proof fn lemma_first_match_exists(s: Seq<char>, a: int)
    requires
        match_starts_at(s, a),
    ensures
        exists|a0: int| is_first_match_start(s, a0),
    decreases a,
{
    if exists|a2: int| 0 <= a2 < a && match_starts_at(s, a2) {
        let a2 = choose|a2: int| 0 <= a2 < a && match_starts_at(s, a2);
        lemma_first_match_exists(s, a2);
    } else {
        assert(is_first_match_start(s, a));
    }
}

/// A match at the leftmost start pins `resolution_of` down exactly.
pub proof fn lemma_resolution_of(s: Seq<char>, a: int, b: int, c: int)
    requires
        resolution_match_at(s, a, b, c),
        is_first_match_start(s, a),
    ensures
        has_resolution(s),
        spec_resolution(s) == Some(s.subrange(a + 1, c)),
{
    assert(match_starts_at(s, a));
    let a0 = choose|a0: int| is_first_match_start(s, a0);
    assert(is_first_match_start(s, a0)) by {
        lemma_first_match_exists(s, a);
    }
    let (b0, c0): (int, int) = choose|b0: int, c0: int| resolution_match_at(s, a0, b0, c0);
    assert(a0 == a);
    lemma_match_unique(s, a, b, c, b0, c0);
}

/// The end of the run of digits that begins at `from`: the first
/// position at or after `from` holding a non-digit, or the length of
/// `s` when the digits reach its end.
fn scan_digits(s: &str, len: usize, from: usize) -> (r: usize)
    requires
        len == s@.len(),
        from <= len,
    ensures
        from <= r <= len,
        all_digits(s@, from as int, r as int),
        r < len ==> !is_digit(s@[r as int]),
{
    let mut j: usize = from;
    loop
        invariant
            len == s@.len(),
            from <= j <= len,
            all_digits(s@, from as int, j as int),
        decreases len - j,
    {
        if j == len {
            return j;
        }
        if !char_is_digit(s.get_char(j)) {
            return j;
        }
        j += 1;
    }
}

/// Try the resolution pattern at start position `a`; on success return
/// the `x` position and the match end.
fn try_match_at(s: &str, len: usize, a: usize) -> (r: Option<(usize, usize)>)
    requires
        len == s@.len(),
        a < len,
    ensures
        match r {
            Some(bc) => resolution_match_at(s@, a as int, bc.0 as int, bc.1 as int),
            None => !match_starts_at(s@, a as int),
        },
{
    proof {
        assert(!is_digit('x'));
    }
    if char_is_digit(s.get_char(a)) {
        return None;
    }
    let b = scan_digits(s, len, a + 1);
    if b == a + 1 || b == len {
        proof {
            assert forall|b2: int, c2: int| !resolution_match_at(s@, a as int, b2, c2) by {
                if resolution_match_at(s@, a as int, b2, c2) {
                    if b == a + 1 {
                        if a + 1 < len {
                            assert(is_digit(s@[a + 1]));
                        } else {
                            assert(c2 < len);
                        }
                    } else {
                        assert(is_digit(s@[b2]));
                    }
                }
            }
        }
        return None;
    }
    if s.get_char(b) != 'x' {
        proof {
            assert forall|b2: int, c2: int| !resolution_match_at(s@, a as int, b2, c2) by {
                if resolution_match_at(s@, a as int, b2, c2) {
                    if b2 < b {
                        assert(is_digit(s@[b2]));
                    }
                    if b < b2 {
                        assert(is_digit(s@[b as int]));
                    }
                    assert(b2 == b);
                }
            }
        }
        return None;
    }
    let c = scan_digits(s, len, b + 1);
    if c == b + 1 || c == len {
        proof {
            assert forall|b2: int, c2: int| !resolution_match_at(s@, a as int, b2, c2) by {
                if resolution_match_at(s@, a as int, b2, c2) {
                    if b2 < b {
                        assert(is_digit(s@[b2]));
                    }
                    if b < b2 {
                        assert(is_digit(s@[b as int]));
                    }
                    assert(b2 == b);
                    if c == b + 1 {
                        if b + 1 < len {
                            assert(is_digit(s@[b + 1]));
                        } else {
                            assert(c2 < len);
                        }
                    } else {
                        assert(is_digit(s@[c2]));
                    }
                }
            }
        }
        return None;
    }
    Some((b, c))
}

/// Search a line for the leftmost bounded `<digits>x<digits>` token and
/// return its captured digits, or nothing when the line holds no such
/// token.
pub fn find_resolution(line: &str) -> (r: Option<String>)
    ensures
        match r {
            Some(t) => spec_resolution(line@) == Some(t@),
            None => spec_resolution(line@) == None::<Seq<char>>,
        },
{
    let len = line.unicode_len();
    let mut a: usize = 0;
    while a < len
        invariant
            len == line@.len(),
            a <= len,
            forall|a2: int| 0 <= a2 < a ==> !match_starts_at(line@, a2),
        decreases len - a,
    {
        match try_match_at(line, len, a) {
            Some(bc) => {
                let (b, c): (usize, usize) = bc;
                proof {
                    assert(match_starts_at(line@, a as int));
                    lemma_resolution_of(line@, a as int, b as int, c as int);
                }
                let t = line.substring_char(a + 1, c);
                return Some(t.to_owned());
            },
            None => {},
        }
        a += 1;
    }
    proof {
        assert forall|a2: int| !match_starts_at(line@, a2) by {
            if match_starts_at(line@, a2) {
                let (b2, c2): (int, int) = choose|b2: int, c2: int|
                    resolution_match_at(line@, a2, b2, c2);
                assert(0 <= a2 < line@.len());
            }
        }
    }
    None
}

} // verus!
