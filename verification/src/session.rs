//! Session-identifier derivation. A live address may carry a numeric
//! session marker of the shape `stream-<digits>_`; the digits of the
//! leftmost such marker name the capture for diagnostics. An address
//! without one gets a fixed placeholder instead of failing.

use vstd::prelude::*;

verus! {

/// Decimal digit, the only characters admitted into a session identifier.
pub open spec fn is_digit(c: char) -> bool {
    '0' <= c && c <= '9'
}

/// The literal marker that introduces a session identifier.
pub open spec fn session_marker() -> Seq<char> {
    seq!['s', 't', 'r', 'e', 'a', 'm', '-']
}

/// The placeholder used when no marker is found.
pub open spec fn fallback_id() -> Seq<char> {
    seq!['u', 'n', 'k', 'n', 'o', 'w', 'n', 'i', 'd']
}

/// The index just past the run of digits that starts at `j`.
pub open spec fn digits_end(s: Seq<char>, j: int) -> int
    decreases s.len() - j when 0 <= j <= s.len()
{
    if j == s.len() {
        j
    } else if is_digit(s[j]) {
        digits_end(s, j + 1)
    } else {
        j
    }
}

/// The marker occurs at `i`, followed by at least one digit whose run is
/// closed by an underscore.
pub open spec fn match_at(s: Seq<char>, i: int) -> bool {
    &&& 0 <= i
    &&& i + 7 <= s.len()
    &&& s.subrange(i, i + 7) == session_marker()
    &&& i + 7 < digits_end(s, i + 7)
    &&& digits_end(s, i + 7) < s.len()
    &&& s[digits_end(s, i + 7)] == '_'
}

/// The least position at or after `i` where the marker matches, or -1.
pub open spec fn first_match(s: Seq<char>, i: int) -> int
    decreases s.len() - i when 0 <= i
{
    if i + 9 > s.len() {
        -1
    } else if match_at(s, i) {
        i
    } else {
        first_match(s, i + 1)
    }
}

/// The session identifier an address yields: the digits of the leftmost
/// marker, or the placeholder when there is none.
pub open spec fn stream_id_spec(s: Seq<char>) -> Seq<char> {
    let i = first_match(s, 0);
    if i >= 0 {
        s.subrange(i + 7, digits_end(s, i + 7))
    } else {
        fallback_id()
    }
}

/// True iff the marker occurs at character position `i` of `url`.
fn marker_at(url: &str, i: usize) -> (r: bool)
    requires
        url@.len() <= usize::MAX,
        i + 7 <= url@.len(),
    ensures
        r == (url@.subrange(i as int, i as int + 7) == session_marker()),
{
    let r = url.get_char(i) == 's' && url.get_char(i + 1) == 't' && url.get_char(i + 2) == 'r'
        && url.get_char(i + 3) == 'e' && url.get_char(i + 4) == 'a' && url.get_char(i + 5) == 'm'
        && url.get_char(i + 6) == '-';
    proof {
        let s = url@;
        let ii = i as int;
        if r {
            assert(s.subrange(ii, ii + 7) =~= session_marker());
        } else {
            if s.subrange(ii, ii + 7) == session_marker() {
                assert forall|k: int| 0 <= k < 7 implies s[ii + k] == session_marker()[k] by {
                    assert(s.subrange(ii, ii + 7)[k] == s[ii + k]);
                }
                assert(false);
            }
        }
    }
    r
}

/// The index just past the run of digits of `url` that starts at `start`.
fn scan_digits(url: &str, start: usize, s_len: usize) -> (j: usize)
    requires
        s_len == url@.len(),
        start <= s_len,
    ensures
        start <= j <= s_len,
        digits_end(url@, start as int) == j as int,
{
    let mut j: usize = start;
    while j < s_len
        invariant
            s_len == url@.len(),
            start <= j <= s_len,
            digits_end(url@, start as int) == digits_end(url@, j as int),
        decreases s_len - j,
    {
        let c = url.get_char(j);
        if !('0' <= c && c <= '9') {
            proof {
                assert(digits_end(url@, j as int) == j as int);
            }
            return j;
        }
        j += 1;
    }
    proof {
        assert(digits_end(url@, j as int) == j as int);
    }
    j
}

/// Derives the session identifier from a live address: the digits of the
/// leftmost `stream-<digits>_` marker, or `unknownid` when no such marker
/// occurs.
pub fn extract_stream_id(url: &str) -> (r: String)
    ensures
        r@ == stream_id_spec(url@),
{
    let s_len = url.unicode_len();
    if s_len < 9 {
        let r = "unknownid".to_owned();
        proof {
            reveal_strlit("unknownid");
            assert(r@ =~= fallback_id());
        }
        return r;
    }
    let mut i: usize = 0;
    while i <= s_len - 9
        invariant
            s_len == url@.len(),
            s_len >= 9,
            0 <= i <= s_len - 9 + 1,
            first_match(url@, 0) == first_match(url@, i as int),
        decreases s_len - i,
    {
        let ghost s = url@;
        let ghost ii = i as int;
        if marker_at(url, i) {
            let j = scan_digits(url, i + 7, s_len);
            if j > i + 7 && j < s_len && url.get_char(j) == '_' {
                proof {
                    assert(match_at(s, ii));
                    assert(first_match(s, ii) == ii);
                }
                let sub = url.substring_char(i + 7, j);
                let r = sub.to_owned();
                return r;
            }
            proof {
                assert(!match_at(s, ii));
            }
        }
        proof {
            assert(!match_at(s, ii));
            assert(first_match(s, ii) == first_match(s, ii + 1));
        }
        i += 1;
    }
    proof {
        assert(first_match(url@, i as int) == -1);
    }
    let r = "unknownid".to_owned();
    proof {
        reveal_strlit("unknownid");
        assert(r@ =~= fallback_id());
    }
    r
}

} // verus!
