//! Text as the broadcast layer reads it: UTF-8 decoding, trimming of
//! surrounding white space, and the decimal form of a counter.

use vstd::prelude::*;
use vstd::string::StringExecFns;
use vstd::utf8::{decode_utf8, valid_utf8};

verus! {

/// Whether `c` is white space to `str::trim`: whether it has the Unicode
/// property `White_Space`.
pub uninterp spec fn is_white_space(c: char) -> bool;

/// How many characters of white space `s` starts with.
pub open spec fn leading_white_space(s: Seq<char>) -> nat
    decreases s.len(),
{
    if s.len() > 0 && is_white_space(s[0]) {
        1 + leading_white_space(s.drop_first())
    } else {
        0
    }
}

/// How many characters of white space `s` ends with.
pub open spec fn trailing_white_space(s: Seq<char>) -> nat
    decreases s.len(),
{
    if s.len() > 0 && is_white_space(s.last()) {
        1 + trailing_white_space(s.drop_last())
    } else {
        0
    }
}

/// `s` without the white space that surrounds it.
pub open spec fn trimmed(s: Seq<char>) -> Seq<char> {
    let lead = leading_white_space(s);
    let trail = trailing_white_space(s);
    if lead + trail >= s.len() {
        Seq::empty()
    } else {
        s.subrange(lead as int, s.len() - trail)
    }
}

/// The leading white space of `s` is white space, and what follows it is
/// not.
pub proof fn lemma_leading_white_space(s: Seq<char>)
    ensures
        leading_white_space(s) <= s.len(),
        forall|i: int| 0 <= i < leading_white_space(s) ==> is_white_space(s[i]),
        leading_white_space(s) < s.len() ==> !is_white_space(s[leading_white_space(s) as int]),
    decreases s.len(),
{
    if s.len() > 0 && is_white_space(s[0]) {
        let tail = s.drop_first();
        lemma_leading_white_space(tail);
        assert forall|i: int| 0 <= i < leading_white_space(s) implies is_white_space(s[i]) by {
            if i > 0 {
                assert(s[i] == tail[i - 1]);
            }
        }
        if leading_white_space(s) < s.len() {
            assert(s[leading_white_space(s) as int] == tail[leading_white_space(tail) as int]);
        }
    }
}

/// The trailing white space of `s` is white space, and what precedes it is
/// not.
pub proof fn lemma_trailing_white_space(s: Seq<char>)
    ensures
        trailing_white_space(s) <= s.len(),
        forall|i: int| s.len() - trailing_white_space(s) <= i < s.len() ==> is_white_space(s[i]),
        trailing_white_space(s) < s.len() ==> !is_white_space(
            s[s.len() - trailing_white_space(s) - 1],
        ),
    decreases s.len(),
{
    if s.len() > 0 && is_white_space(s.last()) {
        let front = s.drop_last();
        lemma_trailing_white_space(front);
        assert forall|i: int| s.len() - trailing_white_space(s) <= i < s.len() implies is_white_space(
            s[i],
        ) by {
            if i < s.len() - 1 {
                assert(s[i] == front[i]);
            }
        }
        if trailing_white_space(s) < s.len() {
            assert(s[s.len() - trailing_white_space(s) - 1] == front[front.len()
                - trailing_white_space(front) - 1]);
        }
    }
}

/// A slice of `s` that has only white space before and behind it, and none
/// at either of its own ends, is `trimmed(s)`.
pub proof fn lemma_trimmed_is_unique(s: Seq<char>, start: int, end: int)
    requires
        0 <= start <= end <= s.len(),
        forall|i: int| 0 <= i < start ==> is_white_space(s[i]),
        forall|i: int| end <= i < s.len() ==> is_white_space(s[i]),
        start < end ==> !is_white_space(s[start]) && !is_white_space(s[end - 1]),
    ensures
        s.subrange(start, end) == trimmed(s),
{
    lemma_leading_white_space(s);
    lemma_trailing_white_space(s);
    let lead = leading_white_space(s) as int;
    let trail = trailing_white_space(s) as int;
    if start < end {
        assert(lead == start) by {
            if lead < start {
                assert(is_white_space(s[lead]));
            } else if lead > start {
                assert(is_white_space(s[start]));
            }
        }
        assert(s.len() - trail == end) by {
            if s.len() - trail > end {
                assert(is_white_space(s[s.len() - trail - 1]));
            } else if s.len() - trail < end {
                assert(is_white_space(s[end - 1]));
            }
        }
    } else {
        assert(lead == s.len()) by {
            if lead < s.len() {
                assert(is_white_space(s[lead]));
            }
        }
        assert(s.subrange(start, end) =~= Seq::<char>::empty());
    }
}

/// `str::trim` returns the part of `s` that is left when leading and
/// trailing white space is removed. So the result is a stretch of `s`
/// outside of which `s` holds white space only, and it neither starts nor
/// ends with white space.
#[verifier::external_body]
fn trim_slice(s: &str) -> (t: &str)
    ensures
        (exists|start: int|
            0 <= start <= s@.len() - t@.len()
                && #[trigger] s@.subrange(start, start + t@.len()) == t@
                && (forall|i: int|
                    0 <= i < s@.len() && !(start <= i < start + t@.len()) ==> is_white_space(s@[i]))),
        t@.len() > 0 ==> !is_white_space(t@.first()) && !is_white_space(t@.last()),
{
    s.trim()
}

/// `s` without the white space that surrounds it.
pub fn trim_text(s: &str) -> (t: &str)
    ensures
        t@ == trimmed(s@),
{
    let t = trim_slice(s);
    proof {
        let start = choose|start: int|
            0 <= start <= s@.len() - t@.len()
                && #[trigger] s@.subrange(start, start + t@.len()) == t@
                && (forall|i: int|
                    0 <= i < s@.len() && !(start <= i < start + t@.len()) ==> is_white_space(s@[i]));
        let end = start + t@.len();
        if start < end {
            assert(t@.first() == s@[start]);
            assert(t@.last() == s@[end - 1]);
        }
        lemma_trimmed_is_unique(s@, start, end);
    }
    t
}

/// `String::from_utf8` succeeds exactly on well-formed UTF-8 and then yields
/// the string that those bytes encode; its error is mapped to `None`.
#[verifier::external_body]
pub(crate) fn text_from_utf8(bytes: Vec<u8>) -> (text: Option<String>)
    ensures
        text is Some <==> valid_utf8(bytes@),
        text matches Some(s) ==> s@ == decode_utf8(bytes@),
{
    match String::from_utf8(bytes) {
        Ok(s) => Some(s),
        Err(_) => None,
    }
}

/// The character that writes the digit `d`.
pub open spec fn digit_char(d: nat) -> char {
    if d == 0 {
        '0'
    } else if d == 1 {
        '1'
    } else if d == 2 {
        '2'
    } else if d == 3 {
        '3'
    } else if d == 4 {
        '4'
    } else if d == 5 {
        '5'
    } else if d == 6 {
        '6'
    } else if d == 7 {
        '7'
    } else if d == 8 {
        '8'
    } else {
        '9'
    }
}

/// The decimal numeral of `n`, without leading zeros.
pub open spec fn decimal(n: nat) -> Seq<char>
    decreases n,
{
    if n < 10 {
        seq![digit_char(n)]
    } else {
        decimal(n / 10).push(digit_char(n % 10))
    }
}

/// The one-character string that writes the digit `d`.
fn digit_str(d: usize) -> (s: &'static str)
    requires
        d < 10,
    ensures
        s@ == seq![digit_char(d as nat)],
{
    proof {
        reveal_strlit("0");
        reveal_strlit("1");
        reveal_strlit("2");
        reveal_strlit("3");
        reveal_strlit("4");
        reveal_strlit("5");
        reveal_strlit("6");
        reveal_strlit("7");
        reveal_strlit("8");
        reveal_strlit("9");
    }
    let s = if d == 0 {
        "0"
    } else if d == 1 {
        "1"
    } else if d == 2 {
        "2"
    } else if d == 3 {
        "3"
    } else if d == 4 {
        "4"
    } else if d == 5 {
        "5"
    } else if d == 6 {
        "6"
    } else if d == 7 {
        "7"
    } else if d == 8 {
        "8"
    } else {
        "9"
    };
    assert(s@ =~= seq![digit_char(d as nat)]);
    s
}

/// Writes `n` in decimal.
pub fn decimal_string(n: usize) -> (s: String)
    ensures
        s@ == decimal(n as nat),
    decreases n,
{
    if n < 10 {
        String::from_str(digit_str(n))
    } else {
        let mut s = decimal_string(n / 10);
        s.append(digit_str(n % 10));
        assert(s@ =~= decimal(n as nat));
        s
    }
}

} // verus!
