//! Helpers on text: exact comparison, indentation and trimming.

use vstd::prelude::*;
use vstd::utf8::*;
use vstd::string::*;

verus! {

/// Two texts with the same UTF-8 encoding are the same text.
pub proof fn lemma_encoding_is_injective(a: Seq<char>, b: Seq<char>)
    requires
        encode_utf8(a) == encode_utf8(b),
    ensures
        a == b,
{
    encode_utf8_decode_utf8(a);
    encode_utf8_decode_utf8(b);
}

/// Whether `a` and `b` hold the same characters.
pub fn same_text(a: &str, b: &str) -> (same: bool)
    ensures
        same == (a@ == b@),
{
    let x = a.as_bytes();
    let y = b.as_bytes();
    if x.len() != y.len() {
        return false;
    }
    let mut i: usize = 0;
    while i < x.len()
        invariant
            x@ == a.spec_bytes(),
            y@ == b.spec_bytes(),
            x@.len() == y@.len(),
            i <= x@.len(),
            forall|k: int| 0 <= k < i ==> x@[k] == y@[k],
        decreases x@.len() - i,
    {
        if x[i] != y[i] {
            return false;
        }
        i += 1;
    }
    proof {
        assert(x@ =~= y@);
        lemma_encoding_is_injective(a@, b@);
    }
    true
}

/// Four spaces to the level.
pub open spec fn indentation(levels: nat) -> Seq<char> {
    Seq::new(4 * levels, |i: int| ' ')
}

/// The white space that stands before a line `levels` deep: four spaces to
/// the level.
pub fn indent(levels: usize) -> (space: String)
    ensures
        space@ == indentation(levels as nat),
{
    let mut space = String::new();
    let mut i: usize = 0;
    while i < levels
        invariant
            i <= levels,
            space@ == indentation(i as nat),
        decreases levels - i,
    {
        proof {
            reveal_strlit("    ");
        }
        space.append("    ");
        i += 1;
        assert(space@ =~= indentation(i as nat));
    }
    space
}

/// Whether `c` is white space: one of the characters that Unicode lists as
/// White_Space.
pub open spec fn white_space(c: char) -> bool {
    let n = c as u32;
    ||| 0x09 <= n <= 0x0d
    ||| n == 0x20
    ||| n == 0x85
    ||| n == 0xa0
    ||| n == 0x1680
    ||| 0x2000 <= n <= 0x200a
    ||| n == 0x2028
    ||| n == 0x2029
    ||| n == 0x202f
    ||| n == 0x205f
    ||| n == 0x3000
}

/// Whether `c` is white space.
pub fn is_white_space(c: char) -> (white: bool)
    ensures
        white == white_space(c),
{
    let n: u32 = c as u32;
    (0x09 <= n && n <= 0x0d) || n == 0x20 || n == 0x85 || n == 0xa0 || n == 0x1680 || (0x2000 <= n
        && n <= 0x200a) || n == 0x2028 || n == 0x2029 || n == 0x202f || n == 0x205f || n == 0x3000
}

/// How many characters of white space `s` begins with.
pub open spec fn leading_space(s: Seq<char>) -> nat
    decreases s.len(),
{
    if s.len() > 0 && white_space(s.first()) {
        1 + leading_space(s.drop_first())
    } else {
        0
    }
}

/// How many characters of white space `s` ends with.
pub open spec fn trailing_space(s: Seq<char>) -> nat
    decreases s.len(),
{
    if s.len() > 0 && white_space(s.last()) {
        1 + trailing_space(s.drop_last())
    } else {
        0
    }
}

/// `s` without the white space at its two ends.
pub open spec fn trimmed(s: Seq<char>) -> Seq<char> {
    if leading_space(s) == s.len() {
        Seq::empty()
    } else {
        s.subrange(leading_space(s) as int, s.len() - trailing_space(s))
    }
}

/// Where the first `count` characters are white space and the next one, if
/// there is one, is not, `s` begins with just `count` characters of white
/// space.
pub proof fn lemma_leading_space(s: Seq<char>, count: int)
    requires
        0 <= count <= s.len(),
        forall|k: int| 0 <= k < count ==> white_space(s[k]),
        count < s.len() ==> !white_space(s[count]),
    ensures
        leading_space(s) == count,
    decreases count,
{
    if count > 0 {
        let rest = s.drop_first();
        assert forall|k: int| 0 <= k < count - 1 implies white_space(rest[k]) by {
            assert(rest[k] == s[k + 1]);
        }
        lemma_leading_space(rest, count - 1);
    }
}

/// Where the characters from `end` on are white space and the one before
/// `end`, if there is one, is not, `s` ends with just those characters of
/// white space.
pub proof fn lemma_trailing_space(s: Seq<char>, end: int)
    requires
        0 <= end <= s.len(),
        forall|k: int| end <= k < s.len() ==> white_space(s[k]),
        end > 0 ==> !white_space(s[end - 1]),
    ensures
        trailing_space(s) == s.len() - end,
    decreases s.len() - end,
{
    if end < s.len() {
        lemma_trailing_space(s.drop_last(), end);
    }
}

/// `text` without the white space at its two ends.
pub fn trim(text: &str) -> (inner: &str)
    ensures
        inner@ == trimmed(text@),
{
    let count = text.unicode_len();
    let chars = text.chars();
    let mut start: usize = 0;
    let mut end: usize = 0;
    let mut i: usize = 0;
    for c in it: chars
        invariant
            it.seq() == text@,
            count == text@.len(),
            i == it.index(),
            start <= i,
            end <= i,
            forall|k: int| 0 <= k < start ==> white_space(text@[k]),
            start < i ==> !white_space(text@[start as int]) && start < end,
            forall|k: int| end <= k < i ==> white_space(text@[k]),
            end > 0 ==> !white_space(text@[end - 1]),
    {
        if is_white_space(c) {
            if start == i {
                start = i + 1;
            }
        } else {
            end = i + 1;
        }
        i += 1;
    }
    proof {
        lemma_leading_space(text@, start as int);
        lemma_trailing_space(text@, end as int);
    }
    if start == count {
        text.substring_char(0, 0)
    } else {
        text.substring_char(start, end)
    }
}

} // verus!
