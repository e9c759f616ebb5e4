//! Text helpers: comparing strings, trimming them and joining the text nodes
//! of an element.

use vstd::prelude::*;
use vstd::string::StrSliceExecFns;
use vstd::string::StringExecFns;
use vstd::string::StringSliceAdditionalSpecFns;
use vstd::utf8::encode_utf8;
use vstd::utf8::encode_utf8_decode_utf8;

verus! {

/// Whether `c` is white space: what `char::is_whitespace` answers for it.
pub uninterp spec fn is_whitespace(c: char) -> bool;

/// `char::is_whitespace` of std tells whether a character has the Unicode
/// property White_Space. Its answer depends on the character alone, and
/// [`is_whitespace`] is the name that contracts use for it.
pub assume_specification[ char::is_whitespace ](c: char) -> (r: bool)
    ensures
        r == is_whitespace(c),
;

/// `s` without the white space that it begins with.
pub open spec fn trim_start(s: Seq<char>) -> Seq<char>
    decreases s.len(),
{
    if s.len() > 0 && is_whitespace(s.first()) {
        trim_start(s.drop_first())
    } else {
        s
    }
}

/// `s` without the white space that it ends with.
pub open spec fn trim_end(s: Seq<char>) -> Seq<char>
    decreases s.len(),
{
    if s.len() > 0 && is_whitespace(s.last()) {
        trim_end(s.drop_last())
    } else {
        s
    }
}

/// `s` without the white space at either end.
pub open spec fn trim(s: Seq<char>) -> Seq<char> {
    trim_end(trim_start(s))
}

/// The text of an element: its text nodes, each one trimmed, one after another
/// with nothing between them.
pub open spec fn joined(fragments: Seq<Seq<char>>) -> Seq<char>
    decreases fragments.len(),
{
    if fragments.len() == 0 {
        Seq::empty()
    } else {
        joined(fragments.drop_last()) + trim(fragments.last())
    }
}

/// Two strings with the same UTF-8 encoding hold the same characters.
pub proof fn lemma_encoding_is_injective(a: Seq<char>, b: Seq<char>)
    requires
        encode_utf8(a) == encode_utf8(b),
    ensures
        a == b,
{
    encode_utf8_decode_utf8(a);
    encode_utf8_decode_utf8(b);
}

/// A string has no more characters than its UTF-8 encoding has bytes.
pub proof fn lemma_encoding_len(chars: Seq<char>)
    ensures
        chars.len() <= encode_utf8(chars).len(),
    decreases chars.len(),
{
    if chars.len() > 0 {
        lemma_encoding_len(chars.drop_first());
    }
}

/// Where `s` is white space up to `start` and not at `start`, trimming its
/// start leaves what begins there.
pub proof fn lemma_trim_start_at(s: Seq<char>, start: int)
    requires
        0 <= start <= s.len(),
        forall|k: int| 0 <= k < start ==> is_whitespace(#[trigger] s[k]),
        start < s.len() ==> !is_whitespace(s[start]),
    ensures
        trim_start(s) == s.subrange(start, s.len() as int),
    decreases start,
{
    if start == 0 {
        assert(s.subrange(0, s.len() as int) =~= s);
    } else {
        let rest = s.drop_first();
        assert forall|k: int| 0 <= k < start - 1 implies is_whitespace(#[trigger] rest[k]) by {
            assert(rest[k] == s[k + 1]);
        }
        lemma_trim_start_at(rest, start - 1);
        assert(rest.subrange(start - 1, rest.len() as int) =~= s.subrange(start, s.len() as int));
    }
}

/// Where `s` is white space from `end` on and not just before `end`, trimming
/// its end leaves what stops there.
pub proof fn lemma_trim_end_at(s: Seq<char>, end: int)
    requires
        0 <= end <= s.len(),
        forall|k: int| end <= k < s.len() ==> is_whitespace(#[trigger] s[k]),
        0 < end ==> !is_whitespace(s[end - 1]),
    ensures
        trim_end(s) == s.subrange(0, end),
    decreases s.len() - end,
{
    if end == s.len() {
        assert(s.subrange(0, end) =~= s);
    } else {
        let rest = s.drop_last();
        lemma_trim_end_at(rest, end);
        assert(rest.subrange(0, end) =~= s.subrange(0, end));
    }
}

/// Whether `a` and `b` hold the same characters.
pub fn str_eq(a: &str, b: &str) -> (r: bool)
    ensures
        r == (a@ == b@),
{
    let x = a.as_bytes();
    let y = b.as_bytes();
    if x.len() != y.len() {
        return false;
    }
    let mut i: usize = 0;
    while i < x.len()
        invariant
            i <= x.len(),
            x.len() == y.len(),
            x@ == a.spec_bytes(),
            y@ == b.spec_bytes(),
            forall|k: int| 0 <= k < i ==> x@[k] == y@[k],
        decreases x.len() - i,
    {
        if x[i] != y[i] {
            return false;
        }
        i += 1;
    }
    proof {
        assert(x@ =~= y@);
        lemma_encoding_is_injective(a@, b@);
    }
    true
}

/// `s` without the white space at either end.
pub fn trimmed(s: &str) -> (t: &str)
    ensures
        t@ == trim(s@),
{
    let bound = s.as_bytes().len();
    proof {
        lemma_encoding_len(s@);
    }
    // `start` is where the first character that is no white space stands, and
    // `end` is just behind the last such character, among those seen so far.
    let mut start: usize = 0;
    let mut end: usize = 0;
    let mut i: usize = 0;
    for c in it: s.chars()
        invariant
            it.seq() == s@,
            s@.len() <= bound,
            i == it.index(),
            start <= end <= i,
            end == 0 ==> start == 0,
            forall|k: int|
                0 <= k < (if end == 0 { i } else { start }) ==> is_whitespace(#[trigger] s@[k]),
            forall|k: int| end <= k < i ==> is_whitespace(#[trigger] s@[k]),
            end > 0 ==> start < end && !is_whitespace(s@[start as int]) && !is_whitespace(
                s@[end - 1],
            ),
    {
        if !c.is_whitespace() {
            if end == 0 {
                start = i;
            }
            end = i + 1;
        }
        i += 1;
    }
    proof {
        let len = s@.len() as int;
        if end == 0 {
            lemma_trim_start_at(s@, len);
            assert(s@.subrange(len, len) =~= Seq::<char>::empty());
            assert(s@.subrange(0, 0) =~= Seq::<char>::empty());
        } else {
            lemma_trim_start_at(s@, start as int);
            let tail = s@.subrange(start as int, len);
            lemma_trim_end_at(tail, end - start);
            assert(tail.subrange(0, end - start) =~= s@.subrange(start as int, end as int));
        }
    }
    s.substring_char(start, end)
}

/// The text of an element whose text nodes are `fragments`.
pub fn joined_text(fragments: &Vec<String>) -> (text: String)
    ensures
        text@ == joined(fragments.deep_view()),
{
    let mut text = String::new();
    let mut i: usize = 0;
    while i < fragments.len()
        invariant
            i <= fragments.len(),
            text@ == joined(fragments.deep_view().take(i as int)),
        decreases fragments.len() - i,
    {
        text.append(trimmed(fragments[i].as_str()));
        proof {
            let all = fragments.deep_view();
            assert(all.take(i + 1).drop_last() =~= all.take(i as int));
            assert(all.take(i + 1).last() == fragments[i as int]@);
        }
        i += 1;
    }
    proof {
        let all = fragments.deep_view();
        assert(all.take(fragments.len() as int) =~= all);
    }
    text
}

} // verus!
