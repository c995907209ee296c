//! Text as a sequence of characters: white space and trimming.

use vstd::prelude::*;
use vstd::string::StrSliceExecFns;
use vstd::string::StringExecFns;

verus! {

/// Whether `c` is white space: a character with the Unicode property
/// `White_Space`.
pub open spec fn white_space(c: char) -> bool {
    let u = c as u32;
    ||| 0x09 <= u <= 0x0D
    ||| u == 0x20
    ||| u == 0x85
    ||| u == 0xA0
    ||| u == 0x1680
    ||| 0x2000 <= u <= 0x200A
    ||| u == 0x2028
    ||| u == 0x2029
    ||| u == 0x202F
    ||| u == 0x205F
    ||| u == 0x3000
}

/// Whether every character of `s` is white space.
pub open spec fn all_white_space(s: Seq<char>) -> bool {
    forall|i: int| 0 <= i < s.len() ==> white_space(#[trigger] s[i])
}

/// How many characters of white space `s` begins with.
pub open spec fn leading_white_space(s: Seq<char>) -> nat
    decreases s.len(),
{
    if s.len() > 0 && white_space(s.first()) {
        1 + leading_white_space(s.drop_first())
    } else {
        0
    }
}

/// How many characters of white space `s` ends with.
pub open spec fn trailing_white_space(s: Seq<char>) -> nat
    decreases s.len(),
{
    if s.len() > 0 && white_space(s.last()) {
        1 + trailing_white_space(s.drop_last())
    } else {
        0
    }
}

/// `s` without the white space around it.
pub open spec fn trimmed(s: Seq<char>) -> Seq<char> {
    let rest = s.skip(leading_white_space(s) as int);
    rest.take(rest.len() - trailing_white_space(rest))
}

/// The leading white space of `s` is the longest prefix made of white space.
pub proof fn lemma_leading_white_space(s: Seq<char>, n: int)
    requires
        0 <= n <= s.len(),
        all_white_space(s.take(n)),
        n < s.len() ==> !white_space(s[n]),
    ensures
        leading_white_space(s) == n,
    decreases n,
{
    if n > 0 {
        assert(s.take(n)[0] == s[0]);
        let rest = s.drop_first();
        assert forall|i: int| 0 <= i < n - 1 implies white_space(
            #[trigger] rest.take(n - 1)[i],
        ) by {
            assert(rest.take(n - 1)[i] == s.take(n)[i + 1]);
        }
        lemma_leading_white_space(rest, n - 1);
    }
}

/// The trailing white space of `s` is the longest suffix made of white space.
pub proof fn lemma_trailing_white_space(s: Seq<char>, n: int)
    requires
        0 <= n <= s.len(),
        all_white_space(s.skip(s.len() - n)),
        n < s.len() ==> !white_space(s[s.len() - n - 1]),
    ensures
        trailing_white_space(s) == n,
    decreases n,
{
    if n > 0 {
        assert(s.skip(s.len() - n)[n - 1] == s.last());
        let rest = s.drop_last();
        assert forall|i: int| 0 <= i < n - 1 implies white_space(
            #[trigger] rest.skip(rest.len() - (n - 1))[i],
        ) by {
            assert(rest.skip(rest.len() - (n - 1))[i] == s.skip(s.len() - n)[i]);
        }
        lemma_trailing_white_space(rest, n - 1);
    }
}

/// The leading white space of `s` is made of white space, and what follows it
/// is not white space.
pub proof fn lemma_leading_white_space_is_longest(s: Seq<char>)
    ensures
        leading_white_space(s) <= s.len(),
        all_white_space(s.take(leading_white_space(s) as int)),
        leading_white_space(s) < s.len() ==> !white_space(s[leading_white_space(s) as int]),
    decreases s.len(),
{
    if s.len() > 0 && white_space(s.first()) {
        let rest = s.drop_first();
        lemma_leading_white_space_is_longest(rest);
        let n = leading_white_space(s) as int;
        assert forall|i: int| 0 <= i < n implies white_space(#[trigger] s.take(n)[i]) by {
            if i > 0 {
                assert(s.take(n)[i] == rest.take(n - 1)[i - 1]);
            }
        }
        if n < s.len() {
            assert(s[n] == rest[n - 1]);
        }
    }
}

/// The trailing white space of `s` is made of white space, and what stands
/// before it is not white space.
pub proof fn lemma_trailing_white_space_is_longest(s: Seq<char>)
    ensures
        trailing_white_space(s) <= s.len(),
        all_white_space(s.skip(s.len() - trailing_white_space(s))),
        trailing_white_space(s) < s.len() ==> !white_space(
            s[s.len() - trailing_white_space(s) - 1],
        ),
    decreases s.len(),
{
    if s.len() > 0 && white_space(s.last()) {
        let rest = s.drop_last();
        lemma_trailing_white_space_is_longest(rest);
        let n = trailing_white_space(s) as int;
        let tail = s.skip(s.len() - n);
        assert forall|i: int| 0 <= i < n implies white_space(#[trigger] tail[i]) by {
            if i < n - 1 {
                assert(tail[i] == rest.skip(rest.len() - (n - 1))[i]);
            }
        }
        if n < s.len() {
            assert(s[s.len() - n - 1] == rest[rest.len() - (n - 1) - 1]);
        }
    }
}

/// White space around a text does not change what is left of it when it is
/// trimmed.
pub proof fn lemma_trimmed_ignores_white_space_around(
    before: Seq<char>,
    text: Seq<char>,
    after: Seq<char>,
)
    requires
        all_white_space(before),
        all_white_space(after),
    ensures
        trimmed(before + text + after) == trimmed(text),
{
    let s = before + text + after;
    let a = leading_white_space(text) as int;
    lemma_leading_white_space_is_longest(text);
    assert forall|i: int| 0 <= i < before.len() + a implies white_space(
        #[trigger] s.take(before.len() + a)[i],
    ) by {
        if i >= before.len() {
            assert(s[i] == text.take(a)[i - before.len()]);
        } else {
            assert(s[i] == before[i]);
        }
    }
    if a == text.len() {
        assert forall|i: int| 0 <= i < s.len() implies white_space(#[trigger] s.take(
            s.len() as int,
        )[i]) by {
            if i >= before.len() + a {
                assert(s[i] == after[i - before.len() - a]);
            } else {
                assert(s[i] == s.take(before.len() + a)[i]);
            }
        }
        lemma_leading_white_space(s, s.len() as int);
        assert(trimmed(s) == Seq::<char>::empty());
        assert(trimmed(text) == Seq::<char>::empty());
    } else {
        assert(s[before.len() + a] == text[a]);
        lemma_leading_white_space(s, before.len() + a);
        let rest = text.skip(a);
        let long = s.skip(before.len() + a);
        assert(long == rest + after);
        let b = trailing_white_space(rest) as int;
        lemma_trailing_white_space_is_longest(rest);
        if b == rest.len() {
            assert(rest.skip(0)[0] == rest[0]);
        }
        let tail = long.skip(long.len() - (b + after.len()));
        assert forall|i: int| 0 <= i < tail.len() implies white_space(#[trigger] tail[i]) by {
            if i < b {
                assert(tail[i] == rest.skip(rest.len() - b)[i]);
            } else {
                assert(tail[i] == after[i - b]);
            }
        }
        assert(long[long.len() - (b + after.len()) - 1] == rest[rest.len() - b - 1]);
        lemma_trailing_white_space(long, b + after.len());
        assert(long.take(long.len() - (b + after.len())) == rest.take(rest.len() - b));
    }
}

/// Whether `c` is white space.
pub fn is_white_space(c: char) -> (r: bool)
    ensures
        r == white_space(c),
{
    let u: u32 = c as u32;
    (0x09 <= u && u <= 0x0D) || u == 0x20 || u == 0x85 || u == 0xA0 || u == 0x1680 || (0x2000 <= u
        && u <= 0x200A) || u == 0x2028 || u == 0x2029 || u == 0x202F || u == 0x205F || u == 0x3000
}

/// The characters of `s`, in order.
pub fn to_chars(s: &str) -> (chars: Vec<char>)
    ensures
        chars@ == s@,
{
    let mut chars: Vec<char> = Vec::new();
    for c in it: s.chars()
        invariant
            chars@ == s@.take(it.index() as int),
            it.seq() == s@,
    {
        chars.push(c);
    }
    chars
}

/// Where the trimmed text lies in `chars`: from the first index up to, and
/// without, the second.
pub fn trim_bounds(chars: &Vec<char>) -> (bounds: (usize, usize))
    ensures
        bounds.0 <= bounds.1 <= chars.len(),
        chars@.subrange(bounds.0 as int, bounds.1 as int) == trimmed(chars@),
{
    let n: usize = chars.len();
    let mut start: usize = 0;
    while start < n && is_white_space(chars[start])
        invariant
            start <= n == chars.len(),
            all_white_space(chars@.take(start as int)),
        decreases n - start,
    {
        start += 1;
    }
    let mut end: usize = n;
    while end > start && is_white_space(chars[end - 1])
        invariant
            start <= end <= n == chars.len(),
            all_white_space(chars@.skip(end as int)),
        decreases end,
    {
        end -= 1;
        proof {
            let tail = chars@.skip(end as int);
            assert forall|i: int| 0 <= i < tail.len() implies white_space(#[trigger] tail[i]) by {
                if i > 0 {
                    assert(tail[i] == chars@.skip(end + 1)[i - 1]);
                }
            }
        }
    }
    proof {
        let s = chars@;
        lemma_leading_white_space(s, start as int);
        let rest = s.skip(start as int);
        assert(rest.skip(end - start) == s.skip(end as int));
        if end > start {
            assert(rest[end - start - 1] == s[end - 1]);
        }
        lemma_trailing_white_space(rest, n - end);
        assert(rest.take(end - start) == s.subrange(start as int, end as int));
    }
    (start, end)
}

/// `text` without the white space around it.
pub fn trim(text: &str) -> (rest: String)
    ensures
        rest@ == trimmed(text@),
{
    let chars: Vec<char> = to_chars(text);
    let bounds: (usize, usize) = trim_bounds(&chars);
    String::from_str(text.substring_char(bounds.0, bounds.1))
}

} // verus!
