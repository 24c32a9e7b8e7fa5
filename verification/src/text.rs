//! Character-level helpers on strings.
//!
//! Strings are viewed as sequences of Unicode scalar values; every helper
//! here is stated over that view.

use vstd::prelude::*;

verus! {

/// `c` is white space: a character with the Unicode property `White_Space`.
pub open spec fn is_whitespace(c: char) -> bool {
    let n = c as u32;
    ||| 0x09 <= n <= 0x0D
    ||| n == 0x20
    ||| n == 0x85
    ||| n == 0xA0
    ||| n == 0x1680
    ||| 0x2000 <= n <= 0x200A
    ||| n == 0x2028
    ||| n == 0x2029
    ||| n == 0x202F
    ||| n == 0x205F
    ||| n == 0x3000
}

/// `s` without its leading white space.
pub open spec fn trimmed_start(s: Seq<char>) -> Seq<char>
    decreases s.len(),
{
    if s.len() > 0 && is_whitespace(s[0]) {
        trimmed_start(s.skip(1))
    } else {
        s
    }
}

/// `s` without its trailing white space.
pub open spec fn trimmed_end(s: Seq<char>) -> Seq<char>
    decreases s.len(),
{
    if s.len() > 0 && is_whitespace(s.last()) {
        trimmed_end(s.drop_last())
    } else {
        s
    }
}

/// `s` without the white space at either end.
pub open spec fn trimmed(s: Seq<char>) -> Seq<char> {
    trimmed_end(trimmed_start(s))
}

/// `s` shows nothing: it is empty or white space throughout.
pub open spec fn blank(s: Seq<char>) -> bool {
    trimmed(s).len() == 0
}

/// `s` ends with `suffix`.
pub open spec fn ends_with(s: Seq<char>, suffix: Seq<char>) -> bool {
    s.len() >= suffix.len() && s.skip(s.len() - suffix.len()) == suffix
}

/// `left` and `right` with a `/` between them.
pub open spec fn joined(left: Seq<char>, right: Seq<char>) -> Seq<char> {
    left + seq!['/'] + right
}

/// `s` without one trailing `/`, where it has one.
pub open spec fn without_trailing_slash(s: Seq<char>) -> Seq<char> {
    if s.len() > 0 && s.last() == '/' {
        s.drop_last()
    } else {
        s
    }
}

/// Skipping leading white space up to the first other character is trimming
/// the start.
pub proof fn lemma_trimmed_start(s: Seq<char>, k: int)
    requires
        0 <= k <= s.len(),
        forall|i: int| 0 <= i < k ==> is_whitespace(#[trigger] s[i]),
        k < s.len() ==> !is_whitespace(s[k]),
    ensures
        trimmed_start(s) == s.skip(k),
    decreases k,
{
    if k == 0 {
        assert(s.skip(0) == s);
    } else {
        assert(is_whitespace(s[0]));
        let rest = s.skip(1);
        assert forall|i: int| 0 <= i < k - 1 implies is_whitespace(#[trigger] rest[i]) by {
            assert(rest[i] == s[i + 1]);
        }
        lemma_trimmed_start(rest, k - 1);
        assert(rest.skip(k - 1) == s.skip(k));
    }
}

/// Dropping trailing white space down to the last other character is
/// trimming the end.
pub proof fn lemma_trimmed_end(s: Seq<char>, k: int)
    requires
        0 <= k <= s.len(),
        forall|i: int| k <= i < s.len() ==> is_whitespace(#[trigger] s[i]),
        k > 0 ==> !is_whitespace(s[k - 1]),
    ensures
        trimmed_end(s) == s.take(k),
    decreases s.len() - k,
{
    if k == s.len() {
        assert(s.take(k) == s);
    } else {
        assert(is_whitespace(s[s.len() - 1]));
        let rest = s.drop_last();
        assert forall|i: int| k <= i < rest.len() implies is_whitespace(#[trigger] rest[i]) by {
            assert(rest[i] == s[i]);
        }
        lemma_trimmed_end(rest, k);
        assert(rest.take(k) == s.take(k));
    }
}

/// What trimming leaves neither starts nor ends with white space, and what
/// it removes is white space only.
pub proof fn lemma_trimmed_is_tight(s: Seq<char>)
    ensures
        trimmed(s).len() > 0 ==> !is_whitespace(trimmed(s).first()) && !is_whitespace(
            trimmed(s).last(),
        ),
        exists|a: int, b: int|
            0 <= a <= b <= s.len() && trimmed(s) == s.subrange(a, b) && (forall|i: int|
                0 <= i < a ==> is_whitespace(#[trigger] s[i])) && (forall|i: int|
                b <= i < s.len() ==> is_whitespace(#[trigger] s[i])),
{
    let a = first_visible(s, 0);
    lemma_first_visible(s, 0);
    lemma_trimmed_start(s, a);
    let t = s.skip(a);
    let b = last_visible(t, t.len() as int);
    lemma_last_visible(t, t.len() as int);
    lemma_trimmed_end(t, b);
    assert(t.take(b) == s.subrange(a, a + b));
    assert forall|i: int| a + b <= i < s.len() implies is_whitespace(#[trigger] s[i]) by {
        assert(t[i - a] == s[i]);
    }
    if trimmed(s).len() > 0 {
        assert(t.take(b).last() == t[b - 1]);
        assert(t.take(b).first() == t[0]);
        assert(t[0] == s[a]);
    }
}

/// The position, at or after `from`, of the first character of `s` that is
/// not white space; the length of `s` where there is none.
pub open spec fn first_visible(s: Seq<char>, from: int) -> int
    decreases s.len() - from,
{
    if 0 <= from < s.len() && is_whitespace(s[from]) {
        first_visible(s, from + 1)
    } else {
        from
    }
}

/// The position, at or before `to`, just after the last character of `s`
/// that is not white space; zero where there is none.
pub open spec fn last_visible(s: Seq<char>, to: int) -> int
    decreases to,
{
    if 0 < to <= s.len() && is_whitespace(s[to - 1]) {
        last_visible(s, to - 1)
    } else {
        to
    }
}

/// `first_visible` skips white space only and stops at a visible character
/// or at the end.
pub proof fn lemma_first_visible(s: Seq<char>, from: int)
    requires
        0 <= from <= s.len(),
    ensures
        from <= first_visible(s, from) <= s.len(),
        forall|i: int| from <= i < first_visible(s, from) ==> is_whitespace(#[trigger] s[i]),
        first_visible(s, from) < s.len() ==> !is_whitespace(s[first_visible(s, from)]),
    decreases s.len() - from,
{
    if from < s.len() && is_whitespace(s[from]) {
        lemma_first_visible(s, from + 1);
    }
}

/// `last_visible` drops white space only and stops after a visible character
/// or at the start.
pub proof fn lemma_last_visible(s: Seq<char>, to: int)
    requires
        0 <= to <= s.len(),
    ensures
        0 <= last_visible(s, to) <= to,
        forall|i: int| last_visible(s, to) <= i < to ==> is_whitespace(#[trigger] s[i]),
        last_visible(s, to) > 0 ==> !is_whitespace(s[last_visible(s, to) - 1]),
    decreases to,
{
    if 0 < to && is_whitespace(s[to - 1]) {
        lemma_last_visible(s, to - 1);
    }
}

/// The characters of `s`, in order.
pub fn chars_of(s: &str) -> (chars: Vec<char>)
    ensures
        chars@ == s@,
{
    let mut chars: Vec<char> = Vec::new();
    for c in it: s.chars()
        invariant
            it.seq() == s@,
            chars@ == s@.take(it.index()),
    {
        chars.push(c);
        assert(s@.take(it.index() + 1) == s@.take(it.index()).push(s@[it.index()]));
    }
    assert(s@.take(s@.len() as int) == s@);
    chars
}

/// Whether `c` is white space.
pub fn is_whitespace_char(c: char) -> (yes: bool)
    ensures
        yes == is_whitespace(c),
{
    let n: u32 = c as u32;
    (0x09 <= n && n <= 0x0D) || n == 0x20 || n == 0x85 || n == 0xA0 || n == 0x1680 || (0x2000 <= n
        && n <= 0x200A) || n == 0x2028 || n == 0x2029 || n == 0x202F || n == 0x205F || n == 0x3000
}

/// A copy of `s` without the white space at either end.
pub fn trim(s: &str) -> (out: String)
    ensures
        out@ == trimmed(s@),
{
    let chars = chars_of(s);
    let len: usize = chars.len();
    let mut start: usize = 0;
    while start < len && is_whitespace_char(chars[start])
        invariant
            start <= len == chars@.len(),
            forall|i: int| 0 <= i < start ==> is_whitespace(#[trigger] chars@[i]),
        decreases len - start,
    {
        start = start + 1;
    }
    let mut end: usize = len;
    while end > start && is_whitespace_char(chars[end - 1])
        invariant
            start <= end <= len == chars@.len(),
            forall|i: int| end <= i < len ==> is_whitespace(#[trigger] chars@[i]),
        decreases end,
    {
        end = end - 1;
    }
    proof {
        lemma_trimmed_start(s@, start as int);
        let rest = s@.skip(start as int);
        assert forall|i: int| end - start <= i < rest.len() implies is_whitespace(
            #[trigger] rest[i],
        ) by {
            assert(rest[i] == s@[i + start]);
        }
        if end > start {
            assert(rest[end - start - 1] == s@[end - 1]);
        }
        lemma_trimmed_end(rest, end - start);
        assert(rest.take(end - start) == s@.subrange(start as int, end as int));
    }
    s.substring_char(start, end).to_owned()
}

/// A string is blank exactly if each of its characters is white space.
pub proof fn lemma_blank(s: Seq<char>)
    ensures
        blank(s) <==> forall|i: int| 0 <= i < s.len() ==> is_whitespace(#[trigger] s[i]),
{
    let a = first_visible(s, 0);
    lemma_first_visible(s, 0);
    lemma_trimmed_start(s, a);
    let rest = s.skip(a);
    let b = last_visible(rest, rest.len() as int);
    lemma_last_visible(rest, rest.len() as int);
    lemma_trimmed_end(rest, b);
    if a < s.len() {
        assert(!is_whitespace(s[a]));
        assert(rest[0] == s[a]);
        if b == 0 {
            assert(is_whitespace(rest[0]));
        }
    }
}

/// Whether `s` shows nothing.
pub fn is_blank(s: &str) -> (yes: bool)
    ensures
        yes == blank(s@),
{
    let chars = chars_of(s);
    let mut i: usize = 0;
    while i < chars.len()
        invariant
            i <= chars@.len(),
            chars@ == s@,
            forall|j: int| 0 <= j < i ==> is_whitespace(#[trigger] chars@[j]),
        decreases chars.len() - i,
    {
        if !is_whitespace_char(chars[i]) {
            proof {
                lemma_blank(s@);
            }
            return false;
        }
        i = i + 1;
    }
    proof {
        lemma_blank(s@);
    }
    true
}

/// Whether the characters `chars` end with the characters `suffix`.
pub fn has_suffix(chars: &Vec<char>, suffix: &Vec<char>) -> (yes: bool)
    ensures
        yes == ends_with(chars@, suffix@),
{
    let n: usize = chars.len();
    let m: usize = suffix.len();
    if n < m {
        return false;
    }
    let offset: usize = n - m;
    let ghost end = chars@.skip(offset as int);
    let mut i: usize = 0;
    while i < m
        invariant
            i <= m == suffix@.len(),
            n == chars@.len(),
            offset == n - m,
            end == chars@.skip(offset as int),
            forall|j: int| 0 <= j < i ==> end[j] == suffix@[j],
        decreases m - i,
    {
        if chars[offset + i] != suffix[i] {
            assert(end[i as int] != suffix@[i as int]);
            return false;
        }
        i = i + 1;
    }
    assert(end =~= suffix@);
    true
}

/// `left`, a `/`, and `right`, as one string.
pub fn join(left: &str, right: &str) -> (out: String)
    ensures
        out@ == joined(left@, right@),
{
    let mut out = String::from_str(left);
    proof {
        reveal_strlit("/");
        assert("/"@ =~= seq!['/']);
    }
    out.append("/");
    out.append(right);
    out
}

/// `left` directly followed by `right`, as one string.
pub fn chain(left: &str, right: &str) -> (out: String)
    ensures
        out@ == left@ + right@,
{
    let mut out = String::from_str(left);
    out.append(right);
    out
}

/// A copy of `s` without one trailing `/`, where it has one.
pub fn strip_trailing_slash(s: &str) -> (out: String)
    ensures
        out@ == without_trailing_slash(s@),
{
    let chars = chars_of(s);
    let len: usize = chars.len();
    if len > 0 && chars[len - 1] == '/' {
        assert(s@.subrange(0, len - 1) == s@.drop_last());
        s.substring_char(0, len - 1).to_owned()
    } else {
        s.to_owned()
    }
}

} // verus!
