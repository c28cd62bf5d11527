//! Character-level building blocks: whitespace, words and trimming, each
//! with a mathematical definition over `Seq<char>` and an executable
//! counterpart proved against it.

use vstd::prelude::*;

verus! {

/// Whether `c` is a character with the Unicode `White_Space` property.
pub open spec fn is_whitespace(c: char) -> bool {
    let n = c as u32;
    ||| 0x09 <= n <= 0x0D
    ||| n == 0x20
    ||| n == 0x85
    ||| n == 0xA0
    ||| n == 0x1680
    ||| 0x2000 <= n <= 0x200A
    ||| n == 0x2028
    ||| n == 0x2029
    ||| n == 0x202F
    ||| n == 0x205F
    ||| n == 0x3000
}

/// A text is blank when it holds nothing but whitespace; the empty text is blank.
pub open spec fn is_blank(s: Seq<char>) -> bool {
    forall|i: int| 0 <= i < s.len() ==> is_whitespace(#[trigger] s[i])
}

/// The first position at or after `from` that holds a character other than
/// whitespace, or `s.len()` if there is none.
pub open spec fn token_start(s: Seq<char>, from: int) -> int
    recommends
        0 <= from <= s.len(),
    decreases s.len() - from,
{
    if from >= s.len() {
        s.len() as int
    } else if !is_whitespace(s[from]) {
        from
    } else {
        token_start(s, from + 1)
    }
}

/// The first position at or after `from` that holds whitespace, or `s.len()`
/// if there is none.
pub open spec fn token_end(s: Seq<char>, from: int) -> int
    recommends
        0 <= from <= s.len(),
    decreases s.len() - from,
{
    if from >= s.len() {
        s.len() as int
    } else if is_whitespace(s[from]) {
        from
    } else {
        token_end(s, from + 1)
    }
}

/// The whitespace-delimited token found by skipping whitespace from `from`
/// on; empty if only whitespace is left.
pub open spec fn token_at(s: Seq<char>, from: int) -> Seq<char>
    recommends
        0 <= from <= s.len(),
{
    let start = token_start(s, from);
    s.subrange(start, token_end(s, start))
}

/// The first whitespace-delimited token of `s`; empty if `s` is blank.
pub open spec fn first_token(s: Seq<char>) -> Seq<char> {
    token_at(s, 0)
}

/// The second whitespace-delimited token of `s`; empty if `s` has fewer than two.
pub open spec fn second_token(s: Seq<char>) -> Seq<char> {
    token_at(s, token_end(s, token_start(s, 0)))
}

/// One past the last position that holds a character other than whitespace,
/// or 0 if there is none.
pub open spec fn trimmed_end(s: Seq<char>) -> int
    decreases s.len(),
{
    if s.len() == 0 {
        0
    } else if !is_whitespace(s.last()) {
        s.len() as int
    } else {
        trimmed_end(s.drop_last())
    }
}

/// `s` without its leading and trailing whitespace.
pub open spec fn trim(s: Seq<char>) -> Seq<char> {
    let start = token_start(s, 0);
    let end = trimmed_end(s);
    if start < end {
        s.subrange(start, end)
    } else {
        Seq::empty()
    }
}

/// What `token_start` finds: everything skipped is whitespace, and the
/// position found is not, unless the text ran out.
pub proof fn lemma_token_start(s: Seq<char>, from: int)
    requires
        0 <= from <= s.len(),
    ensures
        from <= token_start(s, from) <= s.len(),
        forall|i: int| from <= i < token_start(s, from) ==> is_whitespace(#[trigger] s[i]),
        token_start(s, from) < s.len() ==> !is_whitespace(s[token_start(s, from)]),
    decreases s.len() - from,
{
    if from < s.len() && is_whitespace(s[from]) {
        lemma_token_start(s, from + 1);
    }
}

/// What `token_end` finds: nothing skipped is whitespace, and the position
/// found is, unless the text ran out.
pub proof fn lemma_token_end(s: Seq<char>, from: int)
    requires
        0 <= from <= s.len(),
    ensures
        from <= token_end(s, from) <= s.len(),
        forall|i: int| from <= i < token_end(s, from) ==> !is_whitespace(#[trigger] s[i]),
        token_end(s, from) < s.len() ==> is_whitespace(s[token_end(s, from)]),
    decreases s.len() - from,
{
    if from < s.len() && !is_whitespace(s[from]) {
        lemma_token_end(s, from + 1);
    }
}

/// What `trimmed_end` finds: everything from it on is whitespace, and the
/// character before it is not.
pub proof fn lemma_trimmed_end(s: Seq<char>)
    ensures
        0 <= trimmed_end(s) <= s.len(),
        forall|i: int| trimmed_end(s) <= i < s.len() ==> is_whitespace(#[trigger] s[i]),
        trimmed_end(s) > 0 ==> !is_whitespace(s[trimmed_end(s) - 1]),
    decreases s.len(),
{
    if s.len() > 0 && is_whitespace(s.last()) {
        let front = s.drop_last();
        lemma_trimmed_end(front);
        assert forall|i: int| trimmed_end(s) <= i < s.len() implies is_whitespace(
            #[trigger] s[i],
        ) by {
            if i < front.len() {
                assert(s[i] == front[i]);
            }
        }
    }
}

/// A token holds no whitespace, and is empty only where nothing but
/// whitespace is left.
pub proof fn lemma_token_at(s: Seq<char>, from: int)
    requires
        0 <= from <= s.len(),
    ensures
        forall|i: int| 0 <= i < token_at(s, from).len() ==> !is_whitespace(
            #[trigger] token_at(s, from)[i],
        ),
        token_at(s, from).len() == 0 <==> is_blank(s.skip(from)),
{
    let start = token_start(s, from);
    lemma_token_start(s, from);
    lemma_token_end(s, start);
    let rest = s.skip(from);
    if start < s.len() {
        assert(token_end(s, start) > start);
        assert(rest[start - from] == s[start]);
    } else {
        assert forall|i: int| 0 <= i < rest.len() implies is_whitespace(#[trigger] rest[i]) by {
            assert(rest[i] == s[from + i]);
        }
    }
}

/// Trimming leaves nothing exactly of the blank texts, and what it leaves
/// begins and ends with a character other than whitespace.
pub proof fn lemma_trim(s: Seq<char>)
    ensures
        trim(s).len() == 0 <==> is_blank(s),
        trim(s).len() > 0 ==> !is_whitespace(trim(s).first()) && !is_whitespace(trim(s).last()),
        is_blank(s) <==> token_start(s, 0) == s.len(),
{
    let start = token_start(s, 0);
    let end = trimmed_end(s);
    lemma_token_start(s, 0);
    lemma_trimmed_end(s);
    if start < s.len() {
        assert(!is_whitespace(s[start]));
        assert(start < end);
    } else {
        if end > 0 {
            assert(!is_whitespace(s[end - 1]));
        }
    }
}

/// Decides `is_whitespace` for one character.
pub fn char_is_whitespace(c: char) -> (b: bool)
    ensures
        b == is_whitespace(c),
{
    let n: u32 = c as u32;
    (0x09 <= n && n <= 0x0D) || n == 0x20 || n == 0x85 || n == 0xA0 || n == 0x1680 || (0x2000 <= n
        && n <= 0x200A) || n == 0x2028 || n == 0x2029 || n == 0x202F || n == 0x205F || n == 0x3000
}

/// The characters of `s`, in order.
pub fn chars_of(s: &str) -> (v: Vec<char>)
    ensures
        v@ == s@,
{
    let mut v: Vec<char> = Vec::new();
    for c in it: s.chars()
        invariant
            v@ == it.seq().take(it.index()),
            it.seq() == s@,
    {
        v.push(c);
    }
    v
}

/// Whether two texts hold the same characters.
pub fn same_text(a: &str, b: &str) -> (same: bool)
    ensures
        same == (a@ == b@),
{
    let x = chars_of(a);
    let y = chars_of(b);
    if x.len() != y.len() {
        return false;
    }
    let mut i: usize = 0;
    while i < x.len()
        invariant
            i <= x.len(),
            x.len() == y.len(),
            x@ == a@,
            y@ == b@,
            forall|j: int| 0 <= j < i ==> x@[j] == y@[j],
        decreases x.len() - i,
    {
        if x[i] != y[i] {
            return false;
        }
        i += 1;
    }
    assert(x@ =~= y@);
    true
}

/// Whether `s` holds nothing but whitespace.
pub fn is_blank_text(s: &str) -> (blank: bool)
    ensures
        blank == is_blank(s@),
{
    let chars = chars_of(s);
    proof {
        lemma_trim(chars@);
    }
    find_token_start(&chars, 0) == chars.len()
}

/// Skips whitespace from `from` on.
pub fn find_token_start(chars: &Vec<char>, from: usize) -> (start: usize)
    requires
        from <= chars.len(),
    ensures
        start == token_start(chars@, from as int),
        from <= start <= chars.len(),
{
    let mut i: usize = from;
    while i < chars.len() && char_is_whitespace(chars[i])
        invariant
            from <= i <= chars.len(),
            token_start(chars@, from as int) == token_start(chars@, i as int),
        decreases chars.len() - i,
    {
        i += 1;
    }
    i
}

/// Skips characters other than whitespace from `from` on.
pub fn find_token_end(chars: &Vec<char>, from: usize) -> (end: usize)
    requires
        from <= chars.len(),
    ensures
        end == token_end(chars@, from as int),
        from <= end <= chars.len(),
{
    let mut i: usize = from;
    while i < chars.len() && !char_is_whitespace(chars[i])
        invariant
            from <= i <= chars.len(),
            token_end(chars@, from as int) == token_end(chars@, i as int),
        decreases chars.len() - i,
    {
        i += 1;
    }
    i
}

/// Walks back over trailing whitespace.
pub fn find_trimmed_end(chars: &Vec<char>) -> (end: usize)
    ensures
        end == trimmed_end(chars@),
        end <= chars.len(),
{
    let mut i: usize = chars.len();
    assert(chars@.take(i as int) =~= chars@);
    while i > 0 && char_is_whitespace(chars[i - 1])
        invariant
            i <= chars.len(),
            trimmed_end(chars@) == trimmed_end(chars@.take(i as int)),
        decreases i,
    {
        assert(chars@.take(i as int).drop_last() =~= chars@.take(i - 1));
        i -= 1;
    }
    i
}

/// The bounds of `trim`: `chars[start..end]` is the text without its
/// leading and trailing whitespace.
pub fn trim_bounds(chars: &Vec<char>) -> (bounds: (usize, usize))
    ensures
        bounds.0 <= bounds.1 <= chars.len(),
        chars@.subrange(bounds.0 as int, bounds.1 as int) == trim(chars@),
{
    let start: usize = find_token_start(chars, 0);
    let end: usize = find_trimmed_end(chars);
    if start < end {
        (start, end)
    } else {
        (0, 0)
    }
}

/// `String::push` of the standard library: appends the one character `c` to
/// the end of `s` and leaves what was there as it was.
#[verifier::external_body]
pub(crate) fn push_char(s: &mut String, c: char)
    ensures
        final(s)@ == old(s)@.push(c),
{
    s.push(c);
}

/// `String::pop` of the standard library: takes the last character off `s`
/// and returns it, or returns `None` and changes nothing if `s` is empty.
#[verifier::external_body]
pub(crate) fn pop_char(s: &mut String) -> (last: Option<char>)
    ensures
        old(s)@.len() == 0 ==> last is None && final(s)@ == old(s)@,
        old(s)@.len() > 0 ==> last == Some(old(s)@.last()) && final(s)@ == old(s)@.drop_last(),
{
    s.pop()
}

} // verus!
