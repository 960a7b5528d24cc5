//! Text primitives over sequences of characters.
//!
//! A string is modelled by its sequence of characters. The scanning functions work on slices of
//! characters, so that a large text is decoded once and then cut without copying.
use vstd::prelude::*;
use vstd::slice::slice_subrange;

verus! {

/// `String::push` appends the given character at the end of the string.
pub assume_specification[ String::push ](s: &mut String, c: char)
    ensures
        final(s)@ == old(s)@.push(c),
;

// ---------------------------------------------------------------------------------------------
// Conversions
// ---------------------------------------------------------------------------------------------

/// The characters of `s`, in order.
pub fn chars_of(s: &str) -> (v: Vec<char>)
    ensures
        v@ == s@,
{
    let mut v: Vec<char> = Vec::new();
    for c in it: s.chars()
        invariant
            v@ == it.seq().take(it.index() as int),
            it.seq() == s@,
    {
        v.push(c);
    }
    v
}

/// The string made of `chars`.
pub fn string_of(chars: &[char]) -> (s: String)
    ensures
        s@ == chars@,
{
    let mut s = String::new();
    push_chars(&mut s, chars);
    s
}

/// Appends `chars` to `s`.
pub fn push_chars(s: &mut String, chars: &[char])
    ensures
        final(s)@ == old(s)@ + chars@,
{
    let mut i: usize = 0;
    while i < chars.len()
        invariant
            i <= chars@.len(),
            s@ == old(s)@ + chars@.take(i as int),
        decreases chars@.len() - i,
    {
        s.push(chars[i]);
        i = i + 1;
        assert(chars@.take(i as int) =~= chars@.take(i - 1).push(chars@[i - 1]));
    }
    assert(chars@.take(i as int) =~= chars@);
}

/// Appends `other` to `s`.
pub fn push_text(s: &mut String, other: &str)
    ensures
        final(s)@ == old(s)@ + other@,
{
    let chars = chars_of(other);
    push_chars(s, chars.as_slice());
}

/// What an optional string holds, as an optional sequence of characters.
pub open spec fn optional(s: Option<String>) -> Option<Seq<char>> {
    match s {
        Some(s) => Some(s@),
        None => None,
    }
}

/// A copy of an optional string.
pub fn copy_optional(s: &Option<String>) -> (r: Option<String>)
    ensures
        optional(r) == optional(*s),
{
    match s {
        Some(s) => Some(s.clone()),
        None => None,
    }
}

/// What a list of strings holds.
pub open spec fn texts(v: Seq<String>) -> Seq<Seq<char>> {
    v.map_values(|s: String| s@)
}

/// Whether the two slices hold the same characters.
pub fn same_chars(a: &[char], b: &[char]) -> (r: bool)
    ensures
        r == (a@ == b@),
{
    if a.len() != b.len() {
        return false;
    }
    let mut i: usize = 0;
    while i < a.len()
        invariant
            i <= a@.len(),
            a@.len() == b@.len(),
            forall|j: int| 0 <= j < i ==> a@[j] == b@[j],
        decreases a@.len() - i,
    {
        if a[i] != b[i] {
            return false;
        }
        i = i + 1;
    }
    assert(a@ =~= b@);
    true
}

/// Whether the two strings are equal.
pub fn same_text(a: &str, b: &str) -> (r: bool)
    ensures
        r == (a@ == b@),
{
    let x = chars_of(a);
    let y = chars_of(b);
    same_chars(x.as_slice(), y.as_slice())
}

// ---------------------------------------------------------------------------------------------
// Searching
// ---------------------------------------------------------------------------------------------

/// Whether `pat` occurs in `s` at position `i`.
pub open spec fn occurs_at(s: Seq<char>, pat: Seq<char>, i: int) -> bool {
    &&& 0 <= i
    &&& i + pat.len() <= s.len()
    &&& s.subrange(i, i + pat.len()) == pat
}

/// Whether `s` starts with `pat`.
pub open spec fn starts_with(s: Seq<char>, pat: Seq<char>) -> bool {
    occurs_at(s, pat, 0)
}

/// Whether `pat` occurs somewhere in `s`.
pub open spec fn contains(s: Seq<char>, pat: Seq<char>) -> bool {
    exists|i: int| occurs_at(s, pat, i)
}

/// Whether the leftmost occurrence of `pat` in `s` is at position `i`.
pub open spec fn first_at(s: Seq<char>, pat: Seq<char>, i: int) -> bool {
    &&& occurs_at(s, pat, i)
    &&& forall|j: int| 0 <= j < i ==> !occurs_at(s, pat, j)
}

/// The part of `s` before the leftmost occurrence of `pat`; all of `s` if there is none.
pub open spec fn before(s: Seq<char>, pat: Seq<char>) -> Seq<char> {
    if contains(s, pat) {
        s.take(choose|i: int| first_at(s, pat, i))
    } else {
        s
    }
}

/// The part of `s` after the leftmost occurrence of `pat`, if there is one.
pub open spec fn after(s: Seq<char>, pat: Seq<char>) -> Option<Seq<char>> {
    if contains(s, pat) {
        Some(s.skip((choose|i: int| first_at(s, pat, i)) + pat.len()))
    } else {
        None
    }
}

/// There is only one leftmost occurrence, and it cuts `s` in two.
pub proof fn lemma_first_at(s: Seq<char>, pat: Seq<char>, i: int)
    requires
        first_at(s, pat, i),
    ensures
        contains(s, pat),
        before(s, pat) == s.take(i),
        after(s, pat) == Some(s.skip(i + pat.len())),
{
    let k = choose|k: int| first_at(s, pat, k);
    assert(first_at(s, pat, k));
    assert(k == i);
}

/// Where `pat` occurs in `s`, there is a leftmost occurrence at or before that position.
pub proof fn lemma_first_exists(s: Seq<char>, pat: Seq<char>, i: int) -> (k: int)
    requires
        occurs_at(s, pat, i),
    ensures
        first_at(s, pat, k),
        k <= i,
    decreases i,
{
    if exists|j: int| 0 <= j < i && occurs_at(s, pat, j) {
        let j = choose|j: int| 0 <= j < i && occurs_at(s, pat, j);
        lemma_first_exists(s, pat, j)
    } else {
        i
    }
}

/// What follows an occurrence of a pattern that is not empty is shorter than the text.
pub proof fn lemma_after_is_shorter(s: Seq<char>, pat: Seq<char>)
    requires
        pat.len() > 0,
    ensures
        after(s, pat) matches Some(rest) ==> rest.len() < s.len(),
{
    if contains(s, pat) {
        let i = choose|i: int| occurs_at(s, pat, i);
        let k = lemma_first_exists(s, pat, i);
        lemma_first_at(s, pat, k);
    }
}

/// What stands before a pattern is taken from the text.
pub proof fn lemma_before_holds(s: Seq<char>, pat: Seq<char>, c: char)
    requires
        before(s, pat).contains(c),
    ensures
        s.contains(c),
{
    if contains(s, pat) {
        let i = choose|i: int| occurs_at(s, pat, i);
        let k = lemma_first_exists(s, pat, i);
        lemma_first_at(s, pat, k);
        let j = choose|j: int| 0 <= j < before(s, pat).len() && before(s, pat)[j] == c;
        assert(s[j] == c);
    }
}

/// What stands before the first of a character does not hold it.
pub proof fn lemma_before_lacks(s: Seq<char>, c: char)
    ensures
        !before(s, seq![c]).contains(c),
{
    let pat = seq![c];
    let b = before(s, pat);
    if b.contains(c) {
        let j = choose|j: int| 0 <= j < b.len() && b[j] == c;
        if contains(s, pat) {
            let i = choose|i: int| occurs_at(s, pat, i);
            let k = lemma_first_exists(s, pat, i);
            lemma_first_at(s, pat, k);
        }
        assert(s.subrange(j, j + 1) =~= pat);
        assert(occurs_at(s, pat, j));
    }
}

/// Nothing is cut off before an occurrence but what stands before it.
pub proof fn lemma_first_at_bound(s: Seq<char>, pat: Seq<char>, i: int)
    requires
        occurs_at(s, pat, i),
    ensures
        before(s, pat).len() <= i,
{
    let k = lemma_first_exists(s, pat, i);
    lemma_first_at(s, pat, k);
}

/// Whether `pat` occurs in `s` at position `i`.
pub fn matches_at(s: &[char], pat: &[char], i: usize) -> (r: bool)
    ensures
        r == occurs_at(s@, pat@, i as int),
{
    let n: usize = s.len();
    if i > n || pat.len() > n - i {
        return false;
    }
    let mut j: usize = 0;
    while j < pat.len()
        invariant
            j <= pat@.len(),
            i + pat@.len() <= s@.len(),
            n == s@.len(),
            forall|k: int| 0 <= k < j ==> s@[i + k] == pat@[k],
        decreases pat@.len() - j,
    {
        if s[i + j] != pat[j] {
            assert(s@.subrange(i as int, i + pat@.len())[j as int] != pat@[j as int]);
            return false;
        }
        j = j + 1;
    }
    assert(s@.subrange(i as int, i + pat@.len()) =~= pat@);
    true
}

/// The position of the leftmost occurrence of `pat` in `s`.
pub fn find(s: &[char], pat: &[char]) -> (r: Option<usize>)
    ensures
        match r {
            Some(i) => first_at(s@, pat@, i as int),
            None => !contains(s@, pat@),
        },
{
    if pat.len() > s.len() {
        return None;
    }
    let last: usize = s.len() - pat.len();
    let mut i: usize = 0;
    while i <= last
        invariant
            i <= last + 1,
            last + pat@.len() == s@.len(),
            s@.len() <= usize::MAX,
            forall|j: int| 0 <= j < i ==> !occurs_at(s@, pat@, j),
        decreases last + 1 - i,
    {
        if matches_at(s, pat, i) {
            return Some(i);
        }
        if i == last {
            return None;
        }
        i = i + 1;
    }
    None
}

/// Whether `pat` occurs in `s`.
pub fn has(s: &[char], pat: &[char]) -> (r: bool)
    ensures
        r == contains(s@, pat@),
{
    find(s, pat).is_some()
}

/// Whether `s` starts with `pat`.
pub fn has_prefix(s: &[char], pat: &[char]) -> (r: bool)
    ensures
        r == starts_with(s@, pat@),
{
    matches_at(s, pat, 0)
}

/// Cuts `s` before the leftmost occurrence of `pat`.
pub fn cut_before<'a>(s: &'a [char], pat: &[char]) -> (r: &'a [char])
    ensures
        r@ == before(s@, pat@),
{
    match find(s, pat) {
        Some(i) => {
            proof {
                lemma_first_at(s@, pat@, i as int);
            }
            slice_subrange(s, 0, i)
        },
        None => s,
    }
}

/// Cuts `s` after the leftmost occurrence of `pat`.
pub fn cut_after<'a>(s: &'a [char], pat: &[char]) -> (r: Option<&'a [char]>)
    ensures
        match r {
            Some(t) => after(s@, pat@) == Some(t@),
            None => after(s@, pat@) is None,
        },
{
    match find(s, pat) {
        Some(i) => {
            proof {
                lemma_first_at(s@, pat@, i as int);
            }
            let n: usize = s.len();
            Some(slice_subrange(s, i + pat.len(), n))
        },
        None => None,
    }
}

// ---------------------------------------------------------------------------------------------
// White space
// ---------------------------------------------------------------------------------------------

/// Whether `c` has the Unicode `White_Space` property.
pub open spec fn white_space(c: char) -> bool {
    let u = c as u32;
    ||| 0x9 <= u <= 0xd
    ||| u == 0x20
    ||| u == 0x85
    ||| u == 0xa0
    ||| u == 0x1680
    ||| 0x2000 <= u <= 0x200a
    ||| u == 0x2028
    ||| u == 0x2029
    ||| u == 0x202f
    ||| u == 0x205f
    ||| u == 0x3000
}

/// `s` without its leading white space.
pub open spec fn trimmed_start(s: Seq<char>) -> Seq<char>
    decreases s.len(),
{
    if s.len() > 0 && white_space(s[0]) {
        trimmed_start(s.drop_first())
    } else {
        s
    }
}

/// `s` without its trailing white space.
pub open spec fn trimmed_end(s: Seq<char>) -> Seq<char>
    decreases s.len(),
{
    if s.len() > 0 && white_space(s.last()) {
        trimmed_end(s.drop_last())
    } else {
        s
    }
}

/// `s` without its leading and trailing white space.
pub open spec fn trimmed(s: Seq<char>) -> Seq<char> {
    trimmed_end(trimmed_start(s))
}

/// The longest prefix of `s` that holds no white space.
pub open spec fn first_word(s: Seq<char>) -> Seq<char>
    decreases s.len(),
{
    if s.len() == 0 || white_space(s[0]) {
        Seq::empty()
    } else {
        seq![s[0]] + first_word(s.drop_first())
    }
}

/// The first word is a prefix.
pub proof fn lemma_first_word_len(s: Seq<char>)
    ensures
        first_word(s).len() <= s.len(),
        first_word(s) == s.take(first_word(s).len() as int),
        s.len() > 0 && !white_space(s[0]) ==> first_word(s).len() > 0,
    decreases s.len(),
{
    if s.len() == 0 || white_space(s[0]) {
        assert(s.take(0) =~= Seq::empty());
    } else {
        lemma_first_word_len(s.drop_first());
        let w = first_word(s.drop_first());
        assert(s.take(w.len() as int + 1) =~= seq![s[0]] + s.drop_first().take(w.len() as int));
    }
}

/// Trimming shortens, and leaves no white space at the start.
pub proof fn lemma_trimmed_start_len(s: Seq<char>)
    ensures
        trimmed_start(s).len() <= s.len(),
        trimmed_start(s).len() > 0 ==> !white_space(trimmed_start(s)[0]),
    decreases s.len(),
{
    if s.len() > 0 && white_space(s[0]) {
        lemma_trimmed_start_len(s.drop_first());
    }
}

/// The pieces of `s` between runs of white space.
pub open spec fn words(s: Seq<char>) -> Seq<Seq<char>>
    decreases s.len(),
{
    let t = trimmed_start(s);
    if t.len() == 0 {
        Seq::empty()
    } else {
        proof {
            lemma_trimmed_start_len(s);
            lemma_first_word_len(t);
        }
        let w = first_word(t);
        seq![w] + words(t.skip(w.len() as int))
    }
}

/// Trimming leaves a text alone that neither starts nor ends with white space.
pub proof fn lemma_trimmed_already(s: Seq<char>)
    requires
        s.len() > 0 ==> !white_space(s[0]) && !white_space(s.last()),
    ensures
        trimmed(s) == s,
{
}

/// White space in front is trimmed off.
pub proof fn lemma_trimmed_start_skips(gap: Seq<char>, s: Seq<char>)
    requires
        forall|i: int| 0 <= i < gap.len() ==> white_space(#[trigger] gap[i]),
    ensures
        trimmed_start(gap + s) == trimmed_start(s),
    decreases gap.len(),
{
    if gap.len() == 0 {
        assert(gap + s =~= s);
    } else {
        assert(white_space(gap[0]));
        let rest = gap.drop_first();
        assert forall|i: int| 0 <= i < rest.len() implies white_space(#[trigger] rest[i]) by {
            assert(rest[i] == gap[i + 1]);
        }
        assert((gap + s).drop_first() =~= rest + s);
        lemma_trimmed_start_skips(rest, s);
    }
}

/// Trimming the end keeps what stands before a character that is no white space.
pub proof fn lemma_trimmed_end_keeps(s: Seq<char>, i: int)
    requires
        0 <= i < s.len(),
        !white_space(s[i]),
    ensures
        i < trimmed_end(s).len() <= s.len(),
        trimmed_end(s) == s.take(trimmed_end(s).len() as int),
    decreases s.len(),
{
    lemma_trimmed_end_prefix(s);
    if white_space(s.last()) {
        lemma_trimmed_end_keeps(s.drop_last(), i);
    }
}

/// White space behind is trimmed off.
pub proof fn lemma_trimmed_end_skips(s: Seq<char>, gap: Seq<char>)
    requires
        forall|i: int| 0 <= i < gap.len() ==> white_space(#[trigger] gap[i]),
    ensures
        trimmed_end(s + gap) == trimmed_end(s),
    decreases gap.len(),
{
    if gap.len() == 0 {
        assert(s + gap =~= s);
    } else {
        assert(white_space(gap[gap.len() - 1]));
        let rest = gap.drop_last();
        assert forall|i: int| 0 <= i < rest.len() implies white_space(#[trigger] rest[i]) by {
            assert(rest[i] == gap[i]);
        }
        assert((s + gap).drop_last() =~= s + rest);
        lemma_trimmed_end_skips(s, rest);
    }
}

/// White space around a text that has none at its ends is trimmed off.
pub proof fn lemma_trimmed_strips(front: Seq<char>, s: Seq<char>, back: Seq<char>)
    requires
        forall|i: int| 0 <= i < front.len() ==> white_space(#[trigger] front[i]),
        forall|i: int| 0 <= i < back.len() ==> white_space(#[trigger] back[i]),
        s.len() > 0,
        !white_space(s[0]),
        !white_space(s.last()),
    ensures
        trimmed(front + s + back) == s,
{
    assert(front + s + back =~= front + (s + back));
    lemma_trimmed_start_skips(front, s + back);
    assert((s + back)[0] == s[0]);
    lemma_trimmed_end_skips(s, back);
}

/// Trimming adds no character.
pub proof fn lemma_trimmed_holds(s: Seq<char>, c: char)
    requires
        trimmed(s).contains(c),
    ensures
        s.contains(c),
{
    let t = trimmed_start(s);
    lemma_trimmed_end_prefix(t);
    let i = choose|i: int| 0 <= i < trimmed(s).len() && trimmed(s)[i] == c;
    assert(t[i] == c);
    assert(t.contains(c));
    lemma_trimmed_start_holds(s, c);
}

proof fn lemma_trimmed_start_holds(s: Seq<char>, c: char)
    requires
        trimmed_start(s).contains(c),
    ensures
        s.contains(c),
    decreases s.len(),
{
    if s.len() > 0 && white_space(s[0]) {
        lemma_trimmed_start_holds(s.drop_first(), c);
        let i = choose|i: int| 0 <= i < s.drop_first().len() && s.drop_first()[i] == c;
        assert(s[i + 1] == c);
    }
}

/// A text of white space alone is trimmed to nothing, and no other is.
pub proof fn lemma_blank(s: Seq<char>)
    ensures
        trimmed(s).len() == 0 <==> (forall|i: int|
            0 <= i < s.len() ==> white_space(#[trigger] s[i])),
    decreases s.len(),
{
    if s.len() == 0 {
    } else if white_space(s[0]) {
        let rest = s.drop_first();
        lemma_blank(rest);
        assert forall|i: int| 0 <= i < rest.len() && white_space(s[i + 1]) implies white_space(
            #[trigger] rest[i],
        ) by {}
        assert forall|i: int| 1 <= i < s.len() && white_space(rest[i - 1]) implies white_space(
            #[trigger] s[i],
        ) by {}
    } else {
        lemma_trimmed_end_keeps(s, 0);
    }
}

/// What trimming leaves neither starts nor ends with white space.
pub proof fn lemma_trimmed_ends(s: Seq<char>)
    ensures
        trimmed(s).len() > 0 ==> !white_space(trimmed(s)[0]) && !white_space(trimmed(s).last()),
{
    lemma_trimmed_start_len(s);
    lemma_trimmed_end_prefix(trimmed_start(s));
}

proof fn lemma_trimmed_end_prefix(s: Seq<char>)
    ensures
        trimmed_end(s).len() <= s.len(),
        trimmed_end(s) == s.take(trimmed_end(s).len() as int),
        trimmed_end(s).len() > 0 ==> !white_space(trimmed_end(s).last()),
    decreases s.len(),
{
    if s.len() > 0 && white_space(s.last()) {
        lemma_trimmed_end_prefix(s.drop_last());
        let n = trimmed_end(s).len() as int;
        assert(s.drop_last().take(n) =~= s.take(n));
    } else {
        assert(s.take(s.len() as int) =~= s);
    }
}

/// Whether `c` has the Unicode `White_Space` property.
pub fn is_white_space(c: char) -> (b: bool)
    ensures
        b == white_space(c),
{
    let u: u32 = c as u32;
    (0x9 <= u && u <= 0xd) || u == 0x20 || u == 0x85 || u == 0xa0 || u == 0x1680 || (0x2000 <= u
        && u <= 0x200a) || u == 0x2028 || u == 0x2029 || u == 0x202f || u == 0x205f || u == 0x3000
}

/// Cuts the leading white space off.
pub fn trim_start(s: &[char]) -> (r: &[char])
    ensures
        r@ == trimmed_start(s@),
{
    let mut i: usize = 0;
    assert(s@.skip(0) =~= s@);
    while i < s.len() && is_white_space(s[i])
        invariant
            i <= s@.len(),
            trimmed_start(s@) == trimmed_start(s@.skip(i as int)),
        decreases s@.len() - i,
    {
        assert(s@.skip(i as int).drop_first() =~= s@.skip(i + 1));
        i = i + 1;
    }
    slice_subrange(s, i, s.len())
}

/// Cuts the trailing white space off.
pub fn trim_end(s: &[char]) -> (r: &[char])
    ensures
        r@ == trimmed_end(s@),
{
    let mut n: usize = s.len();
    assert(s@.take(n as int) =~= s@);
    while n > 0 && is_white_space(s[n - 1])
        invariant
            n <= s@.len(),
            trimmed_end(s@) == trimmed_end(s@.take(n as int)),
        decreases n,
    {
        assert(s@.take(n as int).drop_last() =~= s@.take(n - 1));
        n = n - 1;
    }
    slice_subrange(s, 0, n)
}

/// Cuts the white space off at both ends.
pub fn trim(s: &[char]) -> (r: &[char])
    ensures
        r@ == trimmed(s@),
{
    trim_end(trim_start(s))
}

/// The first word of `s` and what follows it.
pub fn next_word(s: &[char]) -> (r: Option<(&[char], &[char])>)
    ensures
        match r {
            Some((w, rest)) => words(s@) == seq![w@] + words(rest@),
            None => words(s@).len() == 0,
        },
{
    let t = trim_start(s);
    if t.len() == 0 {
        return None;
    }
    let mut n: usize = 0;
    proof {
        assert(t@.skip(0) =~= t@);
        assert(t@.take(0) + first_word(t@.skip(0)) =~= first_word(t@));
    }
    while n < t.len() && !is_white_space(t[n])
        invariant
            n <= t@.len(),
            first_word(t@) == t@.take(n as int) + first_word(t@.skip(n as int)),
        decreases t@.len() - n,
    {
        proof {
            let w = first_word(t@.skip(n + 1));
            assert(t@.skip(n as int).drop_first() =~= t@.skip(n + 1));
            assert(t@.take(n + 1) + w =~= t@.take(n as int) + (seq![t@[n as int]] + w));
        }
        n = n + 1;
    }
    assert(first_word(t@) =~= t@.take(n as int));
    Some((slice_subrange(t, 0, n), slice_subrange(t, n, t.len())))
}

// ---------------------------------------------------------------------------------------------
// Lines
// ---------------------------------------------------------------------------------------------

/// The line terminator.
pub open spec fn newline() -> Seq<char> {
    seq!['\n']
}

/// `s` without one carriage return at its end.
pub open spec fn without_return(s: Seq<char>) -> Seq<char> {
    if s.len() > 0 && s.last() == '\r' {
        s.drop_last()
    } else {
        s
    }
}

/// The lines of `s`: each ends at a line feed, or at a carriage return and a line feed, or at the
/// end of the text. The ends are not part of the lines, and a text that ends with a line feed has
/// no empty line behind it.
pub open spec fn lines(s: Seq<char>) -> Seq<Seq<char>>
    decreases s.len(),
{
    if s.len() == 0 {
        Seq::empty()
    } else {
        match after(s, newline()) {
            Some(rest) => {
                proof {
                    lemma_after_is_shorter(s, newline());
                }
                seq![without_return(before(s, newline()))] + lines(rest)
            },
            None => seq![s],
        }
    }
}

/// A line holds no line feed.
pub proof fn lemma_lines_hold_no_newline(s: Seq<char>, k: int)
    requires
        0 <= k < lines(s).len(),
    ensures
        !lines(s)[k].contains('\n'),
    decreases s.len(),
{
    let nl = newline();
    match after(s, nl) {
        Some(rest) => {
            lemma_after_is_shorter(s, nl);
            if k == 0 {
                lemma_before_lacks(s, '\n');
                let b = before(s, nl);
                let l = without_return(b);
                if l.contains('\n') {
                    let i = choose|i: int| 0 <= i < l.len() && l[i] == '\n';
                    assert(b[i] == '\n');
                    assert(b.contains('\n'));
                }
            } else {
                lemma_lines_hold_no_newline(rest, k - 1);
            }
        },
        None => {
            lemma_before_lacks(s, '\n');
            assert(lines(s)[k] == s);
        },
    }
}

/// A line that is followed by a line feed is the first line of the text.
pub proof fn lemma_lines_first(line: Seq<char>, rest: Seq<char>)
    requires
        !line.contains('\n'),
    ensures
        lines(line + newline() + rest) == seq![without_return(line)] + lines(rest),
{
    let s = line + newline() + rest;
    let n = line.len() as int;
    assert(s.subrange(n, n + 1) =~= newline());
    assert forall|j: int| 0 <= j < n implies !occurs_at(s, newline(), j) by {
        assert(s.subrange(j, j + 1)[0] == line[j]);
        assert(line.contains(line[j]));
    }
    lemma_first_at(s, newline(), n);
    assert(s.take(n) =~= line);
    assert(s.skip(n + 1) =~= rest);
}

/// A text that is not empty and holds no line feed is its only line.
pub proof fn lemma_lines_last(line: Seq<char>)
    requires
        !line.contains('\n'),
        line.len() > 0,
    ensures
        lines(line) == seq![line],
{
    assert forall|j: int| !occurs_at(line, newline(), j) by {
        if occurs_at(line, newline(), j) {
            assert(line.subrange(j, j + 1)[0] == '\n');
            assert(line[j] == '\n');
        }
    }
}

/// The first line of a text that is not empty, and the text after it.
pub fn next_line(s: &[char]) -> (r: (&[char], &[char]))
    requires
        s@.len() > 0,
    ensures
        lines(s@) == seq![r.0@] + lines(r.1@),
        r.1@.len() < s@.len(),
{
    let mut nl: Vec<char> = Vec::new();
    nl.push('\n');
    assert(nl@ =~= newline());
    match find(s, nl.as_slice()) {
        Some(i) => {
            proof {
                lemma_first_at(s@, newline(), i as int);
            }
            let mut n: usize = i;
            if n > 0 && s[n - 1] == '\r' {
                n = n - 1;
                assert(s@.take(i as int).drop_last() =~= s@.take(n as int));
            }
            (slice_subrange(s, 0, n), slice_subrange(s, i + 1, s.len()))
        },
        None => {
            let rest = slice_subrange(s, s.len(), s.len());
            assert(lines(rest@) =~= Seq::empty());
            assert(seq![s@] + lines(rest@) =~= seq![s@]);
            (s, rest)
        },
    }
}

// ---------------------------------------------------------------------------------------------
// Decimal numbers
// ---------------------------------------------------------------------------------------------

/// Whether `c` is a decimal digit.
pub open spec fn digit(c: char) -> bool {
    '0' <= c <= '9'
}

/// The decimal digit of value `d`.
pub open spec fn digit_char(d: nat) -> char {
    (('0' as u32) + d) as char
}

/// The number that a string of decimal digits denotes.
pub open spec fn number(s: Seq<char>) -> nat
    decreases s.len(),
{
    if s.len() == 0 {
        0
    } else {
        number(s.drop_last()) * 10 + ((s.last() as u32) - ('0' as u32)) as nat
    }
}

/// The shortest decimal form of `n`.
pub open spec fn decimal(n: nat) -> Seq<char>
    decreases n,
{
    if n < 10 {
        seq![digit_char(n)]
    } else {
        decimal(n / 10).push(digit_char(n % 10))
    }
}

/// `s` without one plus sign at its start.
pub open spec fn unsigned(s: Seq<char>) -> Seq<char> {
    if s.len() > 0 && s[0] == '+' {
        s.drop_first()
    } else {
        s
    }
}

/// The 16-bit number that `s` denotes: an optional plus sign, then decimal digits, at least one.
pub open spec fn parsed_u16(s: Seq<char>) -> Option<u16> {
    let d = unsigned(s);
    if d.len() > 0 && (forall|i: int| 0 <= i < d.len() ==> digit(#[trigger] d[i])) && number(d)
        <= u16::MAX {
        Some(number(d) as u16)
    } else {
        None
    }
}

proof fn lemma_number_grows(s: Seq<char>, i: int)
    requires
        0 <= i <= s.len(),
    ensures
        number(s.take(i)) <= number(s),
    decreases s.len() - i,
{
    if i == s.len() {
        assert(s.take(i) =~= s);
    } else {
        assert(s.take(i + 1).drop_last() =~= s.take(i));
        lemma_number_grows(s, i + 1);
    }
}

/// The decimal form of a number is a string of digits that denotes the number.
pub proof fn lemma_decimal(n: nat)
    ensures
        decimal(n).len() > 0,
        forall|i: int| 0 <= i < decimal(n).len() ==> digit(#[trigger] decimal(n)[i]),
        number(decimal(n)) == n,
    decreases n,
{
    reveal_with_fuel(number, 2);
    if n >= 10 {
        lemma_decimal(n / 10);
        assert(decimal(n).drop_last() =~= decimal(n / 10));
    } else {
        assert(decimal(n).drop_last() =~= Seq::empty());
    }
}

/// Reading the decimal form of a 16-bit number gives the number back.
pub proof fn law_decimal_reads_back(n: u16)
    ensures
        parsed_u16(decimal(n as nat)) == Some(n),
{
    lemma_decimal(n as nat);
    assert(digit(decimal(n as nat)[0]));
}

/// Reads a 16-bit decimal number.
pub fn parse_u16(s: &[char]) -> (r: Option<u16>)
    ensures
        r == parsed_u16(s@),
{
    let d = if s.len() > 0 && s[0] == '+' {
        slice_subrange(s, 1, s.len())
    } else {
        s
    };
    assert(d@ =~= unsigned(s@));
    if d.len() == 0 {
        return None;
    }
    let mut acc: u16 = 0;
    let mut i: usize = 0;
    while i < d.len()
        invariant
            i <= d@.len(),
            d@.len() > 0,
            d@ == unsigned(s@),
            acc == number(d@.take(i as int)),
            forall|j: int| 0 <= j < i ==> digit(#[trigger] d@[j]),
        decreases d@.len() - i,
    {
        let c = d[i];
        if c < '0' || c > '9' {
            assert(!digit(d@[i as int]));
            return None;
        }
        let v: u32 = (c as u32) - ('0' as u32);
        let next: u32 = (acc as u32) * 10 + v;
        proof {
            assert(d@.take(i + 1).drop_last() =~= d@.take(i as int));
            assert(number(d@.take(i + 1)) == next);
            lemma_number_grows(d@, i + 1);
        }
        if next > 65535 {
            return None;
        }
        acc = next as u16;
        i = i + 1;
    }
    assert(d@.take(i as int) =~= d@);
    Some(acc)
}

/// The decimal form of `n`.
pub fn decimal_of(n: u16) -> (s: String)
    ensures
        s@ == decimal(n as nat),
    decreases n,
{
    let digit: u8 = (n % 10) as u8;
    let c: char = (48u8 + digit) as char;
    assert(c == digit_char((n % 10) as nat));
    if n < 10 {
        let mut s = String::new();
        s.push(c);
        assert(s@ =~= decimal(n as nat));
        s
    } else {
        let mut s = decimal_of(n / 10);
        s.push(c);
        s
    }
}


// ---------------------------------------------------------------------------------------------
// Laws
// ---------------------------------------------------------------------------------------------

/// Which characters are white space.
pub proof fn law_white_space(c: char)
    ensures
        white_space(c) <==> {
            ||| '\t' <= c <= '\r'
            ||| c == ' '
            ||| c == '\u{85}'
            ||| c == '\u{a0}'
            ||| c == '\u{1680}'
            ||| '\u{2000}' <= c <= '\u{200a}'
            ||| c == '\u{2028}'
            ||| c == '\u{2029}'
            ||| c == '\u{202f}'
            ||| c == '\u{205f}'
            ||| c == '\u{3000}'
        },
{
}

/// A pattern is contained exactly where some stretch of the text equals it.
pub proof fn law_contained_is_a_stretch(s: Seq<char>, pat: Seq<char>)
    ensures
        contains(s, pat) <==> exists|i: int|
            0 <= i <= s.len() - pat.len() && #[trigger] s.subrange(i, i + pat.len()) == pat,
        starts_with(s, pat) <==> s.len() >= pat.len() && s.take(pat.len() as int) == pat,
{
    if contains(s, pat) {
        let i = choose|i: int| occurs_at(s, pat, i);
        assert(s.subrange(i, i + pat.len()) == pat);
    }
    if exists|i: int| 0 <= i <= s.len() - pat.len() && #[trigger] s.subrange(i, i + pat.len()) == pat {
        let i = choose|i: int|
            0 <= i <= s.len() - pat.len() && #[trigger] s.subrange(i, i + pat.len()) == pat;
        assert(occurs_at(s, pat, i));
    }
    if s.len() >= pat.len() {
        assert(s.subrange(0, pat.len() as int) =~= s.take(pat.len() as int));
    }
}

/// A text is cut at the first stretch that equals the pattern; what stands before and after it,
/// with the pattern between, is the text. Without such a stretch nothing is cut off.
pub proof fn law_cut_at_the_first(front: Seq<char>, pat: Seq<char>, back: Seq<char>)
    requires
        forall|j: int|
            0 <= j < front.len() ==> #[trigger] (front + pat + back).subrange(j, j + pat.len())
                != pat,
    ensures
        before(front + pat + back, pat) == front,
        after(front + pat + back, pat) == Some(back),
{
    let s = front + pat + back;
    let n = front.len() as int;
    assert(s.subrange(n, n + pat.len()) =~= pat);
    assert forall|j: int| 0 <= j < n implies !occurs_at(s, pat, j) by {
        assert(s.subrange(j, j + pat.len()) != pat);
    }
    lemma_first_at(s, pat, n);
    assert(s.take(n) =~= front);
    assert(s.skip(n + pat.len()) =~= back);
}

/// Without a stretch that equals the pattern, nothing is cut off.
pub proof fn law_nothing_is_cut(s: Seq<char>, pat: Seq<char>)
    requires
        forall|j: int|
            0 <= j <= s.len() - pat.len() ==> #[trigger] s.subrange(j, j + pat.len()) != pat,
    ensures
        before(s, pat) == s,
        after(s, pat) is None,
{
    assert forall|j: int| !occurs_at(s, pat, j) by {
        if occurs_at(s, pat, j) {
            assert(s.subrange(j, j + pat.len()) != pat);
        }
    }
}

/// Trimming takes the white space around a text off, and nothing else.
pub proof fn law_trimming_takes_white_space_off(front: Seq<char>, s: Seq<char>, back: Seq<char>)
    requires
        forall|i: int| 0 <= i < front.len() ==> white_space(#[trigger] front[i]),
        forall|i: int| 0 <= i < back.len() ==> white_space(#[trigger] back[i]),
        s.len() > 0 ==> !white_space(s[0]) && !white_space(s.last()),
    ensures
        trimmed(front + s + back) == s,
{
    if s.len() > 0 {
        lemma_trimmed_strips(front, s, back);
    } else {
        let all = front + s + back;
        assert forall|i: int| 0 <= i < all.len() implies white_space(#[trigger] all[i]) by {
            if i < front.len() {
                assert(all[i] == front[i]);
            } else {
                assert(all[i] == back[i - front.len()]);
            }
        }
        lemma_blank(all);
        assert(s =~= trimmed(all));
    }
}

/// Words are the stretches between white space: the first word of a text is followed by those of
/// the rest, and white space alone holds none.
pub proof fn law_words_stand_between_white_space(
    front: Seq<char>,
    word: Seq<char>,
    rest: Seq<char>,
)
    requires
        forall|i: int| 0 <= i < front.len() ==> white_space(#[trigger] front[i]),
        forall|i: int| 0 <= i < word.len() ==> !white_space(#[trigger] word[i]),
        word.len() > 0,
        rest.len() > 0 ==> white_space(rest[0]),
    ensures
        words(front).len() == 0,
        words(front + word + rest) == seq![word] + words(rest),
{
    let text = word + rest;
    assert(front + word + rest =~= front + text);
    lemma_trimmed_start_skips(front, text);
    lemma_trimmed_start_skips(front, Seq::empty());
    assert(front + Seq::<char>::empty() =~= front);
    assert(text[0] == word[0]);
    assert(trimmed_start(text) == text);
    lemma_first_word_of(word, rest);
    assert(text.skip(word.len() as int) =~= rest);
}

/// A word is the first one of the text that it starts.
pub proof fn lemma_first_word_of(word: Seq<char>, rest: Seq<char>)
    requires
        forall|i: int| 0 <= i < word.len() ==> !white_space(#[trigger] word[i]),
        rest.len() > 0 ==> white_space(rest[0]),
    ensures
        first_word(word + rest) == word,
    decreases word.len(),
{
    if word.len() == 0 {
        assert(word + rest =~= rest);
        assert(word =~= Seq::empty());
    } else {
        assert((word + rest).drop_first() =~= word.drop_first() + rest);
        lemma_first_word_of(word.drop_first(), rest);
        assert(seq![word[0]] + word.drop_first() =~= word);
    }
}

/// Lines end with a line feed, or with a carriage return and a line feed; the last may end with
/// the text.
pub proof fn law_lines_end_with_line_feeds(line: Seq<char>, rest: Seq<char>)
    requires
        !line.contains('\n'),
    ensures
        lines(Seq::empty()).len() == 0,
        line.len() > 0 ==> lines(line) == seq![line],
        line.len() == 0 || line.last() != '\r' ==> lines(line + seq!['\n'] + rest) == seq![line]
            + lines(rest),
        lines(line + seq!['\r', '\n'] + rest) == seq![line] + lines(rest),
{
    if line.len() > 0 {
        lemma_lines_last(line);
    }
    lemma_lines_first(line, rest);
    let longer = line + seq!['\r'];
    if longer.contains('\n') {
        let k = choose|k: int| 0 <= k < longer.len() && longer[k] == '\n';
        assert(line[k] == '\n');
    }
    lemma_lines_first(longer, rest);
    assert(longer + newline() + rest =~= line + seq!['\r', '\n'] + rest);
    assert(without_return(longer) =~= line);
}

/// A number is written digit by digit, the ones last, without leading zeros.
pub proof fn law_number_is_written_digit_by_digit(n: nat, d: nat)
    requires
        d < 10,
    ensures
        decimal(d) == seq!["0123456789"@[d as int]],
        n > 0 ==> decimal(n * 10 + d) == decimal(n).push("0123456789"@[d as int]),
{
    reveal_strlit("0123456789");
    assert(digit_char(d) == "0123456789"@[d as int]) by {
        assert(d == 0 || d == 1 || d == 2 || d == 3 || d == 4 || d == 5 || d == 6 || d == 7 || d
            == 8 || d == 9);
    }
    if n > 0 {
        let m: nat = n * 10 + d;
        assert(m / 10 == n && m % 10 == d);
    }
}

/// Only digits make a number, but for one plus sign in front.
pub proof fn law_only_digits_are_a_number(s: Seq<char>, i: int)
    requires
        0 <= i < s.len(),
        !('0' <= s[i] <= '9'),
        !(i == 0 && s[0] == '+'),
    ensures
        parsed_u16(s) is None,
        parsed_u16(Seq::empty()) is None,
        parsed_u16(seq!['+']) is None,
{
    let d = unsigned(s);
    if s[0] == '+' {
        assert(d[i - 1] == s[i]);
        assert(!digit(d[i - 1]));
    } else {
        assert(!digit(d[i]));
    }
    assert(unsigned(seq!['+']).len() == 0);
}

/// A number that fits is read back, and one that does not fit is refused.
pub proof fn law_number_is_read_if_it_fits(n: nat)
    ensures
        n <= 65535 ==> parsed_u16(decimal(n)) == Some(n as u16),
        n > 65535 ==> parsed_u16(decimal(n)) is None,
{
    lemma_decimal(n);
    assert(digit(decimal(n)[0]));
    assert(unsigned(decimal(n)) == decimal(n));
}

proof fn lemma_leading_zero(s: Seq<char>)
    ensures
        number(seq!['0'] + s) == number(s),
    decreases s.len(),
{
    let z = seq!['0'] + s;
    if s.len() == 0 {
        assert(z.drop_last() =~= Seq::empty());
        assert(number(z.drop_last()) == 0);
    } else {
        assert(z.drop_last() =~= seq!['0'] + s.drop_last());
        assert(z.last() == s.last());
        lemma_leading_zero(s.drop_last());
    }
}

/// Neither a plus sign nor a zero in front changes what is read.
pub proof fn law_sign_and_zeros_do_not_matter(s: Seq<char>)
    requires
        s.len() > 0,
        s[0] != '+',
    ensures
        parsed_u16(seq!['+'] + s) == parsed_u16(s),
        parsed_u16(seq!['0'] + s) == parsed_u16(s),
{
    assert((seq!['+'] + s).drop_first() =~= s);
    let z = seq!['0'] + s;
    lemma_leading_zero(s);
    if forall|i: int| 0 <= i < s.len() ==> digit(#[trigger] s[i]) {
        assert forall|i: int| 0 <= i < z.len() implies digit(#[trigger] z[i]) by {
            if i > 0 {
                assert(digit(s[i - 1]));
            }
        }
    } else {
        let i = choose|i: int| 0 <= i < s.len() && !digit(#[trigger] s[i]);
        assert(z[i + 1] == s[i]);
        assert(!digit(z[i + 1]));
    }
}

/// What is seen of optional and of listed strings is what they hold, in their order.
pub proof fn law_strings_are_seen_as_they_are(s: String, v: Seq<String>, i: int)
    requires
        0 <= i < v.len(),
    ensures
        optional(Some(s)) == Some(s@),
        optional(None) is None,
        texts(v).len() == v.len(),
        texts(v)[i] == v[i]@,
{
}

} // verus!
