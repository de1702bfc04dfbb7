//! Text as sequences of characters: conversions from and to strings, and the
//! searching and cutting that the other modules share.

use vstd::prelude::*;

verus! {

/// The character sequences of a sequence of strings.
pub open spec fn string_views(strings: Seq<String>) -> Seq<Seq<char>> {
    Seq::new(strings.len(), |i: int| strings[i]@)
}

/// The characters of `s`, in order.
pub fn chars_of(s: &str) -> (v: Vec<char>)
    ensures
        v@ == s@,
{
    let mut v: Vec<char> = Vec::new();
    for c in it: s.chars()
        invariant
            v@ == it.seq().take(it.index()),
            it.seq() == s@,
    {
        v.push(c);
    }
    v
}

/// `String::push` appends one character to the end of the string.
#[verifier::external_body]
pub(crate) fn push_char(s: &mut String, c: char)
    ensures
        final(s)@ == old(s)@.push(c),
{
    s.push(c)
}

/// The string whose characters are `v[from..to]`.
pub fn string_of(v: &Vec<char>, from: usize, to: usize) -> (s: String)
    requires
        from <= to <= v.len(),
    ensures
        s@ == v@.subrange(from as int, to as int),
{
    let mut s = String::new();
    let mut i: usize = from;
    while i < to
        invariant
            from <= i <= to <= v.len(),
            s@ == v@.subrange(from as int, i as int),
        decreases to - i,
    {
        push_char(&mut s, v[i]);
        i += 1;
    }
    s
}

/// `pattern` stands in `text` at position `at`.
pub open spec fn occurs_at(text: Seq<char>, pattern: Seq<char>, at: int) -> bool {
    0 <= at && at + pattern.len() <= text.len() && text.subrange(at, at + pattern.len())
        == pattern
}

/// `text` ends with `suffix`.
pub open spec fn ends_with(text: Seq<char>, suffix: Seq<char>) -> bool {
    occurs_at(text, suffix, text.len() - suffix.len())
}

/// `text` starts with `prefix`.
pub open spec fn starts_with(text: Seq<char>, prefix: Seq<char>) -> bool {
    occurs_at(text, prefix, 0)
}

/// `text` after `prefix` has been taken off its front as often as it stands
/// there.
pub open spec fn without_leading(text: Seq<char>, prefix: Seq<char>) -> Seq<char>
    decreases text.len(),
{
    if prefix.len() > 0 && starts_with(text, prefix) {
        without_leading(text.skip(prefix.len() as int), prefix)
    } else {
        text
    }
}

/// `text` after `suffix` has been taken off its end as often as it stands
/// there.
pub open spec fn without_trailing(text: Seq<char>, suffix: Seq<char>) -> Seq<char>
    decreases text.len(),
{
    if suffix.len() > 0 && ends_with(text, suffix) {
        without_trailing(text.take(text.len() - suffix.len()), suffix)
    } else {
        text
    }
}

/// `text` with every occurrence of `pattern` replaced by `with`: occurrences
/// are taken from the left and do not overlap.  An empty pattern replaces
/// nothing.
pub open spec fn replace_all(text: Seq<char>, pattern: Seq<char>, with: Seq<char>) -> Seq<char>
    decreases text.len(),
{
    if text.len() == 0 {
        text
    } else if pattern.len() > 0 && starts_with(text, pattern) {
        with + replace_all(text.skip(pattern.len() as int), pattern, with)
    } else {
        seq![text[0]] + replace_all(text.skip(1), pattern, with)
    }
}

/// `at` is the first position, not before `from`, at which `pattern` stands in
/// `text`.
pub open spec fn is_first_occurrence(
    text: Seq<char>,
    pattern: Seq<char>,
    from: int,
    at: int,
) -> bool {
    &&& from <= at
    &&& occurs_at(text, pattern, at)
    &&& forall|j: int| from <= j < at ==> !occurs_at(text, pattern, j)
}

/// The first position, not before `from`, at which `pattern` stands in `text`.
pub open spec fn first_occurrence_from(text: Seq<char>, pattern: Seq<char>, from: int) -> Option<
    int,
> {
    if exists|at: int| is_first_occurrence(text, pattern, from, at) {
        Some(choose|at: int| is_first_occurrence(text, pattern, from, at))
    } else {
        None
    }
}

/// The first position at which `pattern` stands in `text`.
pub open spec fn first_occurrence(text: Seq<char>, pattern: Seq<char>) -> Option<int> {
    first_occurrence_from(text, pattern, 0)
}

/// There is one first occurrence at most.
pub proof fn lemma_first_occurrence_is(text: Seq<char>, pattern: Seq<char>, from: int, at: int)
    requires
        is_first_occurrence(text, pattern, from, at),
    ensures
        first_occurrence_from(text, pattern, from) == Some(at),
{
    let chosen = choose|at: int| is_first_occurrence(text, pattern, from, at);
    if chosen < at {
        assert(!occurs_at(text, pattern, chosen));
    } else if at < chosen {
        assert(!occurs_at(text, pattern, at));
    }
}

/// Where the pattern stands nowhere from `from` on, there is no first
/// occurrence.
pub proof fn lemma_first_occurrence_none(text: Seq<char>, pattern: Seq<char>, from: int)
    requires
        forall|j: int| from <= j ==> !occurs_at(text, pattern, j),
    ensures
        first_occurrence_from(text, pattern, from) is None,
{
}

/// What `str::to_lowercase` returns for a string of these characters.
pub uninterp spec fn lowercase_of(s: Seq<char>) -> Seq<char>;

/// What `char::is_alphanumeric` returns for `c`.
pub uninterp spec fn is_alphanumeric(c: char) -> bool;

/// What `char::is_whitespace` returns for `c`.
pub uninterp spec fn is_whitespace(c: char) -> bool;

/// `str::to_lowercase`: the lowercase equivalent of the string, as Unicode
/// defines it.  The result depends on nothing but the characters of `s`.
#[verifier::external_body]
pub(crate) fn to_lowercase(s: &str) -> (lower: String)
    ensures
        lower@ == lowercase_of(s@),
{
    s.to_lowercase()
}

/// `char::is_alphanumeric`: whether `c` is a letter or a number in Unicode's
/// terms.
#[verifier::external_body]
pub(crate) fn char_is_alphanumeric(c: char) -> (yes: bool)
    ensures
        yes == is_alphanumeric(c),
{
    c.is_alphanumeric()
}

/// `char::is_whitespace`: whether `c` has Unicode's `White_Space` property.
#[verifier::external_body]
pub(crate) fn char_is_whitespace(c: char) -> (yes: bool)
    ensures
        yes == is_whitespace(c),
{
    c.is_whitespace()
}

/// Tells whether `pattern` stands in `text` at position `at`.
pub fn matches_at(text: &Vec<char>, pattern: &Vec<char>, at: usize) -> (yes: bool)
    ensures
        yes == occurs_at(text@, pattern@, at as int),
{
    if at > text.len() || pattern.len() > text.len() - at {
        return false;
    }
    let mut k: usize = 0;
    while k < pattern.len()
        invariant
            k <= pattern.len(),
            at + pattern.len() <= text.len(),
            forall|j: int| 0 <= j < k ==> text@[at + j] == pattern@[j],
        decreases pattern.len() - k,
    {
        if text[at + k] != pattern[k] {
            assert(text@.subrange(at as int, at + pattern.len())[k as int] != pattern@[k as int]);
            return false;
        }
        k += 1;
    }
    assert(text@.subrange(at as int, at + pattern.len()) =~= pattern@);
    true
}

/// Finds the first position, not before `from`, at which `pattern` stands in
/// `text`.
pub fn find_from(text: &Vec<char>, pattern: &Vec<char>, from: usize) -> (found: Option<usize>)
    ensures
        match found {
            Some(at) => from <= at && at + pattern.len() <= text.len() && first_occurrence_from(
                text@,
                pattern@,
                from as int,
            ) == Some(at as int),
            None => first_occurrence_from(text@, pattern@, from as int) is None,
        },
{
    if pattern.len() > text.len() || from > text.len() - pattern.len() {
        proof {
            lemma_first_occurrence_none(text@, pattern@, from as int);
        }
        return None;
    }
    let last = text.len() - pattern.len();
    let mut at: usize = from;
    while at < last
        invariant
            from <= at <= last,
            last == text.len() - pattern.len(),
            forall|j: int| from <= j < at ==> !occurs_at(text@, pattern@, j),
        decreases last - at,
    {
        if matches_at(text, pattern, at) {
            proof {
                lemma_first_occurrence_is(text@, pattern@, from as int, at as int);
            }
            return Some(at);
        }
        at += 1;
    }
    if matches_at(text, pattern, at) {
        proof {
            lemma_first_occurrence_is(text@, pattern@, from as int, at as int);
        }
        return Some(at);
    }
    proof {
        lemma_first_occurrence_none(text@, pattern@, from as int);
    }
    None
}

/// Finds where `text[..to]` ends once `suffix` has been taken off its end as
/// often as it stands there.
pub fn trailing_bound(text: &Vec<char>, suffix: &Vec<char>, to: usize) -> (end: usize)
    requires
        to <= text.len(),
    ensures
        end <= to,
        text@.take(end as int) == without_trailing(text@.take(to as int), suffix@),
{
    let mut end: usize = to;
    if suffix.len() == 0 {
        return end;
    }
    while end >= suffix.len() && matches_at(text, suffix, end - suffix.len())
        invariant
            end <= to <= text.len(),
            suffix.len() > 0,
            without_trailing(text@.take(end as int), suffix@) == without_trailing(
                text@.take(to as int),
                suffix@,
            ),
        decreases end,
    {
        proof {
            let head = text@.take(end as int);
            let cut = end - suffix.len();
            assert(head.subrange(cut, cut + suffix.len()) == text@.subrange(
                cut,
                cut + suffix.len(),
            ));
            assert(head.take(head.len() - suffix.len()) == text@.take(cut));
        }
        end -= suffix.len();
    }
    proof {
        let head = text@.take(end as int);
        if end >= suffix.len() {
            let cut = end - suffix.len();
            assert(head.subrange(cut, cut + suffix.len()) == text@.subrange(
                cut,
                cut + suffix.len(),
            ));
        }
    }
    end
}

/// Finds where `text[from..to]` begins once `prefix` has been taken off its
/// front as often as it stands there.
pub fn leading_bound(text: &Vec<char>, prefix: &Vec<char>, from: usize, to: usize) -> (start: usize)
    requires
        from <= to <= text.len(),
    ensures
        from <= start <= to,
        text@.subrange(start as int, to as int) == without_leading(
            text@.subrange(from as int, to as int),
            prefix@,
        ),
{
    let mut start: usize = from;
    if prefix.len() == 0 {
        return start;
    }
    while to - start >= prefix.len() && matches_at(text, prefix, start)
        invariant
            from <= start <= to <= text.len(),
            prefix.len() > 0,
            without_leading(text@.subrange(start as int, to as int), prefix@) == without_leading(
                text@.subrange(from as int, to as int),
                prefix@,
            ),
        decreases to - start,
    {
        proof {
            let line = text@.subrange(start as int, to as int);
            assert(line.subrange(0, prefix.len() as int) == text@.subrange(
                start as int,
                start + prefix.len(),
            ));
            assert(line.skip(prefix.len() as int) == text@.subrange(
                start + prefix.len(),
                to as int,
            ));
        }
        start += prefix.len();
    }
    proof {
        let line = text@.subrange(start as int, to as int);
        if to - start >= prefix.len() {
            assert(line.subrange(0, prefix.len() as int) == text@.subrange(
                start as int,
                start + prefix.len(),
            ));
        }
    }
    start
}

/// Replaces every occurrence of `pattern` in `text` by `with`.
pub fn replace_chars(text: &Vec<char>, pattern: &Vec<char>, with: &Vec<char>) -> (replaced: Vec<
    char,
>)
    ensures
        replaced@ == replace_all(text@, pattern@, with@),
{
    let mut replaced: Vec<char> = Vec::new();
    let mut i: usize = 0;
    assert(text@.skip(0) == text@);
    while i < text.len()
        invariant
            i <= text.len(),
            replace_all(text@, pattern@, with@) == replaced@ + replace_all(
                text@.skip(i as int),
                pattern@,
                with@,
            ),
        decreases text.len() - i,
    {
        let ghost rest = text@.skip(i as int);
        let ghost done = replaced@;
        if pattern.len() > 0 && matches_at(text, pattern, i) {
            let mut k: usize = 0;
            while k < with.len()
                invariant
                    k <= with.len(),
                    replaced@ == done + with@.take(k as int),
                decreases with.len() - k,
            {
                replaced.push(with[k]);
                k += 1;
            }
            proof {
                assert(with@.take(with.len() as int) == with@);
                assert(rest.subrange(0, pattern.len() as int) == text@.subrange(
                    i as int,
                    i + pattern.len(),
                ));
                assert(rest.skip(pattern.len() as int) == text@.skip(i + pattern.len()));
                let tail = replace_all(text@.skip(i + pattern.len()), pattern@, with@);
                assert(done + (with@ + tail) == (done + with@) + tail);
            }
            i += pattern.len();
        } else {
            replaced.push(text[i]);
            proof {
                if pattern.len() > 0 {
                    if i + pattern.len() <= text.len() {
                        assert(rest.subrange(0, pattern.len() as int) == text@.subrange(
                            i as int,
                            i + pattern.len(),
                        ));
                    }
                }
                assert(rest.skip(1) == text@.skip(i + 1));
                let tail = replace_all(text@.skip(i + 1), pattern@, with@);
                assert(done + (seq![text@[i as int]] + tail) == done.push(text@[i as int]) + tail);
            }
            i += 1;
        }
    }
    assert(replaced@ + Seq::<char>::empty() == replaced@);
    replaced
}

/// Appends the characters `text[from..to]` to `s`.
pub fn append_chars(s: &mut String, text: &Vec<char>, from: usize, to: usize)
    requires
        from <= to <= text.len(),
    ensures
        final(s)@ == old(s)@ + text@.subrange(from as int, to as int),
{
    let mut i: usize = from;
    while i < to
        invariant
            from <= i <= to <= text.len(),
            s@ == old(s)@ + text@.subrange(from as int, i as int),
        decreases to - i,
    {
        push_char(s, text[i]);
        i += 1;
    }
}

} // verus!
