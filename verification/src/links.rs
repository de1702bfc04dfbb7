//! The link grammar: `[[Name]]` and `[[Display|target]]`.
//!
//! A link opens with `[[` and closes with the first `]]` that follows.  Between
//! them stands a name of one or more characters, none of them `]` or `|`,
//! optionally followed by `|` and a target of one or more characters, none of
//! them `]`.  Text is scanned from the left; links do not overlap.

use vstd::prelude::*;
use crate::text::{chars_of, string_of, string_views};

verus! {

/// The first position at or after `from` that holds a character closing a run:
/// `]` always, and `|` as well when `stop_at_bar` is set; the length of `text`
/// if there is none.
pub open spec fn run_end(text: Seq<char>, from: int, stop_at_bar: bool) -> int
    decreases text.len() - from,
{
    if from < 0 || from >= text.len() {
        from
    } else if text[from] == ']' || (stop_at_bar && text[from] == '|') {
        from
    } else {
        run_end(text, from + 1, stop_at_bar)
    }
}

/// `]]` stands at position `k`.
pub open spec fn closes_at(text: Seq<char>, k: int) -> bool {
    0 <= k && k + 1 < text.len() && text[k] == ']' && text[k + 1] == ']'
}

/// `[[` stands at position `i`.
pub open spec fn opens_at(text: Seq<char>, i: int) -> bool {
    0 <= i && i + 1 < text.len() && text[i] == '[' && text[i + 1] == '['
}

/// The link that starts exactly at `i`, if there is one: the bounds of its
/// target and the position just after its closing brackets.
pub open spec fn link_at(text: Seq<char>, i: int) -> Option<(int, int, int)> {
    if !opens_at(text, i) {
        None
    } else {
        let name_end = run_end(text, i + 2, true);
        if name_end == i + 2 {
            None
        } else if closes_at(text, name_end) {
            Some((i + 2, name_end, name_end + 2))
        } else if name_end < text.len() && text[name_end] == '|' {
            let target_end = run_end(text, name_end + 1, false);
            if target_end > name_end + 1 && closes_at(text, target_end) {
                Some((name_end + 1, target_end, target_end + 2))
            } else {
                None
            }
        } else {
            None
        }
    }
}

/// The targets of the links found from position `i` on, in order of appearance.
pub open spec fn links_from(text: Seq<char>, i: int) -> Seq<Seq<char>>
    decreases text.len() - i,
{
    if i < 0 || i >= text.len() {
        Seq::empty()
    } else {
        match link_at(text, i) {
            Some((start, end, next)) => {
                proof {
                    lemma_link_at_bounds(text, i);
                }
                seq![text.subrange(start, end)] + links_from(text, next)
            },
            None => links_from(text, i + 1),
        }
    }
}

/// The targets of all links in `text`, left to right, repeats included.
pub open spec fn links_of(text: Seq<char>) -> Seq<Seq<char>> {
    links_from(text, 0)
}

/// A run ends within the text, past nothing that would close it, and on a
/// closing character unless the text ends first.
pub proof fn lemma_run_end(text: Seq<char>, from: int, stop_at_bar: bool)
    requires
        0 <= from <= text.len(),
    ensures
        from <= run_end(text, from, stop_at_bar) <= text.len(),
        forall|k: int|
            from <= k < run_end(text, from, stop_at_bar) ==> text[k] != ']' && (stop_at_bar
                ==> text[k] != '|'),
        run_end(text, from, stop_at_bar) < text.len() ==> {
            let c = text[run_end(text, from, stop_at_bar)];
            c == ']' || (stop_at_bar && c == '|')
        },
    decreases text.len() - from,
{
    if from < text.len() && !(text[from] == ']' || (stop_at_bar && text[from] == '|')) {
        lemma_run_end(text, from + 1, stop_at_bar);
    }
}

/// A link spans at least five characters and its target is never empty.
pub proof fn lemma_link_at_bounds(text: Seq<char>, i: int)
    ensures
        link_at(text, i) matches Some((start, end, next)) ==> {
            &&& 0 <= i
            &&& i + 2 <= start < end
            &&& end + 2 == next
            &&& next <= text.len()
            &&& closes_at(text, end)
            &&& forall|k: int| i + 2 <= k < end ==> text[k] != ']'
        },
{
    if opens_at(text, i) {
        lemma_run_end(text, i + 2, true);
        let name_end = run_end(text, i + 2, true);
        if name_end < text.len() {
            lemma_run_end(text, name_end + 1, false);
        }
    }
}

/// `text[start..end]` holds no `]` and, where `no_bar` is set, no `|`.
pub open spec fn is_run(text: Seq<char>, start: int, end: int, no_bar: bool) -> bool {
    &&& 0 <= start <= end <= text.len()
    &&& forall|k: int| start <= k < end ==> text[k] != ']' && (no_bar ==> text[k] != '|')
}

/// `[[name]]` stands at position `i`, its name ending before `end`.
pub open spec fn is_plain_link(text: Seq<char>, i: int, end: int) -> bool {
    &&& opens_at(text, i)
    &&& i + 2 < end
    &&& is_run(text, i + 2, end, true)
    &&& closes_at(text, end)
}

/// `[[display|target]]` stands at position `i`, with its bar at `bar` and
/// its target ending before `end`.
pub open spec fn is_piped_link(text: Seq<char>, i: int, bar: int, end: int) -> bool {
    &&& opens_at(text, i)
    &&& i + 2 < bar
    &&& is_run(text, i + 2, bar, true)
    &&& bar < text.len()
    &&& text[bar] == '|'
    &&& bar + 1 < end
    &&& is_run(text, bar + 1, end, false)
    &&& closes_at(text, end)
}

/// A run that meets its closing character ends there.
pub proof fn lemma_run_ends_at(text: Seq<char>, from: int, end: int, stop_at_bar: bool)
    requires
        is_run(text, from, end, stop_at_bar),
        end < text.len(),
        text[end] == ']' || (stop_at_bar && text[end] == '|'),
    ensures
        run_end(text, from, stop_at_bar) == end,
    decreases end - from,
{
    if from < end {
        lemma_run_ends_at(text, from + 1, end, stop_at_bar);
    }
}

/// Where `[[name]]` stands, the link found there has the name for its target.
pub proof fn lemma_plain_link_is_found(text: Seq<char>, i: int, end: int)
    requires
        is_plain_link(text, i, end),
    ensures
        link_at(text, i) == Some((i + 2, end, end + 2)),
{
    lemma_run_ends_at(text, i + 2, end, true);
}

/// Where `[[display|target]]` stands, the link found there has what follows
/// the bar for its target.
pub proof fn lemma_piped_link_is_found(text: Seq<char>, i: int, bar: int, end: int)
    requires
        is_piped_link(text, i, bar, end),
    ensures
        link_at(text, i) == Some((bar + 1, end, end + 2)),
{
    lemma_run_ends_at(text, i + 2, bar, true);
    lemma_run_ends_at(text, bar + 1, end, false);
}

/// Every link that is found is written in one of the two forms.
pub proof fn lemma_found_link_is_written(text: Seq<char>, i: int)
    ensures
        link_at(text, i) matches Some((start, end, next)) ==> {
            &&& next == end + 2
            &&& if start == i + 2 {
                is_plain_link(text, i, end)
            } else {
                is_piped_link(text, i, start - 1, end)
            }
        },
{
    if opens_at(text, i) {
        lemma_run_end(text, i + 2, true);
        let name_end = run_end(text, i + 2, true);
        if name_end < text.len() {
            lemma_run_end(text, name_end + 1, false);
        }
    }
}

/// Brackets with nothing between them, or with nothing before the bar, open
/// no link.
pub proof fn lemma_empty_name_opens_no_link(text: Seq<char>, i: int)
    requires
        opens_at(text, i),
        i + 2 < text.len(),
        text[i + 2] == ']' || text[i + 2] == '|',
    ensures
        link_at(text, i) is None,
{
}

/// A display text with nothing after its bar gives no link.
pub proof fn lemma_empty_target_gives_no_link(text: Seq<char>, i: int)
    requires
        opens_at(text, i),
        run_end(text, i + 2, true) + 1 < text.len(),
        text[run_end(text, i + 2, true)] == '|',
        text[run_end(text, i + 2, true) + 1] == ']',
    ensures
        link_at(text, i) is None,
{
}

/// No target that is found is empty, and none holds a closing bracket.
pub proof fn lemma_targets_not_empty(text: Seq<char>, i: int)
    ensures
        forall|k: int|
            0 <= k < links_from(text, i).len() ==> {
                &&& (#[trigger] links_from(text, i)[k]).len() > 0
                &&& !links_from(text, i)[k].contains(']')
            },
    decreases text.len() - i,
{
    if 0 <= i < text.len() {
        lemma_link_at_bounds(text, i);
        match link_at(text, i) {
            Some((start, end, next)) => {
                lemma_targets_not_empty(text, next);
                let first = text.subrange(start, end);
                let rest = links_from(text, next);
                assert(links_from(text, i) == seq![first] + rest);
                assert(!first.contains(']')) by {
                    assert forall|j: int| 0 <= j < first.len() implies first[j] != ']' by {
                        assert(first[j] == text[start + j]);
                    }
                }
                assert forall|k: int| 0 <= k < links_from(text, i).len() implies {
                    &&& (#[trigger] links_from(text, i)[k]).len() > 0
                    &&& !links_from(text, i)[k].contains(']')
                } by {
                    if k > 0 {
                        assert(links_from(text, i)[k] == rest[k - 1]);
                    } else {
                        assert(links_from(text, i)[k] == first);
                    }
                }
            },
            None => {
                lemma_targets_not_empty(text, i + 1);
                assert(links_from(text, i) == links_from(text, i + 1));
            },
        }
    } else {
        assert(links_from(text, i).len() == 0);
    }
}

/// Text that `]]` closes nowhere holds no link: a link left open is none.
pub proof fn lemma_unclosed_text_has_no_links(text: Seq<char>, i: int)
    requires
        forall|k: int| !closes_at(text, k),
    ensures
        links_from(text, i).len() == 0,
    decreases text.len() - i,
{
    if 0 <= i < text.len() {
        lemma_link_at_bounds(text, i);
        lemma_unclosed_text_has_no_links(text, i + 1);
    }
}

/// Links do not overlap, and each takes five characters at least: a text
/// holds at most a fifth of its length in links.
pub proof fn lemma_links_are_apart(text: Seq<char>, i: int)
    requires
        0 <= i <= text.len(),
    ensures
        5 * links_from(text, i).len() <= text.len() - i,
    decreases text.len() - i,
{
    if i < text.len() {
        lemma_link_at_bounds(text, i);
        match link_at(text, i) {
            Some((start, end, next)) => {
                lemma_links_are_apart(text, next);
            },
            None => {
                lemma_links_are_apart(text, i + 1);
            },
        }
    }
}

fn scan_run(text: &Vec<char>, from: usize, stop_at_bar: bool) -> (end: usize)
    requires
        from <= text.len(),
    ensures
        end == run_end(text@, from as int, stop_at_bar),
        from <= end <= text.len(),
{
    let mut k: usize = from;
    while k < text.len() && !(text[k] == ']' || (stop_at_bar && text[k] == '|'))
        invariant
            from <= k <= text.len(),
            run_end(text@, k as int, stop_at_bar) == run_end(text@, from as int, stop_at_bar),
        decreases text.len() - k,
    {
        k += 1;
    }
    k
}

fn match_link_at(text: &Vec<char>, i: usize) -> (found: Option<(usize, usize, usize)>)
    requires
        i < text.len(),
    ensures
        match found {
            Some((start, end, next)) => link_at(text@, i as int) == Some(
                (start as int, end as int, next as int),
            ),
            None => link_at(text@, i as int) is None,
        },
{
    let n = text.len();
    if n - i < 2 || text[i] != '[' || text[i + 1] != '[' {
        return None;
    }
    let name_end = scan_run(text, i + 2, true);
    if name_end == i + 2 || name_end >= n {
        return None;
    }
    if text[name_end] == ']' {
        if n - name_end >= 2 && text[name_end + 1] == ']' {
            return Some((i + 2, name_end, name_end + 2));
        }
        return None;
    }
    proof {
        lemma_run_end(text@, i + 2, true);
    }
    let target_end = scan_run(text, name_end + 1, false);
    if target_end > name_end + 1 && n - target_end >= 2 && text[target_end + 1] == ']' {
        proof {
            lemma_run_end(text@, name_end + 1, false);
        }
        return Some((name_end + 1, target_end, target_end + 2));
    }
    proof {
        lemma_run_end(text@, name_end + 1, false);
    }
    None
}

/// The targets of the links in `text`.
pub fn parse_chars(text: &Vec<char>) -> (targets: Vec<String>)
    ensures
        string_views(targets@) == links_of(text@),
{
    let mut targets: Vec<String> = Vec::new();
    let mut i: usize = 0;
    while i < text.len()
        invariant
            i <= text.len(),
            links_of(text@) == string_views(targets@) + links_from(text@, i as int),
        decreases text.len() - i,
    {
        proof {
            lemma_link_at_bounds(text@, i as int);
        }
        match match_link_at(text, i) {
            Some((start, end, next)) => {
                let target = string_of(text, start, end);
                let ghost before = string_views(targets@);
                targets.push(target);
                assert(string_views(targets@) == before + seq![text@.subrange(
                    start as int,
                    end as int,
                )]);
                i = next;
            },
            None => {
                i += 1;
            },
        }
    }
    targets
}

/// Extracts the link targets from note text: for `[[Name]]` the name, for
/// `[[Display|target]]` the target, in order of appearance and with repeats.
/// No target is empty.
pub fn parse_wiki_links(content: &str) -> (targets: Vec<String>)
    ensures
        string_views(targets@) == links_of(content@),
        forall|k: int| 0 <= k < targets.len() ==> (#[trigger] targets[k])@.len() > 0,
{
    let text = chars_of(content);
    let targets = parse_chars(&text);
    proof {
        lemma_targets_not_empty(text@, 0);
        assert forall|k: int| 0 <= k < targets.len() implies (#[trigger] targets[k])@.len()
            > 0 by {
            assert(targets[k]@ == string_views(targets@)[k]);
        }
    }
    targets
}

} // verus!
