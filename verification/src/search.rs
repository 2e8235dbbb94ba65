//! Searching text.

use vstd::prelude::*;

use crate::text::chars_of;

verus! {

/// `needle` stands in `hay` at `i`.
pub open spec fn stands_at(hay: Seq<char>, needle: Seq<char>, i: int) -> bool {
    0 <= i <= hay.len() - needle.len() && hay.subrange(i, i + needle.len()) == needle
}

/// `needle` stands somewhere in `hay`.
pub open spec fn has_text(hay: Seq<char>, needle: Seq<char>) -> bool {
    exists|i: int| #[trigger] stands_at(hay, needle, i)
}

/// `needle` stands in `hay` at `i` and nowhere before.
pub open spec fn stands_first_at(hay: Seq<char>, needle: Seq<char>, i: int) -> bool {
    stands_at(hay, needle, i) && forall|j: int| j < i ==> !#[trigger] stands_at(hay, needle, j)
}

/// Where `needle` first stands in `hay`.
pub open spec fn place(hay: Seq<char>, needle: Seq<char>) -> int
    recommends
        has_text(hay, needle),
{
    choose|i: int| stands_first_at(hay, needle, i)
}

/// What stands before the first `needle`; everything where there is none.
pub open spec fn cut(hay: Seq<char>, needle: Seq<char>) -> Seq<char> {
    if has_text(hay, needle) {
        hay.take(place(hay, needle))
    } else {
        hay
    }
}

proof fn lemma_least(hay: Seq<char>, needle: Seq<char>, i: int)
    requires
        stands_at(hay, needle, i),
    ensures
        exists|p: int| stands_first_at(hay, needle, p),
    decreases i,
{
    if exists|j: int| j < i && #[trigger] stands_at(hay, needle, j) {
        let j = choose|j: int| j < i && #[trigger] stands_at(hay, needle, j);
        lemma_least(hay, needle, j);
    } else {
        assert(stands_first_at(hay, needle, i));
    }
}

/// What stands somewhere stands first somewhere.
pub proof fn lemma_first(hay: Seq<char>, needle: Seq<char>)
    requires
        has_text(hay, needle),
    ensures
        stands_first_at(hay, needle, place(hay, needle)),
{
    let i = choose|i: int| stands_at(hay, needle, i);
    lemma_least(hay, needle, i);
}

/// The first place is the one place that nothing stands before.
pub proof fn lemma_place(hay: Seq<char>, needle: Seq<char>, i: int)
    requires
        stands_first_at(hay, needle, i),
    ensures
        has_text(hay, needle),
        place(hay, needle) == i,
{
    let p = place(hay, needle);
    assert(stands_first_at(hay, needle, p));
    if p < i {
        assert(!stands_at(hay, needle, p));
    }
    if i < p {
        assert(!stands_at(hay, needle, i));
    }
}

/// Does `needle` stand in `hay` at `at`?
fn matches_at(hay: &Vec<char>, needle: &Vec<char>, at: usize) -> (r: bool)
    requires
        at + needle.len() <= hay.len(),
    ensures
        r == stands_at(hay@, needle@, at as int),
{
    let mut i: usize = 0;
    while i < needle.len()
        invariant
            at + needle.len() <= hay.len(),
            i <= needle.len(),
            forall|j: int| 0 <= j < i ==> hay[at + j] == needle[j],
        decreases needle.len() - i,
    {
        if hay[at + i] != needle[i] {
            assert(hay@.subrange(at as int, at + needle@.len())[i as int] != needle@[i as int]);
            return false;
        }
        i += 1;
    }
    assert(hay@.subrange(at as int, at + needle@.len()) =~= needle@);
    true
}

/// Where `needle` first stands in `hay`, from `from` on.
pub(crate) fn find_from(hay: &Vec<char>, needle: &Vec<char>, from: usize) -> (r: Option<usize>)
    requires
        from <= hay.len(),
    ensures
        match r {
            Some(at) => {
                &&& from <= at <= hay.len() - needle.len()
                &&& stands_first_at(hay@.skip(from as int), needle@, at - from)
            },
            None => !has_text(hay@.skip(from as int), needle@),
        },
{
    let ghost tail = hay@.skip(from as int);
    if needle.len() > hay.len() - from {
        return None;
    }
    let last: usize = hay.len() - needle.len();
    let mut at: usize = from;
    loop
        invariant
            tail == hay@.skip(from as int),
            last == hay@.len() - needle@.len(),
            from <= at <= last,
            forall|i: int| i < at - from ==> !#[trigger] stands_at(tail, needle@, i),
        decreases last - at,
    {
        let found = matches_at(hay, needle, at);
        assert(tail.subrange(at - from, at - from + needle@.len()) =~= hay@.subrange(
            at as int,
            at + needle@.len(),
        ));
        assert(found == stands_at(tail, needle@, at - from));
        if found {
            return Some(at);
        }
        if at == last {
            assert forall|i: int| !#[trigger] stands_at(tail, needle@, i) by {
                if i >= at - from {
                    assert(i == at - from || i > tail.len() - needle@.len());
                }
            }
            return None;
        }
        at += 1;
    }
}

/// Does `needle` stand anywhere in `hay`?
pub fn contains(hay: &str, needle: &str) -> (r: bool)
    ensures
        r == has_text(hay@, needle@),
{
    let hay_chars = chars_of(hay);
    let needle_chars = chars_of(needle);
    assert(hay@.skip(0) =~= hay@);
    find_from(&hay_chars, &needle_chars, 0).is_some()
}

/// What a text ends with, followed by more, is what the text followed by it ends with.
pub proof fn lemma_suffix_grows(hay: Seq<char>, tail: Seq<char>, more: Seq<char>)
    requires
        tail.is_suffix_of(hay),
    ensures
        (tail + more).is_suffix_of(hay + more),
{
    let (all, end) = (hay + more, tail + more);
    assert(all.subrange(all.len() - end.len(), all.len() as int) =~= end);
}

/// What one text ends with and the next starts with stands in the two joined.
pub proof fn lemma_across(hay: Seq<char>, tail: Seq<char>, more: Seq<char>, head: Seq<char>)
    requires
        tail.is_suffix_of(hay),
        head.is_prefix_of(more),
    ensures
        has_text(hay + more, tail + head),
{
    let at = hay.len() - tail.len();
    assert((hay + more).subrange(at, at + (tail + head).len()) =~= tail + head);
    assert(stands_at(hay + more, tail + head, at));
}

/// What stands in a text stands in it with more behind.
pub proof fn lemma_found_before(hay: Seq<char>, needle: Seq<char>, more: Seq<char>)
    requires
        has_text(hay, needle),
    ensures
        has_text(hay + more, needle),
{
    let i = choose|i: int| stands_at(hay, needle, i);
    assert((hay + more).subrange(i, i + needle.len()) =~= hay.subrange(i, i + needle.len()));
    assert(stands_at(hay + more, needle, i));
}

/// What stands in a text stands in it with more before.
pub proof fn lemma_found_behind(hay: Seq<char>, needle: Seq<char>, more: Seq<char>)
    requires
        has_text(hay, needle),
    ensures
        has_text(more + hay, needle),
{
    let i = choose|i: int| stands_at(hay, needle, i);
    let j = more.len() + i;
    assert((more + hay).subrange(j, j + needle.len()) =~= hay.subrange(i, i + needle.len()));
    assert(stands_at(more + hay, needle, j));
}

} // verus!
