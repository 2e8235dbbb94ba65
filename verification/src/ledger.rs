//! A local record of the shares that this machine made. The server holds only
//! ciphertext under keys without names, and cannot tell what was shared; the
//! ledger keeps the names for `dove ls`.

use vstd::prelude::*;

use crate::aws::maybe;

verus! {

/// A share that this machine made.
#[derive(Debug)]
pub struct ShareRecord {
    pub id: String,
    pub name: String,
    pub from: Option<String>,
    pub created_at: u64,
    pub expires_at: u64,
    pub downloads: u32,
}

/// The records of other ids, in their order.
pub open spec fn without(all: Seq<ShareRecord>, id: Seq<char>) -> Seq<ShareRecord>
    decreases all.len(),
{
    if all.len() == 0 {
        Seq::empty()
    } else if all.last().id@ == id {
        without(all.drop_last(), id)
    } else {
        without(all.drop_last(), id).push(all.last())
    }
}

/// The name under which the last record of this id was shared.
pub open spec fn name_of(all: Seq<ShareRecord>, id: Seq<char>) -> Option<Seq<char>>
    decreases all.len(),
{
    if all.len() == 0 {
        None
    } else if all.last().id@ == id {
        Some(all.last().name@)
    } else {
        name_of(all.drop_last(), id)
    }
}

/// Drops the records of this id.
pub fn remove(all: &mut Vec<ShareRecord>, id: &str)
    ensures
        final(all)@ == without(old(all)@, id@),
{
    let wanted = id.to_string();
    let ghost first = all@;
    let ghost mut seen: int = 0;
    let mut i: usize = 0;
    assert(without(first.take(0), id@) =~= Seq::<ShareRecord>::empty());
    assert(first.skip(0) =~= first);
    assert(Seq::<ShareRecord>::empty() + first =~= first);
    while i < all.len()
        invariant
            wanted@ == id@,
            0 <= seen <= first.len(),
            i == without(first.take(seen), id@).len(),
            all@ == without(first.take(seen), id@) + first.skip(seen),
        decreases first.len() - seen,
    {
        proof {
            assert(seen < first.len());
            assert(all@[i as int] == first.skip(seen)[0]);
            assert(first.take(seen + 1).drop_last() =~= first.take(seen));
            assert(first.take(seen + 1).last() == first[seen]);
        }
        if all[i].id == wanted {
            all.remove(i);
            assert(all@ =~= without(first.take(seen), id@) + first.skip(seen + 1));
        } else {
            i += 1;
            assert(all@ =~= without(first.take(seen), id@).push(first[seen]) + first.skip(
                seen + 1,
            ));
        }
        proof {
            seen = seen + 1;
        }
    }
    proof {
        assert(first.skip(seen).len() == 0);
        assert(first.take(seen) =~= first);
        assert(all@ =~= without(first, id@));
    }
}

/// Records a share, in place of any of the same id.
pub fn record(all: &mut Vec<ShareRecord>, rec: ShareRecord)
    ensures
        final(all)@ == without(old(all)@, rec.id@).push(rec),
{
    remove(all, rec.id.as_str());
    all.push(rec);
}

// ── names ─────────────────────────────────────────────────────────────────

/// Names by id; a later entry counts in place of an earlier one of the same id.
pub struct Names {
    pub pairs: Vec<(String, String)>,
}

/// The name that pairs give an id.
pub open spec fn named(pairs: Seq<(String, String)>, id: Seq<char>) -> Option<Seq<char>>
    decreases pairs.len(),
{
    if pairs.len() == 0 {
        None
    } else if pairs.last().0@ == id {
        Some(pairs.last().1@)
    } else {
        named(pairs.drop_last(), id)
    }
}

impl Names {
    /// The name of an id.
    pub fn get(&self, id: &str) -> (r: Option<String>)
        ensures
            maybe(r) == named(self.pairs@, id@),
    {
        let wanted = id.to_string();
        let mut i: usize = self.pairs.len();
        assert(self.pairs@.take(i as int) =~= self.pairs@);
        while i > 0
            invariant
                wanted@ == id@,
                i <= self.pairs.len(),
                named(self.pairs@, id@) == named(self.pairs@.take(i as int), id@),
            decreases i,
        {
            let ghost upto = self.pairs@.take(i as int);
            assert(upto.drop_last() =~= self.pairs@.take(i - 1));
            if self.pairs[i - 1].0 == wanted {
                return Some(self.pairs[i - 1].1.clone());
            }
            i -= 1;
        }
        None
    }
}

/// The names of the shares that this machine made, by id.
pub fn names(all: &Vec<ShareRecord>) -> (r: Names)
    ensures
        forall|id: Seq<char>| #[trigger] named(r.pairs@, id) == name_of(all@, id),
{
    let mut pairs: Vec<(String, String)> = Vec::new();
    let mut i: usize = 0;
    assert(all@.take(0) =~= Seq::<ShareRecord>::empty());
    while i < all.len()
        invariant
            i <= all.len(),
            forall|id: Seq<char>| #[trigger]
                named(pairs@, id) == name_of(all@.take(i as int), id),
        decreases all.len() - i,
    {
        let ghost before = pairs@;
        pairs.push((all[i].id.clone(), all[i].name.clone()));
        proof {
            assert(pairs@.drop_last() =~= before);
            assert(all@.take(i + 1).drop_last() =~= all@.take(i as int));
            assert forall|id: Seq<char>| #[trigger]
                named(pairs@, id) == name_of(all@.take(i + 1), id) by {
                assert(named(before, id) == name_of(all@.take(i as int), id));
            }
        }
        i += 1;
    }
    assert(all@.take(all@.len() as int) =~= all@);
    Names { pairs }
}

// ── laws ──────────────────────────────────────────────────────────────────

proof fn lemma_without(all: Seq<ShareRecord>, id: Seq<char>, other: Seq<char>)
    ensures
        name_of(without(all, id), id) is None,
        other != id ==> name_of(without(all, id), other) == name_of(all, other),
        without(without(all, id), id) == without(all, id),
    decreases all.len(),
{
    if all.len() > 0 {
        lemma_without(all.drop_last(), id, other);
        let rest = without(all.drop_last(), id);
        if all.last().id@ != id {
            assert(rest.push(all.last()).drop_last() =~= rest);
        }
    }
}

/// A recorded share is found under its name, and the others as before.
pub proof fn law_recorded_is_found(all: Seq<ShareRecord>, rec: ShareRecord, other: Seq<char>)
    ensures
        name_of(without(all, rec.id@).push(rec), rec.id@) == Some(rec.name@),
        other != rec.id@ ==> name_of(without(all, rec.id@).push(rec), other) == name_of(all, other),
{
    lemma_without(all, rec.id@, other);
    assert(without(all, rec.id@).push(rec).drop_last() =~= without(all, rec.id@));
}

/// A removed share is not found, the others are as before, and removing it again
/// changes nothing.
pub proof fn law_removed_is_gone(all: Seq<ShareRecord>, id: Seq<char>, other: Seq<char>)
    ensures
        name_of(without(all, id), id) is None,
        other != id ==> name_of(without(all, id), other) == name_of(all, other),
        without(without(all, id), id) == without(all, id),
{
    lemma_without(all, id, other);
}

/// Recording a share and removing it leaves what removing alone leaves.
pub proof fn law_remove_undoes_record(all: Seq<ShareRecord>, rec: ShareRecord)
    ensures
        without(without(all, rec.id@).push(rec), rec.id@) == without(all, rec.id@),
{
    lemma_without(all, rec.id@, rec.id@);
    assert(without(all, rec.id@).push(rec).drop_last() =~= without(all, rec.id@));
}

/// What `record` writes down, `names` finds under its id, and everything else as before;
/// there is one record of an id, the last.
pub proof fn law_names_find_what_was_recorded(
    all: &mut Vec<ShareRecord>,
    rec: ShareRecord,
    done: (),
    kept: Vec<ShareRecord>,
    names_kept: Names,
    id: &str,
    found: Option<String>,
)
    requires
        call_ensures(record, (all, rec), done),
        kept@ == final(all)@,
        call_ensures(names, (&kept,), names_kept),
        call_ensures(Names::get, (&names_kept, id), found),
    ensures
        id@ == rec.id@ ==> maybe(found) == Some(rec.name@),
        id@ != rec.id@ ==> maybe(found) == name_of(old(all)@, id@),
        final(all)@.last() == rec,
        forall|i: int|
            0 <= i < final(all)@.len() - 1 ==> (#[trigger] final(all)@[i]).id@ != rec.id@,
{
    law_recorded_is_found(old(all)@, rec, id@);
    lemma_others_only(old(all)@, rec.id@);
}

/// What `remove` leaves has no record of the id, and the names of all others.
pub proof fn law_names_forget_what_was_removed(
    all: &mut Vec<ShareRecord>,
    id: &str,
    done: (),
    other: Seq<char>,
)
    requires
        call_ensures(remove, (all, id), done),
    ensures
        forall|i: int| 0 <= i < final(all)@.len() ==> (#[trigger] final(all)@[i]).id@ != id@,
        name_of(final(all)@, id@) is None,
        other != id@ ==> name_of(final(all)@, other) == name_of(old(all)@, other),
{
    lemma_without(old(all)@, id@, other);
    lemma_others_only(old(all)@, id@);
}

proof fn lemma_others_only(all: Seq<ShareRecord>, id: Seq<char>)
    ensures
        forall|i: int| 0 <= i < without(all, id).len() ==> (#[trigger] without(all, id)[i]).id@ != id,
    decreases all.len(),
{
    if all.len() > 0 {
        lemma_others_only(all.drop_last(), id);
    }
}

} // verus!
