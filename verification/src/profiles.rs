//! The profile collection. The engine holds exactly one `Profile`; this is the set it is chosen
//! from.

use vstd::prelude::*;

use crate::rule::{lemma_same_profile_reflexive, same_profile, Profile};
use crate::text::same_text;

verus! {

/// Some profile in `ps` has id `id`.
pub open spec fn has_profile(ps: Seq<Profile>, id: Seq<char>) -> bool {
    exists|i: int| 0 <= i < ps.len() && (#[trigger] ps[i]).id@ == id
}

/// `i` is the first position in `ps` of a profile with id `id`.
pub open spec fn first_profile_at(ps: Seq<Profile>, id: Seq<char>, i: int) -> bool {
    &&& 0 <= i < ps.len()
    &&& ps[i].id@ == id
    &&& forall|k: int| 0 <= k < i ==> (#[trigger] ps[k]).id@ != id
}

/// `ps` with every profile whose id is `id` taken out, order kept.
pub open spec fn without_profile(ps: Seq<Profile>, id: Seq<char>) -> Seq<Profile>
    decreases ps.len(),
{
    if ps.len() == 0 {
        ps
    } else {
        let rest = without_profile(ps.drop_first(), id);
        if ps[0].id@ == id { rest } else { seq![ps[0]] + rest }
    }
}

/// The collection after an upsert of `p`: the first profile with its id replaced in place, or
/// `p` appended when there is none.
pub open spec fn upserted(ps: Seq<Profile>, p: Profile) -> Seq<Profile> {
    if has_profile(ps, p.id@) {
        ps.update(choose|i: int| first_profile_at(ps, p.id@, i), p)
    } else {
        ps.push(p)
    }
}

/// Two collections hold the same profiles, position by position.
pub open spec fn same_profiles(a: Seq<Profile>, b: Seq<Profile>) -> bool {
    a.len() == b.len() && forall|i: int| 0 <= i < a.len() ==> same_profile(#[trigger] a[i], b[i])
}

/// Every collection holds the same profiles as itself.
pub proof fn lemma_same_profiles_reflexive(ps: Seq<Profile>)
    ensures
        same_profiles(ps, ps),
{
    assert forall|i: int| 0 <= i < ps.len() implies same_profile(#[trigger] ps[i], ps[i]) by {
        lemma_same_profile_reflexive(ps[i]);
    }
}

/// There is one first position for an id.
proof fn lemma_first_profile_unique(ps: Seq<Profile>, id: Seq<char>, i: int, j: int)
    requires
        first_profile_at(ps, id, i),
        first_profile_at(ps, id, j),
    ensures
        i == j,
{
    if i < j {
        assert(ps[i].id@ != id);
    } else if j < i {
        assert(ps[j].id@ != id);
    }
}

/// An id that occurs has a first position.
proof fn lemma_first_profile_exists(ps: Seq<Profile>, id: Seq<char>)
    requires
        has_profile(ps, id),
    ensures
        exists|i: int| first_profile_at(ps, id, i),
    decreases ps.len(),
{
    if ps[0].id@ == id {
        assert(first_profile_at(ps, id, 0));
    } else {
        let rest = ps.drop_first();
        let j = choose|j: int| 0 <= j < ps.len() && (#[trigger] ps[j]).id@ == id;
        assert(rest[j - 1] == ps[j]);
        lemma_first_profile_exists(rest, id);
        let k = choose|k: int| first_profile_at(rest, id, k);
        assert forall|m: int| 0 <= m < k + 1 implies (#[trigger] ps[m]).id@ != id by {
            if m > 0 {
                assert(ps[m] == rest[m - 1]);
            }
        }
        assert(first_profile_at(ps, id, k + 1));
    }
}

/// Upserting the same profile into the same collection gives the same collection: what an
/// upsert does depends on the profiles only through their ids, names and rules.
pub proof fn lemma_upserted_alike(a: Seq<Profile>, b: Seq<Profile>, p: Profile, q: Profile)
    requires
        same_profiles(a, b),
        same_profile(p, q),
    ensures
        same_profiles(upserted(a, p), upserted(b, q)),
{
    let id = p.id@;
    assert(has_profile(a, id) == has_profile(b, id)) by {
        if has_profile(a, id) {
            let i = choose|i: int| 0 <= i < a.len() && (#[trigger] a[i]).id@ == id;
            assert(same_profile(a[i], b[i]));
        }
        if has_profile(b, id) {
            let i = choose|i: int| 0 <= i < b.len() && (#[trigger] b[i]).id@ == id;
            assert(same_profile(a[i], b[i]));
        }
    }
    if has_profile(a, id) {
        lemma_first_profile_exists(a, id);
        let i = choose|i: int| first_profile_at(a, id, i);
        assert forall|k: int| 0 <= k < i implies (#[trigger] b[k]).id@ != id by {
            assert(same_profile(a[k], b[k]));
            assert(a[k].id@ != id);
        }
        assert(same_profile(a[i], b[i]));
        assert(first_profile_at(b, id, i));
        let j = choose|j: int| first_profile_at(b, q.id@, j);
        lemma_first_profile_unique(b, id, i, j);
        assert forall|k: int| 0 <= k < upserted(a, p).len() implies same_profile(
            #[trigger] upserted(a, p)[k],
            upserted(b, q)[k],
        ) by {
            if k != i {
                assert(same_profile(a[k], b[k]));
            }
        }
    } else {
        assert forall|k: int| 0 <= k < upserted(a, p).len() implies same_profile(
            #[trigger] upserted(a, p)[k],
            upserted(b, q)[k],
        ) by {
            if k < a.len() {
                assert(same_profile(a[k], b[k]));
            }
        }
    }
}

/// After an upsert of `p`, looking up `p`'s id finds `p`; looking up any other id finds what it
/// found before, at the same position; and the collection grows by one exactly when `p`'s id
/// was new.
pub proof fn lemma_find_after_upsert(ps: Seq<Profile>, p: Profile, id: Seq<char>)
    ensures
        exists|i: int| first_profile_at(upserted(ps, p), p.id@, i) && upserted(ps, p)[i] == p,
        upserted(ps, p).len() == if has_profile(ps, p.id@) { ps.len() } else { ps.len() + 1 },
        id != p.id@ ==> forall|i: int| #[trigger] first_profile_at(upserted(ps, p), id, i) <==> first_profile_at(ps, id, i),
        id != p.id@ ==> forall|i: int| first_profile_at(ps, id, i) ==> #[trigger] upserted(ps, p)[i] == ps[i],
{
    let u = upserted(ps, p);
    if has_profile(ps, p.id@) {
        lemma_first_profile_exists(ps, p.id@);
        let j = choose|j: int| first_profile_at(ps, p.id@, j);
        assert forall|k: int| 0 <= k < j implies (#[trigger] u[k]).id@ != p.id@ by {
            assert(u[k] == ps[k]);
        }
        assert(first_profile_at(u, p.id@, j));
        if id != p.id@ {
            assert forall|i: int| #[trigger] first_profile_at(u, id, i) <==> first_profile_at(ps, id, i) by {
                if 0 <= i < ps.len() {
                    assert(u[i].id@ == id <==> ps[i].id@ == id);
                    if first_profile_at(ps, id, i) {
                        assert forall|k: int| 0 <= k < i implies (#[trigger] u[k]).id@ != id by {
                            assert(u[k].id@ == id ==> ps[k].id@ == id);
                        }
                    }
                    if first_profile_at(u, id, i) {
                        assert forall|k: int| 0 <= k < i implies (#[trigger] ps[k]).id@ != id by {
                            assert(ps[k].id@ == id ==> u[k].id@ == id);
                        }
                    }
                }
            }
        }
    } else {
        let n = ps.len() as int;
        assert forall|k: int| 0 <= k < n implies (#[trigger] u[k]).id@ != p.id@ by {
            assert(u[k] == ps[k]);
        }
        assert(first_profile_at(u, p.id@, n));
        if id != p.id@ {
            assert forall|i: int| #[trigger] first_profile_at(u, id, i) <==> first_profile_at(ps, id, i) by {
                if 0 <= i < u.len() {
                    if first_profile_at(ps, id, i) {
                        assert forall|k: int| 0 <= k < i implies (#[trigger] u[k]).id@ != id by {
                            assert(u[k] == ps[k]);
                        }
                    }
                    if first_profile_at(u, id, i) {
                        assert(i != n);
                        assert forall|k: int| 0 <= k < i implies (#[trigger] ps[k]).id@ != id by {
                            assert(u[k] == ps[k]);
                        }
                    }
                }
            }
        }
    }
}

/// Taking out the profiles with one id shortens the list exactly when one of them had it, and
/// what remains has none with that id and keeps every other profile.
pub proof fn lemma_without_profile(ps: Seq<Profile>, id: Seq<char>)
    ensures
        without_profile(ps, id).len() <= ps.len(),
        without_profile(ps, id).len() < ps.len() <==> has_profile(ps, id),
        !has_profile(without_profile(ps, id), id),
        forall|i: int| 0 <= i < ps.len() && (#[trigger] ps[i]).id@ != id
            ==> without_profile(ps, id).contains(ps[i]),
    decreases ps.len(),
{
    if ps.len() > 0 {
        let rest = ps.drop_first();
        lemma_without_profile(rest, id);
        assert forall|i: int| 0 <= i < rest.len() implies #[trigger] rest[i] == ps[i + 1] by {}
        if has_profile(rest, id) {
            let j = choose|j: int| 0 <= j < rest.len() && (#[trigger] rest[j]).id@ == id;
            assert(ps[j + 1].id@ == id);
        }
        if has_profile(ps, id) && ps[0].id@ != id {
            let j = choose|j: int| 0 <= j < ps.len() && (#[trigger] ps[j]).id@ == id;
            assert(rest[j - 1].id@ == id);
        }
        let w = without_profile(ps, id);
        let wr = without_profile(rest, id);
        if ps[0].id@ != id {
            assert(w == seq![ps[0]] + wr);
            assert forall|j: int| 0 <= j < w.len() implies (#[trigger] w[j]).id@ != id by {
                if j > 0 {
                    assert(w[j] == wr[j - 1]);
                    if wr[j - 1].id@ == id {
                        assert(has_profile(wr, id));
                    }
                }
            }
            assert forall|i: int| 0 <= i < ps.len() && (#[trigger] ps[i]).id@ != id implies w.contains(ps[i]) by {
                if i == 0 {
                    assert(w[0] == ps[0]);
                } else {
                    assert(rest[i - 1] == ps[i]);
                    let k = choose|k: int| 0 <= k < wr.len() && wr[k] == ps[i];
                    assert(w[k + 1] == ps[i]);
                }
            }
        } else {
            assert forall|i: int| 0 <= i < ps.len() && (#[trigger] ps[i]).id@ != id implies w.contains(ps[i]) by {
                assert(i != 0);
                assert(rest[i - 1] == ps[i]);
            }
        }
    }
}

/// The position of the first profile with `id`, if any.
pub fn first_index_of(list: &[Profile], id: &str) -> (r: Option<usize>)
    ensures
        match r {
            Some(i) => first_profile_at(list@, id@, i as int),
            None => !has_profile(list@, id@),
        },
{
    let mut i: usize = 0;
    while i < list.len()
        invariant
            i <= list@.len(),
            forall|k: int| 0 <= k < i ==> (#[trigger] list@[k]).id@ != id@,
        decreases list@.len() - i,
    {
        if same_text(list[i].id.as_str(), id) {
            return Some(i);
        }
        i = i + 1;
    }
    None
}

/// Insert `profile`, or replace the first entry with the same id **in place**.
pub fn upsert(list: &mut Vec<Profile>, profile: Profile)
    ensures
        has_profile(old(list)@, profile.id@) ==> exists|i: int|
            first_profile_at(old(list)@, profile.id@, i) && final(list)@ == old(list)@.update(i, profile),
        !has_profile(old(list)@, profile.id@) ==> final(list)@ == old(list)@.push(profile),
        exists|i: int| first_profile_at(final(list)@, profile.id@, i) && final(list)@[i] == profile,
        final(list)@ == upserted(old(list)@, profile),
{
    match first_index_of(list.as_slice(), profile.id.as_str()) {
        Some(i) => {
            let ghost before = list@;
            proof {
                let j = choose|j: int| first_profile_at(before, profile.id@, j);
                lemma_first_profile_unique(before, profile.id@, i as int, j);
            }
            list.set(i, profile);
            proof {
                assert forall|k: int| 0 <= k < i implies (#[trigger] list@[k]).id@ != list@[i as int].id@ by {
                    assert(list@[k] == before[k]);
                }
                assert(first_profile_at(list@, list@[i as int].id@, i as int));
            }
        },
        None => {
            let ghost before = list@;
            list.push(profile);
            proof {
                let n = before.len() as int;
                assert forall|k: int| 0 <= k < n implies (#[trigger] list@[k]).id@ != list@[n].id@ by {
                    assert(list@[k] == before[k]);
                }
                assert(first_profile_at(list@, list@[n].id@, n));
            }
        },
    }
}

/// Whether some profile has an id other than `id`.
fn has_other(list: &Vec<Profile>, id: &str) -> (r: bool)
    ensures
        r == exists|i: int| 0 <= i < list@.len() && (#[trigger] list@[i]).id@ != id@,
{
    let mut i: usize = 0;
    while i < list.len()
        invariant
            i <= list@.len(),
            forall|k: int| 0 <= k < i ==> (#[trigger] list@[k]).id@ == id@,
        decreases list@.len() - i,
    {
        if !same_text(list[i].id.as_str(), id) {
            return true;
        }
        i = i + 1;
    }
    false
}

/// Taking out an id that no profile has changes nothing.
proof fn lemma_without_absent(ps: Seq<Profile>, id: Seq<char>)
    requires
        !has_profile(ps, id),
    ensures
        without_profile(ps, id) == ps,
    decreases ps.len(),
{
    if ps.len() > 0 {
        assert(ps[0].id@ != id);
        assert(!has_profile(ps.drop_first(), id)) by {
            if has_profile(ps.drop_first(), id) {
                let j = choose|j: int| 0 <= j < ps.drop_first().len() && (#[trigger] ps.drop_first()[j]).id@ == id;
                assert(ps[j + 1] == ps.drop_first()[j]);
            }
        }
        lemma_without_absent(ps.drop_first(), id);
        assert(seq![ps[0]] + ps.drop_first() =~= ps);
    }
}

/// Taking out an id that every profile has leaves nothing.
proof fn lemma_without_all(ps: Seq<Profile>, id: Seq<char>)
    requires
        forall|i: int| 0 <= i < ps.len() ==> (#[trigger] ps[i]).id@ == id,
    ensures
        without_profile(ps, id).len() == 0,
    decreases ps.len(),
{
    if ps.len() > 0 {
        assert forall|i: int| 0 <= i < ps.drop_first().len() implies (#[trigger] ps.drop_first()[i]).id@ == id by {
            assert(ps.drop_first()[i] == ps[i + 1]);
        }
        lemma_without_all(ps.drop_first(), id);
    }
}

/// Remove every profile with `id`, and report whether it removed anything. Refuses (removing
/// nothing) when that would leave the list empty, since the engine must always hold a profile:
/// a list of one or none, or one whose profiles all have that id.
pub fn delete(list: &mut Vec<Profile>, id: &str) -> (removed: bool)
    ensures
        old(list)@.len() <= 1 || without_profile(old(list)@, id@).len() == 0
            ==> !removed && final(list)@ == old(list)@,
        old(list)@.len() > 1 && without_profile(old(list)@, id@).len() > 0 ==> {
            &&& final(list)@ == without_profile(old(list)@, id@)
            &&& removed == has_profile(old(list)@, id@)
        },
        old(list)@.len() > 0 ==> final(list)@.len() > 0,
        !removed ==> final(list)@ == old(list)@,
{
    if list.len() <= 1 {
        return false;
    }
    proof {
        if !has_profile(list@, id@) {
            lemma_without_absent(list@, id@);
        }
    }
    proof {
        lemma_without_profile(list@, id@);
    }
    if !has_other(list, id) {
        proof {
            lemma_without_all(list@, id@);
        }
        return false;
    }
    proof {
        let j = choose|j: int| 0 <= j < list@.len() && (#[trigger] list@[j]).id@ != id@;
        assert(without_profile(list@, id@).contains(list@[j]));
    }
    let ghost initial = list@;
    let before = list.len();
    let mut rest: Vec<Profile> = Vec::new();
    std::mem::swap(list, &mut rest);
    while rest.len() > 0
        invariant
            list@ + without_profile(rest@, id@) == without_profile(initial, id@),
        decreases rest@.len(),
    {
        let ghost prev = rest@;
        let p = rest.remove(0);
        proof {
            assert(rest@ == prev.drop_first());
        }
        if !same_text(p.id.as_str(), id) {
            list.push(p);
        }
        proof {
            assert(list@ + without_profile(rest@, id@) =~= without_profile(initial, id@));
        }
    }
    proof {
        assert(without_profile(rest@, id@) =~= rest@);
        assert(list@ =~= without_profile(initial, id@));
    }
    list.len() < before
}

/// The first profile with `id`, if present.
pub fn find<'a>(list: &'a [Profile], id: &str) -> (r: Option<&'a Profile>)
    ensures
        match r {
            Some(p) => exists|i: int| first_profile_at(list@, id@, i) && *p == list@[i],
            None => !has_profile(list@, id@),
        },
{
    match first_index_of(list, id) {
        Some(i) => Some(&list[i]),
        None => None,
    }
}

} // verus!
