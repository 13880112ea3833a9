//! Which pages a crawl has seen.

use vstd::prelude::*;

verus! {

/// `dashmap::DashSet`: a set.
#[verifier::external_type_specification]
#[verifier::external_body]
#[verifier::reject_recursive_types(K)]
#[verifier::reject_recursive_types(S)]
pub struct ExDashSet<K, S>(dashmap::DashSet<K, S>);

/// The texts in a set.
pub uninterp spec fn members(s: dashmap::DashSet<String>) -> Set<Seq<char>>;

/// `DashSet::new`: a set with nothing in it.
#[verifier::external_body]
fn new_set() -> (r: dashmap::DashSet<String>)
    ensures
        members(r) == Set::<Seq<char>>::empty(),
{
    dashmap::DashSet::new()
}

/// `DashSet::insert`: the text is in the set afterwards; returns whether it was not before.
#[verifier::external_body]
fn insert(s: &mut dashmap::DashSet<String>, text: &str) -> (r: bool)
    ensures
        members(*final(s)) == members(*old(s)).insert(text@),
        r == !members(*old(s)).contains(text@),
{
    s.insert(text.to_string())
}

/// `DashSet::contains`: the text is in the set.
#[verifier::external_body]
fn is_in(s: &dashmap::DashSet<String>, text: &str) -> (r: bool)
    ensures
        r == members(*s).contains(text@),
{
    s.contains(text)
}

/// `DashSet::len`: how many texts are in the set.
#[verifier::external_body]
fn size(s: &dashmap::DashSet<String>) -> (r: usize)
    ensures
        r == members(*s).len(),
{
    s.len()
}

/// The pages seen so far, by fingerprint.
pub struct StateTracker {
    visited: dashmap::DashSet<String>,
}

impl View for StateTracker {
    type V = Set<Seq<char>>;

    closed spec fn view(&self) -> Set<Seq<char>> {
        members(self.visited)
    }
}

impl StateTracker {
    /// No page was seen yet.
    pub fn new() -> (r: Self)
        ensures
            r@ == Set::<Seq<char>>::empty(),
    {
        StateTracker { visited: new_set() }
    }

    /// Marks a page as seen. Returns whether it is new.
    pub fn visit(&mut self, fingerprint: &str) -> (r: bool)
        ensures
            final(self)@ == old(self)@.insert(fingerprint@),
            r == !old(self)@.contains(fingerprint@),
    {
        insert(&mut self.visited, fingerprint)
    }

    /// The page was seen.
    pub fn is_visited(&self, fingerprint: &str) -> (r: bool)
        ensures
            r == self@.contains(fingerprint@),
    {
        is_in(&self.visited, fingerprint)
    }

    /// How many pages were seen.
    pub fn count(&self) -> (r: usize)
        ensures
            r == self@.len(),
    {
        size(&self.visited)
    }
}

impl Default for StateTracker {
    fn default() -> (r: Self)
        ensures
            r@ == Set::<Seq<char>>::empty(),
    {
        StateTracker::new()
    }
}

/// Whether each of several visits in a row, by whomever, finds its page new; `seen` are the
/// pages seen before.
pub open spec fn finds_new(seen: Set<Seq<char>>, visits: Seq<Seq<char>>) -> Seq<bool>
    decreases visits.len(),
{
    if visits.len() == 0 {
        Seq::empty()
    } else {
        let front = visits.drop_last();
        finds_new(seen, front).push(!seen_after(seen, front).contains(visits.last()))
    }
}

/// The pages seen after several visits in a row.
pub open spec fn seen_after(seen: Set<Seq<char>>, visits: Seq<Seq<char>>) -> Set<Seq<char>>
    decreases visits.len(),
{
    if visits.len() == 0 {
        seen
    } else {
        seen_after(seen, visits.drop_last()).insert(visits.last())
    }
}

/// However visits follow one another, a visit finds its page new exactly if the page was not
/// seen before the first of them and no earlier one was to it. So of the visits to a page that
/// is new the first finds it so, and no other does.
pub proof fn visits_find_once(seen: Set<Seq<char>>, visits: Seq<Seq<char>>)
    ensures
        finds_new(seen, visits).len() == visits.len(),
        forall|i: int|
            0 <= i < visits.len() ==> #[trigger] finds_new(seen, visits)[i] == (!seen.contains(
                visits[i],
            ) && !visits.take(i).contains(visits[i])),
        forall|t: Seq<char>| #[trigger]
            seen_after(seen, visits).contains(t) == (seen.contains(t) || visits.contains(t)),
        seen.finite() ==> seen_after(seen, visits).finite(),
    decreases visits.len(),
{
    let found = finds_new(seen, visits);
    if visits.len() > 0 {
        let front = visits.drop_last();
        visits_find_once(seen, front);
        assert(visits.take(visits.len() - 1) =~= front);
        assert forall|i: int| 0 <= i < visits.len() implies #[trigger] found[i] == (!seen.contains(
            visits[i],
        ) && !visits.take(i).contains(visits[i])) by {
            if i < front.len() {
                assert(found[i] == finds_new(seen, front)[i]);
                assert(front.take(i) =~= visits.take(i));
            }
        }
        assert forall|t: Seq<char>| #[trigger] seen_after(seen, visits).contains(t) == (
        seen.contains(t) || visits.contains(t)) by {
            if front.contains(t) {
                let k = choose|k: int| 0 <= k < front.len() && front[k] == t;
                assert(visits[k] == t);
            }
            assert(visits[visits.len() - 1] == visits.last());
            if visits.contains(t) && t != visits.last() {
                let k = choose|k: int| 0 <= k < visits.len() && visits[k] == t;
                assert(front[k] == t);
            }
        }
    }
}

/// After several visits in a row as many pages more were seen as visits found theirs new.
pub proof fn visits_are_counted(seen: Set<Seq<char>>, visits: Seq<Seq<char>>)
    requires
        seen.finite(),
    ensures
        seen_after(seen, visits).len() == seen.len() + finds_new(seen, visits).filter(
            |new: bool| new,
        ).len(),
    decreases visits.len(),
{
    reveal(Seq::filter);
    let is_new = |new: bool| new;
    if visits.len() > 0 {
        let front = visits.drop_last();
        visits_are_counted(seen, front);
        visits_find_once(seen, front);
        assert(finds_new(seen, visits).drop_last() =~= finds_new(seen, front));
        assert(finds_new(seen, visits).filter(is_new) == {
            let before = finds_new(seen, front).filter(is_new);
            if finds_new(seen, visits).last() {
                before.push(true)
            } else {
                before
            }
        });
    }
}

} // verus!
