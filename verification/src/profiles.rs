//! Saved login profiles.

use vstd::prelude::*;

use crate::order::{is_listing, is_rearrangement, picked, ranks_before, stable_order, text_le};
use crate::text::{opt_view, same_text};

verus! {

/// The characters of `s` in lower case, as `str::to_lowercase` gives them.
pub uninterp spec fn lowercase(s: Seq<char>) -> Seq<char>;

/// The ASCII character `c` in lower case.
pub open spec fn ascii_lower(c: char) -> char {
    if 'A' <= c <= 'Z' {
        ((c as u32) + 32) as char
    } else {
        c
    }
}

/// All characters of `s` are ASCII characters.
pub open spec fn is_ascii_text(s: Seq<char>) -> bool {
    forall|i: int| 0 <= i < s.len() ==> (#[trigger] s[i] as u32) < 128
}

/// The ASCII letters of `s` in lower case.
pub open spec fn ascii_folded(s: Seq<char>) -> Seq<char> {
    s.map_values(|c: char| ascii_lower(c))
}

/// Of ASCII text, only the letters `A` to `Z` change in lower case.
pub open spec fn folds_ascii(s: Seq<char>) -> bool {
    is_ascii_text(s) ==> lowercase(s) == ascii_folded(s)
}

/// `str::to_lowercase`: the text with each character mapped to lower case by the rules of
/// Unicode. The rules are named, not stated; of ASCII text, the contract states that the
/// letters `A` to `Z` become `a` to `z` and the rest stays.
#[verifier::external_body]
pub(crate) fn to_lowercase(s: &str) -> (r: String)
    ensures
        r@ == lowercase(s@),
        is_ascii_text(s@) ==> r@ == ascii_folded(s@),
{
    s.to_lowercase()
}

/// The login details that a user saved under a name.
#[derive(Debug)]
pub struct AuthProfile {
    pub name: String,
    pub login_url: Option<String>,
    pub username: Option<String>,
    pub password: Option<String>,
    pub username_selector: Option<String>,
    pub password_selector: Option<String>,
    pub submit_selector: Option<String>,
}

/// The contents of a profile.
pub ghost struct AuthProfileView {
    pub name: Seq<char>,
    pub login_url: Option<Seq<char>>,
    pub username: Option<Seq<char>>,
    pub password: Option<Seq<char>>,
    pub username_selector: Option<Seq<char>>,
    pub password_selector: Option<Seq<char>>,
    pub submit_selector: Option<Seq<char>>,
}

impl View for AuthProfile {
    type V = AuthProfileView;

    open spec fn view(&self) -> AuthProfileView {
        AuthProfileView {
            name: self.name@,
            login_url: opt_view(self.login_url),
            username: opt_view(self.username),
            password: opt_view(self.password),
            username_selector: opt_view(self.username_selector),
            password_selector: opt_view(self.password_selector),
            submit_selector: opt_view(self.submit_selector),
        }
    }
}

impl Clone for AuthProfile {
    fn clone(&self) -> (r: Self)
        ensures
            r@ == self@,
    {
        AuthProfile {
            name: self.name.clone(),
            login_url: self.login_url.clone(),
            username: self.username.clone(),
            password: self.password.clone(),
            username_selector: self.username_selector.clone(),
            password_selector: self.password_selector.clone(),
            submit_selector: self.submit_selector.clone(),
        }
    }
}

impl Default for AuthProfile {
    fn default() -> (r: Self)
        ensures
            r@ == (AuthProfileView {
                name: Seq::empty(),
                login_url: None,
                username: None,
                password: None,
                username_selector: None,
                password_selector: None,
                submit_selector: None,
            }),
    {
        AuthProfile {
            name: String::new(),
            login_url: None,
            username: None,
            password: None,
            username_selector: None,
            password_selector: None,
            submit_selector: None,
        }
    }
}

/// Entries of a profile file as keys and profiles.
pub open spec fn entry_views(entries: Seq<(String, AuthProfile)>) -> Seq<
    (Seq<char>, AuthProfileView),
> {
    entries.map_values(|e: (String, AuthProfile)| (e.0@, e.1@))
}

/// The profiles that a list of entries holds; of two entries with one key the later counts.
pub open spec fn entry_map(entries: Seq<(Seq<char>, AuthProfileView)>) -> Map<
    Seq<char>,
    AuthProfileView,
>
    decreases entries.len(),
{
    if entries.len() == 0 {
        Map::empty()
    } else {
        entry_map(entries.drop_last()).insert(entries.last().0, entries.last().1)
    }
}

/// No two entries have one key.
pub open spec fn distinct_keys(entries: Seq<(Seq<char>, AuthProfileView)>) -> bool {
    forall|i: int, j: int|
        0 <= i < j < entries.len() ==> (#[trigger] entries[i]).0 != (#[trigger] entries[j]).0
}

/// The keys of the map are the keys of the entries, and each entry with a key of its own
/// is found under it.
proof fn lemma_entry_map(entries: Seq<(Seq<char>, AuthProfileView)>)
    ensures
        forall|i: int|
            0 <= i < entries.len() ==> entry_map(entries).contains_key((#[trigger] entries[i]).0),
        forall|k: Seq<char>| #[trigger]
            entry_map(entries).contains_key(k) ==> exists|i: int|
                0 <= i < entries.len() && (#[trigger] entries[i]).0 == k,
        distinct_keys(entries) ==> forall|i: int|
            0 <= i < entries.len() ==> entry_map(entries)[(#[trigger] entries[i]).0]
                == entries[i].1,
    decreases entries.len(),
{
    if entries.len() > 0 {
        let front = entries.drop_last();
        lemma_entry_map(front);
        assert forall|i: int| 0 <= i < entries.len() implies entry_map(entries).contains_key(
            (#[trigger] entries[i]).0,
        ) by {
            if i < front.len() {
                assert(front[i] == entries[i]);
            }
        }
        assert forall|k: Seq<char>| #[trigger] entry_map(entries).contains_key(k) implies exists|
            i: int,
        |
            0 <= i < entries.len() && (#[trigger] entries[i]).0 == k by {
            if k == entries.last().0 {
                assert(entries[entries.len() - 1].0 == k);
            } else {
                assert(entry_map(front).contains_key(k));
                let i = choose|i: int| 0 <= i < front.len() && (#[trigger] front[i]).0 == k;
                assert(entries[i].0 == k);
            }
        }
        if distinct_keys(entries) {
            assert(distinct_keys(front)) by {
                assert forall|i: int, j: int| 0 <= i < j < front.len() implies (
                #[trigger] front[i]).0 != (#[trigger] front[j]).0 by {
                    assert(entries[i].0 != entries[j].0);
                }
            }
            assert forall|i: int| 0 <= i < entries.len() implies entry_map(entries)[(
            #[trigger] entries[i]).0] == entries[i].1 by {
                if i < front.len() {
                    assert(front[i] == entries[i]);
                    assert(entries[i].0 != entries[entries.len() - 1].0);
                }
            }
        }
    }
}

/// The saved profiles, found by name in any mix of upper and lower case.
pub struct ProfileStore {
    entries: Vec<(String, AuthProfile)>,
}

impl ProfileStore {
    #[verifier::type_invariant]
    spec fn has_distinct_keys(self) -> bool {
        distinct_keys(entry_views(self.entries@))
    }

    /// The profiles by lower-case name.
    pub closed spec fn view(&self) -> Map<Seq<char>, AuthProfileView> {
        entry_map(entry_views(self.entries@))
    }

    /// The position of the entry with that key.
    fn position(&self, key: &str) -> (r: Option<usize>)
        ensures
            match r {
                Some(i) => i < self.entries.len() && self.entries@[i as int].0@ == key@,
                None => !self@.contains_key(key@),
            },
    {
        let mut i: usize = 0;
        while i < self.entries.len()
            invariant
                i <= self.entries.len(),
                forall|j: int| 0 <= j < i ==> (#[trigger] self.entries@[j]).0@ != key@,
            decreases self.entries.len() - i,
        {
            if same_text(self.entries[i].0.as_str(), key) {
                return Some(i);
            }
            i += 1;
        }
        proof {
            let views = entry_views(self.entries@);
            lemma_entry_map(views);
            if self@.contains_key(key@) {
                let j = choose|j: int| 0 <= j < views.len() && (#[trigger] views[j]).0 == key@;
                assert(self.entries@[j].0@ == key@);
            }
        }
        None
    }

    /// Look up a profile by name, in any case.
    pub fn get(&self, name: &str) -> (r: Option<&AuthProfile>)
        ensures
            match r {
                Some(p) => self@.contains_key(lowercase(name@)) && self@[lowercase(name@)] == p@,
                None => !self@.contains_key(lowercase(name@)),
            },
            folds_ascii(name@),
    {
        proof {
            use_type_invariant(self);
            lemma_entry_map(entry_views(self.entries@));
        }
        let key = to_lowercase(name);
        match self.position(key.as_str()) {
            Some(i) => {
                proof {
                    assert(entry_views(self.entries@)[i as int].0 == key@);
                }
                Some(&self.entries[i].1)
            },
            None => None,
        }
    }

    /// Insert a profile, or replace the one whose name differs in case at most.
    pub fn upsert(&mut self, profile: AuthProfile)
        ensures
            final(self)@ == old(self)@.insert(lowercase(profile.name@), profile@),
            folds_ascii(profile.name@),
    {
        let key = to_lowercase(profile.name.as_str());
        self.put(key, profile);
    }

    /// Insert or replace the profile under a key.
    fn put(&mut self, key: String, profile: AuthProfile)
        ensures
            final(self)@ == old(self)@.insert(key@, profile@),
    {
        proof {
            use_type_invariant(&*self);
        }
        let found = self.position(key.as_str());
        let mut entries: Vec<(String, AuthProfile)> = Vec::new();
        let ghost before = entry_views(self.entries@);
        let ghost new_entry = (key@, profile@);
        std::mem::swap(&mut entries, &mut self.entries);
        match found {
            Some(i) => {
                entries[i] = (key, profile);
                proof {
                    let after = entry_views(entries@);
                    assert(after =~= before.update(i as int, new_entry));
                    assert(before[i as int].0 == new_entry.0);
                    assert forall|a: int, b: int| 0 <= a < b < after.len() implies (
                    #[trigger] after[a]).0 != (#[trigger] after[b]).0 by {
                        assert(before[a].0 != before[b].0);
                    }
                    lemma_entry_map(before);
                    lemma_entry_map(after);
                    lemma_update(before, after, i as int);
                }
            },
            None => {
                entries.push((key, profile));
                proof {
                    let after = entry_views(entries@);
                    assert(after =~= before.push(new_entry));
                    assert(after.drop_last() =~= before);
                    lemma_entry_map(before);
                    assert forall|a: int, b: int| 0 <= a < b < after.len() implies (
                    #[trigger] after[a]).0 != (#[trigger] after[b]).0 by {
                        if b < before.len() {
                            assert(before[a].0 != before[b].0);
                        } else {
                            assert(entry_map(before).contains_key(before[a].0));
                        }
                    }
                }
            },
        }
        self.entries = entries;
    }

    /// Delete by name, in any case. Returns whether there was such a profile.
    pub fn delete(&mut self, name: &str) -> (r: bool)
        ensures
            r == old(self)@.contains_key(lowercase(name@)),
            final(self)@ == old(self)@.remove(lowercase(name@)),
            folds_ascii(name@),
    {
        proof {
            use_type_invariant(&*self);
            lemma_entry_map(entry_views(self.entries@));
        }
        let key = to_lowercase(name);
        match self.position(key.as_str()) {
            Some(i) => {
                let mut entries: Vec<(String, AuthProfile)> = Vec::new();
                let ghost before = entry_views(self.entries@);
                std::mem::swap(&mut entries, &mut self.entries);
                entries.remove(i);
                proof {
                    let after = entry_views(entries@);
                    assert(after =~= before.remove(i as int));
                    assert(before[i as int].0 == key@);
                    assert forall|a: int, b: int| 0 <= a < b < after.len() implies (
                    #[trigger] after[a]).0 != (#[trigger] after[b]).0 by {
                        let x = if a < i { a } else { a + 1 };
                        let y = if b < i { b } else { b + 1 };
                        assert(before[x].0 != before[y].0);
                    }
                    lemma_remove(before, after, i as int);
                }
                self.entries = entries;
                true
            },
            None => {
                proof {
                    assert(self@.remove(key@) =~= self@);
                }
                false
            },
        }
    }

    /// All profiles sorted by name.
    pub fn list(&self) -> (r: Vec<&AuthProfile>)
        ensures
            is_listed(self@, ref_views(r@)),
            forall|i: int, j: int|
                0 <= i < j < r.len() ==> text_le(
                    (#[trigger] r@[i])@.name,
                    (#[trigger] r@[j])@.name,
                ),
    {
        let mut names: Vec<String> = Vec::new();
        let mut i: usize = 0;
        while i < self.entries.len()
            invariant
                i <= self.entries.len(),
                names.len() == i,
                forall|j: int|
                    0 <= j < i ==> (#[trigger] names@[j])@ == self.entries@[j].1@.name,
            decreases self.entries.len() - i,
        {
            names.push(self.entries[i].1.name.clone());
            i += 1;
        }
        let order = stable_order(&names);
        let mut out: Vec<&AuthProfile> = Vec::new();
        let mut k: usize = 0;
        while k < order.len()
            invariant
                k <= order.len(),
                out.len() == k,
                is_listing(order@, self.entries@.len()),
                forall|j: int|
                    0 <= j < k ==> *(#[trigger] out@[j]) == self.entries@[order@[j] as int].1,
            decreases order.len() - k,
        {
            out.push(&self.entries[order[k]].1);
            k += 1;
        }
        proof {
            use_type_invariant(self);
            let entries = entry_views(self.entries@);
            let keys = Seq::new(order@.len(), |j: int| entries[order@[j] as int].0);
            lemma_entry_map(entries);
            assert forall|a: int, b: int| 0 <= a < b < out.len() implies text_le(
                (#[trigger] out@[a])@.name,
                (#[trigger] out@[b])@.name,
            ) by {
                assert(ranks_before(names@, order@[a], order@[b]));
            }
            assert(keys.no_duplicates()) by {
                assert forall|a: int, b: int|
                    0 <= a < keys.len() && 0 <= b < keys.len() && a != b implies keys[a]
                    != keys[b] by {
                    assert(order@[a] != order@[b]);
                    let (x, y) = (order@[a] as int, order@[b] as int);
                    if x < y {
                        assert(entries[x].0 != entries[y].0);
                    } else {
                        assert(entries[y].0 != entries[x].0);
                    }
                }
            }
            assert forall|key: Seq<char>| #[trigger] keys.contains(key) == self@.contains_key(
                key,
            ) by {
                if keys.contains(key) {
                    let a = choose|a: int| 0 <= a < keys.len() && keys[a] == key;
                    assert(entry_map(entries).contains_key(entries[order@[a] as int].0));
                }
                if self@.contains_key(key) {
                    let e = choose|e: int|
                        0 <= e < entries.len() && (#[trigger] entries[e]).0 == key;
                    assert(order@.contains(e as usize));
                    let a = choose|a: int| 0 <= a < order@.len() && order@[a] == e as usize;
                    assert(keys[a] == key);
                }
            }
            assert forall|a: int| 0 <= a < keys.len() implies ref_views(out@)[a]
                == self@[#[trigger] keys[a]] by {
                assert(*out@[a] == self.entries@[order@[a] as int].1);
                assert(entries[order@[a] as int].1 == out@[a]@);
            }
            assert(lists_under(self@, ref_views(out@), keys));
        }
        out
    }

    /// The store that holds the profiles of a list of entries; of two entries with one
    /// key the later counts.
    pub fn from_entries(entries: Vec<(String, AuthProfile)>) -> (r: Self)
        ensures
            r@ == entry_map(entry_views(entries@)),
    {
        let mut store = ProfileStore { entries: Vec::new() };
        let mut i: usize = 0;
        proof {
            assert(entry_views(entries@).take(0) =~= Seq::<(Seq<char>, AuthProfileView)>::empty());
            assert(store@ =~= entry_map(entry_views(entries@).take(0)));
        }
        while i < entries.len()
            invariant
                i <= entries.len(),
                store@ == entry_map(entry_views(entries@).take(i as int)),
            decreases entries.len() - i,
        {
            store.put(entries[i].0.clone(), entries[i].1.clone());
            proof {
                let all = entry_views(entries@);
                assert(all.take(i + 1).drop_last() =~= all.take(i as int));
            }
            i += 1;
        }
        proof {
            assert(entry_views(entries@).take(i as int) =~= entry_views(entries@));
        }
        store
    }

    /// The entries to save: each key with its profile.
    pub fn to_entries(&self) -> (r: Vec<(String, AuthProfile)>)
        ensures
            distinct_keys(entry_views(r@)),
            entry_map(entry_views(r@)) == self@,
    {
        let mut out: Vec<(String, AuthProfile)> = Vec::new();
        let mut i: usize = 0;
        while i < self.entries.len()
            invariant
                i <= self.entries.len(),
                entry_views(out@) =~= entry_views(self.entries@).take(i as int),
            decreases self.entries.len() - i,
        {
            let ghost before = entry_views(out@);
            let key = self.entries[i].0.clone();
            let profile = self.entries[i].1.clone();
            out.push((key, profile));
            proof {
                assert(entry_views(out@) =~= before.push(entry_views(self.entries@)[i as int]));
            }
            i += 1;
        }
        proof {
            use_type_invariant(self);
            assert(entry_views(out@) =~= entry_views(self.entries@));
        }
        out
    }

    /// There is no saved profile.
    pub fn is_empty(&self) -> (r: bool)
        ensures
            r == (self@ == Map::<Seq<char>, AuthProfileView>::empty()),
    {
        proof {
            lemma_entry_map(entry_views(self.entries@));
            if self.entries.len() > 0 {
                assert(self@.contains_key(entry_views(self.entries@)[0].0));
            } else {
                assert(self@ =~= Map::<Seq<char>, AuthProfileView>::empty());
            }
        }
        self.entries.len() == 0
    }
}

impl Default for ProfileStore {
    fn default() -> (r: Self)
        ensures
            r@ == Map::<Seq<char>, AuthProfileView>::empty(),
    {
        ProfileStore { entries: Vec::new() }
    }
}

/// The profiles that a list of references points to.
pub open spec fn ref_views(list: Seq<&AuthProfile>) -> Seq<AuthProfileView> {
    list.map_values(|p: &AuthProfile| p@)
}

/// `listed` has the profiles of `store`, the one under `keys[i]` at position `i`.
pub open spec fn lists_under(
    store: Map<Seq<char>, AuthProfileView>,
    listed: Seq<AuthProfileView>,
    keys: Seq<Seq<char>>,
) -> bool {
    &&& keys.no_duplicates()
    &&& keys.len() == listed.len()
    &&& forall|k: Seq<char>| #[trigger] keys.contains(k) == store.contains_key(k)
    &&& forall|i: int| 0 <= i < keys.len() ==> listed[i] == store[#[trigger] keys[i]]
}

/// `listed` has each profile of `store` once.
pub open spec fn is_listed(
    store: Map<Seq<char>, AuthProfileView>,
    listed: Seq<AuthProfileView>,
) -> bool {
    exists|keys: Seq<Seq<char>>| #[trigger] lists_under(store, listed, keys)
}

/// Replacing the profile of one entry replaces it in the map.
proof fn lemma_update(
    before: Seq<(Seq<char>, AuthProfileView)>,
    after: Seq<(Seq<char>, AuthProfileView)>,
    i: int,
)
    requires
        0 <= i < before.len(),
        distinct_keys(before),
        distinct_keys(after),
        after.len() == before.len(),
        after[i].0 == before[i].0,
        forall|j: int| 0 <= j < before.len() && j != i ==> after[j] == before[j],
    ensures
        entry_map(after) == entry_map(before).insert(after[i].0, after[i].1),
{
    lemma_entry_map(before);
    lemma_entry_map(after);
    let expected = entry_map(before).insert(after[i].0, after[i].1);
    assert forall|k: Seq<char>| entry_map(after).contains_key(k) == expected.contains_key(k) by {
        if entry_map(after).contains_key(k) {
            let j = choose|j: int| 0 <= j < after.len() && (#[trigger] after[j]).0 == k;
            assert(entry_map(before).contains_key(before[j].0));
        }
        if entry_map(before).contains_key(k) {
            let j = choose|j: int| 0 <= j < before.len() && (#[trigger] before[j]).0 == k;
            assert(entry_map(after).contains_key(after[j].0));
        }
        assert(entry_map(after).contains_key(after[i].0));
    }
    assert forall|k: Seq<char>| entry_map(after).contains_key(k) implies entry_map(after)[k]
        == expected[k] by {
        let j = choose|j: int| 0 <= j < after.len() && (#[trigger] after[j]).0 == k;
        assert(entry_map(after)[after[j].0] == after[j].1);
        if j != i {
            assert(entry_map(before)[before[j].0] == before[j].1);
            if j < i {
                assert(after[j].0 != after[i].0);
            } else {
                assert(after[i].0 != after[j].0);
            }
        }
    }
    assert(entry_map(after) =~= expected);
}

/// Removing an entry removes its profile from the map.
proof fn lemma_remove(
    before: Seq<(Seq<char>, AuthProfileView)>,
    after: Seq<(Seq<char>, AuthProfileView)>,
    i: int,
)
    requires
        0 <= i < before.len(),
        distinct_keys(before),
        distinct_keys(after),
        after == before.remove(i),
    ensures
        entry_map(after) == entry_map(before).remove(before[i].0),
{
    lemma_entry_map(before);
    lemma_entry_map(after);
    let expected = entry_map(before).remove(before[i].0);
    assert forall|k: Seq<char>| entry_map(after).contains_key(k) == expected.contains_key(k) by {
        if entry_map(after).contains_key(k) {
            let j = choose|j: int| 0 <= j < after.len() && (#[trigger] after[j]).0 == k;
            let m = if j < i { j } else { j + 1 };
            assert(entry_map(before).contains_key(before[m].0));
            if m < i {
                assert(before[m].0 != before[i].0);
            } else {
                assert(before[i].0 != before[m].0);
            }
        }
        if expected.contains_key(k) {
            let j = choose|j: int| 0 <= j < before.len() && (#[trigger] before[j]).0 == k;
            let m = if j < i { j } else { j - 1 };
            assert(entry_map(after).contains_key(after[m].0));
        }
    }
    assert forall|k: Seq<char>| entry_map(after).contains_key(k) implies entry_map(after)[k]
        == expected[k] by {
        let j = choose|j: int| 0 <= j < after.len() && (#[trigger] after[j]).0 == k;
        let m = if j < i { j } else { j + 1 };
        assert(entry_map(after)[after[j].0] == after[j].1);
        assert(entry_map(before)[before[m].0] == before[m].1);
    }
    assert(entry_map(after) =~= expected);
}

/// A saved profile is found again under its name in any case, and under no other name is
/// anything changed.
pub proof fn upsert_then_get(
    store: Map<Seq<char>, AuthProfileView>,
    profile: AuthProfileView,
    name: Seq<char>,
)
    ensures
        ({
            let after = store.insert(lowercase(profile.name), profile);
            if lowercase(name) == lowercase(profile.name) {
                after.contains_key(lowercase(name)) && after[lowercase(name)] == profile
            } else {
                after.contains_key(lowercase(name)) == store.contains_key(lowercase(name))
                    && after[lowercase(name)] == store[lowercase(name)]
            }
        }),
{
}

/// A deleted profile is found no more under its name in any case, and under no other name is
/// anything changed.
pub proof fn delete_then_get(
    store: Map<Seq<char>, AuthProfileView>,
    deleted: Seq<char>,
    name: Seq<char>,
)
    ensures
        ({
            let after = store.remove(lowercase(deleted));
            if lowercase(name) == lowercase(deleted) {
                !after.contains_key(lowercase(name))
            } else {
                after.contains_key(lowercase(name)) == store.contains_key(lowercase(name))
                    && after[lowercase(name)] == store[lowercase(name)]
            }
        }),
{
}

/// A store that is rebuilt from the entries it saved has the same profiles, in whatever order
/// the entries come back.
pub proof fn save_then_load(
    saved: Seq<(Seq<char>, AuthProfileView)>,
    loaded: Seq<(Seq<char>, AuthProfileView)>,
)
    requires
        distinct_keys(saved),
        is_rearrangement(saved, loaded),
    ensures
        entry_map(loaded) == entry_map(saved),
{
    let order = choose|order: Seq<usize>| #[trigger]
        is_listing(order, saved.len()) && loaded == picked(saved, order);
    assert forall|i: int, j: int| 0 <= i < j < loaded.len() implies (#[trigger] loaded[i]).0 != (
    #[trigger] loaded[j]).0 by {
        let (x, y) = (order[i] as int, order[j] as int);
        assert(order[i] != order[j]);
        assert(order[i] < saved.len() && order[j] < saved.len());
        if x < y {
            assert(saved[x].0 != saved[y].0);
        } else {
            assert(saved[y].0 != saved[x].0);
        }
    }
    lemma_entry_map(saved);
    lemma_entry_map(loaded);
    crate::order::lemma_listing_fits(order, saved.len());
    let (a, b) = (entry_map(saved), entry_map(loaded));
    assert forall|k: Seq<char>| a.contains_key(k) == b.contains_key(k) && (a.contains_key(k)
        ==> a[k] == b[k]) by {
        if a.contains_key(k) {
            let i = choose|i: int| 0 <= i < saved.len() && (#[trigger] saved[i]).0 == k;
            assert(order.contains(i as usize));
            let j = choose|j: int| 0 <= j < order.len() && order[j] == i as usize;
            assert(loaded[j] == saved[i]);
            assert(b[loaded[j].0] == loaded[j].1);
            assert(a[saved[i].0] == saved[i].1);
        }
        if b.contains_key(k) {
            let j = choose|j: int| 0 <= j < loaded.len() && (#[trigger] loaded[j]).0 == k;
            assert(order[j] < saved.len());
            assert(loaded[j] == saved[order[j] as int]);
            assert(a.contains_key(saved[order[j] as int].0));
        }
    }
    assert(b =~= a);
}

/// The contents of a profile are all that its fields hold.
pub proof fn profile_is_what_it_holds(profile: AuthProfile)
    ensures
        profile@.name == profile.name@,
        profile.login_url is Some ==> profile@.login_url == Some(profile.login_url->0@),
        profile.login_url is None ==> profile@.login_url is None,
        profile.username is Some ==> profile@.username == Some(profile.username->0@),
        profile.username is None ==> profile@.username is None,
        profile.password is Some ==> profile@.password == Some(profile.password->0@),
        profile.password is None ==> profile@.password is None,
        profile.username_selector is Some ==> profile@.username_selector == Some(profile.username_selector->0@),
        profile.username_selector is None ==> profile@.username_selector is None,
        profile.password_selector is Some ==> profile@.password_selector == Some(profile.password_selector->0@),
        profile.password_selector is None ==> profile@.password_selector is None,
        profile.submit_selector is Some ==> profile@.submit_selector == Some(profile.submit_selector->0@),
        profile.submit_selector is None ==> profile@.submit_selector is None,
{
}

} // verus!
