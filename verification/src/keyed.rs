//! Values kept under names: at most one value for each name.

use vstd::prelude::*;
use crate::text::{chars_of, texts_of};

verus! {

/// A value together with the name it is kept under.
pub struct Named<T> {
    pub name: String,
    pub value: T,
}

/// Values kept under names. To keep a value under a name that is taken
/// replaces the value; nothing else changes a value.
pub struct Keyed<T> {
    entries: Vec<Named<T>>,
}

/// Whether `pattern` selects `name`: a pattern that ends in an asterisk
/// selects the names that begin with what stands before it, any other
/// pattern selects the name equal to it.
pub open spec fn pattern_selects(pattern: Seq<char>, name: Seq<char>) -> bool {
    if pattern.len() > 0 && pattern.last() == '*' {
        pattern.drop_last().is_prefix_of(name)
    } else {
        pattern == name
    }
}

impl<T> View for Keyed<T> {
    type V = Map<Seq<char>, T>;

    closed spec fn view(&self) -> Map<Seq<char>, T> {
        Map::new(
            |name: Seq<char>| self.names().contains(name),
            |name: Seq<char>| self.entries@[self.names().index_of(name)].value,
        )
    }
}

impl<T> Keyed<T> {
    spec fn names(&self) -> Seq<Seq<char>> {
        Seq::new(self.entries@.len(), |i: int| self.entries@[i].name@)
    }

    #[verifier::type_invariant]
    spec fn unique_names(&self) -> bool {
        self.names().no_duplicates()
    }

    proof fn lemma_view(&self)
        requires
            self.unique_names(),
        ensures
            forall|i: int|
                0 <= i < self.entries@.len() ==> self@.dom().contains(
                    #[trigger] self.entries@[i].name@,
                ) && self@[self.entries@[i].name@] == self.entries@[i].value,
            forall|key: Seq<char>| #[trigger]
                self@.dom().contains(key) ==> exists|i: int|
                    0 <= i < self.entries@.len() && self.entries@[i].name@ == key,
    {
        let keys = self.names();
        assert forall|i: int| 0 <= i < self.entries@.len() implies self@.dom().contains(
            #[trigger] self.entries@[i].name@,
        ) && self@[self.entries@[i].name@] == self.entries@[i].value by {
            assert(keys[i] == self.entries@[i].name@);
            let j = keys.index_of(keys[i]);
            assert(keys[j] == keys[i]);
        }
        assert forall|key: Seq<char>| #[trigger] self@.dom().contains(key) implies exists|i: int|
            0 <= i < self.entries@.len() && self.entries@[i].name@ == key by {
            let i = keys.index_of(key);
            assert(keys[i] == key);
        }
    }

    /// Nothing kept.
    pub fn new() -> (kept: Keyed<T>)
        ensures
            kept@ == Map::<Seq<char>, T>::empty(),
    {
        let kept = Keyed { entries: Vec::new() };
        assert(kept@ =~= Map::<Seq<char>, T>::empty());
        kept
    }

    fn position(&self, name: &str) -> (at: Option<usize>)
        ensures
            match at {
                Some(i) => i < self.entries@.len() && self.entries@[i as int].name@
                    == name@,
                None => forall|i: int|
                    0 <= i < self.entries@.len() ==> self.entries@[i].name@ != name@,
            },
    {
        let wanted = String::from_str(name);
        let mut i: usize = 0;
        while i < self.entries.len()
            invariant
                i <= self.entries@.len(),
                wanted@ == name@,
                forall|j: int| 0 <= j < i ==> self.entries@[j].name@ != name@,
            decreases self.entries@.len() - i,
        {
            if self.entries[i].name == wanted {
                return Some(i);
            }
            i += 1;
        }
        None
    }

    /// Whether a value is kept under `name`.
    pub fn contains(&self, name: &str) -> (found: bool)
        ensures
            found == self@.dom().contains(name@),
    {
        proof {
            use_type_invariant(self);
            self.lemma_view();
        }
        self.position(name).is_some()
    }

    /// The value kept under `name`, if there is one.
    pub fn get(&self, name: &str) -> (value: Option<&T>)
        ensures
            match value {
                Some(v) => self@.dom().contains(name@) && *v == self@[name@],
                None => !self@.dom().contains(name@),
            },
    {
        proof {
            use_type_invariant(self);
            self.lemma_view();
        }
        match self.position(name) {
            Some(i) => Some(&self.entries[i].value),
            None => None,
        }
    }

    /// Keeps `value` under `name`, in place of the value that was kept
    /// there, if any.
    pub fn put(&mut self, name: &str, value: T)
        ensures
            final(self)@ == old(self)@.insert(name@, value),
    {
        proof {
            use_type_invariant(&*self);
            self.lemma_view();
        }
        let ghost before = *self;
        let stored = Named { name: String::from_str(name), value };
        let at = self.position(name);
        let mut entries: Vec<Named<T>> = Vec::new();
        core::mem::swap(&mut self.entries, &mut entries);
        match at {
            Some(i) => {
                entries.set(i, stored);
            },
            None => {
                entries.push(stored);
            },
        }
        proof {
            let keys = Seq::new(entries@.len(), |i: int| entries@[i].name@);
            if at.is_some() {
                assert(keys =~= before.names());
            } else {
                assert(keys =~= before.names().push(name@));
            }
        }
        core::mem::swap(&mut self.entries, &mut entries);
        proof {
            self.lemma_view();
            let idx: int = match at {
                Some(i) => i as int,
                None => before.entries@.len() as int,
            };
            assert(self.entries@[idx].name@ == name@);
            assert(self.entries@[idx].value == value);
            assert forall|key: Seq<char>| #[trigger]
                self@.dom().contains(key) <==> before@.insert(name@, value).dom().contains(
                    key,
                ) by {
                if before@.dom().contains(key) && key != name@ {
                    let i = choose|i: int|
                        0 <= i < before.entries@.len() && before.entries@[i].name@ == key;
                    assert(self.entries@[i].name@ == key);
                }
                if self@.dom().contains(key) && key != name@ {
                    let i = choose|i: int|
                        0 <= i < self.entries@.len() && self.entries@[i].name@ == key;
                    assert(before.entries@[i].name@ == key);
                }
            }
            assert forall|key: Seq<char>| #[trigger]
                self@.dom().contains(key) implies self@[key] == before@.insert(
                name@,
                value,
            )[key] by {
                let i = choose|i: int|
                    0 <= i < self.entries@.len() && self.entries@[i].name@ == key;
                if key != name@ {
                    assert(before.entries@[i].name@ == key);
                    assert(before.entries@[i].value == self.entries@[i].value);
                }
            }
            assert(self@ =~= before@.insert(name@, value));
        }
    }

    /// Drops the value kept under `name`, and tells whether there was
    /// one.
    pub fn remove(&mut self, name: &str) -> (removed: bool)
        ensures
            removed == old(self)@.dom().contains(name@),
            final(self)@ == old(self)@.remove(name@),
    {
        proof {
            use_type_invariant(&*self);
            self.lemma_view();
        }
        let ghost before = *self;
        match self.position(name) {
            None => {
                assert(self@ =~= before@.remove(name@));
                false
            },
            Some(i) => {
                let mut entries: Vec<Named<T>> = Vec::new();
                core::mem::swap(&mut self.entries, &mut entries);
                entries.remove(i);
                proof {
                    let keys = Seq::new(entries@.len(), |i: int| entries@[i].name@);
                    assert(keys =~= before.names().remove(i as int));
                    assert forall|a: int, b: int|
                        0 <= a < keys.len() && 0 <= b < keys.len() && a != b implies keys[a]
                        != keys[b] by {
                        let a0 = if a < i { a } else { a + 1 };
                        let b0 = if b < i { b } else { b + 1 };
                        assert(keys[a] == before.names()[a0]);
                        assert(keys[b] == before.names()[b0]);
                    }
                }
                core::mem::swap(&mut self.entries, &mut entries);
                proof {
                    self.lemma_view();
                    assert forall|key: Seq<char>| #[trigger]
                        self@.dom().contains(key) <==> before@.remove(name@).dom().contains(
                            key,
                        ) by {
                        if self@.dom().contains(key) {
                            let a = choose|a: int|
                                0 <= a < self.entries@.len() && self.entries@[a].name@ == key;
                            let a0 = if a < i { a } else { a + 1 };
                            assert(before.entries@[a0].name@ == key);
                            assert(before.names()[a0] == key);
                            assert(before.names()[i as int] == name@);
                        }
                        if before@.dom().contains(key) && key != name@ {
                            let a0 = choose|a: int|
                                0 <= a < before.entries@.len() && before.entries@[a].name@
                                    == key;
                            let a = if a0 < i { a0 } else { a0 - 1 };
                            assert(self.entries@[a].name@ == key);
                        }
                    }
                    assert forall|key: Seq<char>| #[trigger]
                        self@.dom().contains(key) implies self@[key] == before@.remove(
                        name@,
                    )[key] by {
                        let a = choose|a: int|
                            0 <= a < self.entries@.len() && self.entries@[a].name@ == key;
                        let a0 = if a < i { a } else { a + 1 };
                        assert(before.entries@[a0].name@ == key);
                    }
                    assert(self@ =~= before@.remove(name@));
                }
                true
            },
        }
    }

    /// The names that `pattern` selects, each once.
    pub fn select(&self, pattern: &str) -> (keys: Vec<String>)
        ensures
            texts_of(keys@).no_duplicates(),
            forall|key: Seq<char>| #[trigger]
                texts_of(keys@).contains(key) <==> self@.dom().contains(key) && pattern_selects(
                    pattern@,
                    key,
                ),
    {
        proof {
            use_type_invariant(self);
            self.lemma_view();
        }
        let wanted = chars_of(pattern);
        let mut keys: Vec<String> = Vec::new();
        let mut i: usize = 0;
        while i < self.entries.len()
            invariant
                i <= self.entries@.len(),
                wanted@ == pattern@,
                self.unique_names(),
                texts_of(keys@).no_duplicates(),
                forall|k: int|
                    0 <= k < keys@.len() ==> exists|j: int|
                        0 <= j < i && self.entries@[j].name@ == #[trigger] keys@[k]@,
                forall|j: int|
                    0 <= j < i && pattern_selects(pattern@, self.entries@[j].name@)
                        ==> texts_of(keys@).contains(#[trigger] self.entries@[j].name@),
                forall|k: int|
                    0 <= k < keys@.len() ==> pattern_selects(pattern@, #[trigger] keys@[k]@),
            decreases self.entries@.len() - i,
        {
            let ghost found = keys@;
            if selects(&wanted, self.entries[i].name.as_str()) {
                let key = self.entries[i].name.clone();
                keys.push(key);
                proof {
                    assert(texts_of(keys@) =~= texts_of(found).push(key@));
                    assert forall|k: int| 0 <= k < found.len() implies found[k]@ != key@ by {
                        let j = choose|j: int|
                            0 <= j < i && self.entries@[j].name@ == found[k]@;
                        assert(self.names()[j] == found[k]@);
                        assert(self.names()[i as int] == key@);
                    }
                    assert forall|j: int|
                        0 <= j < i + 1 && pattern_selects(
                            pattern@,
                            self.entries@[j].name@,
                        ) implies texts_of(keys@).contains(
                        #[trigger] self.entries@[j].name@,
                    ) by {
                        if j < i {
                            let k = choose|k: int|
                                0 <= k < texts_of(found).len() && texts_of(found)[k]
                                    == self.entries@[j].name@;
                            assert(texts_of(keys@)[k] == self.entries@[j].name@);
                        } else {
                            assert(texts_of(keys@)[found.len() as int] == key@);
                        }
                    }
                }
            }
            i += 1;
        }
        proof {
            assert forall|key: Seq<char>| #[trigger]
                texts_of(keys@).contains(key) <==> self@.dom().contains(key) && pattern_selects(
                    pattern@,
                    key,
                ) by {
                if texts_of(keys@).contains(key) {
                    let k = choose|k: int|
                        0 <= k < texts_of(keys@).len() && texts_of(keys@)[k] == key;
                    assert(keys@[k]@ == key);
                }
            }
        }
        keys
    }
}

/// Whether `pattern` selects `name`.
#[verifier::loop_isolation(false)]
pub fn selects(pattern: &Vec<char>, name: &str) -> (selected: bool)
    ensures
        selected == pattern_selects(pattern@, name@),
{
    let chars = chars_of(name);
    let n = pattern.len();
    if n > 0 && pattern[n - 1] == '*' {
        let prefix = n - 1;
        if chars.len() < prefix {
            return false;
        }
        let mut i: usize = 0;
        while i < prefix
            invariant
                i <= prefix,
                prefix == n - 1,
                n == pattern@.len(),
                prefix <= chars@.len(),
                forall|j: int| 0 <= j < i ==> pattern@[j] == chars@[j],
            decreases prefix - i,
        {
            if pattern[i] != chars[i] {
                assert(pattern@.drop_last()[i as int] != chars@.subrange(
                    0,
                    prefix as int,
                )[i as int]);
                return false;
            }
            i += 1;
        }
        assert(pattern@.drop_last() =~= chars@.subrange(0, prefix as int));
        true
    } else {
        if chars.len() != n {
            return false;
        }
        let mut i: usize = 0;
        while i < n
            invariant
                i <= n,
                n == pattern@.len(),
                n == chars@.len(),
                forall|j: int| 0 <= j < i ==> pattern@[j] == chars@[j],
            decreases n - i,
        {
            if pattern[i] != chars[i] {
                assert(pattern@[i as int] != chars@[i as int]);
                return false;
            }
            i += 1;
        }
        assert(pattern@ =~= chars@);
        true
    }
}

} // verus!
