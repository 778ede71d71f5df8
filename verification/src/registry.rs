use dashmap::DashMap;
use vstd::prelude::*;

verus! {

/// A concurrent hash map.
#[verifier::external_type_specification]
#[verifier::external_body]
#[verifier::reject_recursive_types(K)]
#[verifier::reject_recursive_types(V)]
#[verifier::reject_recursive_types(S)]
pub struct ExDashMap<K, V, S>(DashMap<K, V, S>);

/// The entries of a map, by the characters of their keys.
pub uninterp spec fn entries(map: DashMap<String, u64>) -> Map<Seq<char>, u64>;

/// Calls `DashMap::new`, which creates a map without entries.
#[verifier::external_body]
fn map_new() -> (created: DashMap<String, u64>)
    ensures
        entries(created).dom() == Set::<Seq<char>>::empty(),
{
    DashMap::new()
}

/// Calls `DashMap::insert`, which sets the value of the key and returns the one before.
#[verifier::external_body]
fn map_insert(map: &mut DashMap<String, u64>, key: String, value: u64) -> (before: Option<u64>)
    ensures
        entries(*final(map)) == entries(*old(map)).insert(key@, value),
        before == if entries(*old(map)).contains_key(key@) {
            Some(entries(*old(map))[key@])
        } else {
            None
        },
{
    map.insert(key, value)
}

/// Calls `DashMap::get`, which returns a reference to the value of the key, if there is one.
#[verifier::external_body]
fn map_get(map: &DashMap<String, u64>, key: &str) -> (value: Option<u64>)
    ensures
        value == if entries(*map).contains_key(key@) {
            Some(entries(*map)[key@])
        } else {
            None
        },
{
    map.get(key).map(|found| *found)
}

/// Calls `DashMap::remove`, which takes the key out of the map and returns the entry, if there was
/// one.
#[verifier::external_body]
fn map_remove(map: &mut DashMap<String, u64>, key: &str) -> (value: Option<u64>)
    ensures
        entries(*final(map)) == entries(*old(map)).remove(key@),
        value == if entries(*old(map)).contains_key(key@) {
            Some(entries(*old(map))[key@])
        } else {
            None
        },
{
    map.remove(key).map(|found| found.1)
}

/// Values by their names, which are found through a concurrent hash map.
#[verifier::reject_recursive_types(V)]
pub struct Registry<V> {
    index: DashMap<String, u64>,
    names: Vec<String>,
    values: Vec<V>,
}

/// The values by the characters of their names.
impl<V> View for Registry<V> {
    type V = Map<Seq<char>, V>;

    closed spec fn view(&self) -> Map<Seq<char>, V> {
        Map::new(
            |name: Seq<char>| entries(self.index).contains_key(name),
            |name: Seq<char>| self.values@[entries(self.index)[name] as int],
        )
    }
}

impl<V> Registry<V> {
    /// What every operation keeps.
    pub closed spec fn wf(&self) -> bool {
        &&& self.names@.len() == self.values@.len()
        &&& forall|name: Seq<char>| #[trigger]
            entries(self.index).contains_key(name) ==> entries(self.index)[name] < self.names@.len()
                && self.names@[entries(self.index)[name] as int]@ == name
        &&& forall|i: int|
            0 <= i < self.names@.len() ==> entries(self.index).contains_key(
                (#[trigger] self.names@[i])@,
            ) && entries(self.index)[self.names@[i]@] == i
    }

    /// The names, in the order in which the values are walked.
    pub closed spec fn order(&self) -> Seq<Seq<char>> {
        Seq::new(self.names@.len(), |i: int| self.names@[i]@)
    }

    pub fn new() -> (registry: Self)
        ensures
            registry.wf(),
            registry@ == Map::<Seq<char>, V>::empty(),
            registry.order() == Seq::<Seq<char>>::empty(),
    {
        let registry = Registry { index: map_new(), names: Vec::new(), values: Vec::new() };
        proof {
            assert(registry@.dom() =~= Set::empty());
            assert(registry@ =~= Map::<Seq<char>, V>::empty());
            assert(registry.order() =~= Seq::<Seq<char>>::empty());
        }
        registry
    }

    /// The names walked are those that have a value, each once.
    pub proof fn lemma_order(&self)
        requires
            self.wf(),
        ensures
            self.order().no_duplicates(),
            forall|name: Seq<char>| #[trigger]
                self@.contains_key(name) <==> self.order().contains(name),
    {
        assert forall|name: Seq<char>| #[trigger] self@.contains_key(name) implies self.order().contains(
            name,
        ) by {
            let i = entries(self.index)[name] as int;
            assert(self.order()[i] == name);
        }
        assert forall|name: Seq<char>| self.order().contains(name) implies #[trigger] self@.contains_key(
            name,
        ) by {
            let i = choose|i: int| 0 <= i < self.order().len() && self.order()[i] == name;
            assert(self.names@[i]@ == name);
        }
        assert forall|i: int, j: int|
            0 <= i < self.order().len() && 0 <= j < self.order().len() && i
                != j implies self.order()[i] != self.order()[j] by {
            assert(entries(self.index)[self.names@[i]@] == i);
            assert(entries(self.index)[self.names@[j]@] == j);
        }
    }

    /// How many values there are.
    pub fn len(&self) -> (len: usize)
        requires
            self.wf(),
        ensures
            len == self.order().len(),
            len == 0 <==> self@ == Map::<Seq<char>, V>::empty(),
    {
        proof {
            self.lemma_order();
            if self.names@.len() == 0 {
                assert forall|name: Seq<char>| !#[trigger] self@.contains_key(name) by {
                    assert(!self.order().contains(name));
                }
                assert(self@ =~= Map::<Seq<char>, V>::empty());
            } else {
                assert(self.order().contains(self.order()[0]));
                assert(self@.contains_key(self.order()[0]));
            }
        }
        self.names.len()
    }

    /// Whether there are no values.
    pub fn is_empty(&self) -> (res: bool)
        requires
            self.wf(),
        ensures
            res == (self@ == Map::<Seq<char>, V>::empty()),
    {
        self.len() == 0
    }

    fn find(&self, name: &str) -> (res: Option<usize>)
        requires
            self.wf(),
        ensures
            match res {
                None => !entries(self.index).contains_key(name@),
                Some(at) => entries(self.index).contains_key(name@) && at < self.names@.len()
                    && self.names@[at as int]@ == name@ && at == entries(self.index)[name@],
            },
    {
        match map_get(&self.index, name) {
            None => None,
            Some(at) => {
                assert(entries(self.index).contains_key(name@));
                let len: usize = self.names.len();
                assert(at < len);
                Some(at as usize)
            },
        }
    }

    /// Whether there is a value with the given name.
    pub fn contains(&self, name: &str) -> (res: bool)
        requires
            self.wf(),
        ensures
            res == self@.contains_key(name@),
    {
        self.find(name).is_some()
    }

    /// The value with the given name.
    pub fn get(&self, name: &str) -> (res: Option<&V>)
        requires
            self.wf(),
        ensures
            match res {
                None => !self@.contains_key(name@),
                Some(value) => self@.contains_key(name@) && *value == self@[name@],
            },
    {
        match self.find(name) {
            None => None,
            Some(at) => Some(&self.values[at]),
        }
    }

    /// The name and the value that are walked at the given place.
    pub fn at(&self, i: usize) -> (res: (&String, &V))
        requires
            self.wf(),
            i < self.order().len(),
        ensures
            res.0@ == self.order()[i as int],
            self@.contains_key(res.0@),
            *res.1 == self@[res.0@],
    {
        assert(entries(self.index).contains_key(self.names@[i as int]@));
        (&self.names[i], &self.values[i])
    }

    /// Sets the value with the given name, and returns the one before.
    pub fn insert(&mut self, name: String, value: V) -> (before: Option<V>)
        requires
            old(self).wf(),
        ensures
            final(self).wf(),
            final(self)@ == old(self)@.insert(name@, value),
            final(self).order() == if old(self)@.contains_key(name@) {
                old(self).order()
            } else {
                old(self).order().push(name@)
            },
            match before {
                None => !old(self)@.contains_key(name@),
                Some(was) => old(self)@.contains_key(name@) && was == old(self)@[name@],
            },
    {
        let ghost was = *self;
        match self.find(name.as_str()) {
            Some(at) => {
                let mut slot = value;
                std::mem::swap(&mut slot, &mut self.values[at]);
                proof {
                    assert(self.values@ == was.values@.update(at as int, value));
                    self.lemma_keys(was);
                    assert forall|other: Seq<char>| #[trigger] self@.contains_key(other) implies self@[other]
                        == was@.insert(name@, value)[other] by {
                        if other != name@ {
                            assert(was.names@[entries(was.index)[other] as int]@ == other);
                        }
                    }
                    assert(self@ =~= was@.insert(name@, value));
                    assert(self.order() =~= was.order());
                }
                Some(slot)
            },
            None => {
                let at: usize = self.names.len();
                let key = name.clone();
                let _none = map_insert(&mut self.index, key, at as u64);
                self.names.push(name);
                self.values.push(value);
                proof {
                    assert forall|other: Seq<char>|
                        self@.contains_key(other) <==> was@.insert(name@, value).contains_key(other) by {}
                    assert forall|other: Seq<char>| #[trigger] self@.contains_key(other) implies self@[other]
                        == was@.insert(name@, value)[other] by {
                        if other != name@ {
                            assert(entries(was.index).contains_key(other));
                        }
                    }
                    assert(self@ =~= was@.insert(name@, value));
                    assert(self.order() =~= was.order().push(name@));
                    assert forall|i: int|
                        0 <= i < self.names@.len() implies entries(self.index).contains_key(
                        (#[trigger] self.names@[i])@,
                    ) && entries(self.index)[self.names@[i]@] == i by {
                        if i < at {
                            assert(entries(was.index).contains_key(was.names@[i]@));
                        }
                    }
                }
                None
            },
        }
    }

    /// The value with the given name, to change it.
    pub fn get_mut(&mut self, name: &str) -> (res: Option<&mut V>)
        requires
            old(self).wf(),
        ensures
            final(self).wf(),
            final(self).order() == old(self).order(),
            match res {
                None => !old(self)@.contains_key(name@) && final(self)@ == old(self)@,
                Some(value) => old(self)@.contains_key(name@) && *value == old(self)@[name@]
                    && final(self)@ == old(self)@.insert(name@, *final(value)),
            },
    {
        let ghost was = *self;
        match self.find(name) {
            None => None,
            Some(at) => {
                proof {
                    was.lemma_updated(at as int, name@);
                }
                Some(&mut self.values[at])
            },
        }
    }

    /// Changing a value changes that one alone.
    proof fn lemma_updated(&self, at: int, name: Seq<char>)
        requires
            self.wf(),
            0 <= at < self.names@.len(),
            self.names@[at]@ == name,
            entries(self.index).contains_key(name),
            entries(self.index)[name] == at,
        ensures
            forall|after: Registry<V>, value: V|
                after.index == self.index && after.names == self.names && after.values@
                    == #[trigger] self.values@.update(at, value) ==> {
                    &&& #[trigger] after.wf()
                    &&& after@ == self@.insert(name, value)
                    &&& after.order() == self.order()
                },
    {
        assert forall|after: Registry<V>, value: V|
            after.index == self.index && after.names == self.names && after.values@
                == #[trigger] self.values@.update(at, value) implies {
            &&& #[trigger] after.wf()
            &&& after@ == self@.insert(name, value)
            &&& after.order() == self.order()
        } by {
            assert forall|other: Seq<char>| #[trigger] after@.contains_key(other) implies after@[other]
                == self@.insert(name, value)[other] by {
                if other != name {
                    assert(self.names@[entries(self.index)[other] as int]@ == other);
                }
            }
            assert forall|other: Seq<char>|
                after@.contains_key(other) <==> self@.insert(name, value).contains_key(other) by {}
            assert(after@ =~= self@.insert(name, value));
            assert(after.order() =~= self.order());
        }
    }

    /// Takes out the value with the given name. The others are walked in the same order as before.
    pub fn remove(&mut self, name: &str) -> (res: Option<V>)
        requires
            old(self).wf(),
        ensures
            final(self).wf(),
            final(self)@ == old(self)@.remove(name@),
            match res {
                None => !old(self)@.contains_key(name@) && final(self).order() == old(self).order(),
                Some(value) => old(self)@.contains_key(name@) && value == old(self)@[name@]
                    && exists|i: int|
                    0 <= i < old(self).order().len() && old(self).order()[i] == name@
                        && final(self).order() == #[trigger] old(self).order().remove(i),
            },
    {
        let ghost was = *self;
        let at: usize = match self.find(name) {
            None => {
                assert(self@.remove(name@) =~= self@);
                return None;
            },
            Some(at) => at,
        };
        let _place = map_remove(&mut self.index, name);
        let _name = self.names.remove(at);
        let value = self.values.remove(at);
        let mut i: usize = at;
        while i < self.names.len()
            invariant
                was.wf(),
                at <= i <= self.names@.len() == was.names@.len() - 1,
                at < was.names@.len(),
                was.names@[at as int]@ == name@,
                self.names@ == was.names@.remove(at as int),
                self.values@ == was.values@.remove(at as int),
                forall|other: Seq<char>| #[trigger]
                    entries(self.index).contains_key(other) <==> entries(was.index).remove(
                        name@,
                    ).contains_key(other),
                forall|k: int|
                    0 <= k < self.names@.len() ==> entries(self.index)[(#[trigger] self.names@[k])@]
                        == if k < i {
                        k
                    } else {
                        k + 1
                    },
            decreases self.names@.len() - i,
        {
            let key = self.names[i].clone();
            proof {
                was.lemma_distinct();
                assert(self.names@[i as int] == was.names@[i + 1]);
                assert(entries(was.index).contains_key(was.names@[i + 1]@));
                assert forall|k: int| 0 <= k < self.names@.len() && k != i implies (
                #[trigger] self.names@[k])@ != self.names@[i as int]@ by {
                    let j = if k < at {
                        k
                    } else {
                        k + 1
                    };
                    assert(self.names@[k] == was.names@[j]);
                    assert(entries(was.index)[was.names@[j]@] == j);
                    assert(entries(was.index)[was.names@[i + 1]@] == i + 1);
                }
            }
            let _before = map_insert(&mut self.index, key, i as u64);
            i = i + 1;
        }
        proof {
            was.lemma_distinct();
            assert forall|k: int| 0 <= k < self.names@.len() implies entries(
                self.index,
            ).contains_key((#[trigger] self.names@[k])@) by {
                let j = if k < at {
                    k
                } else {
                    k + 1
                };
                assert(self.names@[k] == was.names@[j]);
                assert(entries(was.index).contains_key(was.names@[j]@));
                assert(entries(was.index)[was.names@[j]@] == j);
                assert(entries(was.index)[was.names@[at as int]@] == at);
            }
            assert forall|other: Seq<char>| #[trigger] entries(self.index).contains_key(
                other,
            ) implies entries(self.index)[other] < self.names@.len() && self.names@[entries(
                self.index,
            )[other] as int]@ == other && self.values@[entries(self.index)[other] as int]
                == was.values@[entries(was.index)[other] as int] by {
                assert(entries(was.index).contains_key(other));
                let j = entries(was.index)[other] as int;
                assert(was.names@[j]@ == other);
                let k = if j < at {
                    j
                } else {
                    j - 1
                };
                assert(self.names@[k] == was.names@[j]);
                assert(entries(self.index)[self.names@[k]@] == k);
            }
            assert forall|other: Seq<char>|
                self@.contains_key(other) <==> was@.remove(name@).contains_key(other) by {}
            assert(self@ =~= was@.remove(name@));
            assert(was.order()[at as int] == name@);
            assert(self.order() =~= was.order().remove(at as int));
        }
        Some(value)
    }

    proof fn lemma_distinct(&self)
        requires
            self.wf(),
        ensures
            forall|i: int|
                0 <= i < self.names@.len() ==> entries(self.index)[(#[trigger] self.names@[i])@]
                    == i,
    {
    }

    proof fn lemma_keys(&self, was: Registry<V>)
        requires
            self.index == was.index,
        ensures
            forall|name: Seq<char>| #[trigger]
                self@.contains_key(name) <==> was@.contains_key(name),
    {
    }
}

} // verus!
