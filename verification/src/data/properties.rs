//! The properties of an entity: a value for each name.

use vstd::prelude::*;

verus! {

/// The value that a list of properties gives to `key`: that of the last
/// property of that name, if there is one.
pub open spec fn property_value(properties: Seq<(Seq<u8>, Seq<u8>)>, key: Seq<u8>) -> Option<
    Seq<u8>,
>
    decreases properties.len(),
{
    if properties.len() == 0 {
        None
    } else if properties.last().0 == key {
        Some(properties.last().1)
    } else {
        property_value(properties.drop_last(), key)
    }
}

/// The position of the first property of the name `key`, if there is one.
pub open spec fn name_index(properties: Seq<(Seq<u8>, Seq<u8>)>, key: Seq<u8>) -> Option<int>
    decreases properties.len(),
{
    if properties.len() == 0 {
        None
    } else {
        match name_index(properties.drop_last(), key) {
            Some(i) => Some(i),
            None => if properties.last().0 == key {
                Some(properties.len() - 1)
            } else {
                None
            },
        }
    }
}

/// Whether no two properties have the same name.
pub open spec fn unique_names(properties: Seq<(Seq<u8>, Seq<u8>)>) -> bool {
    forall|i: int, j: int|
        0 <= i < j < properties.len() ==> (#[trigger] properties[i]).0 != (
        #[trigger] properties[j]).0
}

/// The properties with `value` given to `key`: in place of the value that
/// the name had, or behind all others where the name is new.
pub open spec fn with_property(
    properties: Seq<(Seq<u8>, Seq<u8>)>,
    key: Seq<u8>,
    value: Seq<u8>,
) -> Seq<(Seq<u8>, Seq<u8>)> {
    match name_index(properties, key) {
        Some(i) => properties.update(i, (key, value)),
        None => properties.push((key, value)),
    }
}

/// Where a name is found, it stands there and nowhere in front; where it
/// is not found, it stands nowhere.
pub proof fn lemma_name_index(properties: Seq<(Seq<u8>, Seq<u8>)>, key: Seq<u8>)
    ensures
        match name_index(properties, key) {
            Some(i) => {
                &&& 0 <= i < properties.len()
                &&& properties[i].0 == key
                &&& forall|s: int| 0 <= s < i ==> (#[trigger] properties[s]).0 != key
            },
            None => forall|s: int| 0 <= s < properties.len() ==> (#[trigger] properties[s]).0 != key,
        },
    decreases properties.len(),
{
    if properties.len() > 0 {
        lemma_name_index(properties.drop_last(), key);
        let shorter = properties.drop_last();
        assert forall|s: int| 0 <= s < shorter.len() implies shorter[s] == properties[s] by {}
        match name_index(shorter, key) {
            Some(i) => {
                assert forall|s: int| 0 <= s < i implies (#[trigger] properties[s]).0 != key by {
                    assert(shorter[s].0 != key);
                }
            },
            None => {
                assert forall|s: int| 0 <= s < properties.len() - 1 implies (
                #[trigger] properties[s]).0 != key by {
                    assert(shorter[s].0 != key);
                }
            },
        }
    }
}

/// A name that stands nowhere has no value.
pub proof fn lemma_property_value_absent(properties: Seq<(Seq<u8>, Seq<u8>)>, key: Seq<u8>)
    requires
        forall|s: int| 0 <= s < properties.len() ==> (#[trigger] properties[s]).0 != key,
    ensures
        property_value(properties, key) is None,
    decreases properties.len(),
{
    if properties.len() > 0 {
        let shorter = properties.drop_last();
        assert(properties.last() == properties[properties.len() - 1]);
        assert forall|s: int| 0 <= s < shorter.len() implies (#[trigger] shorter[s]).0 != key by {
            assert(shorter[s] == properties[s]);
        }
        lemma_property_value_absent(shorter, key);
    }
}

/// Where no two properties have the same name, each name has the value that
/// stands with it.
pub proof fn lemma_property_value_at(properties: Seq<(Seq<u8>, Seq<u8>)>, i: int)
    requires
        unique_names(properties),
        0 <= i < properties.len(),
    ensures
        property_value(properties, properties[i].0) == Some(properties[i].1),
    decreases properties.len(),
{
    let last = properties.len() - 1;
    assert(properties.last() == properties[last]);
    if i < last {
        let shorter = properties.drop_last();
        assert(properties[i].0 != properties[last].0);
        assert(shorter[i] == properties[i]);
        assert forall|a: int, b: int| 0 <= a < b < shorter.len() implies (#[trigger] shorter[a]).0
            != (#[trigger] shorter[b]).0 by {
            assert(shorter[a] == properties[a]);
            assert(shorter[b] == properties[b]);
        }
        lemma_property_value_at(shorter, i);
    }
}

/// Giving a value to a name keeps the names apart.
pub proof fn lemma_with_property_unique(
    properties: Seq<(Seq<u8>, Seq<u8>)>,
    key: Seq<u8>,
    value: Seq<u8>,
)
    requires
        unique_names(properties),
    ensures
        unique_names(with_property(properties, key, value)),
{
    lemma_name_index(properties, key);
    let after = with_property(properties, key, value);
    assert forall|a: int, b: int| 0 <= a < b < after.len() implies (#[trigger] after[a]).0 != (
    #[trigger] after[b]).0 by {
        match name_index(properties, key) {
            Some(i) => {
                assert(after[a].0 == properties[a].0);
                assert(after[b].0 == properties[b].0);
            },
            None => {
                if b < properties.len() {
                    assert(after[a] == properties[a]);
                    assert(after[b] == properties[b]);
                } else {
                    assert(after[a] == properties[a]);
                    assert(properties[a].0 != key);
                }
            },
        }
    }
}

/// After a value was given to a name, the name has that value, every other
/// name has the value it had, and there is one property more only if the
/// name is new.
pub proof fn lemma_with_property_values(
    properties: Seq<(Seq<u8>, Seq<u8>)>,
    key: Seq<u8>,
    value: Seq<u8>,
)
    requires
        unique_names(properties),
    ensures
        property_value(with_property(properties, key, value), key) == Some(value),
        forall|other: Seq<u8>|
            other != key ==> #[trigger] property_value(
                with_property(properties, key, value),
                other,
            ) == property_value(properties, other),
        with_property(properties, key, value).len() == if property_value(properties, key) is Some {
            properties.len()
        } else {
            properties.len() + 1
        },
{
    lemma_name_index(properties, key);
    lemma_with_property_unique(properties, key, value);
    let after = with_property(properties, key, value);
    match name_index(properties, key) {
        Some(i) => {
            lemma_property_value_at(after, i);
            lemma_property_value_at(properties, i);
        },
        None => {
            lemma_property_value_at(after, properties.len() as int);
            lemma_property_value_absent(properties, key);
        },
    }
    assert forall|other: Seq<u8>| other != key implies #[trigger] property_value(after, other)
        == property_value(properties, other) by {
        lemma_name_index(properties, other);
        match name_index(properties, other) {
            Some(j) => {
                assert(after[j] == properties[j]);
                lemma_property_value_at(properties, j);
                lemma_property_value_at(after, j);
            },
            None => {
                assert forall|s: int| 0 <= s < after.len() implies (#[trigger] after[s]).0
                    != other by {
                    if s < properties.len() {
                        assert(after[s].0 == properties[s].0);
                    }
                }
                lemma_property_value_absent(properties, other);
                lemma_property_value_absent(after, other);
            },
        }
    }
}

/// What a list of properties holds.
pub open spec fn properties_view(entries: Seq<(Vec<u8>, Vec<u8>)>) -> Seq<(Seq<u8>, Seq<u8>)> {
    Seq::new(entries.len(), |i: int| (entries[i].0@, entries[i].1@))
}

/// The properties of an entity: one value for each name, in the order in
/// which the names were first given.
#[derive(Debug)]
pub struct Properties {
    entries: Vec<(Vec<u8>, Vec<u8>)>,
}

impl View for Properties {
    type V = Seq<(Seq<u8>, Seq<u8>)>;

    closed spec fn view(&self) -> Seq<(Seq<u8>, Seq<u8>)> {
        properties_view(self.entries@)
    }
}

/// Whether two texts hold the same bytes.
pub fn same_text(a: &Vec<u8>, b: &[u8]) -> (same: bool)
    ensures
        same == (a@ == b@),
{
    if a.len() != b.len() {
        return false;
    }
    let mut i: usize = 0;
    while i < a.len()
        invariant
            a@.len() == b@.len(),
            i <= a@.len(),
            forall|s: int| 0 <= s < i ==> a@[s] == b@[s],
        decreases a.len() - i,
    {
        if a[i] != b[i] {
            return false;
        }
        i += 1;
    }
    assert(a@ =~= b@);
    true
}

impl Properties {
    #[verifier::type_invariant]
    spec fn one_value_for_each_name(self) -> bool {
        unique_names(self@)
    }

    /// No properties.
    pub fn new() -> (p: Properties)
        ensures
            p@ == Seq::<(Seq<u8>, Seq<u8>)>::empty(),
    {
        let p = Properties { entries: Vec::new() };
        assert(p@ =~= Seq::<(Seq<u8>, Seq<u8>)>::empty());
        p
    }

    /// How many properties there are.
    pub fn len(&self) -> (n: usize)
        ensures
            n == self@.len(),
    {
        self.entries.len()
    }

    /// The properties as pairs of name and value. No two have the same name.
    pub fn entries(&self) -> (entries: &Vec<(Vec<u8>, Vec<u8>)>)
        ensures
            properties_view(entries@) == self@,
            unique_names(self@),
    {
        proof {
            use_type_invariant(self);
        }
        &self.entries
    }

    fn find(&self, key: &[u8]) -> (found: Option<usize>)
        ensures
            match found {
                Some(i) => name_index(self@, key@) == Some(i as int) && i < self@.len(),
                None => name_index(self@, key@) is None,
            },
    {
        let mut i: usize = 0;
        while i < self.entries.len()
            invariant
                i <= self.entries.len(),
                forall|s: int| 0 <= s < i ==> (#[trigger] self@[s]).0 != key@,
            decreases self.entries.len() - i,
        {
            if same_text(&self.entries[i].0, key) {
                proof {
                    lemma_name_index(self@, key@);
                    assert(self@[i as int].0 == key@);
                }
                return Some(i);
            }
            i += 1;
        }
        proof {
            lemma_name_index(self@, key@);
        }
        None
    }

    /// Gives `value` to the name `key`: in place of the value that the name
    /// had, or as a new property behind all others. Every other name keeps
    /// its value.
    pub fn insert(&mut self, key: Vec<u8>, value: Vec<u8>)
        ensures
            final(self)@ == with_property(old(self)@, key@, value@),
            property_value(final(self)@, key@) == Some(value@),
            forall|other: Seq<u8>|
                other != key@ ==> #[trigger] property_value(final(self)@, other) == property_value(
                    old(self)@,
                    other,
                ),
            final(self)@.len() == if property_value(old(self)@, key@) is Some {
                old(self)@.len()
            } else {
                old(self)@.len() + 1
            },
    {
        let ghost before = self@;
        let ghost after = with_property(before, key@, value@);
        proof {
            use_type_invariant(&*self);
            lemma_with_property_unique(before, key@, value@);
            lemma_with_property_values(before, key@, value@);
            lemma_name_index(before, key@);
        }
        match self.find(key.as_slice()) {
            Some(i) => {
                let mut entries: Vec<(Vec<u8>, Vec<u8>)> = Vec::new();
                std::mem::swap(&mut entries, &mut self.entries);
                let _ = entries.remove(i);
                entries.insert(i, (key, value));
                assert(properties_view(entries@) =~= after);
                self.entries = entries;
            },
            None => {
                let mut entries: Vec<(Vec<u8>, Vec<u8>)> = Vec::new();
                std::mem::swap(&mut entries, &mut self.entries);
                entries.push((key, value));
                assert(properties_view(entries@) =~= after);
                self.entries = entries;
            },
        }
    }

    /// The value of the property `key`, if there is one.
    pub fn get(&self, key: &[u8]) -> (value: Option<&Vec<u8>>)
        ensures
            match value {
                Some(v) => property_value(self@, key@) == Some(v@),
                None => property_value(self@, key@) is None,
            },
    {
        proof {
            use_type_invariant(self);
            lemma_name_index(self@, key@);
        }
        match self.find(key) {
            Some(i) => {
                proof {
                    lemma_property_value_at(self@, i as int);
                }
                Some(&self.entries[i].1)
            },
            None => {
                proof {
                    lemma_property_value_absent(self@, key@);
                }
                None
            },
        }
    }
}

} // verus!
