use vstd::prelude::*;

use crate::error::EnvError;
use crate::segments::appended_value_spec;
use crate::segments::merge_append;
use crate::segments::merge_prepend;
use crate::segments::prepended_value_spec;
use crate::split::join_str;
use crate::split::split_str;
use crate::text::contains_seq;

verus! {

/// One stored value of the per-user environment key: a variable's name and
/// its text.
pub struct Entry {
    pub name: String,
    pub value: String,
}

/// The mapping that a sequence of entries stores, later entries shadowing
/// earlier ones of the same name.
pub open spec fn entries_map(s: Seq<Entry>) -> Map<Seq<char>, Seq<char>>
    decreases s.len(),
{
    if s.len() == 0 {
        Map::empty()
    } else {
        entries_map(s.drop_last()).insert(s.last().name@, s.last().value@)
    }
}

/// A model of the per-user environment registry key: the named string
/// values it stores. Writes overwrite in place, so re-running a `set` is
/// idempotent — unlike the profile-file backend, which accumulates lines.
///
/// Names are compared exactly; that the host registry also answers under
/// differently-cased names is the host's business, not the model's.
pub struct Registry {
    pub entries: Vec<Entry>,
}

impl View for Registry {
    type V = Map<Seq<char>, Seq<char>>;

    open spec fn view(&self) -> Map<Seq<char>, Seq<char>> {
        entries_map(self.entries@)
    }
}

/// A key of the map is exactly a name among the entries.
proof fn lemma_entries_map_key(s: Seq<Entry>, k: Seq<char>)
    ensures
        entries_map(s).contains_key(k) <==> exists|i: int| 0 <= i < s.len() && s[i].name@ == k,
    decreases s.len(),
{
    if s.len() > 0 {
        lemma_entries_map_key(s.drop_last(), k);
        if entries_map(s).contains_key(k) {
            if s.last().name@ != k {
                let i = choose|i: int| 0 <= i < s.drop_last().len() && s.drop_last()[i].name@ == k;
                assert(s[i].name@ == k);
            } else {
                assert(s[s.len() - 1].name@ == k);
            }
        }
        if exists|i: int| 0 <= i < s.len() && s[i].name@ == k {
            let i = choose|i: int| 0 <= i < s.len() && s[i].name@ == k;
            if i < s.len() - 1 {
                assert(s.drop_last()[i].name@ == k);
            }
        }
    }
}

/// With distinct names, the map's value for a name is that entry's value.
proof fn lemma_entries_map_at(s: Seq<Entry>, i: int)
    requires
        0 <= i < s.len(),
        forall|p: int, q: int| 0 <= p < q < s.len() ==> s[p].name@ != s[q].name@,
    ensures
        entries_map(s).contains_key(s[i].name@),
        entries_map(s)[s[i].name@] == s[i].value@,
    decreases s.len(),
{
    if i == s.len() - 1 {
    } else {
        assert(forall|p: int, q: int|
            0 <= p < q < s.drop_last().len() ==> s.drop_last()[p].name@ != s.drop_last()[q].name@);
        lemma_entries_map_at(s.drop_last(), i);
        assert(s.drop_last()[i] == s[i]);
        assert(s[i].name@ != s.last().name@);
    }
}

/// Updating one entry's value in place updates the map at its name.
proof fn lemma_entries_map_update(s: Seq<Entry>, i: int, e: Entry)
    requires
        0 <= i < s.len(),
        e.name@ == s[i].name@,
        forall|p: int, q: int| 0 <= p < q < s.len() ==> s[p].name@ != s[q].name@,
    ensures
        entries_map(s.update(i, e)) == entries_map(s).insert(e.name@, e.value@),
    decreases s.len(),
{
    let t = s.update(i, e);
    if i == s.len() - 1 {
        assert(t.drop_last() =~= s.drop_last());
        assert(t.last() == e);
        assert(entries_map(s).insert(e.name@, e.value@) =~= entries_map(s.drop_last()).insert(
            s.last().name@,
            s.last().value@,
        ).insert(e.name@, e.value@));
        assert(entries_map(t) =~= entries_map(s.drop_last()).insert(e.name@, e.value@));
        assert(entries_map(s.drop_last()).insert(s.last().name@, s.last().value@).insert(
            e.name@,
            e.value@,
        ) =~= entries_map(s.drop_last()).insert(e.name@, e.value@));
    } else {
        assert(t.drop_last() =~= s.drop_last().update(i, e));
        assert(t.last() == s.last());
        assert(forall|p: int, q: int|
            0 <= p < q < s.drop_last().len() ==> s.drop_last()[p].name@ != s.drop_last()[q].name@);
        assert(s.drop_last()[i] == s[i]);
        lemma_entries_map_update(s.drop_last(), i, e);
        assert(s[i].name@ != s.last().name@);
        assert(entries_map(s.drop_last()).insert(e.name@, e.value@).insert(
            s.last().name@,
            s.last().value@,
        ) =~= entries_map(s.drop_last()).insert(s.last().name@, s.last().value@).insert(
            e.name@,
            e.value@,
        ));
    }
}

impl Registry {
    /// Names among the entries are distinct, so each lookup has one answer.
    pub open spec fn wf(&self) -> bool {
        forall|p: int, q: int|
            0 <= p < q < self.entries@.len() ==> self.entries@[p].name@ != self.entries@[q].name@
    }

    /// An empty store.
    pub fn new() -> (r: Registry)
        ensures
            r.wf(),
            r@ == Map::<Seq<char>, Seq<char>>::empty(),
    {
        Registry { entries: Vec::new() }
    }

    /// Reads the stored value of `name`. An absent variable is an error,
    /// never a success with some placeholder text.
    pub fn get(&self, name: &str) -> (r: Result<String, EnvError>)
        requires
            self.wf(),
        ensures
            self@.contains_key(name@) ==> (r matches Ok(v) && v@ == self@[name@]),
            !self@.contains_key(name@) ==> r == Err::<String, EnvError>(EnvError::VariableNotFound),
    {
        let name_s = String::from_str(name);
        let n = self.entries.len();
        let mut i: usize = 0;
        while i < n
            invariant
                n == self.entries@.len(),
                i <= n,
                name_s@ == name@,
                self.wf(),
                forall|j: int| 0 <= j < i ==> self.entries@[j].name@ != name@,
            decreases n - i,
        {
            if self.entries[i].name == name_s {
                proof {
                    lemma_entries_map_at(self.entries@, i as int);
                }
                return Ok(self.entries[i].value.clone());
            }
            i += 1;
        }
        proof {
            lemma_entries_map_key(self.entries@, name@);
        }
        Err(EnvError::VariableNotFound)
    }

    /// Writes `value` under `name`, overwriting any stored value: the one
    /// operation every other mutation is built from.
    pub fn set(&mut self, name: &str, value: &str)
        requires
            old(self).wf(),
        ensures
            final (self).wf(),
            final (self)@ == old(self)@.insert(name@, value@),
    {
        let name_s = String::from_str(name);
        let n = self.entries.len();
        let mut i: usize = 0;
        while i < n
            invariant
                n == self.entries@.len(),
                i <= n,
                name_s@ == name@,
                self.wf(),
                self == old(self),
                forall|j: int| 0 <= j < i ==> self.entries@[j].name@ != name@,
            decreases n - i,
        {
            if self.entries[i].name == name_s {
                let e = Entry { name: name_s, value: String::from_str(value) };
                proof {
                    lemma_entries_map_update(self.entries@, i as int, e);
                }
                self.entries.set(i, e);
                proof {
                    assert forall|p: int, q: int|
                        0 <= p < q < self.entries@.len() implies self.entries@[p].name@
                        != self.entries@[q].name@ by {
                        assert(self.entries@[p].name@ == old(self).entries@[p].name@);
                        assert(self.entries@[q].name@ == old(self).entries@[q].name@);
                    }
                }
                return ;
            }
            i += 1;
        }
        let e = Entry { name: name_s, value: String::from_str(value) };
        proof {
            lemma_entries_map_key(self.entries@, name@);
            assert(self.entries@.push(e).drop_last() =~= self.entries@);
        }
        self.entries.push(e);
        proof {
            assert forall|p: int, q: int|
                0 <= p < q < self.entries@.len() implies self.entries@[p].name@
                != self.entries@[q].name@ by {
                if q < self.entries@.len() - 1 {
                    assert(self.entries@[p].name@ == old(self).entries@[p].name@);
                    assert(self.entries@[q].name@ == old(self).entries@[q].name@);
                } else {
                    assert(self.entries@[p].name@ == old(self).entries@[p].name@);
                }
            }
        }
    }

    /// Merges `value` into the `;`-joined list stored under `name`: read,
    /// split on `;`, add at the end unless already a segment, re-join,
    /// write back. An unset variable starts its list as the value alone.
    pub fn append(&mut self, name: &str, value: &str)
        requires
            old(self).wf(),
        ensures
            final (self).wf(),
            final (self)@ == after_append_spec(old(self)@, name@, value@),
    {
        let r = self.get(name);
        match r {
            Ok(cur) => {
                proof {
                    reveal_strlit(";");
                }
                let parts = split_str(cur.as_str(), ";");
                let merged = merge_append(parts, value);
                let joined = join_str(&merged, ";");
                self.set(name, joined.as_str());
            },
            Err(_) => {
                self.set(name, value);
            },
        }
    }

    /// Merges `value` into the `;`-joined list stored under `name`, at
    /// position zero unless already a segment — the mirror of [`Self::append`].
    pub fn prepend(&mut self, name: &str, value: &str)
        requires
            old(self).wf(),
        ensures
            final (self).wf(),
            final (self)@ == after_prepend_spec(old(self)@, name@, value@),
    {
        let r = self.get(name);
        match r {
            Ok(cur) => {
                proof {
                    reveal_strlit(";");
                }
                let parts = split_str(cur.as_str(), ";");
                let merged = merge_prepend(parts, value);
                let joined = join_str(&merged, ";");
                self.set(name, joined.as_str());
            },
            Err(_) => {
                self.set(name, value);
            },
        }
    }

    /// Writes `value` under `name` only when `name` is unset or stored
    /// empty; a present, non-empty value leaves the store untouched, byte
    /// for byte. The read and the write are two steps, not one atomic one.
    pub fn check_or_set(&mut self, name: &str, value: &str)
        requires
            old(self).wf(),
        ensures
            final (self).wf(),
            old(self)@.contains_key(name@) && old(self)@[name@].len() > 0 ==> *final (self)
                == *old(self),
            !(old(self)@.contains_key(name@) && old(self)@[name@].len() > 0) ==> final (self)@
                == old(self)@.insert(name@, value@),
    {
        let r = self.get(name);
        match r {
            Ok(cur) => {
                if cur.unicode_len() == 0 {
                    self.set(name, value);
                }
            },
            Err(_) => {
                self.set(name, value);
            },
        }
    }
}

/// The whole store after [`Registry::append`] of `v` under `name`.
pub open spec fn after_append_spec(
    m: Map<Seq<char>, Seq<char>>,
    name: Seq<char>,
    v: Seq<char>,
) -> Map<Seq<char>, Seq<char>> {
    if m.contains_key(name) {
        m.insert(name, appended_value_spec(m[name], v))
    } else {
        m.insert(name, v)
    }
}

/// The whole store after [`Registry::prepend`] of `v` under `name`.
pub open spec fn after_prepend_spec(
    m: Map<Seq<char>, Seq<char>>,
    name: Seq<char>,
    v: Seq<char>,
) -> Map<Seq<char>, Seq<char>> {
    if m.contains_key(name) {
        m.insert(name, prepended_value_spec(m[name], v))
    } else {
        m.insert(name, v)
    }
}

/// Law: a `set` followed by a `get` of the same name yields exactly the
/// value just written. `set` leaves the store at `old(self)@.insert(name@,
/// value@)` and `get` answers from the store, so this equality is the
/// set-then-get round trip.
pub proof fn lemma_set_then_get(m: Map<Seq<char>, Seq<char>>, name: Seq<char>, value: Seq<char>)
    ensures
        m.insert(name, value).contains_key(name),
        m.insert(name, value)[name] == value,
{
}

/// Law: two `append`s of the same `(name, value)` leave the same store as
/// one, when the value holds no `;` of its own.
pub proof fn lemma_append_twice(m: Map<Seq<char>, Seq<char>>, name: Seq<char>, v: Seq<char>)
    requires
        !contains_seq(v, ";"@),
    ensures
        after_append_spec(after_append_spec(m, name, v), name, v) == after_append_spec(m, name, v),
{
    let m1 = after_append_spec(m, name, v);
    if m.contains_key(name) {
        crate::segments::lemma_appended_value_idempotent(m[name], v);
    } else {
        crate::segments::lemma_merged_value_self(v);
    }
    assert(appended_value_spec(m1[name], v) == m1[name]);
    assert(m1.insert(name, m1[name]) =~= m1);
}

/// Law: two `prepend`s of the same `(name, value)` leave the same store as
/// one, when the value holds no `;` of its own.
pub proof fn lemma_prepend_twice(m: Map<Seq<char>, Seq<char>>, name: Seq<char>, v: Seq<char>)
    requires
        !contains_seq(v, ";"@),
    ensures
        after_prepend_spec(after_prepend_spec(m, name, v), name, v) == after_prepend_spec(
            m,
            name,
            v,
        ),
{
    let m1 = after_prepend_spec(m, name, v);
    if m.contains_key(name) {
        crate::segments::lemma_prepended_value_idempotent(m[name], v);
    } else {
        crate::segments::lemma_merged_value_self(v);
    }
    assert(prepended_value_spec(m1[name], v) == m1[name]);
    assert(m1.insert(name, m1[name]) =~= m1);
}

} // verus!
