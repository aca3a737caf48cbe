//! Durable metadata store: the in-memory mirror of the one on-disk
//! document that holds every installed plugin's record.
//!
//! The store owns the records; every mutation is read-modify-write
//! through it. The caller that provides persistence reads `list` after
//! each mutation and rewrites the document wholesale.

use vstd::prelude::*;
use crate::errors::PluginError;
use crate::plugin::PluginMetadata;
use crate::plugin::PluginStatus;

verus! {

/// No two records share an identity.
pub open spec fn names_unique(s: Seq<PluginMetadata>) -> bool {
    forall|i: int, j: int| 0 <= i < j < s.len() ==> s[i].info.name@ != s[j].info.name@
}

/// The first record of identity `name`, if any.
pub open spec fn spec_get(s: Seq<PluginMetadata>, name: Seq<char>) -> Option<PluginMetadata>
    decreases s.len(),
{
    if s.len() == 0 {
        None
    } else if s[0].info.name@ == name {
        Some(s[0])
    } else {
        spec_get(s.drop_first(), name)
    }
}

/// Some record of identity `name` is present.
pub open spec fn contains_name(s: Seq<PluginMetadata>, name: Seq<char>) -> bool {
    spec_get(s, name) is Some
}

/// If `i` is the first index whose record has identity `name`, then
/// `spec_get` returns that record.
pub proof fn lemma_spec_get_at(s: Seq<PluginMetadata>, name: Seq<char>, i: int)
    requires
        0 <= i < s.len(),
        s[i].info.name@ == name,
        forall|j: int| 0 <= j < i ==> s[j].info.name@ != name,
    ensures
        spec_get(s, name) == Some(s[i]),
    decreases i,
{
    if i > 0 {
        lemma_spec_get_at(s.drop_first(), name, i - 1);
    }
}

/// If no record has identity `name`, `spec_get` returns nothing.
pub proof fn lemma_spec_get_absent(s: Seq<PluginMetadata>, name: Seq<char>)
    requires
        forall|j: int| 0 <= j < s.len() ==> s[j].info.name@ != name,
    ensures
        spec_get(s, name) is None,
    decreases s.len(),
{
    if s.len() > 0 {
        lemma_spec_get_absent(s.drop_first(), name);
    }
}

/// Appending a record resolves identities not present before.
pub proof fn lemma_spec_get_push(s: Seq<PluginMetadata>, m: PluginMetadata, n: Seq<char>)
    ensures
        spec_get(s.push(m), n) == (if spec_get(s, n) is Some {
            spec_get(s, n)
        } else if n == m.info.name@ {
            Some(m)
        } else {
            None::<PluginMetadata>
        }),
    decreases s.len(),
{
    if s.len() == 0 {
        assert(s.push(m).drop_first() =~= Seq::<PluginMetadata>::empty());
    } else {
        assert(s.push(m).drop_first() =~= s.drop_first().push(m));
        lemma_spec_get_push(s.drop_first(), m, n);
    }
}

/// Replacing the record at `i` with one of the same identity leaves
/// every other identity's record unchanged.
pub proof fn lemma_spec_get_update_other(
    s: Seq<PluginMetadata>,
    i: int,
    m: PluginMetadata,
    n: Seq<char>,
)
    requires
        0 <= i < s.len(),
        s[i].info.name@ == m.info.name@,
        n != m.info.name@,
    ensures
        spec_get(s.update(i, m), n) == spec_get(s, n),
    decreases s.len(),
{
    if i == 0 {
        assert(s.update(0, m).drop_first() =~= s.drop_first());
    } else {
        assert(s.update(i, m).drop_first() =~= s.drop_first().update(i - 1, m));
        lemma_spec_get_update_other(s.drop_first(), i - 1, m, n);
    }
}

/// Removing the only record of an identity makes that identity absent
/// and leaves every other identity's record unchanged.
pub proof fn lemma_spec_get_remove(s: Seq<PluginMetadata>, i: int, n: Seq<char>)
    requires
        0 <= i < s.len(),
        names_unique(s),
    ensures
        spec_get(s.remove(i), n) == (if n == s[i].info.name@ {
            None::<PluginMetadata>
        } else {
            spec_get(s, n)
        }),
    decreases s.len(),
{
    if i == 0 {
        assert(s.remove(0) =~= s.drop_first());
        if n == s[0].info.name@ {
            assert(forall|j: int|
                0 <= j < s.drop_first().len() ==> s.drop_first()[j].info.name@ != n);
            lemma_spec_get_absent(s.drop_first(), n);
        }
    } else {
        assert(s.remove(i).drop_first() =~= s.drop_first().remove(i - 1));
        assert(names_unique(s.drop_first()));
        lemma_spec_get_remove(s.drop_first(), i - 1, n);
    }
}

/// A found record carries the identity it was looked up by.
pub proof fn lemma_spec_get_name(s: Seq<PluginMetadata>, name: Seq<char>)
    requires
        spec_get(s, name) is Some,
    ensures
        spec_get(s, name)->Some_0.info.name@ == name,
    decreases s.len(),
{
    if s.len() > 0 && s[0].info.name@ != name {
        lemma_spec_get_name(s.drop_first(), name);
    }
}

/// An identity that occurs at some index is found by `spec_get`.
pub proof fn lemma_spec_get_some(s: Seq<PluginMetadata>, a: int)
    requires
        0 <= a < s.len(),
    ensures
        spec_get(s, s[a].info.name@) is Some,
    decreases s.len(),
{
    if s[0].info.name@ != s[a].info.name@ {
        lemma_spec_get_some(s.drop_first(), a - 1);
    }
}

/// First index holding `name`, scanning from the front.
fn find_index(records: &Vec<PluginMetadata>, name: &str) -> (r: Option<usize>)
    ensures
        match r {
            Some(i) => i < records@.len() && records@[i as int].info.name@ == name@
                && forall|j: int| 0 <= j < i ==> records@[j].info.name@ != name@,
            None => forall|j: int| 0 <= j < records@.len() ==> records@[j].info.name@ != name@,
        },
{
    let mut i: usize = 0;
    while i < records.len()
        invariant
            i <= records@.len(),
            forall|j: int| 0 <= j < i ==> records@[j].info.name@ != name@,
        decreases records@.len() - i,
    {
        if crate::strutil::str_eq(records[i].info.name.as_str(), name) {
            return Some(i);
        }
        i += 1;
    }
    None
}

/// The in-memory mirror of the persisted plugin-record collection.
pub struct PluginStore {
    records: Vec<PluginMetadata>,
}

impl View for PluginStore {
    type V = Seq<PluginMetadata>;

    closed spec fn view(&self) -> Seq<PluginMetadata> {
        self.records@
    }
}

impl PluginStore {
    /// The store's invariant: identities are unique.
    pub open spec fn wf(&self) -> bool {
        names_unique(self@)
    }

    /// An empty store.
    pub fn new() -> (r: Self)
        ensures
            r.wf(),
            r@.len() == 0,
    {
        PluginStore { records: Vec::new() }
    }

    /// Build the mirror from records read off disk. Should the document
    /// hold several records of one identity, the first wins, as it does
    /// for every lookup.
    pub fn from_records(records: Vec<PluginMetadata>) -> (r: Self)
        ensures
            r.wf(),
            forall|n: Seq<char>| spec_get(r@, n) == spec_get(records@, n),
    {
        let mut out: Vec<PluginMetadata> = Vec::new();
        let mut i: usize = 0;
        while i < records.len()
            invariant
                i <= records@.len(),
                names_unique(out@),
                forall|n: Seq<char>|
                    spec_get(out@, n) == spec_get(records@.subrange(0, i as int), n),
            decreases records@.len() - i,
        {
            let found = find_index(&out, records[i].info.name.as_str());
            proof {
                assert(records@.subrange(0, i + 1) =~= records@.subrange(0, i as int).push(
                    records@[i as int],
                ));
            }
            match found {
                None => {
                    let m = records[i].clone();
                    proof {
                        lemma_spec_get_absent(out@, m.info.name@);
                        assert forall|n: Seq<char>| true implies spec_get(out@.push(m), n)
                            == spec_get(records@.subrange(0, i + 1), n) by {
                            lemma_spec_get_push(out@, m, n);
                            lemma_spec_get_push(
                                records@.subrange(0, i as int),
                                records@[i as int],
                                n,
                            );
                        }
                        assert(names_unique(out@.push(m)));
                    }
                    out.push(m);
                },
                Some(k) => {
                    proof {
                        lemma_spec_get_at(out@, records@[i as int].info.name@, k as int);
                        assert forall|n: Seq<char>| true implies spec_get(out@, n) == spec_get(
                            records@.subrange(0, i + 1),
                            n,
                        ) by {
                            lemma_spec_get_push(
                                records@.subrange(0, i as int),
                                records@[i as int],
                                n,
                            );
                        }
                    }
                },
            }
            i += 1;
        }
        proof {
            assert(records@.subrange(0, records@.len() as int) =~= records@);
        }
        PluginStore { records: out }
    }

    /// Number of installed plugins.
    pub fn len(&self) -> (r: usize)
        ensures
            r == self@.len(),
    {
        self.records.len()
    }

    /// First index holding `name`, scanning from the front.
    fn index_of(&self, name: &str) -> (r: Option<usize>)
        ensures
            match r {
                Some(i) => i < self@.len() && self@[i as int].info.name@ == name@
                    && forall|j: int| 0 <= j < i ==> self@[j].info.name@ != name@,
                None => forall|j: int| 0 <= j < self@.len() ==> self@[j].info.name@ != name@,
            },
    {
        find_index(&self.records, name)
    }

    /// Is a plugin of this identity installed?
    pub fn contains(&self, name: &str) -> (r: bool)
        ensures
            r == contains_name(self@, name@),
    {
        match self.index_of(name) {
            Some(i) => {
                proof {
                    lemma_spec_get_at(self@, name@, i as int);
                }
                true
            },
            None => {
                proof {
                    lemma_spec_get_absent(self@, name@);
                }
                false
            },
        }
    }

    /// The record of identity `name`, if any.
    pub fn get(&self, name: &str) -> (r: Option<PluginMetadata>)
        ensures
            r == spec_get(self@, name@),
    {
        match self.index_of(name) {
            Some(i) => {
                proof {
                    lemma_spec_get_at(self@, name@, i as int);
                }
                Some(self.records[i].clone())
            },
            None => {
                proof {
                    lemma_spec_get_absent(self@, name@);
                }
                None
            },
        }
    }

    /// All records, in store order.
    pub fn list(&self) -> (r: Vec<PluginMetadata>)
        ensures
            r@ == self@,
    {
        let mut out: Vec<PluginMetadata> = Vec::new();
        let mut i: usize = 0;
        while i < self.records.len()
            invariant
                i <= self@.len(),
                out@ =~= self@.subrange(0, i as int),
            decreases self@.len() - i,
        {
            out.push(self.records[i].clone());
            i += 1;
        }
        proof {
            assert(out@ =~= self@);
        }
        out
    }

    /// Upsert by identity: replace the record of the same identity, or
    /// append a new one. Every other identity's record is untouched.
    pub fn save(&mut self, metadata: PluginMetadata)
        requires
            old(self).wf(),
        ensures
            final (self).wf(),
            spec_get(final (self)@, metadata.info.name@) == Some(metadata),
            forall|n: Seq<char>|
                n != metadata.info.name@ ==> spec_get(final (self)@, n) == spec_get(
                    old(self)@,
                    n,
                ),
            contains_name(old(self)@, metadata.info.name@) ==> final (self)@.len() == old(
                self,
            )@.len(),
            !contains_name(old(self)@, metadata.info.name@) ==> final (self)@.len() == old(
                self,
            )@.len() + 1,
    {
        let ghost pre = self@;
        match self.index_of(metadata.info.name.as_str()) {
            Some(i) => {
                proof {
                    lemma_spec_get_at(pre, metadata.info.name@, i as int);
                    lemma_spec_get_at(pre.update(i as int, metadata), metadata.info.name@, i as int);
                    assert forall|n: Seq<char>| n != metadata.info.name@ implies spec_get(
                        pre.update(i as int, metadata),
                        n,
                    ) == spec_get(pre, n) by {
                        lemma_spec_get_update_other(pre, i as int, metadata, n);
                    }
                }
                self.records.set(i, metadata);
            },
            None => {
                proof {
                    lemma_spec_get_absent(pre, metadata.info.name@);
                    assert forall|n: Seq<char>| true implies spec_get(pre.push(metadata), n)
                        == (if n == metadata.info.name@ {
                        Some(metadata)
                    } else {
                        spec_get(pre, n)
                    }) by {
                        lemma_spec_get_push(pre, metadata, n);
                    }
                    assert(names_unique(pre.push(metadata)));
                }
                self.records.push(metadata);
            },
        }
    }

    /// Delete by identity; fails with `NotFound` when the identity is
    /// absent, in which case nothing changes.
    pub fn remove(&mut self, name: &str) -> (r: Result<(), PluginError>)
        requires
            old(self).wf(),
        ensures
            final (self).wf(),
            r is Err <==> !contains_name(old(self)@, name@),
            r is Err ==> final (self)@ == old(self)@ && (r->Err_0 is NotFound),
            r is Ok ==> spec_get(final (self)@, name@) is None,
            r is Ok ==> final (self)@.len() == old(self)@.len() - 1,
            forall|n: Seq<char>|
                n != name@ ==> spec_get(final (self)@, n) == spec_get(old(self)@, n),
    {
        let ghost pre = self@;
        match self.index_of(name) {
            Some(i) => {
                proof {
                    lemma_spec_get_at(pre, name@, i as int);
                    assert forall|n: Seq<char>| true implies spec_get(pre.remove(i as int), n)
                        == (if n == name@ {
                        None::<PluginMetadata>
                    } else {
                        spec_get(pre, n)
                    }) by {
                        lemma_spec_get_remove(pre, i as int, n);
                    }
                    assert(names_unique(pre.remove(i as int))) by {
                        assert forall|a: int, b: int|
                            0 <= a < b < pre.remove(i as int).len() implies pre.remove(
                            i as int,
                        )[a].info.name@ != pre.remove(i as int)[b].info.name@ by {
                            assert(pre.remove(i as int)[a] == if a < i {
                                pre[a]
                            } else {
                                pre[a + 1]
                            });
                            assert(pre.remove(i as int)[b] == if b < i {
                                pre[b]
                            } else {
                                pre[b + 1]
                            });
                        }
                    }
                }
                self.records.remove(i);
                Ok(())
            },
            None => {
                proof {
                    lemma_spec_get_absent(pre, name@);
                }
                Err(PluginError::NotFound(name.to_owned()))
            },
        }
    }

    /// Set the status of the record of identity `name`; fails with
    /// `NotFound` when the identity is absent, in which case nothing
    /// changes. No other field of any record changes.
    pub fn update_status(&mut self, name: &str, status: PluginStatus) -> (r: Result<
        (),
        PluginError,
    >)
        requires
            old(self).wf(),
        ensures
            final (self).wf(),
            r is Err <==> !contains_name(old(self)@, name@),
            r is Err ==> final (self)@ == old(self)@ && (r->Err_0 is NotFound),
            r is Ok ==> {
                let before = spec_get(old(self)@, name@)->Some_0;
                spec_get(final (self)@, name@) == Some(
                    PluginMetadata { status, ..before },
                )
            },
            forall|n: Seq<char>|
                n != name@ ==> spec_get(final (self)@, n) == spec_get(old(self)@, n),
            final (self)@.len() == old(self)@.len(),
    {
        let ghost pre = self@;
        match self.index_of(name) {
            Some(i) => {
                let updated = PluginMetadata {
                    info: self.records[i].info.clone(),
                    status,
                    path: self.records[i].path.clone(),
                    installed_at: self.records[i].installed_at,
                    updated_at: self.records[i].updated_at,
                };
                proof {
                    lemma_spec_get_at(pre, name@, i as int);
                    lemma_spec_get_at(pre.update(i as int, updated), name@, i as int);
                    assert forall|n: Seq<char>| n != name@ implies spec_get(
                        pre.update(i as int, updated),
                        n,
                    ) == spec_get(pre, n) by {
                        lemma_spec_get_update_other(pre, i as int, updated, n);
                    }
                }
                self.records.set(i, updated);
                Ok(())
            },
            None => {
                proof {
                    lemma_spec_get_absent(pre, name@);
                }
                Err(PluginError::NotFound(name.to_owned()))
            },
        }
    }
}

} // verus!
