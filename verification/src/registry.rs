//! Live registry: the in-memory table of currently loaded extensions.
//!
//! Each entry bundles an identity with the handle the loader produced.
//! The handle type is the caller's; by design it must tie the extension
//! handle 1:1 to the native library that produced it, so that removing
//! an entry destroys the extension handle before or together with the
//! owning library, never after.

use vstd::prelude::*;
use crate::errors::PluginError;
use crate::models::Profile;
use crate::plugin::Hook;
use crate::plugin::Plugin;
use crate::strutil::concat2;

verus! {

/// One live extension: identity and loaded handle.
pub struct LiveEntry<P> {
    /// The extension's identity.
    pub name: String,
    /// The loaded handle (extension plus owning library).
    pub plugin: P,
}

/// No two entries share an identity.
pub open spec fn entry_names_unique<P>(s: Seq<LiveEntry<P>>) -> bool {
    forall|i: int, j: int| 0 <= i < j < s.len() ==> s[i].name@ != s[j].name@
}

/// The first entry of identity `name`, if any.
pub open spec fn spec_entry<P>(s: Seq<LiveEntry<P>>, name: Seq<char>) -> Option<LiveEntry<P>>
    decreases s.len(),
{
    if s.len() == 0 {
        None
    } else if s[0].name@ == name {
        Some(s[0])
    } else {
        spec_entry(s.drop_first(), name)
    }
}

/// Some entry of identity `name` is present.
pub open spec fn has_entry<P>(s: Seq<LiveEntry<P>>, name: Seq<char>) -> bool {
    spec_entry(s, name) is Some
}

/// If `i` is the first index whose entry has identity `name`, then
/// `spec_entry` returns that entry.
pub proof fn lemma_spec_entry_at<P>(s: Seq<LiveEntry<P>>, name: Seq<char>, i: int)
    requires
        0 <= i < s.len(),
        s[i].name@ == name,
        forall|j: int| 0 <= j < i ==> s[j].name@ != name,
    ensures
        spec_entry(s, name) == Some(s[i]),
    decreases i,
{
    if i > 0 {
        lemma_spec_entry_at(s.drop_first(), name, i - 1);
    }
}

/// If no entry has identity `name`, `spec_entry` returns nothing.
pub proof fn lemma_spec_entry_absent<P>(s: Seq<LiveEntry<P>>, name: Seq<char>)
    requires
        forall|j: int| 0 <= j < s.len() ==> s[j].name@ != name,
    ensures
        spec_entry(s, name) is None,
    decreases s.len(),
{
    if s.len() > 0 {
        lemma_spec_entry_absent(s.drop_first(), name);
    }
}

/// Appending an entry resolves identities not present before.
pub proof fn lemma_spec_entry_push<P>(s: Seq<LiveEntry<P>>, e: LiveEntry<P>, n: Seq<char>)
    ensures
        spec_entry(s.push(e), n) == (if spec_entry(s, n) is Some {
            spec_entry(s, n)
        } else if n == e.name@ {
            Some(e)
        } else {
            None::<LiveEntry<P>>
        }),
    decreases s.len(),
{
    if s.len() == 0 {
        assert(s.push(e)[0] == e);
        assert(s.push(e).drop_first() =~= Seq::<LiveEntry<P>>::empty());
        assert(spec_entry(s.push(e).drop_first(), n) is None);
    } else {
        assert(s.push(e)[0] == s[0]);
        assert(s.push(e).drop_first() =~= s.drop_first().push(e));
        lemma_spec_entry_push(s.drop_first(), e, n);
    }
}

/// Removing the only entry of an identity makes that identity absent
/// and leaves every other identity's entry unchanged.
pub proof fn lemma_spec_entry_remove<P>(s: Seq<LiveEntry<P>>, i: int, n: Seq<char>)
    requires
        0 <= i < s.len(),
        entry_names_unique(s),
    ensures
        spec_entry(s.remove(i), n) == (if n == s[i].name@ {
            None::<LiveEntry<P>>
        } else {
            spec_entry(s, n)
        }),
    decreases s.len(),
{
    if i == 0 {
        assert(s.remove(0) =~= s.drop_first());
        if n == s[0].name@ {
            lemma_spec_entry_absent(s.drop_first(), n);
        }
    } else {
        assert(s.remove(i).drop_first() =~= s.drop_first().remove(i - 1));
        assert(entry_names_unique(s.drop_first()));
        lemma_spec_entry_remove(s.drop_first(), i - 1, n);
    }
}

/// The table of currently loaded extensions.
pub struct LiveRegistry<P> {
    entries: Vec<LiveEntry<P>>,
}

impl<P> View for LiveRegistry<P> {
    type V = Seq<LiveEntry<P>>;

    closed spec fn view(&self) -> Seq<LiveEntry<P>> {
        self.entries@
    }
}

impl<P> LiveRegistry<P> {
    /// The registry's invariant: identities are unique.
    pub open spec fn wf(&self) -> bool {
        entry_names_unique(self@)
    }

    /// An empty registry.
    pub fn new() -> (r: Self)
        ensures
            r.wf(),
            r@.len() == 0,
    {
        LiveRegistry { entries: Vec::new() }
    }

    /// Number of loaded extensions.
    pub fn len(&self) -> (r: usize)
        ensures
            r == self@.len(),
    {
        self.entries.len()
    }

    /// First index holding `name`, scanning from the front.
    fn index_of(&self, name: &str) -> (r: Option<usize>)
        ensures
            match r {
                Some(i) => i < self@.len() && self@[i as int].name@ == name@ && forall|j: int|
                    0 <= j < i ==> self@[j].name@ != name@,
                None => forall|j: int| 0 <= j < self@.len() ==> self@[j].name@ != name@,
            },
    {
        let mut i: usize = 0;
        while i < self.entries.len()
            invariant
                i <= self@.len(),
                forall|j: int| 0 <= j < i ==> self@[j].name@ != name@,
            decreases self@.len() - i,
        {
            if crate::strutil::str_eq(self.entries[i].name.as_str(), name) {
                return Some(i);
            }
            i += 1;
        }
        None
    }

    /// Is an extension of this identity loaded?
    pub fn contains(&self, name: &str) -> (r: bool)
        ensures
            r == has_entry(self@, name@),
    {
        match self.index_of(name) {
            Some(i) => {
                proof {
                    lemma_spec_entry_at(self@, name@, i as int);
                }
                true
            },
            None => {
                proof {
                    lemma_spec_entry_absent(self@, name@);
                }
                false
            },
        }
    }

    /// Borrow the handle of identity `name`, if loaded.
    pub fn get(&self, name: &str) -> (r: Option<&P>)
        ensures
            match r {
                Some(p) => spec_entry(self@, name@) is Some && *p == spec_entry(
                    self@,
                    name@,
                )->Some_0.plugin,
                None => spec_entry(self@, name@) is None,
            },
    {
        match self.index_of(name) {
            Some(i) => {
                proof {
                    lemma_spec_entry_at(self@, name@, i as int);
                }
                Some(&self.entries[i].plugin)
            },
            None => {
                proof {
                    lemma_spec_entry_absent(self@, name@);
                }
                None
            },
        }
    }

    /// Insert a loaded extension under its identity; fails with
    /// `LoadFailed` when the identity is already present, in which case
    /// nothing changes.
    pub fn insert(&mut self, name: &str, plugin: P) -> (r: Result<(), PluginError>)
        requires
            old(self).wf(),
        ensures
            final (self).wf(),
            r is Err <==> has_entry(old(self)@, name@),
            r is Err ==> final (self)@ == old(self)@ && (r->Err_0 is LoadFailed),
            r is Ok ==> final (self)@.len() == old(self)@.len() + 1 && spec_entry(
                final (self)@,
                name@,
            ) is Some && spec_entry(final (self)@, name@)->Some_0.plugin == plugin,
            forall|n: Seq<char>|
                n != name@ ==> spec_entry(final (self)@, n) == spec_entry(old(self)@, n),
    {
        let ghost pre = self@;
        match self.index_of(name) {
            Some(i) => {
                proof {
                    lemma_spec_entry_at(pre, name@, i as int);
                }
                Err(
                    PluginError::LoadFailed(
                        concat2("Plugin already loaded: ", name),
                    ),
                )
            },
            None => {
                let e = LiveEntry { name: name.to_owned(), plugin };
                proof {
                    lemma_spec_entry_absent(pre, name@);
                    assert forall|n: Seq<char>| true implies spec_entry(pre.push(e), n) == (
                    if n == e.name@ {
                        Some(e)
                    } else {
                        spec_entry(pre, n)
                    }) by {
                        lemma_spec_entry_push(pre, e, n);
                    }
                    assert(entry_names_unique(pre.push(e)));
                }
                self.entries.push(e);
                Ok(())
            },
        }
    }

    /// Remove the extension of identity `name`, handing its handle back
    /// to the caller, which destroys it. Absent identities are left
    /// alone.
    pub fn remove(&mut self, name: &str) -> (r: Option<P>)
        requires
            old(self).wf(),
        ensures
            final (self).wf(),
            r is Some <==> has_entry(old(self)@, name@),
            r is Some ==> r == Some(spec_entry(old(self)@, name@)->Some_0.plugin),
            r is None ==> final (self)@ == old(self)@,
            spec_entry(final (self)@, name@) is None,
            forall|n: Seq<char>|
                n != name@ ==> spec_entry(final (self)@, n) == spec_entry(old(self)@, n),
    {
        let ghost pre = self@;
        match self.index_of(name) {
            Some(i) => {
                proof {
                    lemma_spec_entry_at(pre, name@, i as int);
                    assert forall|n: Seq<char>| true implies spec_entry(pre.remove(i as int), n)
                        == (if n == name@ {
                        None::<LiveEntry<P>>
                    } else {
                        spec_entry(pre, n)
                    }) by {
                        lemma_spec_entry_remove(pre, i as int, n);
                    }
                    assert(entry_names_unique(pre.remove(i as int))) by {
                        assert forall|a: int, b: int|
                            0 <= a < b < pre.remove(i as int).len() implies pre.remove(
                            i as int,
                        )[a].name@ != pre.remove(i as int)[b].name@ by {
                            assert(pre.remove(i as int)[a] == if a < i {
                                pre[a]
                            } else {
                                pre[a + 1]
                            });
                            assert(pre.remove(i as int)[b] == if b < i {
                                pre[b]
                            } else {
                                pre[b + 1]
                            });
                        }
                    }
                }
                let e = self.entries.remove(i);
                Some(e.plugin)
            },
            None => {
                proof {
                    lemma_spec_entry_absent(pre, name@);
                }
                None
            },
        }
    }

    /// The identities of all loaded extensions, in table order.
    pub fn names(&self) -> (r: Vec<String>)
        ensures
            r@.len() == self@.len(),
            forall|i: int| 0 <= i < r@.len() ==> r@[i]@ == self@[i].name@,
    {
        let mut out: Vec<String> = Vec::new();
        let mut i: usize = 0;
        while i < self.entries.len()
            invariant
                i <= self@.len(),
                out@.len() == i,
                forall|j: int| 0 <= j < i ==> out@[j]@ == self@[j].name@,
            decreases self@.len() - i,
        {
            out.push(self.entries[i].name.clone());
            i += 1;
        }
        out
    }
}

impl<P: Plugin> LiveRegistry<P> {
    /// Notify every loaded extension of a hook. An error returned by an
    /// extension is isolated: it neither propagates nor stops the other
    /// extensions from being notified. The table itself is untouched.
    pub fn dispatch_hook(&self, hook: Hook, profile: Option<&Profile>) {
        let mut i: usize = 0;
        while i < self.entries.len()
            invariant
                i <= self@.len(),
            decreases self@.len() - i,
        {
            let outcome = self.entries[i].plugin.execute_hook(hook, profile);
            match outcome {
                Ok(_) => (),
                Err(_) => (),
            }
            i += 1;
        }
    }
}

} // verus!
