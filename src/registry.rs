//! The running-process registry: at most one entry per instance slug, present
//! only while its process lives.

use vstd::prelude::*;
use crate::text::eq_str;

verus! {

/// The registry entry of an instance: reserved when its launch is admitted,
/// then holding the spawned process's id and owned handle.
pub struct RunningProcess<H> {
    pub slug: String,
    pub process: Option<(u32, H)>,
}

/// The processes that are running, keyed by instance slug.
pub struct RunningRegistry<H> {
    pub entries: Vec<RunningProcess<H>>,
}

/// Whether an entry of `s` has slug `t`.
pub open spec fn seq_has<H>(s: Seq<RunningProcess<H>>, t: Seq<char>) -> bool {
    exists|i: int| 0 <= i < s.len() && (#[trigger] s[i]).slug@ == t
}

/// No two entries share a slug.
pub open spec fn seq_wf<H>(s: Seq<RunningProcess<H>>) -> bool {
    forall|i: int, j: int| 0 <= i < s.len() && 0 <= j < s.len() && i != j ==> (#[trigger] s[i]).slug@ != (#[trigger] s[j]).slug@
}

/// The entries whose slug is not `x`, in order.
pub open spec fn without_entry<H>(s: Seq<RunningProcess<H>>, x: Seq<char>) -> Seq<RunningProcess<H>>
    decreases s.len(),
{
    if s.len() == 0 {
        s
    } else if s.last().slug@ == x {
        without_entry(s.drop_last(), x)
    } else {
        without_entry(s.drop_last(), x).push(s.last())
    }
}

/// Clearing `x` removes exactly the entries of `x`.
pub proof fn lemma_without_has<H>(s: Seq<RunningProcess<H>>, x: Seq<char>, t: Seq<char>)
    ensures
        seq_has(without_entry(s, x), t) <==> (seq_has(s, t) && t != x),
    decreases s.len(),
{
    if s.len() > 0 {
        let init = s.drop_last();
        lemma_without_has(init, x, t);
        let w = without_entry(init, x);
        if seq_has(s, t) && t != x {
            let i = choose|i: int| 0 <= i < s.len() && (#[trigger] s[i]).slug@ == t;
            if i < s.len() - 1 {
                assert(init[i] == s[i]);
                let k = choose|k: int| 0 <= k < w.len() && (#[trigger] w[k]).slug@ == t;
                if s.last().slug@ != x {
                    assert(w.push(s.last())[k] == w[k]);
                }
            } else {
                assert(s.last().slug@ != x);
                assert(w.push(s.last())[w.len() as int] == s.last());
            }
        }
        if seq_has(without_entry(s, x), t) {
            let ws = without_entry(s, x);
            let k = choose|k: int| 0 <= k < ws.len() && (#[trigger] ws[k]).slug@ == t;
            if s.last().slug@ != x && k == w.len() {
                assert(s[s.len() - 1] == s.last());
            } else {
                if s.last().slug@ != x {
                    assert(ws[k] == w[k]);
                }
                assert(seq_has(w, t));
                let i = choose|i: int| 0 <= i < init.len() && (#[trigger] init[i]).slug@ == t;
                assert(s[i] == init[i]);
            }
        }
    }
}

proof fn lemma_without_wf<H>(s: Seq<RunningProcess<H>>, x: Seq<char>)
    requires
        seq_wf(s),
    ensures
        seq_wf(without_entry(s, x)),
    decreases s.len(),
{
    if s.len() > 0 {
        let init = s.drop_last();
        assert(seq_wf(init)) by {
            assert forall|i: int, j: int| 0 <= i < init.len() && 0 <= j < init.len() && i != j implies (#[trigger] init[i]).slug@
                != (#[trigger] init[j]).slug@ by {
                assert(init[i] == s[i] && init[j] == s[j]);
            }
        }
        lemma_without_wf(init, x);
        if s.last().slug@ != x {
            let w = without_entry(init, x);
            let e = s.last();
            lemma_without_has(init, x, e.slug@);
            assert(!seq_has(init, e.slug@)) by {
                if seq_has(init, e.slug@) {
                    let i = choose|i: int| 0 <= i < init.len() && (#[trigger] init[i]).slug@ == e.slug@;
                    assert(s[i] == init[i]);
                    assert(s[s.len() - 1] == e);
                }
            }
            let w2 = w.push(e);
            assert forall|i: int, j: int| 0 <= i < w2.len() && 0 <= j < w2.len() && i != j implies (#[trigger] w2[i]).slug@
                != (#[trigger] w2[j]).slug@ by {
                if i < w.len() && j < w.len() {
                    assert(w2[i] == w[i] && w2[j] == w[j]);
                } else if i < w.len() {
                    assert(w2[i] == w[i]);
                    assert(!seq_has(w, e.slug@));
                } else {
                    assert(w2[j] == w[j]);
                    assert(!seq_has(w, e.slug@));
                }
            }
        }
    }
}

/// The index of the first entry with slug `x`, or -1.
pub open spec fn find_entry<H>(s: Seq<RunningProcess<H>>, x: Seq<char>) -> int
    decreases s.len(),
{
    if s.len() == 0 {
        -1
    } else if find_entry(s.drop_last(), x) >= 0 {
        find_entry(s.drop_last(), x)
    } else if s.last().slug@ == x {
        s.len() - 1
    } else {
        -1
    }
}

/// `find_entry` gives the first entry with the slug, or -1 when none has it.
pub proof fn lemma_find_entry<H>(s: Seq<RunningProcess<H>>, x: Seq<char>)
    ensures
        -1 <= find_entry(s, x) < s.len(),
        find_entry(s, x) >= 0 ==> s[find_entry(s, x)].slug@ == x,
        forall|i: int| 0 <= i < s.len() && (find_entry(s, x) < 0 || i < find_entry(s, x))
            ==> (#[trigger] s[i]).slug@ != x,
        (find_entry(s, x) >= 0) == seq_has(s, x),
    decreases s.len(),
{
    if s.len() > 0 {
        lemma_find_entry(s.drop_last(), x);
        assert forall|i: int| 0 <= i < s.len() && (find_entry(s, x) < 0 || i < find_entry(s, x))
            implies (#[trigger] s[i]).slug@ != x by {
            if i < s.len() - 1 {
                assert(s[i] == s.drop_last()[i]);
            }
        }
        if find_entry(s, x) >= 0 {
            assert(s[find_entry(s, x)].slug@ == x);
        }
    }
}

impl<H> RunningRegistry<H> {
    pub open spec fn wf(&self) -> bool {
        seq_wf(self.entries@)
    }

    /// Whether a process of instance `slug` is registered.
    pub open spec fn has(&self, slug: Seq<char>) -> bool {
        seq_has(self.entries@, slug)
    }

    pub fn new() -> (r: Self)
        ensures
            r.wf(),
            r.entries@.len() == 0,
    {
        RunningRegistry { entries: Vec::new() }
    }

    /// The position of the entry of `slug`.
    pub fn index_of(&self, slug: &str) -> (r: Option<usize>)
        ensures
            r is None <==> !self.has(slug@),
            r matches Some(i) ==> i as int == find_entry(self.entries@, slug@),
            r matches Some(i) ==> i < self.entries@.len() && self.entries@[i as int].slug@ == slug@,
    {
        proof {
            lemma_find_entry(self.entries@, slug@);
        }
        let mut i: usize = 0;
        while i < self.entries.len()
            invariant
                0 <= i <= self.entries@.len(),
                forall|k: int| 0 <= k < i ==> (#[trigger] self.entries@[k]).slug@ != slug@,
            decreases self.entries.len() - i,
        {
            if eq_str(self.entries[i].slug.as_str(), slug) {
                proof {
                    lemma_find_entry(self.entries@, slug@);
                }
                return Some(i);
            }
            i += 1;
        }
        None
    }

    /// Whether `slug` has an entry, reserved or running.
    pub fn contains(&self, slug: &str) -> (r: bool)
        ensures
            r == self.has(slug@),
    {
        self.index_of(slug).is_some()
    }

    /// The process id registered for `slug`, once its process is attached.
    pub fn pid_of(&self, slug: &str) -> (r: Option<u32>)
        ensures
            r == step_pid(self.entries@, slug@),
    {
        proof {
            lemma_find_entry(self.entries@, slug@);
        }
        match self.index_of(slug) {
            Some(i) => match &self.entries[i].process {
                Some(p) => Some(p.0),
                None => None,
            },
            None => None,
        }
    }

    /// Reserves `slug` for a launch that was admitted; a slug that already has
    /// an entry is refused and the registry stays as it was.
    pub fn reserve(&mut self, slug: &str) -> (r: Result<(), RegistryError>)
        requires
            old(self).wf(),
        ensures
            final(self).wf(),
            r is Err <==> old(self).has(slug@),
            r is Err ==> final(self).entries@ == old(self).entries@,
            r is Ok ==> final(self).entries@.len() == old(self).entries@.len() + 1
                && final(self).entries@.drop_last() == old(self).entries@
                && final(self).entries@.last().slug@ == slug@
                && final(self).entries@.last().process is None
                && final(self).has(slug@),
    {
        if self.contains(slug) {
            return Err(RegistryError::AlreadyRunning(String::from_str(slug)));
        }
        self.entries.push(RunningProcess { slug: String::from_str(slug), process: None });
        proof {
            assert(self.entries@.drop_last() =~= old(self).entries@);
            self.lemma_push_keeps_wf(old(self).entries@);
        }
        Ok(())
    }

    proof fn lemma_push_keeps_wf(&self, before: Seq<RunningProcess<H>>)
        requires
            seq_wf(before),
            self.entries@.len() == before.len() + 1,
            self.entries@.drop_last() == before,
            !seq_has(before, self.entries@.last().slug@),
        ensures
            self.wf(),
            self.has(self.entries@.last().slug@),
    {
        let s = self.entries@;
        assert forall|i: int, j: int| 0 <= i < s.len() && 0 <= j < s.len() && i != j implies (#[trigger] s[i]).slug@
            != (#[trigger] s[j]).slug@ by {
            if i < s.len() - 1 && j < s.len() - 1 {
                assert(s[i] == before[i] && s[j] == before[j]);
            } else if i < s.len() - 1 {
                assert(s[i] == before[i]);
            } else {
                assert(s[j] == before[j]);
            }
        }
        assert(s[s.len() - 1] == s.last());
    }

    /// Attaches the spawned process to the reservation of `slug`; without a
    /// reservation waiting for a process, nothing changes.
    pub fn attach(&mut self, slug: &str, pid: u32, handle: H) -> (r: Result<(), RegistryError>)
        requires
            old(self).wf(),
        ensures
            final(self).wf(),
            ({
                let f = find_entry(old(self).entries@, slug@);
                &&& r is Ok <==> (f >= 0 && old(self).entries@[f].process is None)
                &&& r is Ok ==> final(self).entries@ == old(self).entries@.update(
                    f,
                    RunningProcess { slug: old(self).entries@[f].slug, process: Some((pid, handle)) },
                )
                &&& r is Err ==> final(self).entries@ == old(self).entries@
            }),
    {
        proof {
            lemma_find_entry(self.entries@, slug@);
        }
        match self.index_of(slug) {
            None => Err(RegistryError::NotReserved(String::from_str(slug))),
            Some(i) => {
                if self.entries[i].process.is_some() {
                    return Err(RegistryError::NotReserved(String::from_str(slug)));
                }
                let old_entry = self.entries.remove(i);
                let ghost mid = self.entries@;
                self.entries.insert(i, RunningProcess { slug: old_entry.slug, process: Some((pid, handle)) });
                proof {
                    let o = old(self).entries@;
                    let e = RunningProcess { slug: o[i as int].slug, process: Some((pid, handle)) };
                    assert(self.entries@ =~= o.update(i as int, e));
                    let s = self.entries@;
                    assert forall|a: int, b: int| 0 <= a < s.len() && 0 <= b < s.len() && a != b implies (#[trigger] s[a]).slug@
                        != (#[trigger] s[b]).slug@ by {
                        assert(s[a].slug == o[a].slug && s[b].slug == o[b].slug);
                    }
                }
                Ok(())
            },
        }
    }

    /// Registers a spawned process in one step: a reservation with the process
    /// attached. A slug that already has an entry is refused.
    pub fn register(&mut self, slug: &str, pid: u32, handle: H) -> (r: Result<(), RegistryError>)
        requires
            old(self).wf(),
        ensures
            final(self).wf(),
            r is Err <==> old(self).has(slug@),
            r is Err ==> final(self).entries@ == old(self).entries@,
            r is Ok ==> final(self).entries@.len() == old(self).entries@.len() + 1
                && final(self).entries@.drop_last() == old(self).entries@
                && final(self).entries@.last().slug@ == slug@
                && final(self).entries@.last().process == Some((pid, handle)),
    {
        if self.contains(slug) {
            return Err(RegistryError::AlreadyRunning(String::from_str(slug)));
        }
        self.entries.push(RunningProcess { slug: String::from_str(slug), process: Some((pid, handle)) });
        proof {
            assert(self.entries@.drop_last() =~= old(self).entries@);
            self.lemma_push_keeps_wf(old(self).entries@);
        }
        Ok(())
    }

    /// Clears the entry of `slug`, handing it back; clearing an absent slug
    /// changes nothing.
    pub fn remove(&mut self, slug: &str) -> (r: Option<RunningProcess<H>>)
        requires
            old(self).wf(),
        ensures
            final(self).wf(),
            final(self).entries@ == without_entry(old(self).entries@, slug@),
            !final(self).has(slug@),
            forall|t: Seq<char>| t != slug@ ==> (final(self).has(t) == old(self).has(t)),
            r is Some <==> old(self).has(slug@),
            r matches Some(e) ==> e.slug@ == slug@,
            !old(self).has(slug@) ==> final(self).entries@ == old(self).entries@,
    {
        let mut rest: Vec<RunningProcess<H>> = Vec::new();
        std::mem::swap(&mut self.entries, &mut rest);
        let ghost orig = rest@;
        let total = rest.len();
        let mut k: usize = 0;
        let mut found: Option<RunningProcess<H>> = None;
        proof {
            assert(orig.subrange(0, 0) =~= Seq::<RunningProcess<H>>::empty());
            assert(rest@ =~= orig.subrange(0, orig.len() as int));
        }
        while rest.len() > 0
            invariant
                total == orig.len(),
                k + rest@.len() == total,
                rest@ =~= orig.subrange(k as int, total as int),
                self.entries@ == without_entry(orig.subrange(0, k as int), slug@),
                found is Some <==> seq_has(orig.subrange(0, k as int), slug@),
                found matches Some(e) ==> e.slug@ == slug@,
            decreases rest.len(),
        {
            let a = rest.remove(0);
            let ghost pre = orig.subrange(0, k as int);
            let ghost post = orig.subrange(0, k as int + 1);
            proof {
                assert(post.drop_last() =~= pre);
                assert(orig[k as int] == a);
                assert(post[k as int] == a);
                assert(seq_has(post, slug@) <==> (seq_has(pre, slug@) || a.slug@ == slug@)) by {
                    if seq_has(pre, slug@) {
                        let i = choose|i: int| 0 <= i < pre.len() && (#[trigger] pre[i]).slug@ == slug@;
                        assert(post[i] == pre[i]);
                    }
                    if seq_has(post, slug@) {
                        let i = choose|i: int| 0 <= i < post.len() && (#[trigger] post[i]).slug@ == slug@;
                        if i < pre.len() {
                            assert(post[i] == pre[i]);
                        }
                    }
                }
            }
            if eq_str(a.slug.as_str(), slug) {
                if found.is_none() {
                    found = Some(a);
                }
            } else {
                self.entries.push(a);
            }
            k += 1;
        }
        proof {
            assert(orig.subrange(0, total as int) =~= orig);
            lemma_without_wf(orig, slug@);
            lemma_without_has(orig, slug@, slug@);
            assert forall|t: Seq<char>| t != slug@ implies (seq_has(self.entries@, t) == seq_has(orig, t)) by {
                lemma_without_has(orig, slug@, t);
            }
            if !seq_has(orig, slug@) {
                lemma_without_absent(orig, slug@);
            }
        }
        found
    }
}

/// Clearing a slug that has no entry changes nothing.
pub proof fn lemma_without_absent<H>(s: Seq<RunningProcess<H>>, x: Seq<char>)
    requires
        !seq_has(s, x),
    ensures
        without_entry(s, x) == s,
    decreases s.len(),
{
    if s.len() > 0 {
        let init = s.drop_last();
        assert(!seq_has(init, x)) by {
            if seq_has(init, x) {
                let i = choose|i: int| 0 <= i < init.len() && (#[trigger] init[i]).slug@ == x;
                assert(s[i] == init[i]);
            }
        }
        assert(s[s.len() - 1].slug@ != x);
        lemma_without_absent(init, x);
        assert(init.push(s.last()) =~= s);
    }
}

/// Why a process could not be registered.
#[derive(Clone, Debug, PartialEq, Eq)]
pub enum RegistryError {
    /// The slug already has an entry.
    AlreadyRunning(String),
    /// The slug has no reservation waiting for a process.
    NotReserved(String),
}

/// The process id of the entry of `x`, when it has one with a process attached.
pub open spec fn step_pid<H>(s: Seq<RunningProcess<H>>, x: Seq<char>) -> Option<u32> {
    let f = find_entry(s, x);
    if f >= 0 && s[f].process is Some {
        Some((s[f].process->0).0)
    } else {
        None
    }
}

} // verus!
