//! Bookkeeping for deferred asynchronous work. Jobs come in two classes:
//! fire-and-forget jobs may be abandoned at shutdown, must-await jobs all
//! resolve, with their completion callbacks applied, before shutdown
//! completes. Callbacks are applied one at a time, in the order their
//! completions are handed in.

use vstd::prelude::*;

verus! {

/// The two classes of deferred work.
pub enum JobClass {
    FireAndForget,
    MustAwait,
}

/// Pending job identifiers per class, and the order in which completion
/// callbacks have been applied so far.
pub struct JobRunner {
    pub fire_and_forget: Vec<u64>,
    pub must_await: Vec<u64>,
    pub invoked: Vec<u64>,
    pub next_id: u64,
}

impl JobRunner {
    /// Identifiers were handed out below `next_id`, each lives in at most one
    /// of the three lists, and no list repeats one.
    pub open spec fn wf(&self) -> bool {
        &&& forall|i: int|
            0 <= i < self.fire_and_forget@.len() ==> self.fire_and_forget@[i] < self.next_id
        &&& forall|i: int| 0 <= i < self.must_await@.len() ==> self.must_await@[i] < self.next_id
        &&& forall|i: int| 0 <= i < self.invoked@.len() ==> self.invoked@[i] < self.next_id
        &&& forall|i: int, j: int|
            0 <= i < j < self.fire_and_forget@.len() ==> self.fire_and_forget@[i]
                != self.fire_and_forget@[j]
        &&& forall|i: int, j: int|
            0 <= i < j < self.must_await@.len() ==> self.must_await@[i] != self.must_await@[j]
        &&& forall|i: int, j: int|
            0 <= i < j < self.invoked@.len() ==> self.invoked@[i] != self.invoked@[j]
        &&& forall|i: int, j: int|
            0 <= i < self.fire_and_forget@.len() && 0 <= j < self.must_await@.len()
                ==> self.fire_and_forget@[i] != self.must_await@[j]
        &&& forall|i: int, j: int|
            0 <= i < self.fire_and_forget@.len() && 0 <= j < self.invoked@.len()
                ==> self.fire_and_forget@[i] != self.invoked@[j]
        &&& forall|i: int, j: int|
            0 <= i < self.must_await@.len() && 0 <= j < self.invoked@.len()
                ==> self.must_await@[i] != self.invoked@[j]
    }

    /// A runner with nothing pending and nothing applied.
    pub fn new() -> (r: JobRunner)
        ensures
            r.wf(),
            r.fire_and_forget@.len() == 0,
            r.must_await@.len() == 0,
            r.invoked@.len() == 0,
    {
        JobRunner {
            fire_and_forget: Vec::new(),
            must_await: Vec::new(),
            invoked: Vec::new(),
            next_id: 0,
        }
    }

    /// Registers one job of the given class and hands back its identifier.
    pub fn spawn(&mut self, class: JobClass) -> (id: u64)
        requires
            old(self).wf(),
            old(self).next_id < 0xFFFF_FFFF_FFFF_FFFF,
        ensures
            final(self).wf(),
            id == old(self).next_id,
            final(self).invoked@ == old(self).invoked@,
            match class {
                JobClass::FireAndForget => final(self).fire_and_forget@ == old(self).fire_and_forget@.push(id) && final(self).must_await@ == old(self).must_await@,
                JobClass::MustAwait => final(self).must_await@ == old(self).must_await@.push(id)
                    && final(self).fire_and_forget@ == old(self).fire_and_forget@,
            },
    {
        let id = self.next_id;
        self.next_id = self.next_id + 1;
        match class {
            JobClass::FireAndForget => self.fire_and_forget.push(id),
            JobClass::MustAwait => self.must_await.push(id),
        }
        id
    }

    /// Applies the completion callback of one resolved job: the job leaves
    /// its pending list and its identifier is appended to the application
    /// order. Callbacks are applied strictly one at a time; the order of
    /// `invoked` is the order in which completions were handed in.
    pub fn handle_callback(&mut self, id: u64) -> (found: bool)
        requires
            old(self).wf(),
        ensures
            final(self).wf(),
            found == (old(self).fire_and_forget@.contains(id) || old(self).must_await@.contains(
                id,
            )),
            found ==> final(self).invoked@ == old(self).invoked@.push(id),
            !found ==> *final(self) == *old(self),
            old(self).fire_and_forget@.contains(id) ==> exists|k: int|
                0 <= k < old(self).fire_and_forget@.len() && old(self).fire_and_forget@[k] == id
                    && final(self).fire_and_forget@ == old(self).fire_and_forget@.remove(k)
                    && final(self).must_await@ == old(self).must_await@,
            old(self).must_await@.contains(id) ==> exists|k: int|
                0 <= k < old(self).must_await@.len() && old(self).must_await@[k] == id && final(self).must_await@ == old(self).must_await@.remove(k) && final(self).fire_and_forget@
                    == old(self).fire_and_forget@,
    {
        let ghost prev = *self;
        match find_id(&self.fire_and_forget, id) {
            Some(k) => {
                self.fire_and_forget.remove(k);
                self.invoked.push(id);
                proof {
                    lemma_removed_keeps_distinct(prev.fire_and_forget@, k as int);
                    assert(self.fire_and_forget@ == prev.fire_and_forget@.remove(k as int));
                    assert forall|i: int|
                        0 <= i < self.fire_and_forget@.len() implies self.fire_and_forget@[i]
                        < self.next_id && (forall|j: int|
                        0 <= j < self.must_await@.len() ==> self.fire_and_forget@[i]
                            != self.must_await@[j]) by {
                        assert(self.fire_and_forget@[i] == if i < k as int {
                            prev.fire_and_forget@[i]
                        } else {
                            prev.fire_and_forget@[i + 1]
                        });
                    }
                    assert forall|i: int, j: int|
                        0 <= i < self.fire_and_forget@.len() && 0 <= j < self.invoked@.len()
                            implies self.fire_and_forget@[i] != self.invoked@[j] by {
                        let i0 = if i < k as int {
                            i
                        } else {
                            i + 1
                        };
                        assert(self.fire_and_forget@[i] == prev.fire_and_forget@[i0]);
                        if j < self.invoked@.len() - 1 {
                            assert(self.invoked@[j] == prev.invoked@[j]);
                        } else {
                            assert(self.invoked@[j] == id);
                            assert(prev.fire_and_forget@[k as int] == id);
                            if i0 != k as int {
                            }
                        }
                    }
                    assert(prev.fire_and_forget@.contains(id)) by {
                        assert(prev.fire_and_forget@[k as int] == id);
                    }
                }
                true
            },
            None => {
                match find_id(&self.must_await, id) {
                    Some(k) => {
                        self.must_await.remove(k);
                        self.invoked.push(id);
                        proof {
                            lemma_removed_keeps_distinct(prev.must_await@, k as int);
                            assert forall|i: int|
                                0 <= i < self.must_await@.len() implies self.must_await@[i]
                                < self.next_id && (forall|j: int|
                                0 <= j < self.fire_and_forget@.len() ==> self.must_await@[i]
                                    != self.fire_and_forget@[j]) by {
                                assert(self.must_await@[i] == if i < k as int {
                                    prev.must_await@[i]
                                } else {
                                    prev.must_await@[i + 1]
                                });
                            }
                            assert forall|i: int, j: int|
                                0 <= i < self.must_await@.len() && 0 <= j < self.invoked@.len()
                                    implies self.must_await@[i] != self.invoked@[j] by {
                                let i0 = if i < k as int {
                                    i
                                } else {
                                    i + 1
                                };
                                assert(self.must_await@[i] == prev.must_await@[i0]);
                                if j < self.invoked@.len() - 1 {
                                    assert(self.invoked@[j] == prev.invoked@[j]);
                                } else {
                                    assert(self.invoked@[j] == id);
                                    assert(prev.must_await@[k as int] == id);
                                }
                            }
                            assert(prev.must_await@.contains(id)) by {
                                assert(prev.must_await@[k as int] == id);
                            }
                        }
                        true
                    },
                    None => false,
                }
            },
        }
    }

    /// The shutdown barrier: applies the callback of every pending must-await
    /// job, in their registration order, leaving none pending. Each of those
    /// jobs is applied exactly once: its identifier is appended to `invoked`,
    /// which never repeats an identifier. Fire-and-forget jobs are left
    /// untouched; they may remain unresolved.
    pub fn finish(&mut self)
        requires
            old(self).wf(),
        ensures
            final(self).wf(),
            final(self).must_await@.len() == 0,
            final(self).invoked@ == old(self).invoked@ + old(self).must_await@,
            final(self).fire_and_forget@ == old(self).fire_and_forget@,
            final(self).next_id == old(self).next_id,
    {
        let ghost prev = *self;
        let ghost total = prev.must_await@.len() as int;
        let ghost mut j: int = 0;
        proof {
            assert(self.invoked@ =~= prev.invoked@ + prev.must_await@.subrange(0, 0));
            assert(self.must_await@ =~= prev.must_await@.subrange(0, total));
        }
        while self.must_await.len() > 0
            invariant
                0 <= j <= total,
                total == prev.must_await@.len(),
                prev.wf(),
                self.next_id == prev.next_id,
                self.fire_and_forget@ == prev.fire_and_forget@,
                self.invoked@ == prev.invoked@ + prev.must_await@.subrange(0, j as int),
                self.must_await@ == prev.must_await@.subrange(j as int, total),
            decreases self.must_await@.len(),
        {
            proof {
                assert(self.must_await@.len() > 0);
                assert(j < total);
                assert(prev.must_await@.subrange(j as int, total)[0] == prev.must_await@[j as int]);
            }
            let id = self.must_await.remove(0);
            self.invoked.push(id);
            proof {
                assert(self.invoked@ =~= prev.invoked@ + prev.must_await@.subrange(
                    0,
                    j as int + 1,
                ));
                assert(self.must_await@ =~= prev.must_await@.subrange(j as int + 1, total));
                j = j + 1;
            }
        }
        proof {
            assert(prev.must_await@.subrange(0, total) =~= prev.must_await@);
            assert(self.invoked@ == prev.invoked@ + prev.must_await@);
            assert forall|a: int, b: int|
                0 <= a < b < self.invoked@.len() implies self.invoked@[a] != self.invoked@[b] by {
                let n0 = prev.invoked@.len() as int;
                if a < n0 && b >= n0 {
                    assert(self.invoked@[a] == prev.invoked@[a]);
                    assert(self.invoked@[b] == prev.must_await@[b - n0]);
                } else if a >= n0 {
                    assert(self.invoked@[a] == prev.must_await@[a - n0]);
                    assert(self.invoked@[b] == prev.must_await@[b - n0]);
                }
            }
            assert forall|i: int|
                0 <= i < self.invoked@.len() implies self.invoked@[i] < self.next_id by {
                let n0 = prev.invoked@.len() as int;
                if i >= n0 {
                    assert(self.invoked@[i] == prev.must_await@[i - n0]);
                }
            }
            assert forall|i: int, j2: int|
                0 <= i < self.fire_and_forget@.len() && 0 <= j2 < self.invoked@.len() implies
                self.fire_and_forget@[i] != self.invoked@[j2] by {
                let n0 = prev.invoked@.len() as int;
                if j2 >= n0 {
                    assert(self.invoked@[j2] == prev.must_await@[j2 - n0]);
                }
            }
        }
    }
}

/// The index of `id` in `v`, if present.
fn find_id(v: &Vec<u64>, id: u64) -> (r: Option<usize>)
    ensures
        match r {
            Some(k) => k < v@.len() && v@[k as int] == id,
            None => !v@.contains(id),
        },
{
    let mut i: usize = 0;
    while i < v.len()
        invariant
            i <= v@.len(),
            forall|j: int| 0 <= j < i ==> v@[j] != id,
        decreases v@.len() - i,
    {
        if v[i] == id {
            return Some(i);
        }
        i = i + 1;
    }
    proof {
        assert forall|j: int| 0 <= j < v@.len() implies v@[j] != id by {}
        if v@.contains(id) {
            let j = choose|j: int| 0 <= j < v@.len() && v@[j] == id;
            assert(false);
        }
    }
    None
}

/// Removing one element of a sequence without repeats leaves no repeats.
proof fn lemma_removed_keeps_distinct(s: Seq<u64>, k: int)
    requires
        0 <= k < s.len(),
        forall|i: int, j: int| 0 <= i < j < s.len() ==> s[i] != s[j],
    ensures
        forall|i: int, j: int|
            0 <= i < j < s.remove(k).len() ==> s.remove(k)[i] != s.remove(k)[j],
{
    let s2 = s.remove(k);
    assert forall|i: int, j: int| 0 <= i < j < s2.len() implies s2[i] != s2[j] by {
        let i0 = if i < k {
            i
        } else {
            i + 1
        };
        let j0 = if j < k {
            j
        } else {
            j + 1
        };
        assert(s2[i] == s[i0] && s2[j] == s[j0]);
    }
}

} // verus!
