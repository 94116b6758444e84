//! The ACTUAL environment: globals plus a stack of function-call frames. A function body
//! sees its own frame plus the globals, never the caller's locals.

use vstd::prelude::*;
use vstd::string::*;
use crate::model::Val;
use crate::text::{owned, str_eq};

verus! {

/// The value bound to `k` in a binding list: the latest binding of the name wins.
pub open spec fn bound(s: Seq<(String, Val)>, k: Seq<char>) -> Option<Val>
    decreases s.len(),
{
    if s.len() == 0 {
        None
    } else if s.last().0@ == k {
        Some(s.last().1)
    } else {
        bound(s.drop_last(), k)
    }
}

proof fn lemma_bound_none(s: Seq<(String, Val)>, k: Seq<char>)
    requires
        forall|j: int| 0 <= j < s.len() ==> s[j].0@ != k,
    ensures
        bound(s, k) is None,
    decreases s.len(),
{
    if s.len() > 0 {
        lemma_bound_none(s.drop_last(), k);
    }
}

proof fn lemma_bound_at(s: Seq<(String, Val)>, i: int)
    requires
        0 <= i < s.len(),
        forall|j: int| i < j < s.len() ==> s[j].0@ != s[i].0@,
    ensures
        bound(s, s[i].0@) == Some(s[i].1),
    decreases s.len(),
{
    if i < s.len() - 1 {
        lemma_bound_at(s.drop_last(), i);
    }
}

proof fn lemma_bound_update(s: Seq<(String, Val)>, i: int, key: String, v: Val, k: Seq<char>)
    requires
        0 <= i < s.len(),
        s[i].0@ == key@,
        forall|j: int| i < j < s.len() ==> s[j].0@ != key@,
    ensures
        bound(s.update(i, (key, v)), k) == if k == key@ { Some(v) } else { bound(s, k) },
    decreases s.len(),
{
    let t = s.update(i, (key, v));
    if i < s.len() - 1 {
        assert(t.drop_last() =~= s.drop_last().update(i, (key, v)));
        lemma_bound_update(s.drop_last(), i, key, v, k);
    } else {
        assert(t.drop_last() =~= s.drop_last());
    }
}

proof fn lemma_bound_push(s: Seq<(String, Val)>, key: String, v: Val, k: Seq<char>)
    ensures
        bound(s.push((key, v)), k) == if k == key@ { Some(v) } else { bound(s, k) },
{
    assert(s.push((key, v)).drop_last() =~= s);
}

/// The index of the latest binding of `name`, if any.
fn find_last(s: &Vec<(String, Val)>, name: &str) -> (r: Option<usize>)
    ensures
        match r {
            Some(i) => {
                &&& i < s@.len()
                &&& s@[i as int].0@ == name@
                &&& forall|j: int| i < j < s@.len() ==> s@[j].0@ != name@
            },
            None => forall|j: int| 0 <= j < s@.len() ==> s@[j].0@ != name@,
        },
{
    let mut i = s.len();
    while i > 0
        invariant
            i <= s@.len(),
            forall|j: int| i <= j < s@.len() ==> s@[j].0@ != name@,
        decreases i,
    {
        if str_eq(s[i - 1].0.as_str(), name) {
            return Some(i - 1);
        }
        i = i - 1;
    }
    None
}

/// Bind `name` in a binding list: overwrite its latest binding, or add one.
fn bind(s: &mut Vec<(String, Val)>, name: &str, val: Val)
    ensures
        forall|k: Seq<char>| #[trigger] bound(final(s)@, k) == if k == name@ { Some(val) } else { bound(old(s)@, k) },
{
    match find_last(s, name) {
        Some(i) => {
            let ghost before = s@;
            let key = owned(name);
            s.set(i, (key, val));
            proof {
                assert forall|k: Seq<char>| #[trigger] bound(s@, k) == if k == name@ { Some(val) } else { bound(before, k) } by {
                    lemma_bound_update(before, i as int, key, val, k);
                }
            }
        },
        None => {
            let ghost before = s@;
            let key = owned(name);
            s.push((key, val));
            proof {
                assert forall|k: Seq<char>| #[trigger] bound(s@, k) == if k == name@ { Some(val) } else { bound(before, k) } by {
                    lemma_bound_push(before, key, val, k);
                }
            }
        },
    }
}

/// A mutable handle on the value of the binding at `i`.
fn binding_mut(s: &mut Vec<(String, Val)>, i: usize) -> (r: &mut Val)
    requires
        i < old(s)@.len(),
    ensures
        *r == old(s)@[i as int].1,
        final(s)@ == old(s)@.update(i as int, (old(s)@[i as int].0, *final(r))),
{
    &mut s[i].1
}

/// A scoped value environment.
pub struct Env {
    globals: Vec<(String, Val)>,
    frames: Vec<Vec<(String, Val)>>,
}

impl Env {
    /// What a name reads as: the current call frame first, then the globals.
    pub closed spec fn lookup(&self, k: Seq<char>) -> Option<Val> {
        if self.frames@.len() > 0 && bound(self.frames@.last()@, k) is Some {
            bound(self.frames@.last()@, k)
        } else {
            bound(self.globals@, k)
        }
    }

    /// What a name reads as at top level.
    pub closed spec fn global(&self, k: Seq<char>) -> Option<Val> {
        bound(self.globals@, k)
    }

    /// What the current call frame binds `k` to (`None` at top level).
    pub closed spec fn local(&self, k: Seq<char>) -> Option<Val> {
        if self.frames@.len() > 0 { bound(self.frames@.last()@, k) } else { None }
    }

    /// What a name reads as once the current call frame is left: the frame below first,
    /// then the globals.
    pub closed spec fn outer(&self, k: Seq<char>) -> Option<Val> {
        if self.frames@.len() > 1 && bound(self.frames@[self.frames@.len() - 2]@, k) is Some {
            bound(self.frames@[self.frames@.len() - 2]@, k)
        } else {
            bound(self.globals@, k)
        }
    }

    /// The number of open call frames.
    pub closed spec fn frame_count(&self) -> nat {
        self.frames@.len()
    }

    /// An empty environment.
    pub fn new() -> (e: Env)
        ensures
            forall|k: Seq<char>| #[trigger] e.lookup(k) is None,
            e.frame_count() == 0,
    {
        Env { globals: Vec::new(), frames: Vec::new() }
    }

    /// Read a variable: the current call frame (if any) first, then the globals.
    pub fn get(&self, name: &str) -> (r: Option<&Val>)
        ensures
            match r {
                Some(v) => self.lookup(name@) == Some(*v),
                None => self.lookup(name@) is None,
            },
    {
        if self.frames.len() > 0 {
            let last = self.frames.len() - 1;
            match find_last(&self.frames[last], name) {
                Some(i) => {
                    proof {
                        lemma_bound_at(self.frames@[last as int]@, i as int);
                    }
                    return Some(&self.frames[last][i].1);
                },
                None => {
                    proof {
                        lemma_bound_none(self.frames@[last as int]@, name@);
                    }
                },
            }
        }
        match find_last(&self.globals, name) {
            Some(i) => {
                proof {
                    lemma_bound_at(self.globals@, i as int);
                }
                Some(&self.globals[i].1)
            },
            None => {
                proof {
                    lemma_bound_none(self.globals@, name@);
                }
                None
            },
        }
    }

    /// Assign a variable where it already lives (the current frame, else a global);
    /// otherwise create it in the current scope (the call frame inside a call, else the
    /// globals).
    pub fn set(&mut self, name: &str, val: Val)
        ensures
            final(self).lookup(name@) == Some(val),
            forall|k: Seq<char>| k != name@ ==> #[trigger] final(self).lookup(k) == old(self).lookup(k),
            final(self).frame_count() == old(self).frame_count(),
            old(self).frame_count() == 0 ==> forall|k: Seq<char>| #[trigger] final(self).global(k)
                == if k == name@ { Some(val) } else { old(self).global(k) },
            (old(self).frame_count() > 0 && (old(self).local(name@) is Some || old(self).global(name@) is None)) ==> {
                &&& forall|k: Seq<char>| #[trigger] final(self).local(k) == if k == name@ { Some(val) } else { old(self).local(k) }
                &&& forall|k: Seq<char>| #[trigger] final(self).global(k) == old(self).global(k)
                &&& forall|k: Seq<char>| #[trigger] final(self).outer(k) == old(self).outer(k)
            },
            (old(self).frame_count() > 0 && old(self).local(name@) is None && old(self).global(name@) is Some) ==> {
                &&& forall|k: Seq<char>| #[trigger] final(self).local(k) == old(self).local(k)
                &&& forall|k: Seq<char>| #[trigger] final(self).global(k)
                    == if k == name@ { Some(val) } else { old(self).global(k) }
            },
    {
        if self.frames.len() > 0 {
            let last = self.frames.len() - 1;
            let ff = find_last(&self.frames[last], name);
            let fg = find_last(&self.globals, name);
            proof {
                match ff {
                    Some(i) => lemma_bound_at(self.frames@[last as int]@, i as int),
                    None => lemma_bound_none(self.frames@[last as int]@, name@),
                }
                match fg {
                    Some(i) => lemma_bound_at(self.globals@, i as int),
                    None => lemma_bound_none(self.globals@, name@),
                }
                assert(self.local(name@) == bound(self.frames@[last as int]@, name@));
            }
            let in_frame = ff.is_some();
            let in_globals = fg.is_some();
            if in_frame || !in_globals {
                let ghost frames_before = self.frames@;
                let mut frame = self.frames.pop().unwrap();
                proof {
                    if in_frame {
                        let i = choose|i: int| 0 <= i < frame@.len() && frame@[i].0@ == name@;
                        assert(frame@[i].0@ == name@);
                    } else {
                        lemma_bound_none(self.globals@, name@);
                    }
                }
                let ghost fbefore = frame@;
                bind(&mut frame, name, val);
                self.frames.push(frame);
                assert(self.frames@.drop_last() =~= frames_before.drop_last());
                proof {
                    if frames_before.len() > 1 {
                        assert(self.frames@[self.frames@.len() - 2] == frames_before[frames_before.len() - 2]);
                    }
                }
                proof {
                    if !in_frame {
                        assert(bound(fbefore, name@) is None) by {
                            lemma_bound_none(fbefore, name@);
                        }
                    }
                }
            } else {
                proof {
                    lemma_bound_none(self.frames@[last as int]@, name@);
                }
                bind(&mut self.globals, name, val);
            }
        } else {
            bind(&mut self.globals, name, val);
        }
    }

    /// Read a variable mutably: the current call frame (if any) first, then the globals.
    /// Writing through the handle rebinds that name where it lives and nothing else.
    pub fn get_mut(&mut self, name: &str) -> (r: Option<&mut Val>)
        ensures
            match r {
                Some(v) => {
                    &&& old(self).lookup(name@) == Some(*v)
                    &&& final(self).lookup(name@) == Some(*final(v))
                    &&& forall|k: Seq<char>| k != name@ ==> #[trigger] final(self).lookup(k) == old(self).lookup(k)
                    &&& final(self).frame_count() == old(self).frame_count()
                },
                None => {
                    &&& old(self).lookup(name@) is None
                    &&& forall|k: Seq<char>| #[trigger] final(self).lookup(k) == old(self).lookup(k)
                    &&& final(self).frame_count() == old(self).frame_count()
                },
            },
    {
        if self.frames.len() > 0 {
            let last = self.frames.len() - 1;
            match find_last(&self.frames[last], name) {
                Some(i) => {
                    let ghost fbefore = self.frames@[last as int]@;
                    let ghost frames_before = self.frames@;
                    let ghost key = fbefore[i as int].0;
                    proof {
                        lemma_bound_at(fbefore, i as int);
                        assert forall|nv: Val, k: Seq<char>| #[trigger] bound(fbefore.update(i as int, (key, nv)), k)
                            == if k == name@ { Some(nv) } else { bound(fbefore, k) } by {
                            lemma_bound_update(fbefore, i as int, key, nv, k);
                        }
                    }
                    let frame = &mut self.frames[last];
                    let v = binding_mut(frame, i);
                    return Some(v);
                },
                None => {
                    proof {
                        lemma_bound_none(self.frames@[last as int]@, name@);
                    }
                },
            }
        }
        match find_last(&self.globals, name) {
            Some(i) => {
                let ghost before = self.globals@;
                let ghost key = before[i as int].0;
                proof {
                    lemma_bound_at(before, i as int);
                    assert forall|nv: Val, k: Seq<char>| #[trigger] bound(before.update(i as int, (key, nv)), k)
                        == if k == name@ { Some(nv) } else { bound(before, k) } by {
                        lemma_bound_update(before, i as int, key, nv, k);
                    }
                }
                let v = binding_mut(&mut self.globals, i);
                Some(v)
            },
            None => {
                proof {
                    lemma_bound_none(self.globals@, name@);
                }
                None
            },
        }
    }

    /// Enter a new, empty function-call frame.
    pub fn push_frame(&mut self)
        ensures
            final(self).frame_count() == old(self).frame_count() + 1,
            forall|k: Seq<char>| #[trigger] final(self).lookup(k) == old(self).global(k),
            forall|k: Seq<char>| #[trigger] final(self).global(k) == old(self).global(k),
            forall|k: Seq<char>| #[trigger] final(self).local(k) is None,
            forall|k: Seq<char>| #[trigger] final(self).outer(k) == old(self).lookup(k),
    {
        self.frames.push(Vec::new());
        assert(self.frames@.last()@ =~= Seq::<(String, Val)>::empty());
    }

    /// Leave the current function-call frame.
    pub fn pop_frame(&mut self)
        ensures
            final(self).frame_count() == if old(self).frame_count() > 0 { old(self).frame_count() - 1 } else { 0 },
            forall|k: Seq<char>| #[trigger] final(self).global(k) == old(self).global(k),
            old(self).frame_count() > 0 ==> forall|k: Seq<char>| #[trigger] final(self).lookup(k) == old(self).outer(k),
            old(self).frame_count() == 0 ==> forall|k: Seq<char>| #[trigger] final(self).lookup(k) == old(self).lookup(k),
    {
        self.frames.pop();
    }

    /// Bind a parameter or local directly in the current frame (shadowing any global);
    /// at top level, a global.
    pub fn define_local(&mut self, name: &str, val: Val)
        ensures
            final(self).lookup(name@) == Some(val),
            forall|k: Seq<char>| k != name@ ==> #[trigger] final(self).lookup(k) == old(self).lookup(k),
            final(self).frame_count() == old(self).frame_count(),
            old(self).frame_count() > 0 ==> forall|k: Seq<char>| #[trigger] final(self).global(k) == old(self).global(k),
            old(self).frame_count() > 0 ==> forall|k: Seq<char>| #[trigger] final(self).outer(k) == old(self).outer(k),
            old(self).frame_count() > 0 ==> forall|k: Seq<char>| #[trigger] final(self).local(k)
                == if k == name@ { Some(val) } else { old(self).local(k) },
    {
        if self.frames.len() > 0 {
            let ghost frames_before = self.frames@;
            let mut frame = self.frames.pop().unwrap();
            bind(&mut frame, name, val);
            self.frames.push(frame);
            assert(self.frames@.drop_last() =~= frames_before.drop_last());
            proof {
                if frames_before.len() > 1 {
                    assert(self.frames@[self.frames@.len() - 2] == frames_before[frames_before.len() - 2]);
                }
            }
        } else {
            bind(&mut self.globals, name, val);
        }
    }
}

} // verus!
