//! Definitions and collections held in the machine: user functions, poly-statements, and
//! the collection operations on bound names (which only ever accrete).

use vstd::prelude::*;
use vstd::string::*;
use crate::ast::{arms_v, copy_arms, copy_block, copy_strings, stmts_v, Stmt, StmtV};
use crate::model::{render_of, Audience, Jurisdiction, ListEntry, Slot, Val};
use crate::text::{owned, str_eq};
use super::values::{case_at, classify_case, copy_val, delist, first_live, live_match, opt_view, revoke_case, same_entry, same_case, same_val};
use super::{e_index, e_index_msg, eval_error, grows, not_a, restores, EvalError, State};

verus! {

/// `k` is where the function `name` is defined in a table: its first entry.
pub open spec fn fn_at(fs: Seq<(String, Vec<String>, Vec<Stmt>)>, name: Seq<char>, k: int) -> bool {
    &&& 0 <= k < fs.len()
    &&& fs[k].0@ == name
    &&& forall|j: int| 0 <= j < k ==> fs[j].0@ != name
}

/// `b` is the table `a` with the function `name` defined as `params` and `body`: its
/// first entry is replaced in place, or, where it has none, an entry is appended.
pub open spec fn fn_defined(
    a: Seq<(String, Vec<String>, Vec<Stmt>)>,
    b: Seq<(String, Vec<String>, Vec<Stmt>)>,
    name: Seq<char>,
    params: Seq<String>,
    body: Seq<StmtV>,
) -> bool {
    &&& (forall|j: int| 0 <= j < a.len() ==> a[j].0@ != name) ==> {
        &&& b.len() == a.len() + 1
        &&& b.take(a.len() as int) == a
        &&& b.last().0@ == name && b.last().1@ == params && stmts_v(b.last().2@) == body
    }
    &&& forall|k: int| fn_at(a, name, k) ==> {
        &&& b == a.update(k, b[k])
        &&& b[k].0@ == name && b[k].1@ == params && stmts_v(b[k].2@) == body
    }
}

/// `k` is where the poly-statement `name` is defined: its first entry.
pub open spec fn poly_at(ps: Seq<(String, Vec<(Audience, Vec<Stmt>)>)>, name: Seq<char>, k: int) -> bool {
    &&& 0 <= k < ps.len()
    &&& ps[k].0@ == name
    &&& forall|j: int| 0 <= j < k ==> ps[j].0@ != name
}

/// `b` is the table `a` with the poly-statement `name` defined with `arms`: its first
/// entry is replaced in place, or, where it has none, an entry is appended.
pub open spec fn poly_defined(
    a: Seq<(String, Vec<(Audience, Vec<Stmt>)>)>,
    b: Seq<(String, Vec<(Audience, Vec<Stmt>)>)>,
    name: Seq<char>,
    arms: Seq<(Audience, Seq<StmtV>)>,
) -> bool {
    &&& (forall|j: int| 0 <= j < a.len() ==> a[j].0@ != name) ==> {
        &&& b.len() == a.len() + 1
        &&& b.take(a.len() as int) == a
        &&& b.last().0@ == name && arms_v(b.last().1@) == arms
    }
    &&& forall|k: int| poly_at(a, name, k) ==> {
        &&& b == a.update(k, b[k])
        &&& b[k].0@ == name && arms_v(b[k].1@) == arms
    }
}

/// What `remove(coll, item)` does: an unknown name, or a name bound to something other
/// than a facts list, fails and changes nothing; otherwise the first live entry showing
/// `item` (if any) is flagged delisted, every entry stays where it was, and every other
/// name reads as before.
pub open spec fn removed(a: State, b: State, r: Result<(), EvalError>, coll: Seq<char>, item: Seq<char>) -> bool {
    match a.env.lookup(coll) {
        Some(Val::FactsList { label, entries: e1 }) => {
            &&& r is Ok
            &&& b.env.lookup(coll) matches Some(Val::FactsList { label: l2, entries: e2 }) && {
                &&& l2@ == label@
                &&& e2@.len() == e1@.len()
                &&& forall|k: int| 0 <= k < e1@.len() ==> {
                    &&& (#[trigger] e2@[k]).item@ == e1@[k].item@
                    &&& e2@[k].covert == e1@[k].covert
                    &&& e2@[k].delisted == (e1@[k].delisted || first_live(e1@, item, k))
                }
            }
            &&& forall|k: Seq<char>| k != coll ==> #[trigger] b.env.lookup(k) == a.env.lookup(k)
        },
        None => r matches Err(e) && e.0@ == "remove: unknown facts list `"@ + coll + "`"@ && b.env == a.env,
        Some(w) => r matches Err(e) && e.0@ == "remove: `"@ + coll + "` is not a facts list (got "@ + render_of(w) + ")"@
            && b.env == a.env,
    }
}

/// What `revoke(coll, case)` does: an unknown name, or a name bound to something other
/// than a registry, fails and changes nothing; otherwise the case's first entry (if any)
/// is flagged revoked, nothing else about any entry changes, and every other name reads
/// as before.
pub open spec fn revoked(a: State, b: State, r: Result<(), EvalError>, coll: Seq<char>, case: Seq<char>) -> bool {
    match a.env.lookup(coll) {
        Some(Val::Registry { label, official_rule, entries: e1 }) => {
            &&& r is Ok
            &&& b.env.lookup(coll) matches Some(Val::Registry { label: l2, official_rule: o2, entries: e2 }) && {
                &&& l2@ == label@ && o2@ == official_rule@
                &&& e2@.len() == e1@.len()
                &&& forall|k: int| 0 <= k < e1@.len() ==> {
                    &&& (#[trigger] e2@[k]).key@ == e1@[k].key@
                    &&& opt_view(e2@[k].descriptor) == opt_view(e1@[k].descriptor)
                    &&& e2@[k].jurisdiction == e1@[k].jurisdiction
                    &&& e2@[k].covert == e1@[k].covert
                    &&& e2@[k].revoked == (e1@[k].revoked || case_at(e1@, case, k))
                }
            }
            &&& forall|k: Seq<char>| k != coll ==> #[trigger] b.env.lookup(k) == a.env.lookup(k)
        },
        None => r matches Err(e) && e.0@ == "revoke: unknown registry `"@ + coll + "`"@ && b.env == a.env,
        Some(w) => r matches Err(e) && e.0@ == "revoke: `"@ + coll + "` is not a registry (got "@ + render_of(w) + ")"@
            && b.env == a.env,
    }
}

/// What writing slot `i` of the apportionment `coll` with `v` does: an unknown name, a
/// name bound to something else, and an index out of range each fail with their
/// diagnostic and change nothing; otherwise slot `i` holds `v` (covert when written in a
/// covert scope) and every other name reads as before.
pub open spec fn slot_outcome(a: State, b: State, r: Result<(), EvalError>, coll: Seq<char>, i: i64, v: i64) -> bool {
    match a.env.lookup(coll) {
        None => r matches Err(e) && e.0@ == "allocate: unknown apportionment `"@ + coll + "`"@ && b.env == a.env,
        Some(Val::Apportionment { label, slots }) => if 0 <= i < slots@.len() {
            &&& r is Ok
            &&& b.env.lookup(coll) matches Some(Val::Apportionment { label: l2, slots: s2 })
                && l2@ == label@ && s2@ == slots@.update(i as int, Slot { value: v, covert: a.covert })
            &&& forall|k: Seq<char>| k != coll ==> #[trigger] b.env.lookup(k) == a.env.lookup(k)
        } else {
            r matches Err(e) && e.0@ == e_index_msg(label@, i, slots@.len()) && b.env == a.env
        },
        Some(w) => r matches Err(e) && e.0@ == "allocate: `"@ + coll + "` is not an apportionment (got "@
            + render_of(w) + ")"@ && b.env == a.env,
    }
}

impl State {
    /// `func name(params) { body }`: register (or replace) a user function.
    pub(crate) fn define_function(&mut self, name: &str, params: &Vec<String>, body: &Vec<Stmt>)
        requires
            old(self).wf(),
        ensures
            final(self).log == old(self).log,
            final(self).env == old(self).env,
            final(self).discrepancies == old(self).discrepancies,
            final(self).ended_by_elections == old(self).ended_by_elections,
            final(self).steps == old(self).steps,
            grows(*old(self), *final(self)),
            restores(*old(self), *final(self)),
            fn_defined(old(self).funcs@, final(self).funcs@, name@, params@, stmts_v(body@)),
            *final(self) == (State { funcs: final(self).funcs, ..*old(self) }),
    {
        let entry = (owned(name), copy_strings(params), copy_block(body));
        let mut i: usize = 0;
        while i < self.funcs.len()
            invariant
                i <= self.funcs.len(),
                *self == *old(self),
                forall|j: int| 0 <= j < i ==> self.funcs@[j].0@ != name@,
                entry.0@ == name@ && entry.1@ == params@ && stmts_v(entry.2@) == stmts_v(body@),
            decreases self.funcs.len() - i,
        {
            if str_eq(self.funcs[i].0.as_str(), name) {
                let ghost a = self.funcs@;
                self.funcs.set(i, entry);
                proof {
                    assert(a[i as int].0@ == name@);
                    assert forall|k: int| fn_at(a, name@, k) implies k == i by {
                        if k < i {
                            assert(a[k].0@ != name@);
                        } else if k > i {
                            assert(a[i as int].0@ != name@);
                        }
                    }
                    assert(self.funcs@ =~= a.update(i as int, self.funcs@[i as int]));
                }
                return;
            }
            i = i + 1;
        }
        let ghost a = self.funcs@;
        self.funcs.push(entry);
        proof {
            assert(self.funcs@.take(a.len() as int) =~= a);
        }
    }

    /// A copy of the parameters and body of the user function `name`.
    pub(crate) fn find_function(&self, name: &str) -> (r: Option<(Vec<String>, Vec<Stmt>)>)
        ensures
            match r {
                Some((p, b)) => exists|k: int| fn_at(self.funcs@, name@, k) && p@ == self.funcs@[k].1@
                    && stmts_v(b@) == stmts_v(self.funcs@[k].2@),
                None => forall|j: int| 0 <= j < self.funcs@.len() ==> self.funcs@[j].0@ != name@,
            },
    {
        let mut i: usize = 0;
        while i < self.funcs.len()
            invariant
                i <= self.funcs.len(),
                forall|j: int| 0 <= j < i ==> self.funcs@[j].0@ != name@,
            decreases self.funcs.len() - i,
        {
            if str_eq(self.funcs[i].0.as_str(), name) {
                let p = copy_strings(&self.funcs[i].1);
                let b = copy_block(&self.funcs[i].2);
                assert(fn_at(self.funcs@, name@, i as int));
                return Some((p, b));
            }
            i = i + 1;
        }
        None
    }

    /// `statement name { to room { … } … }`: register (or replace) a poly-statement.
    pub(crate) fn define_poly(&mut self, name: &str, arms: &Vec<(Audience, Vec<Stmt>)>)
        requires
            old(self).wf(),
        ensures
            final(self).log == old(self).log,
            final(self).env == old(self).env,
            grows(*old(self), *final(self)),
            restores(*old(self), *final(self)),
            poly_defined(old(self).poly@, final(self).poly@, name@, arms_v(arms@)),
            *final(self) == (State { poly: final(self).poly, ..*old(self) }),
    {
        let entry = (owned(name), copy_arms(arms));
        let mut i: usize = 0;
        while i < self.poly.len()
            invariant
                i <= self.poly.len(),
                *self == *old(self),
                forall|j: int| 0 <= j < i ==> self.poly@[j].0@ != name@,
                entry.0@ == name@ && arms_v(entry.1@) == arms_v(arms@),
            decreases self.poly.len() - i,
        {
            if str_eq(self.poly[i].0.as_str(), name) {
                let ghost a = self.poly@;
                self.poly.set(i, entry);
                proof {
                    assert(a[i as int].0@ == name@);
                    assert forall|k: int| poly_at(a, name@, k) implies k == i by {
                        if k < i {
                            assert(a[k].0@ != name@);
                        } else if k > i {
                            assert(a[i as int].0@ != name@);
                        }
                    }
                    assert(self.poly@ =~= a.update(i as int, self.poly@[i as int]));
                }
                return;
            }
            i = i + 1;
        }
        let ghost a = self.poly@;
        self.poly.push(entry);
        proof {
            assert(self.poly@.take(a.len() as int) =~= a);
        }
    }

    /// A copy of the arms of the poly-statement `name`.
    pub(crate) fn find_poly(&self, name: &str) -> (r: Option<Vec<(Audience, Vec<Stmt>)>>)
        ensures
            match r {
                Some(a) => exists|k: int| poly_at(self.poly@, name@, k) && arms_v(a@) == arms_v(self.poly@[k].1@)
                    && (forall|m: int| 0 <= m < a@.len() ==> a@[m].0 == self.poly@[k].1@[m].0)
                    && a@.len() == self.poly@[k].1@.len(),
                None => forall|j: int| 0 <= j < self.poly@.len() ==> self.poly@[j].0@ != name@,
            },
    {
        let mut i: usize = 0;
        while i < self.poly.len()
            invariant
                i <= self.poly.len(),
                forall|j: int| 0 <= j < i ==> self.poly@[j].0@ != name@,
            decreases self.poly.len() - i,
        {
            if str_eq(self.poly[i].0.as_str(), name) {
                let a = copy_arms(&self.poly[i].1);
                assert(poly_at(self.poly@, name@, i as int));
                return Some(a);
            }
            i = i + 1;
        }
        None
    }

    /// `allocate(a, i, v);` once the index and value are known: write slot `i`
    /// (covert when written inside a covert scope); out of range is `E-INDEX`.
    pub(crate) fn set_slot(&mut self, coll: &str, i: i64, v: i64) -> (r: Result<(), EvalError>)
        requires
            old(self).wf(),
        ensures
            final(self).log == old(self).log,
            grows(*old(self), *final(self)),
            restores(*old(self), *final(self)),
            r is Ok ==> (old(self).env.lookup(coll@) matches Some(Val::Apportionment { slots: s1, .. })
                && final(self).env.lookup(coll@) matches Some(Val::Apportionment { slots: s2, .. })
                && 0 <= i < s1@.len()
                && s2@ == s1@.update(i as int, Slot { value: v, covert: old(self).covert })),
            slot_outcome(*old(self), *final(self), r, coll@, i, v),
    {
        let cur = match self.env.get(coll) {
            Some(x) => copy_val(x),
            None => {
                return Err(eval_error("allocate: unknown apportionment `", coll, "`"));
            },
        };
        match cur {
            Val::Apportionment { label, slots } => {
                if i < 0 || (i as u64) >= (slots.len() as u64) {
                    return Err(EvalError(e_index(label.as_str(), i, slots.len())));
                }
                let mut slots = slots;
                slots.set(i as usize, Slot { value: v, covert: self.covert });
                self.env.set(coll, Val::Apportionment { label, slots });
                Ok(())
            },
            other => Err(not_a("allocate: `", coll, "` is not an apportionment (got ", &other)),
        }
    }

    /// `push(l, x);`: erect an entry on the facts list (covert inside a covert scope). The
    /// real store grows by exactly one; nothing already there changes.
    pub(crate) fn push_item(&mut self, coll: &str, item: String) -> (r: Result<(), EvalError>)
        requires
            old(self).wf(),
        ensures
            final(self).log == old(self).log,
            grows(*old(self), *final(self)),
            restores(*old(self), *final(self)),
            r is Ok ==> (old(self).env.lookup(coll@) matches Some(Val::FactsList { entries: e1, .. })
                && final(self).env.lookup(coll@) matches Some(Val::FactsList { entries: e2, .. })
                && e2@.len() == e1@.len() + 1
                && (forall|k: int| 0 <= k < e1@.len() ==> same_entry(#[trigger] e2@[k], e1@[k]))
                && e2@.last().item@ == item@ && !e2@.last().delisted && e2@.last().covert == old(self).covert),
    {
        let cur = match self.env.get(coll) {
            Some(x) => copy_val(x),
            None => {
                return Err(eval_error("push: unknown facts list `", coll, "`"));
            },
        };
        match cur {
            Val::FactsList { label, entries } => {
                let mut entries = entries;
                entries.push(ListEntry { item, delisted: false, covert: self.covert });
                self.env.set(coll, Val::FactsList { label, entries });
                Ok(())
            },
            other => Err(not_a("push: `", coll, "` is not a facts list (got ", &other)),
        }
    }

    /// `remove(l, x);` delists, it never deletes: the real length of the list stays the
    /// same. Not found is a no-op.
    pub(crate) fn remove_item(&mut self, coll: &str, item: &str) -> (r: Result<(), EvalError>)
        requires
            old(self).wf(),
        ensures
            final(self).log == old(self).log,
            grows(*old(self), *final(self)),
            restores(*old(self), *final(self)),
            r is Ok ==> (old(self).env.lookup(coll@) matches Some(Val::FactsList { entries: e1, .. })
                && final(self).env.lookup(coll@) matches Some(Val::FactsList { entries: e2, .. })
                && e2@.len() == e1@.len()
                && (forall|k: int| 0 <= k < e1@.len() ==> (#[trigger] e2@[k]).item@ == e1@[k].item@
                    && e2@[k].covert == e1@[k].covert && (e1@[k].delisted ==> e2@[k].delisted))),
            removed(*old(self), *final(self), r, coll@, item@),
    {
        let cur = match self.env.get(coll) {
            Some(x) => copy_val(x),
            None => {
                return Err(eval_error("remove: unknown facts list `", coll, "`"));
            },
        };
        match cur {
            Val::FactsList { label, entries } => {
                let mut entries = entries;
                let ghost copied = entries@;
                proof {
                    let e1 = old(self).env.lookup(coll@)->Some_0->FactsList_entries@;
                    assert forall|k: int| #![trigger live_match(copied, item@, k)] #![trigger live_match(e1, item@, k)]
                        0 <= k < copied.len() implies live_match(copied, item@, k) == live_match(e1, item@, k) by {
                        assert(same_entry(copied[k], e1[k]));
                    }
                }
                delist(&mut entries, item);
                proof {
                    let e1 = old(self).env.lookup(coll@)->Some_0->FactsList_entries@;
                    assert forall|k: int| 0 <= k < e1.len() implies {
                        &&& (#[trigger] entries@[k]).item@ == e1[k].item@
                        &&& entries@[k].covert == e1[k].covert
                        &&& entries@[k].delisted == (e1[k].delisted || first_live(e1, item@, k))
                    } by {
                        assert(same_entry(copied[k], e1[k]));
                        assert(first_live(copied, item@, k) == first_live(e1, item@, k)) by {
                            assert forall|j: int| 0 <= j < k implies live_match(copied, item@, j) == live_match(e1, item@, j) by {
                                assert(same_entry(copied[j], e1[j]));
                            }
                        }
                    }
                }
                self.env.set(coll, Val::FactsList { label, entries });
                Ok(())
            },
            other => Err(not_a("remove: `", coll, "` is not a facts list (got ", &other)),
        }
    }

    /// `classify(r, case, j);`: assign a case a jurisdiction (upsert), with the candid
    /// descriptor from the table. No case is ever removed.
    pub(crate) fn classify(&mut self, coll: &str, case: &str, j: Jurisdiction) -> (r: Result<(), EvalError>)
        requires
            old(self).wf(),
        ensures
            final(self).log == old(self).log,
            grows(*old(self), *final(self)),
            restores(*old(self), *final(self)),
            r is Ok ==> (old(self).env.lookup(coll@) matches Some(Val::Registry { entries: e1, .. })
                && final(self).env.lookup(coll@) matches Some(Val::Registry { entries: e2, .. })
                && e2@.len() >= e1@.len()
                && (forall|k: int| 0 <= k < e1@.len() ==> (#[trigger] e2@[k]).key@ == e1@[k].key@)),
    {
        let cur = match self.env.get(coll) {
            Some(x) => copy_val(x),
            None => {
                return Err(eval_error("classify: unknown registry `", coll, "`"));
            },
        };
        match cur {
            Val::Registry { label, official_rule, entries } => {
                let descriptor = match crate::euphemism::case_descriptor(case) {
                    Some(d) => Some(owned(d)),
                    None => None,
                };
                let mut entries = entries;
                classify_case(&mut entries, case, j, self.covert, descriptor);
                self.env.set(coll, Val::Registry { label, official_rule, entries });
                Ok(())
            },
            other => Err(not_a("classify: `", coll, "` is not a registry (got ", &other)),
        }
    }

    /// `revoke(r, case);` retains, it never erases: the case set keeps its size; the case
    /// is only flagged. Not found is a no-op.
    pub(crate) fn revoke(&mut self, coll: &str, case: &str) -> (r: Result<(), EvalError>)
        requires
            old(self).wf(),
        ensures
            final(self).log == old(self).log,
            grows(*old(self), *final(self)),
            restores(*old(self), *final(self)),
            r is Ok ==> (old(self).env.lookup(coll@) matches Some(Val::Registry { entries: e1, .. })
                && final(self).env.lookup(coll@) matches Some(Val::Registry { entries: e2, .. })
                && e2@.len() == e1@.len()
                && (forall|k: int| 0 <= k < e1@.len() ==> (#[trigger] e2@[k]).key@ == e1@[k].key@
                    && (e1@[k].revoked ==> e2@[k].revoked))),
            revoked(*old(self), *final(self), r, coll@, case@),
    {
        let cur = match self.env.get(coll) {
            Some(x) => copy_val(x),
            None => {
                return Err(eval_error("revoke: unknown registry `", coll, "`"));
            },
        };
        match cur {
            Val::Registry { label, official_rule, entries } => {
                let mut entries = entries;
                let ghost copied = entries@;
                revoke_case(&mut entries, case);
                proof {
                    let e1 = old(self).env.lookup(coll@)->Some_0->Registry_entries@;
                    assert forall|k: int| 0 <= k < e1.len() implies {
                        &&& (#[trigger] entries@[k]).key@ == e1[k].key@
                        &&& opt_view(entries@[k].descriptor) == opt_view(e1[k].descriptor)
                        &&& entries@[k].jurisdiction == e1[k].jurisdiction
                        &&& entries@[k].covert == e1[k].covert
                        &&& entries@[k].revoked == (e1[k].revoked || case_at(e1, case@, k))
                    } by {
                        assert(same_case(copied[k], e1[k]));
                        assert(case_at(copied, case@, k) == case_at(e1, case@, k)) by {
                            assert forall|j: int| 0 <= j < k implies copied[j].key@ == e1[j].key@ by {
                                assert(same_case(copied[j], e1[j]));
                            }
                        }
                    }
                }
                self.env.set(coll, Val::Registry { label, official_rule, entries });
                Ok(())
            },
            other => Err(not_a("revoke: `", coll, "` is not a registry (got ", &other)),
        }
    }
}

} // verus!
