//! Values on the ACTUAL tape: copying and comparing them, the scalar operators, and the
//! collection operations, which only ever accrete (nothing is deleted from the real store).

use vstd::prelude::*;
use vstd::string::*;
use crate::ast::{BinOp, UnOp};
use crate::model::{render_of, truth_of, Jurisdiction, ListEntry, RegEntry, Slot, Val, entry_cell, case_cell, slot_cell};
use crate::text::{owned, str_eq};

verus! {

// ─────────── value identity ───────────

/// Two facts-list entries hold the same data.
pub open spec fn same_entry(a: ListEntry, b: ListEntry) -> bool {
    a.item@ == b.item@ && a.delisted == b.delisted && a.covert == b.covert
}

/// The text of an optional string.
pub open spec fn opt_view(o: Option<String>) -> Option<Seq<char>> {
    match o {
        Some(s) => Some(s@),
        None => None,
    }
}

/// Two registry cases hold the same data.
pub open spec fn same_case(a: RegEntry, b: RegEntry) -> bool {
    &&& a.key@ == b.key@
    &&& opt_view(a.descriptor) == opt_view(b.descriptor)
    &&& a.jurisdiction == b.jurisdiction
    &&& a.revoked == b.revoked
    &&& a.covert == b.covert
}

/// Two values are equal: same kind and same contents.
pub open spec fn same_val(a: Val, b: Val) -> bool {
    match (a, b) {
        (Val::Int(x), Val::Int(y)) => x == y,
        (Val::Bool(x), Val::Bool(y)) => x == y,
        (Val::Str(x), Val::Str(y)) => x@ == y@,
        (Val::Unit, Val::Unit) => true,
        (Val::Entity { name: n1, category: c1 }, Val::Entity { name: n2, category: c2 }) => n1@ == n2@ && c1@ == c2@,
        (Val::Undisclosed, Val::Undisclosed) => true,
        (Val::Apportionment { label: l1, slots: s1 }, Val::Apportionment { label: l2, slots: s2 }) => l1@ == l2@ && s1@ == s2@,
        (Val::FactsList { label: l1, entries: e1 }, Val::FactsList { label: l2, entries: e2 }) => {
            &&& l1@ == l2@
            &&& e1@.len() == e2@.len()
            &&& forall|i: int| 0 <= i < e1@.len() ==> same_entry(#[trigger] e1@[i], e2@[i])
        },
        (
            Val::Registry { label: l1, official_rule: r1, entries: e1 },
            Val::Registry { label: l2, official_rule: r2, entries: e2 },
        ) => {
            &&& l1@ == l2@
            &&& r1@ == r2@
            &&& e1@.len() == e2@.len()
            &&& forall|i: int| 0 <= i < e1@.len() ==> same_case(#[trigger] e1@[i], e2@[i])
        },
        _ => false,
    }
}

/// Whether a value is one of the three collections.
pub open spec fn is_collection_val(v: Val) -> bool {
    v is Apportionment || v is FactsList || v is Registry
}

fn copy_opt(o: &Option<String>) -> (r: Option<String>)
    ensures
        r == *o,
{
    match o {
        Some(s) => Some(s.clone()),
        None => None,
    }
}

fn copy_entries(v: &Vec<ListEntry>) -> (r: Vec<ListEntry>)
    ensures
        r@.len() == v@.len(),
        forall|i: int| 0 <= i < v@.len() ==> same_entry(#[trigger] r@[i], v@[i]),
{
    let mut r: Vec<ListEntry> = Vec::new();
    let mut i: usize = 0;
    while i < v.len()
        invariant
            i <= v.len(),
            r@.len() == i,
            forall|j: int| 0 <= j < i ==> same_entry(#[trigger] r@[j], v@[j]),
        decreases v.len() - i,
    {
        let e = &v[i];
        r.push(ListEntry { item: e.item.clone(), delisted: e.delisted, covert: e.covert });
        i = i + 1;
    }
    r
}

fn copy_cases(v: &Vec<RegEntry>) -> (r: Vec<RegEntry>)
    ensures
        r@.len() == v@.len(),
        forall|i: int| 0 <= i < v@.len() ==> same_case(#[trigger] r@[i], v@[i]),
{
    let mut r: Vec<RegEntry> = Vec::new();
    let mut i: usize = 0;
    while i < v.len()
        invariant
            i <= v.len(),
            r@.len() == i,
            forall|j: int| 0 <= j < i ==> same_case(#[trigger] r@[j], v@[j]),
        decreases v.len() - i,
    {
        let e = &v[i];
        r.push(RegEntry {
            key: e.key.clone(),
            descriptor: copy_opt(&e.descriptor),
            jurisdiction: e.jurisdiction,
            revoked: e.revoked,
            covert: e.covert,
        });
        i = i + 1;
    }
    r
}

fn copy_slots(v: &Vec<Slot>) -> (r: Vec<Slot>)
    ensures
        r@ == v@,
{
    let mut r: Vec<Slot> = Vec::new();
    let mut i: usize = 0;
    while i < v.len()
        invariant
            i <= v.len(),
            r@ == v@.take(i as int),
        decreases v.len() - i,
    {
        r.push(v[i]);
        i = i + 1;
        assert(r@ =~= v@.take(i as int));
    }
    assert(v@.take(v.len() as int) =~= v@);
    r
}

/// A copy of a value: the same kind, contents, truth and rendering.
pub fn copy_val(v: &Val) -> (r: Val)
    ensures
        same_val(r, *v),
        truth_of(r) == truth_of(*v),
        render_of(r) == render_of(*v),
{
    match v {
        Val::Int(n) => Val::Int(*n),
        Val::Bool(b) => Val::Bool(*b),
        Val::Str(s) => Val::Str(s.clone()),
        Val::Unit => Val::Unit,
        Val::Entity { name, category } => Val::Entity { name: name.clone(), category: category.clone() },
        Val::Undisclosed => Val::Undisclosed,
        Val::Apportionment { label, slots } => Val::Apportionment { label: label.clone(), slots: copy_slots(slots) },
        Val::FactsList { label, entries } => {
            let c = copy_entries(entries);
            assert(c@.map_values(|e: ListEntry| entry_cell(e)) =~= entries@.map_values(|e: ListEntry| entry_cell(e)));
            Val::FactsList { label: label.clone(), entries: c }
        },
        Val::Registry { label, official_rule, entries } => {
            let c = copy_cases(entries);
            assert(c@.map_values(|e: RegEntry| case_cell(e)) =~= entries@.map_values(|e: RegEntry| case_cell(e)));
            Val::Registry { label: label.clone(), official_rule: official_rule.clone(), entries: c }
        },
    }
}

fn opt_eq(a: &Option<String>, b: &Option<String>) -> (r: bool)
    ensures
        r == (opt_view(*a) == opt_view(*b)),
{
    match (a, b) {
        (Some(x), Some(y)) => str_eq(x.as_str(), y.as_str()),
        (None, None) => true,
        _ => false,
    }
}

fn entries_eq(a: &Vec<ListEntry>, b: &Vec<ListEntry>) -> (r: bool)
    ensures
        r == (a@.len() == b@.len() && forall|i: int| 0 <= i < a@.len() ==> same_entry(#[trigger] a@[i], b@[i])),
{
    if a.len() != b.len() {
        return false;
    }
    let mut i: usize = 0;
    while i < a.len()
        invariant
            i <= a.len(),
            a@.len() == b@.len(),
            forall|j: int| 0 <= j < i ==> same_entry(#[trigger] a@[j], b@[j]),
        decreases a.len() - i,
    {
        let x = &a[i];
        let y = &b[i];
        if !(str_eq(x.item.as_str(), y.item.as_str()) && x.delisted == y.delisted && x.covert == y.covert) {
            assert(!same_entry(a@[i as int], b@[i as int]));
            return false;
        }
        i = i + 1;
    }
    true
}

fn cases_eq(a: &Vec<RegEntry>, b: &Vec<RegEntry>) -> (r: bool)
    ensures
        r == (a@.len() == b@.len() && forall|i: int| 0 <= i < a@.len() ==> same_case(#[trigger] a@[i], b@[i])),
{
    if a.len() != b.len() {
        return false;
    }
    let mut i: usize = 0;
    while i < a.len()
        invariant
            i <= a.len(),
            a@.len() == b@.len(),
            forall|j: int| 0 <= j < i ==> same_case(#[trigger] a@[j], b@[j]),
        decreases a.len() - i,
    {
        let x = &a[i];
        let y = &b[i];
        let same_j = match (x.jurisdiction, y.jurisdiction) {
            (Jurisdiction::Military, Jurisdiction::Military) => true,
            (Jurisdiction::Civilian, Jurisdiction::Civilian) => true,
            _ => false,
        };
        if !(str_eq(x.key.as_str(), y.key.as_str()) && opt_eq(&x.descriptor, &y.descriptor) && same_j
            && x.revoked == y.revoked && x.covert == y.covert) {
            assert(!same_case(a@[i as int], b@[i as int]));
            return false;
        }
        i = i + 1;
    }
    true
}

fn slots_eq(a: &Vec<Slot>, b: &Vec<Slot>) -> (r: bool)
    ensures
        r == (a@ == b@),
{
    if a.len() != b.len() {
        return false;
    }
    let mut i: usize = 0;
    while i < a.len()
        invariant
            i <= a.len(),
            a@.len() == b@.len(),
            forall|j: int| 0 <= j < i ==> a@[j] == b@[j],
        decreases a.len() - i,
    {
        if a[i].value != b[i].value || a[i].covert != b[i].covert {
            return false;
        }
        i = i + 1;
    }
    assert(a@ =~= b@);
    true
}

/// Value equality (`==` in programs): values of different kinds are simply not equal.
pub fn val_eq(a: &Val, b: &Val) -> (r: bool)
    ensures
        r == same_val(*a, *b),
{
    match (a, b) {
        (Val::Int(x), Val::Int(y)) => *x == *y,
        (Val::Bool(x), Val::Bool(y)) => *x == *y,
        (Val::Str(x), Val::Str(y)) => str_eq(x.as_str(), y.as_str()),
        (Val::Unit, Val::Unit) => true,
        (Val::Entity { name: n1, category: c1 }, Val::Entity { name: n2, category: c2 }) => {
            str_eq(n1.as_str(), n2.as_str()) && str_eq(c1.as_str(), c2.as_str())
        },
        (Val::Undisclosed, Val::Undisclosed) => true,
        (Val::Apportionment { label: l1, slots: s1 }, Val::Apportionment { label: l2, slots: s2 }) => {
            str_eq(l1.as_str(), l2.as_str()) && slots_eq(s1, s2)
        },
        (Val::FactsList { label: l1, entries: e1 }, Val::FactsList { label: l2, entries: e2 }) => {
            str_eq(l1.as_str(), l2.as_str()) && entries_eq(e1, e2)
        },
        (
            Val::Registry { label: l1, official_rule: r1, entries: e1 },
            Val::Registry { label: l2, official_rule: r2, entries: e2 },
        ) => str_eq(l1.as_str(), l2.as_str()) && str_eq(r1.as_str(), r2.as_str()) && cases_eq(e1, e2),
        _ => false,
    }
}

// ─────────── scalar operators ───────────

/// The result of a unary operator on a value (`None`: a type error).
pub open spec fn unop_spec(op: UnOp, v: Val) -> Option<Val> {
    match (op, v) {
        (UnOp::Neg, Val::Int(n)) => Some(Val::Int(if n == i64::MIN { n } else { (-n) as i64 })),
        (UnOp::Not, Val::Bool(b)) => Some(Val::Bool(!b)),
        _ => None,
    }
}

/// Apply a unary operator: wrapping negation on integers, `!` on booleans.
pub fn apply_unop(op: UnOp, v: &Val) -> (r: Option<Val>)
    ensures
        r == unop_spec(op, *v),
{
    match (op, v) {
        (UnOp::Neg, Val::Int(n)) => Some(Val::Int(if *n == i64::MIN { *n } else { -*n })),
        (UnOp::Not, Val::Bool(b)) => Some(Val::Bool(!*b)),
        _ => None,
    }
}

/// The result of an integer operator (`None`: division or modulo by zero, or an operator
/// that does not apply to integers). Arithmetic wraps on overflow.
pub open spec fn int_op_spec(op: BinOp, a: i64, b: i64) -> Option<Val> {
    match op {
        BinOp::Add => Some(Val::Int(a.wrapping_add(b))),
        BinOp::Sub => Some(Val::Int(a.wrapping_sub(b))),
        BinOp::Mul => Some(Val::Int(a.wrapping_mul(b))),
        BinOp::Div => match a.checked_div(b) {
            Some(q) => Some(Val::Int(q)),
            None => if b == 0 { None } else { Some(Val::Int(i64::MIN)) },
        },
        BinOp::Mod => match a.checked_rem(b) {
            Some(m) => Some(Val::Int(m)),
            None => if b == 0 { None } else { Some(Val::Int(0)) },
        },
        BinOp::Lt => Some(Val::Bool(a < b)),
        BinOp::Le => Some(Val::Bool(a <= b)),
        BinOp::Gt => Some(Val::Bool(a > b)),
        BinOp::Ge => Some(Val::Bool(a >= b)),
        _ => None,
    }
}

/// Apply an arithmetic or ordering operator to two integers.
pub fn int_op(op: BinOp, a: i64, b: i64) -> (r: Option<Val>)
    ensures
        r == int_op_spec(op, a, b),
{
    match op {
        BinOp::Add => Some(Val::Int(a.wrapping_add(b))),
        BinOp::Sub => Some(Val::Int(a.wrapping_sub(b))),
        BinOp::Mul => Some(Val::Int(a.wrapping_mul(b))),
        BinOp::Div => match a.checked_div(b) {
            Some(q) => Some(Val::Int(q)),
            None => if b == 0 { None } else { Some(Val::Int(i64::MIN)) },
        },
        BinOp::Mod => match a.checked_rem(b) {
            Some(m) => Some(Val::Int(m)),
            None => if b == 0 { None } else { Some(Val::Int(0)) },
        },
        BinOp::Lt => Some(Val::Bool(a < b)),
        BinOp::Le => Some(Val::Bool(a <= b)),
        BinOp::Gt => Some(Val::Bool(a > b)),
        BinOp::Ge => Some(Val::Bool(a >= b)),
        _ => None,
    }
}

// ─────────── Apportionment (a fixed-size allotment) ───────────

/// A fresh allotment of `n` empty public slots.
pub fn empty_slots(n: usize) -> (r: Vec<Slot>)
    ensures
        r@.len() == n,
        forall|i: int| 0 <= i < n ==> #[trigger] r@[i] == (Slot { value: 0, covert: false }),
{
    let mut r: Vec<Slot> = Vec::new();
    let mut i: usize = 0;
    while i < n
        invariant
            i <= n,
            r@.len() == i,
            forall|j: int| 0 <= j < i ==> #[trigger] r@[j] == (Slot { value: 0, covert: false }),
        decreases n - i,
    {
        r.push(Slot { value: 0, covert: false });
        i = i + 1;
    }
    r
}

/// An allotment is balanced when no two shares differ by more than the tolerance.
pub open spec fn balanced_spec(slots: Seq<Slot>, tolerance: i64) -> bool {
    forall|i: int, j: int| 0 <= i < slots.len() && 0 <= j < slots.len() ==> #[trigger] slots[i].value - #[trigger] slots[j].value <= tolerance
}

/// Whether an allotment is uniform within the tolerance (an empty one trivially is).
pub fn is_balanced(slots: &Vec<Slot>, tolerance: i64) -> (r: bool)
    ensures
        r == balanced_spec(slots@, tolerance),
{
    if slots.len() == 0 {
        return true;
    }
    let mut lo: usize = 0;
    let mut hi: usize = 0;
    let mut i: usize = 1;
    while i < slots.len()
        invariant
            1 <= i <= slots@.len(),
            lo < i,
            hi < i,
            forall|j: int| 0 <= j < i ==> slots@[lo as int].value <= #[trigger] slots@[j].value,
            forall|j: int| 0 <= j < i ==> #[trigger] slots@[j].value <= slots@[hi as int].value,
        decreases slots.len() - i,
    {
        if slots[i].value < slots[lo].value {
            lo = i;
        }
        if slots[i].value > slots[hi].value {
            hi = i;
        }
        i = i + 1;
    }
    let spread: i128 = (slots[hi].value as i128) - (slots[lo].value as i128);
    let r = spread <= tolerance as i128;
    proof {
        if !r {
            assert(slots@[hi as int].value - slots@[lo as int].value > tolerance);
        }
    }
    r
}

// ─────────── FactsList (a grow-only ledger) ───────────

/// The public (live) length: entries neither delisted nor covert.
pub open spec fn public_count(entries: Seq<ListEntry>) -> nat
    decreases entries.len(),
{
    if entries.len() == 0 {
        0
    } else {
        public_count(entries.drop_last()) + if !entries.last().delisted && !entries.last().covert { 1nat } else { 0nat }
    }
}

/// Count the public (live) entries.
pub fn public_length(entries: &Vec<ListEntry>) -> (r: usize)
    ensures
        r as nat == public_count(entries@),
{
    let mut n: usize = 0;
    let mut i: usize = 0;
    while i < entries.len()
        invariant
            i <= entries.len(),
            n as nat == public_count(entries@.take(i as int)),
            n <= i,
        decreases entries.len() - i,
    {
        assert(entries@.take(i + 1).drop_last() =~= entries@.take(i as int));
        if !entries[i].delisted && !entries[i].covert {
            n = n + 1;
        }
        i = i + 1;
    }
    assert(entries@.take(entries.len() as int) =~= entries@);
    n
}

/// The first live entry showing `item`, if any.
pub open spec fn live_match(entries: Seq<ListEntry>, item: Seq<char>, k: int) -> bool {
    0 <= k < entries.len() && entries[k].item@ == item && !entries[k].delisted
}

/// `k` is the first live entry of a facts list showing `item`.
pub open spec fn first_live(es: Seq<ListEntry>, item: Seq<char>, k: int) -> bool {
    live_match(es, item, k) && forall|j: int| 0 <= j < k ==> !live_match(es, item, j)
}

/// `remove` delists, it never deletes: the first live entry showing `item` is flagged
/// delisted and stays in the store; nothing else changes; without one, nothing changes.
pub fn delist(entries: &mut Vec<ListEntry>, item: &str)
    ensures
        final(entries)@.len() == old(entries)@.len(),
        forall|k: int| 0 <= k < old(entries)@.len() ==> (#[trigger] final(entries)@[k]).item == old(entries)@[k].item
            && final(entries)@[k].covert == old(entries)@[k].covert
            && (old(entries)@[k].delisted ==> final(entries)@[k].delisted),
        (forall|k: int| !live_match(old(entries)@, item@, k)) ==> final(entries)@ == old(entries)@,
        forall|k: int| #![trigger live_match(old(entries)@, item@, k)]
            live_match(old(entries)@, item@, k) && (forall|j: int| 0 <= j < k ==> !live_match(old(entries)@, item@, j))
            ==> final(entries)@ == old(entries)@.update(k, ListEntry {
                item: old(entries)@[k].item,
                delisted: true,
                covert: old(entries)@[k].covert,
            }),
        forall|k: int| 0 <= k < old(entries)@.len() ==> (#[trigger] final(entries)@[k]).delisted
            == (old(entries)@[k].delisted || first_live(old(entries)@, item@, k)),
{
    let mut i: usize = 0;
    while i < entries.len()
        invariant
            i <= entries@.len(),
            entries@ == old(entries)@,
            forall|j: int| 0 <= j < i ==> !live_match(old(entries)@, item@, j),
        decreases entries.len() - i,
    {
        if !entries[i].delisted && str_eq(entries[i].item.as_str(), item) {
            let e = ListEntry { item: entries[i].item.clone(), delisted: true, covert: entries[i].covert };
            entries.set(i, e);
            proof {
                assert(live_match(old(entries)@, item@, i as int));
                assert forall|k: int| #![trigger live_match(old(entries)@, item@, k)]
                    live_match(old(entries)@, item@, k) && (forall|j: int| 0 <= j < k ==> !live_match(old(entries)@, item@, j))
                    implies k == i by {
                    if k > i {
                        assert(live_match(old(entries)@, item@, i as int));
                    }
                }
                assert forall|k: int| 0 <= k < old(entries)@.len() implies (#[trigger] entries@[k]).delisted
                    == (old(entries)@[k].delisted || first_live(old(entries)@, item@, k)) by {
                    if k < i {
                        assert(!live_match(old(entries)@, item@, k));
                    } else if k > i {
                        assert(live_match(old(entries)@, item@, i as int));
                    }
                }
            }
            return;
        }
        i = i + 1;
    }
}

// ─────────── Registry (one proclaimed rule, differential routing) ───────────

/// Where the case `case` sits in a registry, if it is there: its first entry.
pub open spec fn case_at(entries: Seq<RegEntry>, case: Seq<char>, k: int) -> bool {
    &&& 0 <= k < entries.len()
    &&& entries[k].key@ == case
    &&& forall|j: int| 0 <= j < k ==> entries[j].key@ != case
}

/// Whether a registry holds the case `case`.
pub open spec fn has_case(entries: Seq<RegEntry>, case: Seq<char>) -> bool {
    exists|k: int| 0 <= k < entries.len() && entries[k].key@ == case
}

fn find_case(entries: &Vec<RegEntry>, case: &str) -> (r: Option<usize>)
    ensures
        match r {
            Some(k) => case_at(entries@, case@, k as int),
            None => !has_case(entries@, case@),
        },
{
    let mut i: usize = 0;
    while i < entries.len()
        invariant
            i <= entries@.len(),
            forall|j: int| 0 <= j < i ==> entries@[j].key@ != case@,
        decreases entries.len() - i,
    {
        if str_eq(entries[i].key.as_str(), case) {
            return Some(i);
        }
        i = i + 1;
    }
    None
}

/// `classify` upserts: a case already present gets the new jurisdiction (and stays covert
/// once covert); a new case is appended. No case is ever removed.
pub fn classify_case(entries: &mut Vec<RegEntry>, case: &str, j: Jurisdiction, covert: bool, descriptor: Option<String>)
    ensures
        final(entries)@.len() >= old(entries)@.len(),
        forall|k: int| 0 <= k < old(entries)@.len() ==> (#[trigger] final(entries)@[k]).key == old(entries)@[k].key,
        forall|k: int| case_at(old(entries)@, case@, k) ==> final(entries)@ == old(entries)@.update(k, RegEntry {
            jurisdiction: j,
            covert: old(entries)@[k].covert || covert,
            ..old(entries)@[k]
        }),
        !has_case(old(entries)@, case@) ==> {
            &&& final(entries)@.len() == old(entries)@.len() + 1
            &&& final(entries)@.drop_last() == old(entries)@
            &&& final(entries)@.last().key@ == case@
            &&& final(entries)@.last().descriptor == descriptor
            &&& final(entries)@.last().jurisdiction == j
            &&& !final(entries)@.last().revoked
            &&& final(entries)@.last().covert == covert
        },
{
    match find_case(entries, case) {
        Some(k) => {
            let e = RegEntry {
                key: entries[k].key.clone(),
                descriptor: copy_opt(&entries[k].descriptor),
                jurisdiction: j,
                revoked: entries[k].revoked,
                covert: entries[k].covert || covert,
            };
            let ghost old_e = entries@[k as int];
            entries.set(k, e);
            proof {
                assert forall|m: int| case_at(old(entries)@, case@, m) implies m == k by {
                    if m < k {
                        assert(old(entries)@[m].key@ != case@);
                    } else if m > k {
                        assert(old(entries)@[k as int].key@ != case@);
                    }
                }
            }
        },
        None => {
            entries.push(RegEntry { key: owned(case), descriptor, jurisdiction: j, revoked: false, covert });
            assert(entries@.drop_last() =~= old(entries)@);
        },
    }
}

/// `revoke` retains, it never erases: the case's first entry is flagged revoked and
/// stays in the store; without the case, nothing changes.
pub fn revoke_case(entries: &mut Vec<RegEntry>, case: &str)
    ensures
        final(entries)@.len() == old(entries)@.len(),
        forall|k: int| 0 <= k < old(entries)@.len() ==> (#[trigger] final(entries)@[k]).key == old(entries)@[k].key
            && (old(entries)@[k].revoked ==> final(entries)@[k].revoked),
        !has_case(old(entries)@, case@) ==> final(entries)@ == old(entries)@,
        forall|k: int| case_at(old(entries)@, case@, k) ==> final(entries)@ == old(entries)@.update(k, RegEntry {
            revoked: true,
            ..old(entries)@[k]
        }),
        forall|k: int| 0 <= k < old(entries)@.len() ==> same_case(
            #[trigger] final(entries)@[k],
            RegEntry { revoked: old(entries)@[k].revoked || case_at(old(entries)@, case@, k), ..old(entries)@[k] },
        ),
{
    match find_case(entries, case) {
        Some(k) => {
            let e = RegEntry {
                key: entries[k].key.clone(),
                descriptor: copy_opt(&entries[k].descriptor),
                jurisdiction: entries[k].jurisdiction,
                revoked: true,
                covert: entries[k].covert,
            };
            entries.set(k, e);
            proof {
                assert forall|m: int| case_at(old(entries)@, case@, m) implies m == k by {
                    if m < k {
                        assert(old(entries)@[m].key@ != case@);
                    } else if m > k {
                        assert(old(entries)@[k as int].key@ != case@);
                    }
                }
            }
        },
        None => {
            assert forall|m: int| !case_at(old(entries)@, case@, m) by {
                if 0 <= m < old(entries)@.len() {
                    assert(old(entries)@[m].key@ != case@);
                }
            }
        },
    }
}

/// Where a case is routed: the jurisdiction of its first entry.
pub fn route_of(entries: &Vec<RegEntry>, case: &str) -> (r: Option<Jurisdiction>)
    ensures
        match r {
            Some(j) => exists|k: int| case_at(entries@, case@, k) && entries@[k].jurisdiction == j,
            None => !has_case(entries@, case@),
        },
{
    match find_case(entries, case) {
        Some(k) => Some(entries[k].jurisdiction),
        None => None,
    }
}

/// Equal before the law: all non-revoked cases go to one court system.
pub open spec fn routes_equally_spec(entries: Seq<RegEntry>) -> bool {
    forall|i: int, j: int| 0 <= i < entries.len() && 0 <= j < entries.len() && !entries[i].revoked && !entries[j].revoked
        ==> #[trigger] entries[i].jurisdiction == #[trigger] entries[j].jurisdiction
}

/// Whether all non-revoked cases go to one court system.
pub fn routes_equally(entries: &Vec<RegEntry>) -> (r: bool)
    ensures
        r == routes_equally_spec(entries@),
{
    let mut first: Option<usize> = None;
    let mut i: usize = 0;
    while i < entries.len()
        invariant
            i <= entries@.len(),
            match first {
                Some(f) => f < i && !entries@[f as int].revoked && forall|j: int| 0 <= j < i && !entries@[j].revoked
                    ==> #[trigger] entries@[j].jurisdiction == entries@[f as int].jurisdiction,
                None => forall|j: int| 0 <= j < i ==> #[trigger] entries@[j].revoked,
            },
        decreases entries.len() - i,
    {
        if !entries[i].revoked {
            match first {
                Some(f) => {
                    let same = match (entries[i].jurisdiction, entries[f].jurisdiction) {
                        (Jurisdiction::Military, Jurisdiction::Military) => true,
                        (Jurisdiction::Civilian, Jurisdiction::Civilian) => true,
                        _ => false,
                    };
                    if !same {
                        assert(!routes_equally_spec(entries@)) by {
                            assert(entries@[i as int].jurisdiction != entries@[f as int].jurisdiction);
                        }
                        return false;
                    }
                },
                None => {
                    first = Some(i);
                },
            }
        }
        i = i + 1;
    }
    true
}

} // verus!
