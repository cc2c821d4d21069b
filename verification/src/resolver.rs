//! The dependency resolver: from the names that were asked for to the list
//! of items to install, each once, an item's needs before the item.
//!
//! The resolver works on the descriptors that are known so far. Where a
//! name is needed that is not among them, it says which; the caller fetches
//! that descriptor, adds it and asks again, so that no name is fetched
//! twice.

use crate::schemas::registry_item::{items_view, RegistryItem, RegistryItemView};
use crate::text::{same_text, texts};
use vstd::prelude::*;

verus! {

/// Why a descriptor could not be had from the registry.
#[derive(Debug, Clone, PartialEq)]
pub enum RegistryError {
    /// The request did not reach the registry or was not answered; the
    /// text says what the transport reported.
    NetworkFailure(String),
    /// The registry holds no item of this name.
    RegistryItemNotFound(String),
    /// The registry's answer for this name is no descriptor.
    RegistryItemMalformed(String),
}

/// The place of the item called `name` among `items`: the first item of
/// that name.
pub open spec fn index_of(items: Seq<RegistryItemView>, name: Seq<char>) -> Option<int>
    decreases items.len(),
{
    if items.len() == 0 {
        None
    } else {
        match index_of(items.drop_last(), name) {
            Some(i) => Some(i),
            None => if items.last().name == name {
                Some(items.len() - 1)
            } else {
                None
            },
        }
    }
}

/// What `index_of` finds: an item of that name before which no item has
/// the name; `None` exactly when no item has it.
pub proof fn lemma_index_of(items: Seq<RegistryItemView>, name: Seq<char>)
    ensures
        match index_of(items, name) {
            Some(i) => 0 <= i < items.len() && items[i].name == name && forall|j: int|
                0 <= j < i ==> items[j].name != name,
            None => forall|j: int| 0 <= j < items.len() ==> items[j].name != name,
        },
    decreases items.len(),
{
    if items.len() > 0 {
        let front = items.drop_last();
        lemma_index_of(front, name);
        assert forall|j: int| 0 <= j < front.len() implies front[j] == items[j] by {}
    }
}

/// The first item of a name is that name's place.
pub proof fn lemma_index_of_is(items: Seq<RegistryItemView>, name: Seq<char>, i: int)
    requires
        0 <= i < items.len(),
        items[i].name == name,
        forall|j: int| 0 <= j < i ==> items[j].name != name,
    ensures
        index_of(items, name) == Some(i),
{
    lemma_index_of(items, name);
}

/// How far a walk has come: which items it has reached, by index, and the
/// items it has placed, in order.
pub struct Walk {
    pub seen: Seq<bool>,
    pub order: Seq<int>,
}

/// The walk that has reached nothing among `n` items.
pub open spec fn fresh(n: nat) -> Walk {
    Walk { seen: Seq::new(n, |i: int| false), order: Seq::empty() }
}

/// Visits the item called `name`: nothing to do where it was reached
/// before; else its needs are visited, in the order in which the descriptor
/// lists them, and then the item is placed. `Err` names a needed item that
/// `items` lacks: the first one that the walk comes to. `fuel` bounds the
/// depth; with as much fuel as there are items not yet reached it never
/// runs out.
pub open spec fn visit(items: Seq<RegistryItemView>, name: Seq<char>, w: Walk, fuel: nat) -> Result<
    Walk,
    Seq<char>,
>
    decreases fuel, 0nat,
{
    match index_of(items, name) {
        None => Err(name),
        Some(i) => if w.seen[i] || fuel == 0 {
            Ok(w)
        } else {
            match visit_each(
                items,
                items[i].needs(),
                Walk { seen: w.seen.update(i, true), order: w.order },
                (fuel - 1) as nat,
            ) {
                Err(missing) => Err(missing),
                Ok(after) => Ok(Walk { seen: after.seen, order: after.order.push(i) }),
            }
        },
    }
}

/// Visits each of `names` in turn, stopping at the first that fails.
pub open spec fn visit_each(
    items: Seq<RegistryItemView>,
    names: Seq<Seq<char>>,
    w: Walk,
    fuel: nat,
) -> Result<Walk, Seq<char>>
    decreases fuel, names.len() + 1,
{
    if names.len() == 0 {
        Ok(w)
    } else {
        match visit(items, names[0], w, fuel) {
            Err(missing) => Err(missing),
            Ok(after) => visit_each(items, names.drop_first(), after, fuel),
        }
    }
}

/// The install order for `roots` among `items`, as indices into `items`;
/// or the name of a needed item that `items` lacks.
pub open spec fn resolution(items: Seq<RegistryItemView>, roots: Seq<Seq<char>>) -> Result<
    Seq<int>,
    Seq<char>,
> {
    match visit_each(items, roots, fresh(items.len()), items.len()) {
        Ok(after) => Ok(after.order),
        Err(missing) => Err(missing),
    }
}

/// The items at the indices `order`, in that order.
pub open spec fn picked(items: Seq<RegistryItemView>, order: Seq<int>) -> Seq<RegistryItemView> {
    Seq::new(order.len(), |k: int| items[order[k]])
}

/// How many items a walk has not reached.
pub open spec fn unseen(seen: Seq<bool>) -> nat
    decreases seen.len(),
{
    if seen.len() == 0 {
        0
    } else {
        unseen(seen.drop_last()) + if seen.last() {
            0nat
        } else {
            1nat
        }
    }
}

/// There are no more items not reached than there are items.
proof fn lemma_unseen_bound(seen: Seq<bool>)
    ensures
        unseen(seen) <= seen.len(),
    decreases seen.len(),
{
    if seen.len() > 0 {
        lemma_unseen_bound(seen.drop_last());
    }
}

/// Reaching an item that was not reached leaves one item less to reach.
proof fn lemma_unseen_mark(seen: Seq<bool>, i: int)
    requires
        0 <= i < seen.len(),
        !seen[i],
    ensures
        unseen(seen.update(i, true)) + 1 == unseen(seen),
    decreases seen.len(),
{
    let marked = seen.update(i, true);
    if i == seen.len() - 1 {
        assert(marked.drop_last() =~= seen.drop_last());
    } else {
        lemma_unseen_mark(seen.drop_last(), i);
        assert(marked.drop_last() =~= seen.drop_last().update(i, true));
    }
}

/// The indices of a list, as integers.
pub open spec fn indices(order: Seq<usize>) -> Seq<int> {
    Seq::new(order.len(), |k: int| order[k] as int)
}

/// The index of the first item called `name`.
pub fn find_item(items: &Vec<RegistryItem>, name: &str) -> (r: Option<usize>)
    ensures
        match r {
            Some(i) => index_of(items_view(items@), name@) == Some(i as int),
            None => index_of(items_view(items@), name@) is None,
        },
{
    let ghost model = items_view(items@);
    let mut i: usize = 0;
    while i < items.len()
        invariant
            i <= items.len(),
            model == items_view(items@),
            forall|j: int| 0 <= j < i ==> model[j].name != name@,
        decreases items.len() - i,
    {
        if same_text(items[i].name.as_str(), name) {
            proof {
                lemma_index_of_is(model, name@, i as int);
            }
            return Some(i);
        }
        i = i + 1;
    }
    proof {
        lemma_index_of(model, name@);
    }
    None
}

/// Visits one item, as `visit` says, on the walk held in `seen` and
/// `order`.
fn visit_item(
    items: &Vec<RegistryItem>,
    name: &str,
    seen: &mut Vec<bool>,
    order: &mut Vec<usize>,
    fuel: usize,
) -> (r: Result<(), String>)
    requires
        old(seen)@.len() == items@.len(),
        unseen(old(seen)@) <= fuel,
    ensures
        match visit(
            items_view(items@),
            name@,
            Walk { seen: old(seen)@, order: indices(old(order)@) },
            fuel as nat,
        ) {
            Ok(after) => r is Ok && final(seen)@ == after.seen && indices(final(order)@)
                == after.order,
            Err(missing) => r is Err && r->Err_0@ == missing,
        },
        r is Ok ==> final(seen)@.len() == items@.len() && unseen(final(seen)@) <= unseen(
            old(seen)@,
        ),
    decreases fuel, 0nat,
{
    proof {
        lemma_index_of(items_view(items@), name@);
    }
    match find_item(items, name) {
        None => Err(name.to_owned()),
        Some(i) => {
            if seen[i] {
                return Ok(());
            }
            proof {
                lemma_unseen_mark(seen@, i as int);
            }
            seen.set(i, true);
            let none: Vec<String> = Vec::new();
            let names: &Vec<String> = match &items[i].registry_dependencies {
                Some(names) => names,
                None => &none,
            };
            assert(texts(names@) =~= items_view(items@)[i as int].needs());
            let visited = visit_names(items, names, seen, order, fuel - 1);
            match visited {
                Err(missing) => Err(missing),
                Ok(()) => {
                    let ghost before = indices(order@);
                    order.push(i);
                    assert(indices(order@) =~= before.push(i as int));
                    Ok(())
                },
            }
        },
    }
}

/// Visits a run of items, as `visit_each` says, on the walk held in `seen`
/// and `order`.
fn visit_names(
    items: &Vec<RegistryItem>,
    names: &Vec<String>,
    seen: &mut Vec<bool>,
    order: &mut Vec<usize>,
    fuel: usize,
) -> (r: Result<(), String>)
    requires
        old(seen)@.len() == items@.len(),
        unseen(old(seen)@) <= fuel,
    ensures
        match visit_each(
            items_view(items@),
            texts(names@),
            Walk { seen: old(seen)@, order: indices(old(order)@) },
            fuel as nat,
        ) {
            Ok(after) => r is Ok && final(seen)@ == after.seen && indices(final(order)@)
                == after.order,
            Err(missing) => r is Err && r->Err_0@ == missing,
        },
        r is Ok ==> final(seen)@.len() == items@.len() && unseen(final(seen)@) <= unseen(
            old(seen)@,
        ),
    decreases fuel, 1nat,
{
    let ghost model = items_view(items@);
    let ghost all = texts(names@);
    let ghost start = Walk { seen: seen@, order: indices(order@) };
    let mut k: usize = 0;
    assert(all.skip(0) =~= all);
    while k < names.len()
        invariant
            k <= names.len(),
            model == items_view(items@),
            all == texts(names@),
            start == (Walk { seen: old(seen)@, order: indices(old(order)@) }),
            seen@.len() == items@.len(),
            unseen(seen@) <= unseen(old(seen)@),
            unseen(old(seen)@) <= fuel,
            visit_each(model, all, start, fuel as nat) == visit_each(
                model,
                all.skip(k as int),
                Walk { seen: seen@, order: indices(order@) },
                fuel as nat,
            ),
        decreases names.len() - k,
    {
        let ghost here = Walk { seen: seen@, order: indices(order@) };
        proof {
            let rest = all.skip(k as int);
            assert(rest.len() > 0);
            assert(rest[0] == names@[k as int]@);
            assert(rest.drop_first() =~= all.skip(k + 1));
            assert(visit_each(model, rest, here, fuel as nat) == match visit(
                model,
                rest[0],
                here,
                fuel as nat,
            ) {
                Err(missing) => Err(missing),
                Ok(after) => visit_each(model, all.skip(k + 1), after, fuel as nat),
            });
        }
        match visit_item(items, names[k].as_str(), seen, order, fuel) {
            Err(missing) => {
                return Err(missing);
            },
            Ok(()) => {},
        }
        k = k + 1;
    }
    proof {
        assert(all.skip(k as int).len() == 0);
    }
    Ok(())
}

/// Resolves `roots` among the descriptors `known`: the items to install,
/// each once, the needs of an item before the item, in the order in which
/// a depth-first walk from the roots leaves them. Where a needed name is
/// not among `known`, nothing is returned but that name.
pub fn resolve(known: &Vec<RegistryItem>, roots: &Vec<String>) -> (r: Result<
    Vec<RegistryItem>,
    RegistryError,
>)
    ensures
        match resolution(items_view(known@), texts(roots@)) {
            Ok(order) => r is Ok && items_view(r->Ok_0@) == picked(items_view(known@), order),
            Err(missing) => r matches Err(RegistryError::RegistryItemNotFound(name)) && name@
                == missing,
        },
{
    let ghost model = items_view(known@);
    let n: usize = known.len();
    let mut seen: Vec<bool> = Vec::new();
    while seen.len() < n
        invariant
            seen@.len() <= n,
            forall|j: int| 0 <= j < seen@.len() ==> !seen@[j],
        decreases n - seen@.len(),
    {
        seen.push(false);
    }
    let mut order: Vec<usize> = Vec::new();
    proof {
        assert(seen@ =~= fresh(n as nat).seen);
        assert(indices(order@) =~= fresh(n as nat).order);
        lemma_unseen_bound(seen@);
        lemma_visit_each(model, texts(roots@), fresh(n as nat), n as nat, Set::full());
    }
    match visit_names(known, roots, &mut seen, &mut order, n) {
        Err(missing) => Err(RegistryError::RegistryItemNotFound(missing)),
        Ok(()) => {
            let mut out: Vec<RegistryItem> = Vec::new();
            let mut p: usize = 0;
            while p < order.len()
                invariant
                    p <= order.len(),
                    out@.len() == p,
                    model == items_view(known@),
                    forall|q: int| 0 <= q < order@.len() ==> 0 <= #[trigger] indices(order@)[q] < known@.len(),
                    forall|q: int| 0 <= q < p ==> out@[q]@ == model[indices(order@)[q]],
                decreases order.len() - p,
            {
                assert(0 <= indices(order@)[p as int] < known@.len());
                out.push(known[order[p]].duplicate());
                p = p + 1;
            }
            assert(items_view(out@) =~= picked(model, indices(order@)));
            Ok(out)
        },
    }
}

/// A walk is sound when what it placed are items, each placed once, and
/// each of them reached.
pub open spec fn sound(items: Seq<RegistryItemView>, w: Walk) -> bool {
    &&& w.seen.len() == items.len()
    &&& forall|p: int|
        0 <= p < w.order.len() ==> 0 <= #[trigger] w.order[p] < items.len() && w.seen[w.order[p]]
    &&& forall|p: int, q: int| 0 <= p < q < w.order.len() ==> w.order[p] != w.order[q]
}

/// An item is pending when the walk has reached it and not yet placed it.
pub open spec fn pending(w: Walk, i: int) -> bool {
    0 <= i < w.seen.len() && w.seen[i] && !w.order.contains(i)
}

/// `b` continues `a`: it keeps what `a` reached and placed, and leaves
/// pending exactly what was pending.
pub open spec fn grows(a: Walk, b: Walk) -> bool {
    &&& a.seen.len() == b.seen.len()
    &&& a.order.len() <= b.order.len()
    &&& forall|p: int| 0 <= p < a.order.len() ==> #[trigger] b.order[p] == a.order[p]
    &&& forall|i: int| 0 <= i < a.seen.len() && a.seen[i] ==> #[trigger] b.seen[i]
    &&& forall|i: int| #[trigger] pending(b, i) <==> pending(a, i)
    &&& unseen(b.seen) <= unseen(a.seen)
}

/// The item called `name` exists and the walk has reached it.
pub open spec fn reached(items: Seq<RegistryItemView>, w: Walk, name: Seq<char>) -> bool {
    match index_of(items, name) {
        Some(i) => w.seen[i],
        None => false,
    }
}

/// Every need of the item placed at `p` was reached.
pub open spec fn needs_reached(items: Seq<RegistryItemView>, w: Walk, p: int) -> bool {
    forall|t: int|
        0 <= t < items[w.order[p]].needs().len() ==> reached(
            items,
            w,
            #[trigger] items[w.order[p]].needs()[t],
        )
}

/// The set `s` holds the item of each of `names` that exists.
pub open spec fn holds(items: Seq<RegistryItemView>, s: Set<int>, names: Seq<Seq<char>>) -> bool {
    forall|t: int|
        0 <= t < names.len() ==> match index_of(items, #[trigger] names[t]) {
            Some(k) => s.contains(k),
            None => true,
        }
}

/// The set `s` holds, with each item, the items that it needs.
pub open spec fn closed(items: Seq<RegistryItemView>, s: Set<int>) -> bool {
    forall|j: int| 0 <= j < items.len() && s.contains(j) ==> holds(items, s, #[trigger] items[j].needs())
}

/// An item is reachable from `roots` when it lies in every set that holds
/// the roots and, with each item, its needs.
pub open spec fn reachable(items: Seq<RegistryItemView>, roots: Seq<Seq<char>>, j: int) -> bool {
    forall|s: Set<int>| closed(items, s) && holds(items, s, roots) ==> #[trigger] s.contains(j)
}

/// Every need of the item placed at `p` is placed before `p`.
pub open spec fn needs_placed(items: Seq<RegistryItemView>, order: Seq<int>, p: int) -> bool {
    forall|t: int|
        0 <= t < items[order[p]].needs().len() ==> placed_before(
            items,
            order,
            #[trigger] items[order[p]].needs()[t],
            p,
        )
}

/// The item called `name` exists and is placed before `p`.
pub open spec fn placed_before(
    items: Seq<RegistryItemView>,
    order: Seq<int>,
    name: Seq<char>,
    p: int,
) -> bool {
    match index_of(items, name) {
        Some(k) => order.subrange(0, p).contains(k),
        None => false,
    }
}

/// `rank` falls along every need: an item ranks above each item it needs.
pub open spec fn ranked(items: Seq<RegistryItemView>, rank: spec_fn(int) -> nat) -> bool {
    forall|j: int, t: int|
        0 <= j < items.len() && 0 <= t < items[j].needs().len() ==> match index_of(
            items,
            #[trigger] items[j].needs()[t],
        ) {
            Some(k) => rank(k) < rank(j),
            None => true,
        }
}

/// No item needs itself, directly or through others: there is a rank that
/// falls along every need.
pub open spec fn acyclic(items: Seq<RegistryItemView>) -> bool {
    exists|rank: spec_fn(int) -> nat| ranked(items, rank)
}

/// The walk after it has reached the item `i`.
spec fn marked(w: Walk, i: int) -> Walk {
    Walk { seen: w.seen.update(i, true), order: w.order }
}

/// The walk after it has placed the item `i`.
spec fn placed(w: Walk, i: int) -> Walk {
    Walk { seen: w.seen, order: w.order.push(i) }
}

/// Reaching an item that was not reached keeps a walk sound and makes the
/// item pending.
proof fn lemma_mark(items: Seq<RegistryItemView>, w: Walk, i: int)
    requires
        sound(items, w),
        0 <= i < items.len(),
        !w.seen[i],
    ensures
        sound(items, marked(w, i)),
        !w.order.contains(i),
        pending(marked(w, i), i),
        forall|g: int| #[trigger] pending(marked(w, i), g) <==> (g == i || pending(w, g)),
        unseen(marked(w, i).seen) + 1 == unseen(w.seen),
{
    lemma_unseen_mark(w.seen, i);
    if w.order.contains(i) {
        let p = choose|p: int| 0 <= p < w.order.len() && w.order[p] == i;
        assert(w.seen[w.order[p]]);
    }
}

/// Placing a pending item keeps a walk sound and ends its being pending.
proof fn lemma_place(items: Seq<RegistryItemView>, w: Walk, i: int)
    requires
        sound(items, w),
        pending(w, i),
    ensures
        sound(items, placed(w, i)),
        !pending(placed(w, i), i),
        forall|g: int| #[trigger] pending(placed(w, i), g) <==> (g != i && pending(w, g)),
{
    let f = placed(w, i);
    assert forall|p: int, q: int| 0 <= p < q < f.order.len() implies f.order[p] != f.order[q] by {
        if q == w.order.len() {
            assert(w.order[p] == f.order[p]);
            assert(w.order.contains(w.order[p]));
        } else {
            assert(w.order[p] == f.order[p] && w.order[q] == f.order[q]);
        }
    }
    assert(f.order[w.order.len() as int] == i);
    assert forall|g: int| #[trigger] pending(f, g) <==> (g != i && pending(w, g)) by {
        if g != i && pending(w, g) {
            if f.order.contains(g) {
                let p = choose|p: int| 0 <= p < f.order.len() && f.order[p] == g;
                assert(w.order[p] == g);
            }
        }
        if pending(f, g) {
            if w.order.contains(g) {
                let p = choose|p: int| 0 <= p < w.order.len() && w.order[p] == g;
                assert(f.order[p] == g);
            }
        }
    }
}

/// What one visit does to a sound walk.
proof fn lemma_visit(
    items: Seq<RegistryItemView>,
    name: Seq<char>,
    w: Walk,
    fuel: nat,
    s: Set<int>,
)
    requires
        sound(items, w),
        unseen(w.seen) <= fuel,
    ensures
        match visit(items, name, w, fuel) {
            Ok(after) => {
                &&& sound(items, after)
                &&& grows(w, after)
                &&& reached(items, after, name)
                &&& forall|p: int|
                    w.order.len() <= p < after.order.len() ==> #[trigger] needs_reached(
                        items,
                        after,
                        p,
                    )
                &&& closed(items, s) && holds(items, s, seq![name]) ==> forall|p: int|
                    w.order.len() <= p < after.order.len() ==> s.contains(#[trigger] after.order[p])
            },
            Err(missing) => index_of(items, missing) is None,
        },
    decreases fuel, 0nat,
{
    lemma_index_of(items, name);
    match index_of(items, name) {
        None => {},
        Some(i) => {
            if w.seen[i] {
            } else {
                lemma_mark(items, w, i);
                let w1 = marked(w, i);
                let needs = items[i].needs();
                lemma_visit_each(items, needs, w1, (fuel - 1) as nat, s);
                match visit_each(items, needs, w1, (fuel - 1) as nat) {
                    Err(missing) => {},
                    Ok(mid) => {
                        let after = placed(mid, i);
                        assert(pending(mid, i));
                        lemma_place(items, mid, i);
                        assert forall|g: int| #[trigger] pending(after, g) <==> pending(w, g) by {
                            assert(pending(mid, g) <==> pending(w1, g));
                        }
                        assert forall|p: int|
                            w.order.len() <= p < after.order.len() implies #[trigger] needs_reached(
                            items,
                            after,
                            p,
                        ) by {
                            if p < mid.order.len() {
                                assert(needs_reached(items, mid, p));
                                assert(after.order[p] == mid.order[p]);
                            } else {
                                assert(after.order[p] == i);
                                assert forall|t: int| 0 <= t < needs.len() implies reached(
                                    items,
                                    after,
                                    #[trigger] needs[t],
                                ) by {
                                    assert(reached(items, mid, needs[t]));
                                }
                            }
                        }
                        if closed(items, s) && holds(items, s, seq![name]) {
                            assert(seq![name][0] == name);
                            assert(s.contains(i));
                            assert(holds(items, s, items[i].needs()));
                            assert forall|p: int|
                                w.order.len() <= p < after.order.len() implies s.contains(
                                #[trigger] after.order[p],
                            ) by {
                                if p < mid.order.len() {
                                    assert(after.order[p] == mid.order[p]);
                                }
                            }
                        }
                        assert(grows(w, after)) by {
                            assert forall|p: int| 0 <= p < w.order.len() implies #[trigger] after.order[p]
                                == w.order[p] by {
                                assert(mid.order[p] == w1.order[p]);
                            }
                            assert forall|x: int| 0 <= x < w.seen.len() && w.seen[x] implies #[trigger] after.seen[x] by {
                                assert(w1.seen[x]);
                                assert(mid.seen[x]);
                            }
                        }
                        assert(mid.seen[i]);
                    },
                }
            }
        },
    }
}

/// What a run of visits does to a sound walk.
proof fn lemma_visit_each(
    items: Seq<RegistryItemView>,
    names: Seq<Seq<char>>,
    w: Walk,
    fuel: nat,
    s: Set<int>,
)
    requires
        sound(items, w),
        unseen(w.seen) <= fuel,
    ensures
        match visit_each(items, names, w, fuel) {
            Ok(after) => {
                &&& sound(items, after)
                &&& grows(w, after)
                &&& forall|t: int| 0 <= t < names.len() ==> reached(items, after, #[trigger] names[t])
                &&& forall|p: int|
                    w.order.len() <= p < after.order.len() ==> #[trigger] needs_reached(
                        items,
                        after,
                        p,
                    )
                &&& closed(items, s) && holds(items, s, names) ==> forall|p: int|
                    w.order.len() <= p < after.order.len() ==> s.contains(#[trigger] after.order[p])
            },
            Err(missing) => index_of(items, missing) is None,
        },
    decreases fuel, names.len() + 1,
{
    if names.len() == 0 {
    } else {
        let rest = names.drop_first();
        lemma_visit(items, names[0], w, fuel, s);
        match visit(items, names[0], w, fuel) {
            Err(missing) => {},
            Ok(mid) => {
                lemma_visit_each(items, rest, mid, fuel, s);
                match visit_each(items, rest, mid, fuel) {
                    Err(missing) => {},
                    Ok(after) => {
                        assert forall|t: int| 0 <= t < names.len() implies reached(
                            items,
                            after,
                            #[trigger] names[t],
                        ) by {
                            if t == 0 {
                                assert(reached(items, mid, names[0]));
                                lemma_index_of(items, names[0]);
                                assert(after.seen[index_of(items, names[0])->0]);
                            } else {
                                assert(names[t] == rest[t - 1]);
                            }
                        }
                        assert forall|p: int|
                            w.order.len() <= p < after.order.len() implies #[trigger] needs_reached(
                            items,
                            after,
                            p,
                        ) by {
                            if p < mid.order.len() {
                                assert(needs_reached(items, mid, p));
                                assert(after.order[p] == mid.order[p]);
                                let needs = items[mid.order[p]].needs();
                                assert forall|t: int| 0 <= t < needs.len() implies reached(
                                    items,
                                    after,
                                    #[trigger] needs[t],
                                ) by {
                                    assert(reached(items, mid, needs[t]));
                                    lemma_index_of(items, needs[t]);
                                    assert(after.seen[index_of(items, needs[t])->0]);
                                }
                            }
                        }
                        if closed(items, s) && holds(items, s, names) {
                            assert(holds(items, s, seq![names[0]])) by {
                                assert forall|t: int| 0 <= t < 1 implies match index_of(
                                    items,
                                    #[trigger] seq![names[0]][t],
                                ) {
                                    Some(k) => s.contains(k),
                                    None => true,
                                } by {
                                    assert(seq![names[0]][t] == names[0]);
                                }
                            }
                            assert(holds(items, s, rest)) by {
                                assert forall|t: int| 0 <= t < rest.len() implies match index_of(
                                    items,
                                    #[trigger] rest[t],
                                ) {
                                    Some(k) => s.contains(k),
                                    None => true,
                                } by {
                                    assert(rest[t] == names[t + 1]);
                                }
                            }
                            assert forall|p: int|
                                w.order.len() <= p < after.order.len() implies s.contains(
                                #[trigger] after.order[p],
                            ) by {
                                if p < mid.order.len() {
                                    assert(after.order[p] == mid.order[p]);
                                }
                            }
                        }
                        assert(grows(w, after)) by {
                            assert forall|p: int| 0 <= p < w.order.len() implies #[trigger] after.order[p]
                                == w.order[p] by {
                                assert(mid.order[p] == w.order[p]);
                            }
                            assert forall|x: int| 0 <= x < w.seen.len() && w.seen[x] implies #[trigger] after.seen[x] by {
                                assert(mid.seen[x]);
                            }
                            assert forall|x: int| #[trigger] pending(after, x) <==> pending(w, x) by {
                                assert(pending(mid, x) <==> pending(w, x));
                            }
                        }
                    },
                }
            },
        }
    }
}

/// Every pending item ranks above the item called `name`.
spec fn below(items: Seq<RegistryItemView>, w: Walk, rank: spec_fn(int) -> nat, name: Seq<char>) -> bool {
    match index_of(items, name) {
        Some(i) => forall|g: int| #[trigger] pending(w, g) ==> rank(g) > rank(i),
        None => true,
    }
}

/// What is placed before a place stays placed before it when the order
/// grows.
proof fn lemma_placed_before_grows(
    items: Seq<RegistryItemView>,
    a: Seq<int>,
    b: Seq<int>,
    p: int,
)
    requires
        0 <= p < a.len() <= b.len(),
        forall|q: int| 0 <= q < a.len() ==> #[trigger] b[q] == a[q],
        needs_placed(items, a, p),
    ensures
        needs_placed(items, b, p),
{
    assert(a.subrange(0, p) =~= b.subrange(0, p));
    assert(b[p] == a[p]);
    assert forall|t: int| 0 <= t < items[b[p]].needs().len() implies placed_before(
        items,
        b,
        #[trigger] items[b[p]].needs()[t],
        p,
    ) by {
        assert(placed_before(items, a, items[a[p]].needs()[t], p));
    }
}

/// Where a rank falls along every need, one visit places the needs of each
/// item that it places before that item.
proof fn lemma_visit_ranked(
    items: Seq<RegistryItemView>,
    name: Seq<char>,
    w: Walk,
    fuel: nat,
    rank: spec_fn(int) -> nat,
)
    requires
        sound(items, w),
        unseen(w.seen) <= fuel,
        ranked(items, rank),
        below(items, w, rank, name),
    ensures
        match visit(items, name, w, fuel) {
            Ok(after) => forall|p: int|
                w.order.len() <= p < after.order.len() ==> #[trigger] needs_placed(
                    items,
                    after.order,
                    p,
                ),
            Err(missing) => true,
        },
    decreases fuel, 0nat,
{
    lemma_index_of(items, name);
    match index_of(items, name) {
        None => {},
        Some(i) => {
            if w.seen[i] {
            } else {
                lemma_mark(items, w, i);
                let w1 = marked(w, i);
                let needs = items[i].needs();
                assert forall|t: int| 0 <= t < needs.len() implies below(
                    items,
                    w1,
                    rank,
                    #[trigger] needs[t],
                ) by {
                    match index_of(items, needs[t]) {
                        None => {},
                        Some(k) => {
                            assert(rank(k) < rank(i));
                            assert forall|g: int| #[trigger] pending(w1, g) implies rank(g) > rank(
                                k,
                            ) by {
                                if g != i {
                                    assert(pending(w, g));
                                }
                            }
                        },
                    }
                }
                lemma_visit_each(items, needs, w1, (fuel - 1) as nat, Set::full());
                lemma_visit_each_ranked(items, needs, w1, (fuel - 1) as nat, rank);
                match visit_each(items, needs, w1, (fuel - 1) as nat) {
                    Err(missing) => {},
                    Ok(mid) => {
                        let after = placed(mid, i);
                        let here = mid.order.len() as int;
                        assert forall|p: int|
                            w.order.len() <= p < after.order.len() implies #[trigger] needs_placed(
                            items,
                            after.order,
                            p,
                        ) by {
                            if p < here {
                                assert(needs_placed(items, mid.order, p));
                                lemma_placed_before_grows(items, mid.order, after.order, p);
                            } else {
                                assert(after.order[p] == i);
                                assert(after.order.subrange(0, p) =~= mid.order);
                                assert forall|t: int| 0 <= t < needs.len() implies placed_before(
                                    items,
                                    after.order,
                                    #[trigger] needs[t],
                                    p,
                                ) by {
                                    assert(reached(items, mid, needs[t]));
                                    let k = index_of(items, needs[t])->0;
                                    lemma_index_of(items, needs[t]);
                                    assert(rank(k) < rank(i));
                                    if !mid.order.contains(k) {
                                        assert(pending(mid, k));
                                        assert(pending(w1, k));
                                        if k != i {
                                            assert(pending(w, k));
                                        }
                                    }
                                }
                            }
                        }
                    },
                }
            }
        },
    }
}

/// Where a rank falls along every need, a run of visits places the needs
/// of each item that it places before that item.
proof fn lemma_visit_each_ranked(
    items: Seq<RegistryItemView>,
    names: Seq<Seq<char>>,
    w: Walk,
    fuel: nat,
    rank: spec_fn(int) -> nat,
)
    requires
        sound(items, w),
        unseen(w.seen) <= fuel,
        ranked(items, rank),
        forall|t: int| 0 <= t < names.len() ==> below(items, w, rank, #[trigger] names[t]),
    ensures
        match visit_each(items, names, w, fuel) {
            Ok(after) => forall|p: int|
                w.order.len() <= p < after.order.len() ==> #[trigger] needs_placed(
                    items,
                    after.order,
                    p,
                ),
            Err(missing) => true,
        },
    decreases fuel, names.len() + 1,
{
    if names.len() == 0 {
    } else {
        let rest = names.drop_first();
        assert(below(items, w, rank, names[0]));
        lemma_visit(items, names[0], w, fuel, Set::full());
        lemma_visit_ranked(items, names[0], w, fuel, rank);
        match visit(items, names[0], w, fuel) {
            Err(missing) => {},
            Ok(mid) => {
                assert forall|t: int| 0 <= t < rest.len() implies below(
                    items,
                    mid,
                    rank,
                    #[trigger] rest[t],
                ) by {
                    assert(rest[t] == names[t + 1]);
                    assert(below(items, w, rank, names[t + 1]));
                    match index_of(items, rest[t]) {
                        None => {},
                        Some(k) => {
                            assert forall|g: int| #[trigger] pending(mid, g) implies rank(g) > rank(
                                k,
                            ) by {
                                assert(pending(w, g));
                            }
                        },
                    }
                }
                lemma_visit_each(items, rest, mid, fuel, Set::full());
                lemma_visit_each_ranked(items, rest, mid, fuel, rank);
                match visit_each(items, rest, mid, fuel) {
                    Err(missing) => {},
                    Ok(after) => {
                        assert forall|p: int|
                            w.order.len() <= p < after.order.len() implies #[trigger] needs_placed(
                            items,
                            after.order,
                            p,
                        ) by {
                            if p < mid.order.len() {
                                assert(needs_placed(items, mid.order, p));
                                lemma_placed_before_grows(items, mid.order, after.order, p);
                            }
                        }
                    },
                }
            },
        }
    }
}

/// The walk that has reached nothing is sound, and nothing is pending in
/// it.
proof fn lemma_fresh(items: Seq<RegistryItemView>)
    ensures
        sound(items, fresh(items.len())),
        unseen(fresh(items.len()).seen) <= items.len(),
        forall|g: int| !pending(fresh(items.len()), g),
{
    lemma_unseen_bound(fresh(items.len()).seen);
}

/// A resolution places items of the registry, and each of them once.
pub proof fn lemma_resolution_places_once(items: Seq<RegistryItemView>, roots: Seq<Seq<char>>)
    ensures
        match resolution(items, roots) {
            Ok(order) => {
                &&& forall|p: int| 0 <= p < order.len() ==> 0 <= #[trigger] order[p] < items.len()
                &&& forall|p: int, q: int| 0 <= p < q < order.len() ==> order[p] != order[q]
            },
            Err(missing) => true,
        },
{
    lemma_fresh(items);
    lemma_visit_each(items, roots, fresh(items.len()), items.len(), Set::full());
}

/// A resolution places exactly the items that are reachable from the
/// roots: the roots, what they need, what that needs, and so on. This holds
/// of every registry, with or without cycles among the needs.
pub proof fn lemma_resolution_places_reachable(
    items: Seq<RegistryItemView>,
    roots: Seq<Seq<char>>,
    j: int,
)
    ensures
        match resolution(items, roots) {
            Ok(order) => order.contains(j) <==> reachable(items, roots, j),
            Err(missing) => true,
        },
{
    let start = fresh(items.len());
    lemma_fresh(items);
    lemma_visit_each(items, roots, start, items.len(), Set::full());
    match visit_each(items, roots, start, items.len()) {
        Err(missing) => {},
        Ok(after) => {
            let order = after.order;
            if order.contains(j) {
                let p = choose|p: int| 0 <= p < order.len() && order[p] == j;
                assert forall|s: Set<int>| closed(items, s) && holds(items, s, roots) implies #[trigger] s.contains(
                    j,
                ) by {
                    lemma_visit_each(items, roots, start, items.len(), s);
                    assert(s.contains(order[p]));
                }
            }
            if reachable(items, roots, j) {
                let s = Set::new(|x: int| order.contains(x));
                assert forall|x: int| 0 <= x < items.len() && after.seen[x] implies order.contains(
                    x,
                ) by {
                    if !order.contains(x) {
                        assert(pending(after, x));
                        assert(pending(start, x));
                    }
                }
                assert(holds(items, s, roots)) by {
                    assert forall|t: int| 0 <= t < roots.len() implies match index_of(
                        items,
                        #[trigger] roots[t],
                    ) {
                        Some(k) => s.contains(k),
                        None => true,
                    } by {
                        assert(reached(items, after, roots[t]));
                        lemma_index_of(items, roots[t]);
                    }
                }
                assert(closed(items, s)) by {
                    assert forall|x: int| 0 <= x < items.len() && s.contains(x) implies holds(
                        items,
                        s,
                        #[trigger] items[x].needs(),
                    ) by {
                        let p = choose|p: int| 0 <= p < order.len() && order[p] == x;
                        assert(needs_reached(items, after, p));
                        let needs = items[x].needs();
                        assert forall|t: int| 0 <= t < needs.len() implies match index_of(
                            items,
                            #[trigger] needs[t],
                        ) {
                            Some(k) => s.contains(k),
                            None => true,
                        } by {
                            assert(reached(items, after, needs[t]));
                            lemma_index_of(items, needs[t]);
                        }
                    }
                }
                assert(s.contains(j));
            }
        },
    }
}

/// In a registry without cycles, a resolution places every need of an item
/// before the item.
pub proof fn lemma_resolution_needs_first(items: Seq<RegistryItemView>, roots: Seq<Seq<char>>)
    requires
        acyclic(items),
    ensures
        match resolution(items, roots) {
            Ok(order) => forall|p: int| 0 <= p < order.len() ==> #[trigger] needs_placed(items, order, p),
            Err(missing) => true,
        },
{
    let rank = choose|rank: spec_fn(int) -> nat| ranked(items, rank);
    let start = fresh(items.len());
    lemma_fresh(items);
    assert forall|t: int| 0 <= t < roots.len() implies below(items, start, rank, #[trigger] roots[t]) by {}
    lemma_visit_each_ranked(items, roots, start, items.len(), rank);
}

/// A name that a resolution reports as missing is the name of no item.
pub proof fn lemma_missing_is_absent(items: Seq<RegistryItemView>, roots: Seq<Seq<char>>)
    ensures
        match resolution(items, roots) {
            Ok(order) => true,
            Err(missing) => index_of(items, missing) is None,
        },
{
    lemma_fresh(items);
    lemma_visit_each(items, roots, fresh(items.len()), items.len(), Set::full());
}

/// Once an item is known, its name is missing no more: a resolution among
/// the known items and this one reports neither its name nor the name of a
/// known item. So a caller that fetches what is missing, adds it and asks
/// again fetches no name twice.
pub proof fn lemma_known_name_is_not_missing(
    items: Seq<RegistryItemView>,
    item: RegistryItemView,
    roots: Seq<Seq<char>>,
)
    ensures
        match resolution(items.push(item), roots) {
            Ok(order) => true,
            Err(missing) => missing != item.name && forall|j: int|
                0 <= j < items.len() ==> items[j].name != missing,
        },
{
    let all = items.push(item);
    lemma_missing_is_absent(all, roots);
    match resolution(all, roots) {
        Ok(order) => {},
        Err(missing) => {
            lemma_index_of(all, missing);
            assert(all[items.len() as int].name != missing);
            assert forall|j: int| 0 <= j < items.len() implies items[j].name != missing by {
                assert(all[j] == items[j]);
            }
        },
    }
}

/// Two items that need each other resolve, from the first of them, to the
/// second and then the first: each once, and the walk ends.
pub proof fn lemma_cycle_of_two(a: RegistryItemView, b: RegistryItemView)
    requires
        a.name != b.name,
        a.needs() == seq![b.name],
        b.needs() == seq![a.name],
    ensures
        resolution(seq![a, b], seq![a.name]) == Ok::<Seq<int>, Seq<char>>(seq![1int, 0int]),
{
    let items = seq![a, b];
    let roots = seq![a.name];
    let none = Seq::<Seq<char>>::empty();
    assert(items.drop_last() =~= seq![a]);
    assert(seq![a].drop_last() =~= Seq::<RegistryItemView>::empty());
    reveal_with_fuel(index_of, 4);
    assert(index_of(items, a.name) == Some(0int));
    assert(index_of(items, b.name) == Some(1int));
    assert(seq![a.name].drop_first() =~= none);
    assert(seq![b.name].drop_first() =~= none);
    let w0 = fresh(2);
    let w1 = marked(w0, 0);
    let w2 = marked(w1, 1);
    let w3 = placed(w2, 1);
    let w4 = placed(w3, 0);
    assert(visit(items, a.name, w2, 0) == Ok::<Walk, Seq<char>>(w2));
    assert(visit_each(items, none, w2, 0) == Ok::<Walk, Seq<char>>(w2));
    assert(visit_each(items, b.needs(), w2, 0) == Ok::<Walk, Seq<char>>(w2));
    assert(visit(items, b.name, w1, 1) == Ok::<Walk, Seq<char>>(w3));
    assert(visit_each(items, none, w3, 1) == Ok::<Walk, Seq<char>>(w3));
    assert(visit_each(items, a.needs(), w1, 1) == Ok::<Walk, Seq<char>>(w3));
    assert(visit(items, a.name, w0, 2) == Ok::<Walk, Seq<char>>(w4));
    assert(visit_each(items, none, w4, 2) == Ok::<Walk, Seq<char>>(w4));
    assert(visit_each(items, roots, w0, 2) == Ok::<Walk, Seq<char>>(w4));
    assert(w4.order =~= seq![1int, 0int]);
}

} // verus!
