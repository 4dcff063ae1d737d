use vstd::prelude::*;
use crate::tree::record::{parents_of, views_of, FlattenedItem, ItemView, TaskRecord};

verus! {

/// Index of the first occurrence of `p` in `stack` at or after `from`, or the
/// length of `stack` when there is none.
pub open spec fn first_index_from(stack: Seq<i64>, p: i64, from: int) -> int
    decreases stack.len() - from,
{
    if from < 0 || from >= stack.len() {
        stack.len() as int
    } else if stack[from] == p {
        from
    } else {
        first_index_from(stack, p, from + 1)
    }
}

/// Index of the first occurrence of `p` in `stack`, or its length when absent.
pub open spec fn first_index(stack: Seq<i64>, p: i64) -> int {
    first_index_from(stack, p, 0)
}

/// The ancestor stack after one record with the given parent has been seen.
///
/// No parent empties the stack. A parent that is on the stack cuts the stack
/// off behind its first occurrence. Any other parent is pushed, whether or not
/// it is a true ancestor of anything shown.
pub open spec fn enter(stack: Seq<i64>, parent: Option<i64>) -> Seq<i64> {
    match parent {
        None => Seq::empty(),
        Some(p) => {
            let k = first_index(stack, p);
            if k < stack.len() {
                stack.take(k + 1)
            } else {
                stack.push(p)
            }
        },
    }
}

/// The ancestor stack after a whole sequence of parents has been seen in order.
pub open spec fn stack_after(stack: Seq<i64>, parents: Seq<Option<i64>>) -> Seq<i64>
    decreases parents.len(),
{
    if parents.len() == 0 {
        stack
    } else {
        enter(stack_after(stack, parents.drop_last()), parents.last())
    }
}

/// The nesting level of record `i`: the height of the stack once records
/// `0..=i` have been seen.
pub open spec fn level_at(stack: Seq<i64>, parents: Seq<Option<i64>>, i: int) -> nat {
    stack_after(stack, parents.take(i + 1)).len()
}

/// What flattening `records` shows when the ancestor stack stands at `stack`:
/// one item per record, in order, each at the depth of its nesting level.
pub open spec fn flattened(stack: Seq<i64>, records: Seq<TaskRecord>, indent_unit: nat) -> Seq<
    ItemView,
> {
    Seq::new(
        records.len(),
        |i: int|
            ItemView {
                content: records[i].name@,
                id: records[i].id,
                depth: (level_at(stack, parents_of(records), i) * indent_unit) as u128,
                complete: records[i].complete,
            },
    )
}

/// `first_index_from` finds the least index at or after `from` that holds `p`.
pub proof fn lemma_first_index_from(stack: Seq<i64>, p: i64, from: int)
    requires
        0 <= from <= stack.len(),
    ensures
        from <= first_index_from(stack, p, from) <= stack.len(),
        first_index_from(stack, p, from) < stack.len() ==> stack[first_index_from(stack, p, from)]
            == p,
        forall|j: int| from <= j < first_index_from(stack, p, from) ==> stack[j] != p,
    decreases stack.len() - from,
{
    if from < stack.len() && stack[from] != p {
        lemma_first_index_from(stack, p, from + 1);
    }
}

/// One record raises the stack by at most one entry.
pub proof fn lemma_enter_len(stack: Seq<i64>, parent: Option<i64>)
    ensures
        enter(stack, parent).len() <= stack.len() + 1,
        parent is None ==> enter(stack, parent).len() == 0,
        parent is Some ==> enter(stack, parent).len() >= 1,
{
    if let Some(p) = parent {
        lemma_first_index_from(stack, p, 0);
    }
}

/// After `n` records the stack is at most `n` entries higher than before.
pub proof fn lemma_stack_after_len(stack: Seq<i64>, parents: Seq<Option<i64>>)
    ensures
        stack_after(stack, parents).len() <= stack.len() + parents.len(),
    decreases parents.len(),
{
    if parents.len() > 0 {
        lemma_stack_after_len(stack, parents.drop_last());
        lemma_enter_len(stack_after(stack, parents.drop_last()), parents.last());
    }
}

/// Searches the stack for `p`: the index of its first occurrence, or the
/// stack's length.
fn find(stack: &Vec<i64>, p: i64) -> (k: usize)
    ensures
        k == first_index(stack@, p),
        k <= stack@.len(),
{
    let mut k: usize = 0;
    while k < stack.len() && stack[k] != p
        invariant
            k <= stack@.len(),
            first_index(stack@, p) == first_index_from(stack@, p, k as int),
        decreases stack@.len() - k,
    {
        k = k + 1;
    }
    k
}

/// Applies one record's parent to the ancestor stack.
fn enter_stack(stack: &mut Vec<i64>, parent: Option<i64>)
    ensures
        final(stack)@ == enter(old(stack)@, parent),
{
    match parent {
        None => {
            stack.clear();
        },
        Some(p) => {
            let k = find(stack, p);
            if k < stack.len() {
                stack.truncate(k + 1);
            } else {
                stack.push(p);
            }
        },
    }
}

/// Flattens `records` into display order.
///
/// The result has one item per record, in the order given, each showing its
/// record at the depth that the ancestor stack has once the record is entered.
/// The stack is the caller's: it is read as it stands and left as the last
/// record leaves it.
pub fn flatten<'a>(records: &'a Vec<TaskRecord>, stack: &mut Vec<i64>, indent_unit: usize) -> (items:
    Vec<FlattenedItem<'a>>)
    ensures
        items@.len() == records@.len(),
        views_of(items@) == flattened(old(stack)@, records@, indent_unit as nat),
        forall|i: int|
            0 <= i < records@.len() ==> (#[trigger] items@[i])@.shows(
                records@[i],
                level_at(old(stack)@, parents_of(records@), i),
                indent_unit as nat,
            ),
        forall|i: int|
            0 <= i < records@.len() && indent_unit > 0 ==> (#[trigger] items@[i]).depth % (
            indent_unit as u128) == 0,
        forall|i: int|
            0 <= i < records@.len() && records@[i].parent is None ==> (#[trigger] items@[i]).depth
                == 0,
        final(stack)@ == stack_after(old(stack)@, parents_of(records@)),
{
    let ghost parents = parents_of(records@);
    let ghost start = stack@;
    let mut items: Vec<FlattenedItem<'a>> = Vec::new();
    let mut i: usize = 0;
    while i < records.len()
        invariant
            i <= records@.len(),
            parents == parents_of(records@),
            start == old(stack)@,
            items@.len() == i,
            stack@ == stack_after(start, parents.take(i as int)),
            forall|j: int|
                0 <= j < i ==> (#[trigger] items@[j])@.shows(
                    records@[j],
                    level_at(start, parents, j),
                    indent_unit as nat,
                ),
            forall|j: int|
                0 <= j < i && indent_unit > 0 ==> (#[trigger] items@[j]).depth % (
                indent_unit as u128) == 0,
            forall|j: int|
                0 <= j < i && records@[j].parent is None ==> (#[trigger] items@[j]).depth == 0,
        decreases records@.len() - i,
    {
        let record = &records[i];
        let ghost before = stack@;
        enter_stack(stack, record.parent);
        let level = stack.len();
        proof {
            let seen = parents.take(i as int + 1);
            assert(seen.drop_last() =~= parents.take(i as int));
            lemma_enter_len(before, record.parent);
            lemma_product_fits(level as int, indent_unit as int);
            if indent_unit > 0 {
                vstd::arithmetic::div_mod::lemma_mod_multiples_basic(
                    stack@.len() as int,
                    indent_unit as int,
                );
            }
            if record.parent is None {
                vstd::arithmetic::mul::lemma_mul_basics(indent_unit as int);
            }
        }
        let depth = level as u128 * indent_unit as u128;
        items.push(
            FlattenedItem {
                content: record.name.as_str(),
                id: record.id,
                depth,
                complete: record.complete,
            },
        );
        i = i + 1;
    }
    assert(parents.take(records@.len() as int) =~= parents);
    items
}

/// Flattening shows every record once and in the order given.
pub proof fn law_flatten_keeps_order(stack: Seq<i64>, records: Seq<TaskRecord>, indent_unit: nat)
    ensures
        flattened(stack, records, indent_unit).len() == records.len(),
        forall|i: int|
            0 <= i < records.len() ==> {
                &&& (#[trigger] flattened(stack, records, indent_unit)[i]).id == records[i].id
                &&& flattened(stack, records, indent_unit)[i].content == records[i].name@
                &&& flattened(stack, records, indent_unit)[i].complete == records[i].complete
            },
{
}

/// The product of two numbers that a `usize` holds is a number that a `u128`
/// holds.
pub proof fn lemma_product_fits(a: int, b: int)
    requires
        0 <= a <= usize::MAX,
        0 <= b <= usize::MAX,
    ensures
        0 <= a * b <= u128::MAX,
{
    assert(0 <= a * b <= 0xFFFF_FFFF_FFFF_FFFF * 0xFFFF_FFFF_FFFF_FFFF) by (nonlinear_arith)
        requires
            0 <= a <= 0xFFFF_FFFF_FFFF_FFFF,
            0 <= b <= 0xFFFF_FFFF_FFFF_FFFF,
    ;
}

/// Every depth is a whole number of indent units: the nesting level times the
/// unit, for stacks, records and units of a size that the machine can hold.
pub proof fn law_depth_is_multiple(
    stack: Seq<i64>,
    records: Seq<TaskRecord>,
    indent_unit: nat,
    i: int,
)
    requires
        0 <= i < records.len(),
        indent_unit > 0,
        indent_unit <= usize::MAX,
        stack.len() + records.len() <= usize::MAX,
    ensures
        flattened(stack, records, indent_unit)[i].depth == level_at(
            stack,
            parents_of(records),
            i,
        ) * indent_unit,
        (flattened(stack, records, indent_unit)[i].depth as int) % (indent_unit as int) == 0,
        flattened(stack, records, indent_unit)[i].depth >= 0,
{
    let parents = parents_of(records);
    let level = level_at(stack, parents, i);
    lemma_stack_after_len(stack, parents.take(i + 1));
    lemma_product_fits(level as int, indent_unit as int);
    vstd::arithmetic::div_mod::lemma_mod_multiples_basic(level as int, indent_unit as int);
}

/// A record without a parent empties the stack and is shown at depth zero.
/// The record after it starts from the empty stack: it is shown one level
/// down where it has a parent, and at depth zero where it has none.
pub proof fn law_root_resets(stack: Seq<i64>, records: Seq<TaskRecord>, indent_unit: nat, i: int)
    requires
        0 <= i < records.len(),
        records[i].parent is None,
    ensures
        stack_after(stack, parents_of(records).take(i + 1)) == Seq::<i64>::empty(),
        flattened(stack, records, indent_unit)[i].depth == 0,
        i + 1 < records.len() ==> level_at(stack, parents_of(records), i + 1) == (if records[i
            + 1].parent is Some {
            1nat
        } else {
            0nat
        }),
{
    let parents = parents_of(records);
    let seen = parents.take(i + 1);
    assert(seen.last() == records[i].parent);
    assert(stack_after(stack, seen) =~= Seq::<i64>::empty());
    vstd::arithmetic::mul::lemma_mul_basics(indent_unit as int);
    if i + 1 < records.len() {
        let next = parents.take(i + 2);
        assert(next.drop_last() =~= seen);
        assert(next.last() == records[i + 1].parent);
        if let Some(p) = records[i + 1].parent {
            assert(first_index(Seq::<i64>::empty(), p) == 0);
        }
    }
}

/// A stack in which no id stands twice stays so, whatever records are seen.
pub proof fn law_stack_stays_distinct(stack: Seq<i64>, parents: Seq<Option<i64>>)
    requires
        stack.no_duplicates(),
    ensures
        stack_after(stack, parents).no_duplicates(),
    decreases parents.len(),
{
    if parents.len() > 0 {
        law_stack_stays_distinct(stack, parents.drop_last());
        let before = stack_after(stack, parents.drop_last());
        if let Some(p) = parents.last() {
            lemma_first_index_from(before, p, 0);
        }
    }
}

/// Records that open with a record without a parent are shown the same
/// whatever the stack held before, and leave the same stack behind. Records
/// that open otherwise may be shown differently on a second pass, because the
/// stack is carried over.
pub proof fn law_root_first_forgets_stack(
    one: Seq<i64>,
    other: Seq<i64>,
    records: Seq<TaskRecord>,
    indent_unit: nat,
)
    requires
        records.len() > 0,
        records[0].parent is None,
    ensures
        flattened(one, records, indent_unit) == flattened(other, records, indent_unit),
        stack_after(one, parents_of(records)) == stack_after(other, parents_of(records)),
{
    let parents = parents_of(records);
    assert forall|i: int| 0 <= i < records.len() implies #[trigger] level_at(one, parents, i)
        == level_at(other, parents, i) by {
        lemma_same_after_root(one, other, parents.take(i + 1));
    }
    lemma_same_after_root(one, other, parents);
}

/// Two stacks are the same once a record without a parent has been seen.
proof fn lemma_same_after_root(one: Seq<i64>, other: Seq<i64>, parents: Seq<Option<i64>>)
    requires
        parents.len() > 0,
        parents[0] is None,
    ensures
        stack_after(one, parents) == stack_after(other, parents),
    decreases parents.len(),
{
    if parents.len() > 1 {
        lemma_same_after_root(one, other, parents.drop_last());
    }
}

} // verus!
