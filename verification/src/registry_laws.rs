//! What holds of the registry across several operations, proved over the
//! mathematical values of [`crate::prompt_manager`].

use crate::clock::Timestamp;
use crate::digest::text_digest;
use crate::prompt_instruction::{
    InstructionScopeView, InstructionSourceView, InstructionState, PromptInstructionView,
};
use crate::prompt_manager::{
    active_among, distinct_ids, holds, indexed, lemma_active_prefix_step, lemma_position_unique,
    lemma_put_distinct, lemma_update_distinct, position, put, stored, PromptManagerView,
};
use vstd::prelude::*;

verus! {

/// After a record was put, it is what its handle finds, and every other
/// handle finds what it found before.
pub proof fn lemma_put_lookup(
    records: Seq<PromptInstructionView>,
    record: PromptInstructionView,
    other: Seq<char>,
)
    requires
        distinct_ids(records),
    ensures
        holds(put(records, record), record.id),
        put(records, record)[position(put(records, record), record.id)] == record,
        other != record.id ==> holds(put(records, record), other) == holds(records, other),
        other != record.id && holds(records, other) ==> put(records, record)[position(
            put(records, record),
            other,
        )] == records[position(records, other)],
{
    let after = put(records, record);
    lemma_put_distinct(records, record);
    let at: int = if holds(records, record.id) {
        position(records, record.id)
    } else {
        records.len() as int
    };
    assert(after[at] == record);
    lemma_position_unique(after, at);
    if other != record.id {
        if holds(records, other) {
            let p = position(records, other);
            assert(after[p] == records[p]);
            lemma_position_unique(after, p);
        }
        if holds(after, other) {
            let q = position(after, other);
            assert(q != at);
            assert(after[q] == records[q]);
        }
    }
}

/// After the record at `i` was replaced by one with the same handle, that
/// handle finds the new record, and every other handle finds what it found
/// before.
pub proof fn lemma_update_lookup(
    records: Seq<PromptInstructionView>,
    i: int,
    record: PromptInstructionView,
    other: Seq<char>,
)
    requires
        distinct_ids(records),
        0 <= i < records.len(),
        record.id == records[i].id,
    ensures
        holds(records.update(i, record), other) == holds(records, other),
        position(records.update(i, record), record.id) == i,
        holds(records, other) ==> position(records.update(i, record), other) == position(
            records,
            other,
        ),
{
    let after = records.update(i, record);
    lemma_update_distinct(records, i, record);
    assert(after[i] == record);
    lemma_position_unique(after, i);
    if holds(records, other) {
        let p = position(records, other);
        assert(after[p].id == other);
        lemma_position_unique(after, p);
    }
    if holds(after, other) {
        let q = position(after, other);
        assert(records[q].id == other);
    }
}

/// Upsert and retire keep the registry well formed.
pub proof fn lemma_operations_keep_wf(
    r: PromptManagerView,
    content: Seq<char>,
    source: InstructionSourceView,
    scope: InstructionScopeView,
    fresh: Seq<char>,
    id: Seq<char>,
    at: Timestamp,
)
    requires
        r.wf(),
    ensures
        r.upsert(content, source, scope, fresh, at).wf(),
        r.retire(id, at).wf(),
        r.retire_by_source(source, at).wf(),
{
    match r.reusable(source) {
        Some(found) => {
            let pos = position(r.instructions, found);
            lemma_update_distinct(
                r.instructions,
                pos,
                r.upsert(content, source, scope, fresh, at).instructions[pos],
            );
        },
        None => {
            lemma_put_distinct(
                r.instructions,
                PromptInstructionView::fresh(
                    fresh,
                    source,
                    scope,
                    content,
                    (r.order_counter + 1) as u64,
                    at,
                ),
            );
        },
    }
    if holds(r.instructions, id) {
        let pos = position(r.instructions, id);
        lemma_update_distinct(r.instructions, pos, r.instructions[pos].retired(at));
    }
    match source.key() {
        Some(k) => {
            if r.source_index.contains_key(k) && holds(r.instructions, r.source_index[k]) {
                let pos = position(r.instructions, r.source_index[k]);
                lemma_update_distinct(r.instructions, pos, r.instructions[pos].retired(at));
            }
        },
        None => {},
    }
}

/// Two upserts in a row from one keyed source address one instruction: the
/// second returns the handle of the first, leaves the order number as the
/// first left it, and stores the second content with its digest.
pub proof fn lemma_upsert_twice_from_one_source(
    r: PromptManagerView,
    source: InstructionSourceView,
    first_content: Seq<char>,
    first_scope: InstructionScopeView,
    first_fresh: Seq<char>,
    first_at: Timestamp,
    second_content: Seq<char>,
    second_scope: InstructionScopeView,
    second_fresh: Seq<char>,
    second_at: Timestamp,
)
    requires
        r.wf(),
        source.key() is Some,
    ensures
        ({
            let r1 = r.upsert(first_content, source, first_scope, first_fresh, first_at);
            let id1 = r.upsert_id(source, first_fresh);
            let r2 = r1.upsert(second_content, source, second_scope, second_fresh, second_at);
            let id2 = r1.upsert_id(source, second_fresh);
            &&& id2 == id1
            &&& r1.lookup(id1) is Some
            &&& r2.lookup(id1) is Some
            &&& r2.lookup(id1)->0.order == r1.lookup(id1)->0.order
            &&& r2.lookup(id1)->0.content == second_content
            &&& r2.lookup(id1)->0.content_hash == text_digest(second_content)
            &&& r2.lookup(id1)->0.state == InstructionState::Active
            &&& r2.applied_order == r1.applied_order
            &&& r2.order_counter == r1.order_counter
        }),
{
    let k = source.key()->0;
    let r1 = r.upsert(first_content, source, first_scope, first_fresh, first_at);
    let id1 = r.upsert_id(source, first_fresh);
    match r.reusable(source) {
        Some(found) => {
            let pos = position(r.instructions, found);
            lemma_update_lookup(r.instructions, pos, r1.instructions[pos], id1);
        },
        None => {
            let created = PromptInstructionView::fresh(
                first_fresh,
                source,
                first_scope,
                first_content,
                (r.order_counter + 1) as u64,
                first_at,
            );
            lemma_put_lookup(r.instructions, created, id1);
        },
    }
    assert(r1.reusable(source) == Some(id1));
    lemma_operations_keep_wf(r, first_content, source, first_scope, first_fresh, id1, first_at);
    let pos1 = position(r1.instructions, id1);
    let r2 = r1.upsert(second_content, source, second_scope, second_fresh, second_at);
    lemma_update_lookup(r1.instructions, pos1, r2.instructions[pos1], id1);
}

/// After a source withdrew its instruction, an upsert from the same source
/// creates a new instruction under the handle drawn for it, provided that
/// this handle is not the withdrawn one. The new instruction is active,
/// holds the new content with its digest and the next order number, and
/// stands last in the applied order. The withdrawn one is still found under
/// its own handle, retired and otherwise as the withdrawal left it, and is
/// not part of the active stack.
pub proof fn lemma_upsert_after_retire_by_source(
    r: PromptManagerView,
    source: InstructionSourceView,
    retired_at: Timestamp,
    content: Seq<char>,
    scope: InstructionScopeView,
    fresh: Seq<char>,
    at: Timestamp,
)
    requires
        r.wf(),
        r.reusable(source) is Some,
        fresh != r.reusable(source)->0,
    ensures
        ({
            let withdrawn = r.reusable(source)->0;
            let r1 = r.retire_by_source(source, retired_at);
            let r2 = r1.upsert(content, source, scope, fresh, at);
            &&& r1.reusable(source) is None
            &&& r1.upsert_id(source, fresh) == fresh
            &&& r2.lookup(fresh) == Some(
                PromptInstructionView::fresh(
                    fresh,
                    source,
                    scope,
                    content,
                    (r1.order_counter + 1) as u64,
                    at,
                ),
            )
            &&& r2.lookup(fresh)->0.state == InstructionState::Active
            &&& r2.lookup(fresh)->0.content == content
            &&& r2.lookup(fresh)->0.content_hash == text_digest(content)
            &&& r1.order_counter < u64::MAX ==> r2.lookup(fresh)->0.order == r1.order_counter
                + 1
            &&& r2.applied_order.last() == fresh
            &&& r1.lookup(withdrawn) == Some(r.lookup(withdrawn)->0.retired(retired_at))
            &&& r2.lookup(withdrawn) == r1.lookup(withdrawn)
            &&& r2.lookup(withdrawn)->0.state == InstructionState::Retired
            &&& r2.lookup(withdrawn)->0.content == r.lookup(withdrawn)->0.content
            &&& forall|i: int|
                0 <= i < r2.active_stack().len() ==> (#[trigger] r2.active_stack()[i]).id
                    != withdrawn
        }),
{
    let k = source.key()->0;
    let withdrawn = r.reusable(source)->0;
    let r1 = r.retire_by_source(source, retired_at);
    let r2 = r1.upsert(content, source, scope, fresh, at);
    let pos = position(r.instructions, withdrawn);
    lemma_update_lookup(r.instructions, pos, r.instructions[pos].retired(retired_at), withdrawn);
    lemma_update_distinct(r.instructions, pos, r.instructions[pos].retired(retired_at));
    assert(!r1.source_index.contains_key(k));
    let created = PromptInstructionView::fresh(
        fresh,
        source,
        scope,
        content,
        (r1.order_counter + 1) as u64,
        at,
    );
    lemma_put_lookup(r1.instructions, created, withdrawn);
    lemma_put_distinct(r1.instructions, created);
    assert forall|i: int| 0 <= i < r2.active_stack().len() implies (
    #[trigger] r2.active_stack()[i]).id != withdrawn by {
        lemma_active_stack_members(r2, i);
    }
}

/// Every instruction of the active stack is stored under its own handle.
pub proof fn lemma_active_stack_members(r: PromptManagerView, i: int)
    requires
        r.wf(),
        0 <= i < r.active_stack().len(),
    ensures
        r.lookup(r.active_stack()[i].id) == Some(r.active_stack()[i]),
        r.active_stack()[i].state == InstructionState::Active,
{
    let keep = |id: Seq<char>| active_among(r.instructions, id);
    let kept = r.applied_order.filter(keep);
    r.applied_order.lemma_filter_pred(keep, i);
    assert(keep(kept[i]));
    let p = position(r.instructions, kept[i]);
    assert(0 <= p < r.instructions.len() && r.instructions[p].id == kept[i]);
    lemma_position_unique(r.instructions, p);
}

/// An instruction that is not active is not part of the active stack.
pub proof fn lemma_inactive_not_in_stack(r: PromptManagerView, id: Seq<char>, i: int)
    requires
        r.wf(),
        r.lookup(id) is Some,
        r.lookup(id)->0.state != InstructionState::Active,
        0 <= i < r.active_stack().len(),
    ensures
        r.active_stack()[i].id != id,
{
    lemma_active_stack_members(r, i);
}

/// Every instruction of the active stack is active; none is retired.
pub proof fn lemma_active_stack_is_active(r: PromptManagerView, i: int)
    requires
        0 <= i < r.active_stack().len(),
    ensures
        r.active_stack()[i].state == InstructionState::Active,
{
    let keep = |id: Seq<char>| active_among(r.instructions, id);
    let kept = r.applied_order.filter(keep);
    r.applied_order.lemma_filter_pred(keep, i);
    assert(keep(kept[i]));
}

/// The registry records its history in order: every applied handle is
/// stored, order numbers rise strictly along the applied order, and none
/// exceeds the counter.
pub open spec fn chronological(r: PromptManagerView) -> bool {
    &&& forall|a: int|
        0 <= a < r.applied_order.len() ==> holds(r.instructions, #[trigger] r.applied_order[a])
    &&& forall|a: int, b: int|
        0 <= a < b < r.applied_order.len() ==> r.instructions[position(
            r.instructions,
            #[trigger] r.applied_order[a],
        )].order < r.instructions[position(r.instructions, #[trigger] r.applied_order[b])].order
    &&& forall|i: int|
        0 <= i < r.instructions.len() ==> (#[trigger] r.instructions[i]).order <= r.order_counter
}

/// Each of the first `n` active instructions is the one stored under an
/// applied handle before `n`.
proof fn lemma_active_prefix_origin(r: PromptManagerView, n: int, i: int) -> (a: int)
    requires
        0 <= n <= r.applied_order.len(),
        0 <= i < r.active_prefix(n).len(),
    ensures
        0 <= a < n,
        r.active_prefix(n)[i] == r.instructions[position(r.instructions, r.applied_order[a])],
    decreases n,
{
    if n == 0 {
        reveal(Seq::filter);
        assert(r.applied_order.take(0) =~= Seq::empty());
        0
    } else {
        lemma_active_prefix_step(r, n - 1);
        if i < r.active_prefix(n - 1).len() {
            lemma_active_prefix_origin(r, n - 1, i)
        } else {
            n - 1
        }
    }
}

/// Along the first `n` applied handles, the active instructions have
/// strictly rising order numbers.
proof fn lemma_active_prefix_ascending(r: PromptManagerView, n: int, i: int, j: int)
    requires
        chronological(r),
        0 <= n <= r.applied_order.len(),
        0 <= i < j < r.active_prefix(n).len(),
    ensures
        r.active_prefix(n)[i].order < r.active_prefix(n)[j].order,
    decreases n,
{
    if n == 0 {
        reveal(Seq::filter);
        assert(r.applied_order.take(0) =~= Seq::empty());
    } else {
        lemma_active_prefix_step(r, n - 1);
        if j < r.active_prefix(n - 1).len() {
            lemma_active_prefix_ascending(r, n - 1, i, j);
        } else {
            let a = lemma_active_prefix_origin(r, n - 1, i);
            assert(r.instructions[position(r.instructions, r.applied_order[a])].order
                < r.instructions[position(r.instructions, r.applied_order[n - 1])].order);
        }
    }
}

/// In a registry that records its history in order, the active stack has
/// strictly rising order numbers.
pub proof fn lemma_active_stack_ascending(r: PromptManagerView, i: int, j: int)
    requires
        chronological(r),
        0 <= i < j < r.active_stack().len(),
    ensures
        r.active_stack()[i].order < r.active_stack()[j].order,
{
    assert(r.applied_order.take(r.applied_order.len() as int) =~= r.applied_order);
    lemma_active_prefix_ascending(r, r.applied_order.len() as int, i, j);
}

/// A new registry records its history in order.
pub proof fn lemma_empty_chronological(current_date_timestamp: Seq<char>)
    ensures
        chronological(PromptManagerView::empty(current_date_timestamp)),
        PromptManagerView::empty(current_date_timestamp).wf(),
{
}

/// An upsert keeps the history in order, provided that the handle drawn
/// for a new instruction is not in use and the counter can still rise.
pub proof fn lemma_upsert_keeps_chronological(
    r: PromptManagerView,
    content: Seq<char>,
    source: InstructionSourceView,
    scope: InstructionScopeView,
    fresh: Seq<char>,
    at: Timestamp,
)
    requires
        r.wf(),
        chronological(r),
        r.reusable(source) is None ==> !holds(r.instructions, fresh) && r.order_counter
            < u64::MAX,
    ensures
        chronological(r.upsert(content, source, scope, fresh, at)),
{
    let after = r.upsert(content, source, scope, fresh, at);
    match r.reusable(source) {
        Some(found) => {
            let pos = position(r.instructions, found);
            assert forall|a: int| 0 <= a < after.applied_order.len() implies holds(
                after.instructions,
                #[trigger] after.applied_order[a],
            ) && after.instructions[position(after.instructions, after.applied_order[a])].order
                == r.instructions[position(r.instructions, r.applied_order[a])].order by {
                lemma_update_lookup(
                    r.instructions,
                    pos,
                    after.instructions[pos],
                    r.applied_order[a],
                );
            }
            assert forall|i: int| 0 <= i < after.instructions.len() implies (
            #[trigger] after.instructions[i]).order <= after.order_counter by {
                assert(after.instructions[i].order == r.instructions[i].order);
            }
        },
        None => {
            let created = PromptInstructionView::fresh(
                fresh,
                source,
                scope,
                content,
                (r.order_counter + 1) as u64,
                at,
            );
            assert(after.instructions == r.instructions.push(created));
            assert forall|a: int| 0 <= a < after.applied_order.len() implies holds(
                after.instructions,
                #[trigger] after.applied_order[a],
            ) && after.instructions[position(after.instructions, after.applied_order[a])].order
                == (if a < r.applied_order.len() {
                r.instructions[position(r.instructions, r.applied_order[a])].order
            } else {
                created.order
            }) by {
                lemma_put_lookup(r.instructions, created, after.applied_order[a]);
                if a < r.applied_order.len() {
                    assert(after.applied_order[a] == r.applied_order[a]);
                    assert(holds(r.instructions, r.applied_order[a]));
                }
            }
            assert forall|a: int, b: int| 0 <= a < b < after.applied_order.len() implies
                after.instructions[position(
                after.instructions,
                #[trigger] after.applied_order[a],
            )].order < after.instructions[position(
                after.instructions,
                #[trigger] after.applied_order[b],
            )].order by {
                if b == r.applied_order.len() {
                    let p = position(r.instructions, r.applied_order[a]);
                    assert(r.instructions[p].order <= r.order_counter);
                }
            }
            assert forall|i: int| 0 <= i < after.instructions.len() implies (
            #[trigger] after.instructions[i]).order <= after.order_counter by {
                if i < r.instructions.len() {
                    assert(after.instructions[i] == r.instructions[i]);
                }
            }
        },
    }
}

/// Retiring an instruction keeps the history in order.
pub proof fn lemma_retire_keeps_chronological(r: PromptManagerView, id: Seq<char>, at: Timestamp)
    requires
        r.wf(),
        chronological(r),
    ensures
        chronological(r.retire(id, at)),
{
    let after = r.retire(id, at);
    if holds(r.instructions, id) {
        let pos = position(r.instructions, id);
        assert forall|a: int| 0 <= a < after.applied_order.len() implies holds(
            after.instructions,
            #[trigger] after.applied_order[a],
        ) && after.instructions[position(after.instructions, after.applied_order[a])].order
            == r.instructions[position(r.instructions, r.applied_order[a])].order by {
            lemma_update_lookup(r.instructions, pos, after.instructions[pos], r.applied_order[a]);
        }
        assert forall|i: int| 0 <= i < after.instructions.len() implies (
        #[trigger] after.instructions[i]).order <= after.order_counter by {
            assert(after.instructions[i].order == r.instructions[i].order);
        }
    }
}

/// Withdrawing a source's instruction keeps the history in order.
pub proof fn lemma_retire_by_source_keeps_chronological(
    r: PromptManagerView,
    source: InstructionSourceView,
    at: Timestamp,
)
    requires
        r.wf(),
        chronological(r),
    ensures
        chronological(r.retire_by_source(source, at)),
{
    match source.key() {
        Some(k) => {
            if r.source_index.contains_key(k) {
                let unindexed = PromptManagerView {
                    source_index: r.source_index.remove(k),
                    ..r
                };
                lemma_retire_keeps_chronological(unindexed, r.source_index[k], at);
            }
        },
        None => {},
    }
}

/// What is stored never repeats a handle: every restored registry is well
/// formed.
pub proof fn lemma_stored_distinct(list: Seq<PromptInstructionView>)
    ensures
        distinct_ids(stored(list)),
    decreases list.len(),
{
    if list.len() > 0 {
        lemma_stored_distinct(list.drop_last());
        lemma_put_distinct(stored(list.drop_last()), list.last());
    }
}

/// Storing records that carry distinct handles keeps them as they are.
pub proof fn lemma_stored_of_distinct(list: Seq<PromptInstructionView>)
    requires
        distinct_ids(list),
    ensures
        stored(list) == list,
    decreases list.len(),
{
    if list.len() > 0 {
        let earlier = list.drop_last();
        lemma_stored_of_distinct(earlier);
        if holds(earlier, list.last().id) {
            let p = position(earlier, list.last().id);
            assert(list[p].id == list[list.len() - 1].id);
        }
        assert(earlier.push(list.last()) =~= list);
    } else {
        assert(stored(list) =~= list);
    }
}

/// The source index is what the stored instructions give: every keyed
/// source points to the last stored instruction that carries its key.
pub open spec fn index_is_derived(r: PromptManagerView) -> bool {
    r.source_index == indexed(r.instructions)
}

/// A new registry has the derived index: none.
pub proof fn lemma_empty_index_is_derived(current_date_timestamp: Seq<char>)
    ensures
        index_is_derived(PromptManagerView::empty(current_date_timestamp)),
{
}

/// Replacing a record by one of the same handle and source leaves the
/// derived index as it is.
pub proof fn lemma_indexed_update(
    records: Seq<PromptInstructionView>,
    i: int,
    record: PromptInstructionView,
)
    requires
        0 <= i < records.len(),
        record.id == records[i].id,
        record.source == records[i].source,
    ensures
        indexed(records.update(i, record)) == indexed(records),
    decreases records.len(),
{
    let after = records.update(i, record);
    if i == records.len() - 1 {
        assert(after.drop_last() =~= records.drop_last());
    } else {
        assert(after.drop_last() =~= records.drop_last().update(i, record));
        lemma_indexed_update(records.drop_last(), i, record);
    }
}

/// An upsert keeps the index derived, provided that the handle drawn for a
/// new instruction is not in use.
pub proof fn lemma_upsert_keeps_index_derived(
    r: PromptManagerView,
    content: Seq<char>,
    source: InstructionSourceView,
    scope: InstructionScopeView,
    fresh: Seq<char>,
    at: Timestamp,
)
    requires
        index_is_derived(r),
        r.reusable(source) is None ==> !holds(r.instructions, fresh),
    ensures
        index_is_derived(r.upsert(content, source, scope, fresh, at)),
{
    let after = r.upsert(content, source, scope, fresh, at);
    match r.reusable(source) {
        Some(found) => {
            let pos = position(r.instructions, found);
            lemma_indexed_update(r.instructions, pos, after.instructions[pos]);
        },
        None => {
            assert(after.instructions.drop_last() =~= r.instructions);
        },
    }
}

/// Retiring an instruction by its handle keeps the index derived.
pub proof fn lemma_retire_keeps_index_derived(r: PromptManagerView, id: Seq<char>, at: Timestamp)
    requires
        index_is_derived(r),
    ensures
        index_is_derived(r.retire(id, at)),
{
    if holds(r.instructions, id) {
        let pos = position(r.instructions, id);
        lemma_indexed_update(r.instructions, pos, r.instructions[pos].retired(at));
    }
}

/// Restoring the snapshot of a registry gives back the registry, with the
/// source index derived from its instructions: the same active stack, the
/// same applied order, the same counter.
pub proof fn lemma_snapshot_restore(r: PromptManagerView)
    requires
        r.wf(),
    ensures
        PromptManagerView::restored(r.snapshot()) == (PromptManagerView {
            source_index: indexed(r.instructions),
            ..r
        }),
        PromptManagerView::restored(r.snapshot()).active_stack() == r.active_stack(),
        PromptManagerView::restored(r.snapshot()).order_counter == r.order_counter,
        index_is_derived(r) ==> PromptManagerView::restored(r.snapshot()) == r,
        chronological(r) ==> chronological(PromptManagerView::restored(r.snapshot())),
{
    lemma_stored_of_distinct(r.instructions);
}

/// Every stored hash is the digest of the content stored beside it.
pub open spec fn hashes_match(records: Seq<PromptInstructionView>) -> bool {
    forall|i: int| 0 <= i < records.len() ==> (#[trigger] records[i]).hash_matches()
}

/// An upsert stores the digest of the content it stores, and leaves every
/// other pair of content and hash as it was.
pub proof fn lemma_upsert_keeps_hashes(
    r: PromptManagerView,
    content: Seq<char>,
    source: InstructionSourceView,
    scope: InstructionScopeView,
    fresh: Seq<char>,
    at: Timestamp,
)
    requires
        hashes_match(r.instructions),
    ensures
        hashes_match(r.upsert(content, source, scope, fresh, at).instructions),
{
    let after = r.upsert(content, source, scope, fresh, at).instructions;
    assert forall|i: int| 0 <= i < after.len() implies (#[trigger] after[i]).hash_matches() by {
        if i < r.instructions.len() && after[i] == r.instructions[i] {
            assert(r.instructions[i].hash_matches());
        }
    }
}

/// Retiring changes neither content nor hash.
pub proof fn lemma_retire_keeps_hashes(
    r: PromptManagerView,
    source: InstructionSourceView,
    id: Seq<char>,
    at: Timestamp,
)
    requires
        hashes_match(r.instructions),
    ensures
        hashes_match(r.retire(id, at).instructions),
        hashes_match(r.retire_by_source(source, at).instructions),
{
    let by_id = r.retire(id, at).instructions;
    assert forall|i: int| 0 <= i < by_id.len() implies (#[trigger] by_id[i]).hash_matches() by {
        assert(r.instructions[i].hash_matches());
    }
    let by_source = r.retire_by_source(source, at).instructions;
    assert forall|i: int| 0 <= i < by_source.len() implies (
    #[trigger] by_source[i]).hash_matches() by {
        assert(r.instructions[i].hash_matches());
    }
}

/// What is stored of a list whose hashes match has matching hashes.
pub proof fn lemma_stored_keeps_hashes(list: Seq<PromptInstructionView>)
    requires
        hashes_match(list),
    ensures
        hashes_match(stored(list)),
    decreases list.len(),
{
    if list.len() > 0 {
        assert(hashes_match(list.drop_last())) by {
            assert forall|i: int| 0 <= i < list.drop_last().len() implies (
            #[trigger] list.drop_last()[i]).hash_matches() by {
                assert(list[i].hash_matches());
            }
        }
        lemma_stored_keeps_hashes(list.drop_last());
        let earlier = stored(list.drop_last());
        let after = stored(list);
        assert(list[list.len() - 1].hash_matches());
        assert forall|i: int| 0 <= i < after.len() implies (#[trigger] after[i]).hash_matches() by {
            if i < earlier.len() && after[i] == earlier[i] {
                assert(earlier[i].hash_matches());
            }
        }
    }
}

} // verus!
