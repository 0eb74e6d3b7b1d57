//! The instruction registry: which instructions exist, in which order they
//! were applied, and which of them a source would replace.
//!
//! The instructions are kept in a vector, in the order in which they were
//! first stored, and found by their handle. A snapshot lists them in that
//! order, and a restore that meets two records of one source key lets the
//! later one win, so that both depend on the history alone. The source
//! index is a hash map keyed by text.

use crate::clock::{
    format_utc, formatted_utc, hour_pattern, in_calendar, now, opt_text, second_pattern,
    Timestamp,
};
use crate::prompt_instruction::{
    clone_ids, clone_instructions, id_views, instruction_views, InstructionId, InstructionScope,
    InstructionScopeView, InstructionSource, InstructionSourceView, InstructionState,
    PromptInstruction, PromptInstructionView, PromptStateSnapshot, PromptStateSnapshotView,
};
use crate::registry_laws::{
    chronological, lemma_active_stack_ascending, lemma_retire_by_source_keeps_chronological,
    lemma_retire_keeps_chronological, lemma_snapshot_restore, lemma_upsert_keeps_chronological,
};
use vstd::hash_map::StringHashMap;
use vstd::prelude::*;

verus! {

/// Whether one of `records` carries the handle `id`.
pub open spec fn holds(records: Seq<PromptInstructionView>, id: Seq<char>) -> bool {
    exists|i: int| 0 <= i < records.len() && (#[trigger] records[i]).id == id
}

/// A place in `records` at which the handle `id` is found.
pub open spec fn position(records: Seq<PromptInstructionView>, id: Seq<char>) -> int {
    choose|i: int| 0 <= i < records.len() && (#[trigger] records[i]).id == id
}

/// No handle is carried by two of `records`.
pub open spec fn distinct_ids(records: Seq<PromptInstructionView>) -> bool {
    forall|i: int, j: int|
        0 <= i < j < records.len() ==> (#[trigger] records[i]).id != (#[trigger] records[j]).id
}

/// `records` with `record` stored under its handle: in the place of the
/// record that carried the handle before, or at the end.
pub open spec fn put(
    records: Seq<PromptInstructionView>,
    record: PromptInstructionView,
) -> Seq<PromptInstructionView> {
    if holds(records, record.id) {
        records.update(position(records, record.id), record)
    } else {
        records.push(record)
    }
}

/// The mathematical value of a [`PromptManager`].
pub struct PromptManagerView {
    /// The text that replaces the default template, if any.
    pub override_prompt: Option<Seq<char>>,
    /// The date text that every render of this registry shows.
    pub current_date_timestamp: Seq<char>,
    /// Every stored instruction, oldest first, no handle twice.
    pub instructions: Seq<PromptInstructionView>,
    /// The handles in the order in which they were applied.
    pub applied_order: Seq<Seq<char>>,
    /// From canonical source key to the handle that the source would replace.
    pub source_index: Map<Seq<char>, Seq<char>>,
    /// The order number given out last.
    pub order_counter: u64,
}

impl PromptManagerView {
    /// The invariant of every registry: no handle is stored twice.
    pub open spec fn wf(self) -> bool {
        distinct_ids(self.instructions)
    }

    /// The registry right after construction.
    pub open spec fn empty(current_date_timestamp: Seq<char>) -> PromptManagerView {
        PromptManagerView {
            override_prompt: None,
            current_date_timestamp,
            instructions: Seq::empty(),
            applied_order: Seq::empty(),
            source_index: Map::empty(),
            order_counter: 0,
        }
    }

    /// The instruction stored under `id`, if any.
    pub open spec fn lookup(self, id: Seq<char>) -> Option<PromptInstructionView> {
        if holds(self.instructions, id) {
            Some(self.instructions[position(self.instructions, id)])
        } else {
            None
        }
    }

    /// The handle of the stored instruction that an upsert from `source`
    /// would update, if there is one.
    pub open spec fn reusable(self, source: InstructionSourceView) -> Option<Seq<char>> {
        match source.key() {
            Some(k) => if self.source_index.contains_key(k) && holds(
                self.instructions,
                self.source_index[k],
            ) {
                Some(self.source_index[k])
            } else {
                None
            },
            None => None,
        }
    }

    /// The handle that an upsert from `source` returns when `fresh` is the
    /// handle drawn for a new instruction.
    pub open spec fn upsert_id(self, source: InstructionSourceView, fresh: Seq<char>) -> Seq<char> {
        match self.reusable(source) {
            Some(id) => id,
            None => fresh,
        }
    }

    /// The registry after an upsert at the moment `at`, with `fresh` drawn
    /// as the handle for a new instruction.
    pub open spec fn upsert(
        self,
        content: Seq<char>,
        source: InstructionSourceView,
        scope: InstructionScopeView,
        fresh: Seq<char>,
        at: Timestamp,
    ) -> PromptManagerView {
        match self.reusable(source) {
            Some(id) => {
                let pos = position(self.instructions, id);
                let rescoped = PromptInstructionView { scope, ..self.instructions[pos] };
                let updated = rescoped.with_content(content, at);
                PromptManagerView { instructions: self.instructions.update(pos, updated), ..self }
            },
            None => {
                let order = (self.order_counter + 1) as u64;
                let created = PromptInstructionView::fresh(
                    fresh,
                    source,
                    scope,
                    content,
                    order,
                    at,
                );
                PromptManagerView {
                    instructions: put(self.instructions, created),
                    applied_order: self.applied_order.push(fresh),
                    source_index: match source.key() {
                        Some(k) => self.source_index.insert(k, fresh),
                        None => self.source_index,
                    },
                    order_counter: order,
                    ..self
                }
            },
        }
    }

    /// The registry after the instruction under `id` was retired at `at`;
    /// unchanged if nothing is stored under `id`.
    pub open spec fn retire(self, id: Seq<char>, at: Timestamp) -> PromptManagerView {
        if holds(self.instructions, id) {
            let pos = position(self.instructions, id);
            PromptManagerView {
                instructions: self.instructions.update(pos, self.instructions[pos].retired(at)),
                ..self
            }
        } else {
            self
        }
    }

    /// The registry after `source` withdrew its instruction at `at`: the
    /// index entry of the source's key is gone, and the instruction it
    /// pointed to is retired. Unchanged if the source has no key or its key
    /// is not indexed.
    pub open spec fn retire_by_source(
        self,
        source: InstructionSourceView,
        at: Timestamp,
    ) -> PromptManagerView {
        match source.key() {
            Some(k) => if self.source_index.contains_key(k) {
                PromptManagerView { source_index: self.source_index.remove(k), ..self }.retire(
                    self.source_index[k],
                    at,
                )
            } else {
                self
            },
            None => self,
        }
    }

    /// Whether `id` is stored and active.
    pub open spec fn is_active(self, id: Seq<char>) -> bool {
        active_among(self.instructions, id)
    }

    /// The active instructions among the first `n` applied handles, in
    /// applied order.
    pub open spec fn active_prefix(self, n: int) -> Seq<PromptInstructionView> {
        active_records(self.instructions, self.applied_order.take(n))
    }

    /// The instructions that take part in composition: the applied handles
    /// that are stored and active, in applied order.
    pub open spec fn active_stack(self) -> Seq<PromptInstructionView> {
        active_records(self.instructions, self.applied_order)
    }

    /// The contents of the active stack.
    pub open spec fn active_texts(self) -> Seq<Seq<char>> {
        self.active_stack().map_values(|i: PromptInstructionView| i.content)
    }

    /// The exportable state: everything but the source index, which is
    /// derived from the instructions on the way back.
    pub open spec fn snapshot(self) -> PromptStateSnapshotView {
        PromptStateSnapshotView {
            override_prompt: self.override_prompt,
            instructions: self.instructions,
            applied_order: self.applied_order,
            current_date_timestamp: self.current_date_timestamp,
            order_counter: self.order_counter,
        }
    }

    /// The registry that a snapshot describes: its instructions stored one
    /// after the other, a later one replacing an earlier one of the same
    /// handle, and the source index derived from what is stored.
    pub open spec fn restored(snapshot: PromptStateSnapshotView) -> PromptManagerView {
        let records = stored(snapshot.instructions);
        PromptManagerView {
            override_prompt: snapshot.override_prompt,
            current_date_timestamp: snapshot.current_date_timestamp,
            instructions: records,
            applied_order: snapshot.applied_order,
            source_index: indexed(records),
            order_counter: snapshot.order_counter,
        }
    }
}

/// Whether `id` finds an active record among `records`.
pub open spec fn active_among(records: Seq<PromptInstructionView>, id: Seq<char>) -> bool {
    holds(records, id) && records[position(records, id)].state == InstructionState::Active
}

/// The active records that the handles of `applied` find, in the order of
/// `applied`.
pub open spec fn active_records(
    records: Seq<PromptInstructionView>,
    applied: Seq<Seq<char>>,
) -> Seq<PromptInstructionView> {
    applied.filter(|id: Seq<char>| active_among(records, id)).map_values(
        |id: Seq<char>| records[position(records, id)],
    )
}

/// What is stored after the records of `list` were put one after the other.
pub open spec fn stored(list: Seq<PromptInstructionView>) -> Seq<PromptInstructionView>
    decreases list.len(),
{
    if list.len() == 0 {
        Seq::empty()
    } else {
        put(stored(list.drop_last()), list.last())
    }
}

/// The source index derived from `records`: each keyed source points to the
/// last record that carries its key.
pub open spec fn indexed(records: Seq<PromptInstructionView>) -> Map<Seq<char>, Seq<char>>
    decreases records.len(),
{
    if records.len() == 0 {
        Map::empty()
    } else {
        let earlier = indexed(records.drop_last());
        match records.last().source.key() {
            Some(k) => earlier.insert(k, records.last().id),
            None => earlier,
        }
    }
}

/// The values behind a list of borrowed instructions.
pub open spec fn borrowed_views(list: Seq<&PromptInstruction>) -> Seq<PromptInstructionView> {
    list.map_values(|i: &PromptInstruction| i@)
}

/// In a list without repeated handles, a handle is found where it stands.
pub proof fn lemma_position_unique(records: Seq<PromptInstructionView>, i: int)
    requires
        distinct_ids(records),
        0 <= i < records.len(),
    ensures
        holds(records, records[i].id),
        position(records, records[i].id) == i,
{
    let p = position(records, records[i].id);
    assert(0 <= p < records.len() && records[p].id == records[i].id);
    if p < i {
        assert(records[p].id != records[i].id);
    } else if i < p {
        assert(records[i].id != records[p].id);
    }
}

/// One more applied handle adds its instruction to the active ones exactly
/// when it is stored and active.
pub proof fn lemma_active_prefix_step(view: PromptManagerView, n: int)
    requires
        0 <= n < view.applied_order.len(),
    ensures
        view.active_prefix(n + 1) == if view.is_active(view.applied_order[n]) {
            view.active_prefix(n).push(
                view.instructions[position(view.instructions, view.applied_order[n])],
            )
        } else {
            view.active_prefix(n)
        },
{
    let keep = |id: Seq<char>| active_among(view.instructions, id);
    let fetch = |id: Seq<char>| view.instructions[position(view.instructions, id)];
    let id = view.applied_order[n];
    view.applied_order.lemma_take_succ_push(n);
    view.applied_order.take(n).lemma_filter_push(id, keep);
    if view.is_active(id) {
        view.applied_order.take(n).filter(keep).lemma_push_map_commute(fetch, id);
    }
}

/// Replacing a record by one with the same handle keeps the handles distinct.
pub proof fn lemma_update_distinct(
    records: Seq<PromptInstructionView>,
    i: int,
    record: PromptInstructionView,
)
    requires
        distinct_ids(records),
        0 <= i < records.len(),
        record.id == records[i].id,
    ensures
        distinct_ids(records.update(i, record)),
{
    let after = records.update(i, record);
    assert forall|a: int, b: int| 0 <= a < b < after.len() implies (#[trigger] after[a]).id
        != (#[trigger] after[b]).id by {
        assert(after[a].id == records[a].id);
        assert(after[b].id == records[b].id);
    }
}

/// Storing a record keeps the handles distinct.
pub proof fn lemma_put_distinct(records: Seq<PromptInstructionView>, record: PromptInstructionView)
    requires
        distinct_ids(records),
    ensures
        distinct_ids(put(records, record)),
{
    let after = put(records, record);
    if holds(records, record.id) {
        let p = position(records, record.id);
        assert forall|i: int, j: int| 0 <= i < j < after.len() implies (#[trigger] after[i]).id
            != (#[trigger] after[j]).id by {
            assert(after[i].id == records[i].id);
            assert(after[j].id == records[j].id);
        }
    } else {
        assert forall|i: int, j: int| 0 <= i < j < after.len() implies (#[trigger] after[i]).id
            != (#[trigger] after[j]).id by {
            if j < records.len() {
                assert(after[i].id == records[i].id);
                assert(after[j].id == records[j].id);
            } else {
                assert(after[i] == records[i]);
            }
        }
    }
}

/// The place of the record with handle `id`, if one is stored.
fn find_record(records: &Vec<PromptInstruction>, id: &InstructionId) -> (found: Option<usize>)
    ensures
        match found {
            Some(i) => i < records.len() && records[i as int]@.id == id@,
            None => !holds(instruction_views(records@), id@),
        },
{
    let mut i: usize = 0;
    while i < records.len()
        invariant
            i <= records.len(),
            forall|j: int| 0 <= j < i ==> records[j]@.id != id@,
        decreases records.len() - i,
    {
        if records[i].id == *id {
            return Some(i);
        }
        i += 1;
    }
    None
}

/// The registry of prompt instructions.
pub struct PromptManager {
    system_prompt_override: Option<String>,
    current_date_timestamp: String,
    instructions: Vec<PromptInstruction>,
    applied_order: Vec<InstructionId>,
    source_index: StringHashMap<InstructionId>,
    order_counter: u64,
}

impl View for PromptManager {
    type V = PromptManagerView;

    closed spec fn view(&self) -> PromptManagerView {
        PromptManagerView {
            override_prompt: opt_text(self.system_prompt_override),
            current_date_timestamp: self.current_date_timestamp@,
            instructions: instruction_views(self.instructions@),
            applied_order: id_views(self.applied_order@),
            source_index: self.source_index@.map_values(|id: InstructionId| id@),
            order_counter: self.order_counter,
        }
    }
}

impl PromptManager {
    /// An empty registry whose renders show `current_date_timestamp`.
    pub fn with_date_timestamp(current_date_timestamp: String) -> (manager: Self)
        ensures
            manager@ == PromptManagerView::empty(current_date_timestamp@),
            manager@.wf(),
            chronological(manager@),
    {
        let manager = PromptManager {
            system_prompt_override: None,
            current_date_timestamp,
            instructions: Vec::new(),
            applied_order: Vec::new(),
            source_index: StringHashMap::new(),
            order_counter: 0,
        };
        assert(manager@.source_index =~= Map::empty());
        assert(manager@.instructions =~= Seq::empty());
        assert(manager@.applied_order =~= Seq::empty());
        manager
    }

    /// Registers `instruction` for `source` at the moment `at`, with
    /// `fresh_id` as the handle to use if a new instruction is created.
    ///
    /// If the source has a key that is indexed to a stored instruction, that
    /// instruction takes the new scope and content, is rehashed and becomes
    /// active again, and keeps its handle, order and place. Otherwise a new
    /// active instruction is stored under `fresh_id` with the next order
    /// number, appended to the applied order and indexed by the key.
    pub fn upsert_instruction(
        &mut self,
        instruction: String,
        source: InstructionSource,
        scope: InstructionScope,
        fresh_id: InstructionId,
        at: Timestamp,
    ) -> (id: InstructionId)
        requires
            old(self)@.wf(),
            old(self)@.reusable(source@) is None ==> old(self)@.order_counter < u64::MAX,
        ensures
            final(self)@ == old(self)@.upsert(instruction@, source@, scope@, fresh_id@, at),
            final(self)@.wf(),
            id@ == old(self)@.upsert_id(source@, fresh_id@),
            chronological(old(self)@) && (old(self)@.reusable(source@) is None ==> !holds(
                old(self)@.instructions,
                fresh_id@,
            )) ==> chronological(final(self)@),
    {
        let ghost before = self@;
        let ghost after = before.upsert(instruction@, source@, scope@, fresh_id@, at);
        proof {
            if chronological(before) && (before.reusable(source@) is None ==> !holds(
                before.instructions,
                fresh_id@,
            )) {
                lemma_upsert_keeps_chronological(
                    before,
                    instruction@,
                    source@,
                    scope@,
                    fresh_id@,
                    at,
                );
            }
        }
        let key = source.key();
        let existing: Option<usize> = match &key {
            Some(k) => match self.source_index.get(k.as_str()) {
                Some(indexed) => find_record(&self.instructions, indexed),
                None => None,
            },
            None => None,
        };
        match existing {
            Some(pos) => {
                proof {
                    lemma_position_unique(before.instructions, pos as int);
                    assert(before.reusable(source@) == Some(before.instructions[pos as int].id));
                }
                let id = self.instructions[pos].id.clone();
                self.instructions[pos].scope = scope;
                self.instructions[pos].update_content_at(instruction, at);
                proof {
                    assert(self@.instructions =~= after.instructions);
                    lemma_update_distinct(
                        before.instructions,
                        pos as int,
                        after.instructions[pos as int],
                    );
                }
                id
            },
            None => {
                assert(before.reusable(source@) is None);
                self.order_counter = self.order_counter + 1;
                let order = self.order_counter;
                let id = fresh_id.clone();
                let record =
                    PromptInstruction::new(fresh_id, source, scope, instruction, order, at);
                if let Some(k) = key {
                    self.source_index.insert(k, id.clone());
                }
                self.applied_order.push(id.clone());
                put_record(&mut self.instructions, record);
                proof {
                    assert(self@.source_index =~= after.source_index);
                    assert(self@.applied_order =~= after.applied_order);
                }
                id
            },
        }
    }

    /// An empty registry whose renders show the UTC date and hour of `now`.
    /// Keeping to the hour makes every render within that hour the same
    /// text. `None` if the calendar cannot represent `now`.
    pub fn new_at(now: Timestamp) -> (manager: Option<Self>)
        ensures
            match formatted_utc(now.secs, now.nanos, hour_pattern()) {
                Some(text) => manager is Some && manager->0@ == PromptManagerView::empty(text)
                    && manager->0@.wf(),
                None => manager is None,
            },
    {
        match format_utc(now.secs, now.nanos, "%Y-%m-%d %H:00") {
            Some(text) => Some(PromptManager::with_date_timestamp(text)),
            None => None,
        }
    }

    /// An empty registry whose renders show the UTC date and hour at which
    /// it was made. The clock decides which hour that is; the text is that
    /// hour written as [`Self::new_at`] writes it.
    pub fn new() -> (manager: Self)
        ensures
            manager@ == PromptManagerView::empty(manager@.current_date_timestamp),
            manager@.wf(),
            chronological(manager@),
            exists|t: Timestamp| #[trigger]
                formatted_utc(t.secs, t.nanos, hour_pattern()) == Some(
                    manager@.current_date_timestamp,
                ),
    {
        let at = now();
        PromptManager::new_at(at).unwrap()
    }

    /// An empty registry whose renders show the date and time `dt`, to the
    /// second. `None` if the calendar cannot represent `dt`.
    pub fn with_timestamp(dt: Timestamp) -> (manager: Option<Self>)
        ensures
            match formatted_utc(dt.secs, dt.nanos, second_pattern()) {
                Some(text) => manager is Some && manager->0@ == PromptManagerView::empty(text)
                    && manager->0@.wf(),
                None => manager is None,
            },
    {
        match format_utc(dt.secs, dt.nanos, "%Y-%m-%d %H:%M:%S") {
            Some(text) => Some(PromptManager::with_date_timestamp(text)),
            None => None,
        }
    }

    /// The handle of the stored instruction that an upsert from `source`
    /// would update; `None` if the upsert would create a new instruction.
    pub fn instruction_for_source(
        &self,
        source: &InstructionSource,
    ) -> (found: Option<InstructionId>)
        ensures
            opt_id(found) == self@.reusable(source@),
    {
        match source.key() {
            Some(key) => match self.source_index.get(key.as_str()) {
                Some(indexed) => match find_record(&self.instructions, indexed) {
                    Some(pos) => {
                        assert(self@.instructions[pos as int].id == indexed@);
                        Some(indexed.clone())
                    },
                    None => None,
                },
                None => None,
            },
            None => None,
        }
    }

    /// The order number given out last.
    pub fn order_counter(&self) -> (n: u64)
        ensures
            n == self@.order_counter,
    {
        self.order_counter
    }

    /// The date text that every render of this registry shows.
    pub fn current_date_timestamp(&self) -> (text: &str)
        ensures
            text@ == self@.current_date_timestamp,
    {
        self.current_date_timestamp.as_str()
    }

    /// The text that replaces the default template, if one was set.
    pub fn system_prompt_override(&self) -> (text: Option<&str>)
        ensures
            match text {
                Some(t) => self@.override_prompt == Some(t@),
                None => self@.override_prompt is None,
            },
    {
        match &self.system_prompt_override {
            Some(t) => Some(t.as_str()),
            None => None,
        }
    }

    /// Registers `instruction` for `source`, see
    /// [`Self::upsert_instruction`]. The clock decides the time of the
    /// change, and chance the handle of a new instruction. The history stays
    /// in order unless the handle drawn for a new instruction was in use.
    pub fn add_instruction_with_metadata(
        &mut self,
        instruction: String,
        source: InstructionSource,
        scope: InstructionScope,
    ) -> (id: InstructionId)
        requires
            old(self)@.wf(),
            old(self)@.reusable(source@) is None ==> old(self)@.order_counter < u64::MAX,
        ensures
            exists|fresh: Seq<char>, at: Timestamp|
                final(self)@ == #[trigger] old(self)@.upsert(
                    instruction@,
                    source@,
                    scope@,
                    fresh,
                    at,
                ) && id@ == old(self)@.upsert_id(source@, fresh) && fresh.len() == 36
                    && in_calendar(at),
            final(self)@.wf(),
            chronological(old(self)@) && (old(self)@.reusable(source@) is Some || !holds(
                old(self)@.instructions,
                id@,
            )) ==> chronological(final(self)@),
    {
        let fresh_id = InstructionId::new_random();
        let at = now();
        self.upsert_instruction(instruction, source, scope, fresh_id, at)
    }

    /// Adds `instruction` as a session instruction of unknown source: always
    /// a new instruction, never a replacement. The history stays in order
    /// if the registry grew, that is, unless the handle drawn was in use.
    pub fn add_system_prompt_extra(&mut self, instruction: String)
        requires
            old(self)@.wf(),
            old(self)@.order_counter < u64::MAX,
        ensures
            exists|fresh: Seq<char>, at: Timestamp|
                final(self)@ == #[trigger] old(self)@.upsert(
                    instruction@,
                    InstructionSourceView::Unknown,
                    InstructionScopeView::Session,
                    fresh,
                    at,
                ) && fresh.len() == 36 && in_calendar(at),
            final(self)@.wf(),
            chronological(old(self)@) && old(self)@.instructions.len() < final(self)@.instructions.len()
                ==> chronological(final(self)@),
    {
        let ghost before = self@;
        let id = self.add_instruction_with_metadata(
            instruction,
            InstructionSource::Unknown,
            InstructionScope::Session,
        );
        proof {
            if holds(before.instructions, id@) {
                assert(self@.instructions.len() == before.instructions.len());
            }
        }
    }

    /// Sets the text that replaces the default template.
    pub fn set_system_prompt_override(&mut self, template: String)
        ensures
            final(self)@ == (PromptManagerView {
                override_prompt: Some(template@),
                ..old(self)@
            }),
    {
        self.system_prompt_override = Some(template);
    }

    /// The instruction stored under `instruction_id`, active or not.
    pub fn get_instruction(
        &self,
        instruction_id: &InstructionId,
    ) -> (found: Option<&PromptInstruction>)
        requires
            self@.wf(),
        ensures
            match found {
                Some(i) => self@.lookup(instruction_id@) == Some(i@),
                None => self@.lookup(instruction_id@) is None,
            },
    {
        match find_record(&self.instructions, instruction_id) {
            Some(pos) => {
                proof {
                    lemma_position_unique(self@.instructions, pos as int);
                }
                Some(&self.instructions[pos])
            },
            None => None,
        }
    }

    /// The active instructions in the order in which they were applied.
    pub fn instruction_stack(&self) -> (stack: Vec<&PromptInstruction>)
        requires
            self@.wf(),
        ensures
            borrowed_views(stack@) == self@.active_stack(),
            forall|i: int|
                0 <= i < stack@.len() ==> (#[trigger] stack@[i])@.state == InstructionState::Active,
            chronological(self@) ==> forall|i: int, j: int|
                0 <= i < j < stack@.len() ==> (#[trigger] stack@[i])@.order < (
                #[trigger] stack@[j])@.order,
    {
        let mut stack: Vec<&PromptInstruction> = Vec::new();
        let mut n: usize = 0;
        proof {
            reveal(Seq::filter);
            assert(self@.active_prefix(0) =~= Seq::empty());
            assert(borrowed_views(stack@) =~= Seq::empty());
        }
        while n < self.applied_order.len()
            invariant
                self@.wf(),
                n <= self.applied_order.len(),
                borrowed_views(stack@) == self@.active_prefix(n as int),
                forall|i: int|
                    0 <= i < stack@.len() ==> (#[trigger] stack@[i])@.state
                        == InstructionState::Active,
            decreases self.applied_order.len() - n,
        {
            proof {
                lemma_active_prefix_step(self@, n as int);
            }
            let ghost before = stack@;
            match find_record(&self.instructions, &self.applied_order[n]) {
                Some(pos) => {
                    proof {
                        lemma_position_unique(self@.instructions, pos as int);
                    }
                    if self.instructions[pos].state == InstructionState::Active {
                        stack.push(&self.instructions[pos]);
                        assert(borrowed_views(stack@) =~= borrowed_views(before).push(
                            self.instructions[pos as int]@,
                        ));
                    }
                },
                None => {},
            }
            n += 1;
        }
        assert(self@.applied_order.take(self.applied_order.len() as int) =~= self@.applied_order);
        proof {
            if chronological(self@) {
                assert forall|i: int, j: int| 0 <= i < j < stack@.len() implies (
                #[trigger] stack@[i])@.order < (#[trigger] stack@[j])@.order by {
                    lemma_active_stack_ascending(self@, i, j);
                    assert(borrowed_views(stack@)[i] == stack@[i]@);
                    assert(borrowed_views(stack@)[j] == stack@[j]@);
                }
            }
        }
        stack
    }

    /// The contents of the active instructions, in applied order.
    pub fn active_instruction_texts(&self) -> (texts: Vec<String>)
        requires
            self@.wf(),
        ensures
            crate::text::texts(texts@) == self@.active_texts(),
    {
        let stack = self.instruction_stack();
        let mut texts: Vec<String> = Vec::new();
        let mut i: usize = 0;
        while i < stack.len()
            invariant
                i <= stack.len(),
                borrowed_views(stack@) == self@.active_stack(),
                crate::text::texts(texts@) == self@.active_texts().take(i as int),
            decreases stack.len() - i,
        {
            let ghost before = texts@;
            let text = stack[i].content.clone();
            texts.push(text);
            proof {
                assert(borrowed_views(stack@)[i as int] == stack@[i as int]@);
                assert(self@.active_texts()[i as int] == text@);
                assert(crate::text::texts(texts@) =~= crate::text::texts(before).push(text@));
                assert(self@.active_texts().take(i as int + 1) =~= self@.active_texts().take(
                    i as int,
                ).push(text@));
            }
            i += 1;
        }
        assert(self@.active_texts().take(stack.len() as int) =~= self@.active_texts());
        texts
    }

    /// The whole state of the registry, for storage.
    pub fn snapshot_state(&self) -> (snapshot: PromptStateSnapshot)
        ensures
            snapshot@ == self@.snapshot(),
    {
        let instructions = clone_instructions(&self.instructions);
        let applied_order = clone_ids(&self.applied_order);
        PromptStateSnapshot {
            override_prompt: self.system_prompt_override.clone(),
            instructions,
            applied_order,
            current_date_timestamp: self.current_date_timestamp.clone(),
            order_counter: self.order_counter,
        }
    }

    /// Replaces the whole state by what `snapshot` describes. Nothing of
    /// the state before remains. Instructions are stored in the order of
    /// the snapshot; where two carry the same handle, the later one stays.
    /// The source index is rebuilt from the stored instructions.
    pub fn restore_from_snapshot(&mut self, snapshot: PromptStateSnapshot)
        ensures
            final(self)@ == PromptManagerView::restored(snapshot@),
            final(self)@.wf(),
            forall|r: PromptManagerView|
                r.wf() && chronological(r) && #[trigger] r.snapshot() == snapshot@
                    ==> chronological(final(self)@),
    {
        let ghost listed = snapshot@.instructions;
        proof {
            assert forall|r: PromptManagerView|
                r.wf() && chronological(r) && #[trigger] r.snapshot()
                    == snapshot@ implies chronological(
                PromptManagerView::restored(snapshot@),
            ) by {
                lemma_snapshot_restore(r);
            }
        }
        let PromptStateSnapshot {
            override_prompt,
            instructions,
            applied_order,
            current_date_timestamp,
            order_counter,
        } = snapshot;
        let mut records: Vec<PromptInstruction> = Vec::new();
        proof {
            assert(instruction_views(records@) =~= stored(listed.take(0)));
        }
        for record in it: instructions
            invariant
                instruction_views(it.seq()) == listed,
                instruction_views(records@) == stored(listed.take(it.index() as int)),
                distinct_ids(instruction_views(records@)),
        {
            proof {
                let n = it.index() as int;
                assert(listed.take(n + 1).drop_last() =~= listed.take(n));
            }
            put_record(&mut records, record);
        }
        assert(listed.take(listed.len() as int) =~= listed);
        let mut index: StringHashMap<InstructionId> = StringHashMap::new();
        let mut i: usize = 0;
        proof {
            assert(index@.map_values(|id: InstructionId| id@) =~= indexed(
                instruction_views(records@).take(0),
            ));
        }
        while i < records.len()
            invariant
                i <= records.len(),
                index@.map_values(|id: InstructionId| id@) == indexed(
                    instruction_views(records@).take(i as int),
                ),
            decreases records.len() - i,
        {
            let ghost before = index@.map_values(|id: InstructionId| id@);
            proof {
                let views = instruction_views(records@);
                assert(views.take(i as int + 1).drop_last() =~= views.take(i as int));
            }
            if let Some(key) = records[i].source.key() {
                index.insert(key, records[i].id.clone());
                assert(index@.map_values(|id: InstructionId| id@) =~= before.insert(
                    key@,
                    records[i as int].id@,
                ));
            }
            i += 1;
        }
        assert(instruction_views(records@).take(records.len() as int) =~= instruction_views(
            records@,
        ));
        self.system_prompt_override = override_prompt;
        self.current_date_timestamp = current_date_timestamp;
        self.order_counter = order_counter;
        self.instructions = records;
        self.applied_order = applied_order;
        self.source_index = index;
    }

    /// Retires the instruction under `instruction_id` at the moment `at`
    /// and returns its handle; `None`, and no change, if nothing is stored
    /// under it. Retiring a retired instruction succeeds again.
    pub fn retire_instruction_at(
        &mut self,
        instruction_id: &InstructionId,
        at: Timestamp,
    ) -> (id: Option<InstructionId>)
        requires
            old(self)@.wf(),
        ensures
            final(self)@ == old(self)@.retire(instruction_id@, at),
            final(self)@.wf(),
            match id {
                Some(i) => holds(old(self)@.instructions, instruction_id@) && i@
                    == instruction_id@,
                None => !holds(old(self)@.instructions, instruction_id@),
            },
            chronological(old(self)@) ==> chronological(final(self)@),
    {
        let ghost before = self@;
        proof {
            if chronological(before) {
                lemma_retire_keeps_chronological(before, instruction_id@, at);
            }
        }
        match find_record(&self.instructions, instruction_id) {
            Some(pos) => {
                proof {
                    lemma_position_unique(before.instructions, pos as int);
                }
                self.instructions[pos].state = InstructionState::Retired;
                self.instructions[pos].updated_at = at;
                proof {
                    let after = before.retire(instruction_id@, at);
                    assert(self@.instructions =~= after.instructions);
                    lemma_update_distinct(
                        before.instructions,
                        pos as int,
                        after.instructions[pos as int],
                    );
                }
                Some(instruction_id.clone())
            },
            None => None,
        }
    }

    /// Retires the instruction under `instruction_id` as of now, see
    /// [`Self::retire_instruction_at`].
    pub fn retire_instruction(
        &mut self,
        instruction_id: &InstructionId,
    ) -> (id: Option<InstructionId>)
        requires
            old(self)@.wf(),
        ensures
            exists|at: Timestamp|
                final(self)@ == #[trigger] old(self)@.retire(instruction_id@, at) && in_calendar(
                    at,
                ),
            final(self)@.wf(),
            match id {
                Some(i) => holds(old(self)@.instructions, instruction_id@) && i@
                    == instruction_id@,
                None => !holds(old(self)@.instructions, instruction_id@),
            },
            chronological(old(self)@) ==> chronological(final(self)@),
    {
        let at = now();
        self.retire_instruction_at(instruction_id, at)
    }

    /// Withdraws the instruction of `source` at the moment `at`: removes
    /// the index entry of the source's key and retires the instruction it
    /// pointed to, whose handle is returned. `None`, and no change, if the
    /// source has no key or its key is not indexed; `None` also if the
    /// entry pointed to nothing stored, in which case only the entry goes.
    pub fn retire_instruction_by_source_at(
        &mut self,
        source: &InstructionSource,
        at: Timestamp,
    ) -> (id: Option<InstructionId>)
        requires
            old(self)@.wf(),
        ensures
            final(self)@ == old(self)@.retire_by_source(source@, at),
            final(self)@.wf(),
            opt_id(id) == old(self)@.reusable(source@),
            chronological(old(self)@) ==> chronological(final(self)@),
    {
        let ghost before = self@;
        proof {
            if chronological(before) {
                lemma_retire_by_source_keeps_chronological(before, source@, at);
            }
        }
        let key = match source.key() {
            Some(k) => k,
            None => {
                return None;
            },
        };
        let instruction_id = match self.source_index.get(key.as_str()) {
            Some(indexed) => indexed.clone(),
            None => {
                return None;
            },
        };
        self.source_index.remove(key.as_str());
        assert(self@.source_index =~= before.source_index.remove(key@));
        self.retire_instruction_at(&instruction_id, at)
    }

    /// Withdraws the instruction of `source` as of now, see
    /// [`Self::retire_instruction_by_source_at`].
    pub fn retire_instruction_by_source(
        &mut self,
        source: &InstructionSource,
    ) -> (id: Option<InstructionId>)
        requires
            old(self)@.wf(),
        ensures
            exists|at: Timestamp|
                final(self)@ == #[trigger] old(self)@.retire_by_source(source@, at)
                    && in_calendar(at),
            final(self)@.wf(),
            opt_id(id) == old(self)@.reusable(source@),
            chronological(old(self)@) ==> chronological(final(self)@),
    {
        let at = now();
        self.retire_instruction_by_source_at(source, at)
    }
}

impl Default for PromptManager {
    /// The registry that [`PromptManager::new`] makes.
    fn default() -> (manager: Self)
        ensures
            manager@ == PromptManagerView::empty(manager@.current_date_timestamp),
            manager@.wf(),
            chronological(manager@),
            exists|t: Timestamp| #[trigger]
                formatted_utc(t.secs, t.nanos, hour_pattern()) == Some(
                    manager@.current_date_timestamp,
                ),
    {
        PromptManager::new()
    }
}

/// The text of an optional handle.
pub open spec fn opt_id(id: Option<InstructionId>) -> Option<Seq<char>> {
    match id {
        Some(i) => Some(i@),
        None => None,
    }
}

/// Stores `record` under its handle: in the place of the record that
/// carried the handle before, or at the end.
fn put_record(records: &mut Vec<PromptInstruction>, record: PromptInstruction)
    requires
        distinct_ids(instruction_views(old(records)@)),
    ensures
        instruction_views(final(records)@) == put(instruction_views(old(records)@), record@),
        distinct_ids(instruction_views(final(records)@)),
{
    proof {
        lemma_put_distinct(instruction_views(records@), record@);
    }
    match find_record(records, &record.id) {
        Some(pos) => {
            proof {
                lemma_position_unique(instruction_views(records@), pos as int);
            }
            records[pos] = record;
            assert(instruction_views(records@) =~= put(instruction_views(old(records)@), record@));
        },
        None => {
            records.push(record);
            assert(instruction_views(records@) =~= put(instruction_views(old(records)@), record@));
        },
    }
}

} // verus!
