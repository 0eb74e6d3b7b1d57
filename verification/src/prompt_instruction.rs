//! The value types of the registry: identifiers, provenance, scope,
//! lifecycle state, the instruction record and the exportable snapshot.

use crate::clock::{in_calendar, now, opt_text, Timestamp};
use crate::digest::{hash_instruction_content, text_digest};
use uuid::Uuid;
use vstd::prelude::*;
use vstd::std_specs::cmp::PartialEqSpecImpl;
use vstd::string::*;

verus! {

/// An opaque handle for one instruction. Two handles are equal when their
/// texts are.
#[derive(Debug, Eq, Hash)]
pub struct InstructionId(String);

impl View for InstructionId {
    type V = Seq<char>;

    open spec fn view(&self) -> Seq<char> {
        self.text()
    }
}

impl InstructionId {
    /// The text of the handle.
    pub closed spec fn text(&self) -> Seq<char> {
        self.0@
    }

    /// Draws a new random handle. Trusted: `Uuid::new_v4` of the uuid crate
    /// and its `to_string`, which writes the 128 bits as 32 lower-case
    /// hexadecimal digits in five groups separated by hyphens. Which handle
    /// comes back is left open; only its length is claimed.
    #[verifier::external_body]
    pub fn new_random() -> (id: Self)
        ensures
            id@.len() == 36,
    {
        Self(Uuid::new_v4().to_string())
    }

    /// The handle with the given text, as read back from a stored snapshot.
    pub fn from_string(text: String) -> (id: Self)
        ensures
            id@ == text@,
    {
        Self(text)
    }

    /// The text of the handle.
    pub fn as_str(&self) -> (text: &str)
        ensures
            text@ == self@,
    {
        self.0.as_str()
    }

    /// The text of the handle, as an owned string.
    pub fn to_string(&self) -> (text: String)
        ensures
            text@ == self@,
    {
        self.0.clone()
    }
}

impl Clone for InstructionId {
    fn clone(&self) -> (copy: Self)
        ensures
            copy@ == self@,
    {
        InstructionId(self.0.clone())
    }
}

impl PartialEq for InstructionId {
    fn eq(&self, other: &Self) -> (same: bool) {
        self.0 == other.0
    }
}

impl PartialEqSpecImpl for InstructionId {
    open spec fn obeys_eq_spec() -> bool {
        true
    }

    open spec fn eq_spec(&self, other: &Self) -> bool {
        self@ == other@
    }
}

/// Where an instruction stands in its lifecycle. `Rejected` is kept so that
/// stored snapshots that name it can be read; nothing here produces it.
#[derive(Clone, Copy, Debug, PartialEq, Eq, Structural)]
pub enum InstructionState {
    Active,
    Retired,
    Rejected,
}

impl Default for InstructionState {
    fn default() -> (state: Self)
        ensures
            state == InstructionState::Active,
    {
        InstructionState::Active
    }
}

/// How long an instruction is meant to apply. Carried along; composition
/// does not filter by it.
#[derive(Debug, PartialEq, Eq, Hash)]
pub enum InstructionScope {
    Session,
    Conversation,
    Tool { name: String },
    Persistent,
}

/// The mathematical value of an [`InstructionScope`].
pub enum InstructionScopeView {
    Session,
    Conversation,
    Tool { name: Seq<char> },
    Persistent,
}

impl View for InstructionScope {
    type V = InstructionScopeView;

    open spec fn view(&self) -> InstructionScopeView {
        match self {
            InstructionScope::Session => InstructionScopeView::Session,
            InstructionScope::Conversation => InstructionScopeView::Conversation,
            InstructionScope::Tool { name } => InstructionScopeView::Tool { name: name@ },
            InstructionScope::Persistent => InstructionScopeView::Persistent,
        }
    }
}

impl Clone for InstructionScope {
    fn clone(&self) -> (copy: Self)
        ensures
            copy@ == self@,
    {
        match self {
            InstructionScope::Session => InstructionScope::Session,
            InstructionScope::Conversation => InstructionScope::Conversation,
            InstructionScope::Tool { name } => InstructionScope::Tool { name: name.clone() },
            InstructionScope::Persistent => InstructionScope::Persistent,
        }
    }
}

impl Default for InstructionScope {
    fn default() -> (scope: Self)
        ensures
            scope@ == InstructionScopeView::Session,
    {
        InstructionScope::Session
    }
}

/// Who contributed an instruction.
#[derive(Debug, PartialEq, Eq)]
pub enum InstructionSource {
    CliDefault,
    CliUser,
    Hint { path: String },
    Recipe { id: String },
    FinalOutput,
    Api { route: String },
    Extension { name: String },
    Custom { label: String },
    Unknown,
}

/// The mathematical value of an [`InstructionSource`].
pub enum InstructionSourceView {
    CliDefault,
    CliUser,
    Hint { path: Seq<char> },
    Recipe { id: Seq<char> },
    FinalOutput,
    Api { route: Seq<char> },
    Extension { name: Seq<char> },
    Custom { label: Seq<char> },
    Unknown,
}

impl InstructionSourceView {
    /// The canonical key under which instructions of this source are
    /// deduplicated; `Unknown` has none.
    pub open spec fn key(self) -> Option<Seq<char>> {
        match self {
            InstructionSourceView::CliDefault => Some("cli_default"@),
            InstructionSourceView::CliUser => Some("cli_user"@),
            InstructionSourceView::Hint { path } => Some("hint:"@ + path),
            InstructionSourceView::Recipe { id } => Some("recipe:"@ + id),
            InstructionSourceView::FinalOutput => Some("final_output"@),
            InstructionSourceView::Api { route } => Some("api:"@ + route),
            InstructionSourceView::Extension { name } => Some("extension:"@ + name),
            InstructionSourceView::Custom { label } => Some("custom:"@ + label),
            InstructionSourceView::Unknown => None,
        }
    }

    /// The name shown for this source in audit records.
    pub open spec fn label(self) -> Seq<char> {
        match self {
            InstructionSourceView::CliDefault => "CLI default instructions"@,
            InstructionSourceView::CliUser => "CLI user instructions"@,
            InstructionSourceView::Hint { path } => "Hint "@ + path,
            InstructionSourceView::Recipe { id } => "Recipe "@ + id,
            InstructionSourceView::FinalOutput => "Final output tool"@,
            InstructionSourceView::Api { route } => "API route "@ + route,
            InstructionSourceView::Extension { name } => "Extension "@ + name,
            InstructionSourceView::Custom { label } => label,
            InstructionSourceView::Unknown => "Unknown"@,
        }
    }
}

impl View for InstructionSource {
    type V = InstructionSourceView;

    open spec fn view(&self) -> InstructionSourceView {
        match self {
            InstructionSource::CliDefault => InstructionSourceView::CliDefault,
            InstructionSource::CliUser => InstructionSourceView::CliUser,
            InstructionSource::Hint { path } => InstructionSourceView::Hint { path: path@ },
            InstructionSource::Recipe { id } => InstructionSourceView::Recipe { id: id@ },
            InstructionSource::FinalOutput => InstructionSourceView::FinalOutput,
            InstructionSource::Api { route } => InstructionSourceView::Api { route: route@ },
            InstructionSource::Extension { name } => InstructionSourceView::Extension {
                name: name@,
            },
            InstructionSource::Custom { label } => InstructionSourceView::Custom { label: label@ },
            InstructionSource::Unknown => InstructionSourceView::Unknown,
        }
    }
}

impl Clone for InstructionSource {
    fn clone(&self) -> (copy: Self)
        ensures
            copy@ == self@,
    {
        match self {
            InstructionSource::CliDefault => InstructionSource::CliDefault,
            InstructionSource::CliUser => InstructionSource::CliUser,
            InstructionSource::Hint { path } => InstructionSource::Hint { path: path.clone() },
            InstructionSource::Recipe { id } => InstructionSource::Recipe { id: id.clone() },
            InstructionSource::FinalOutput => InstructionSource::FinalOutput,
            InstructionSource::Api { route } => InstructionSource::Api { route: route.clone() },
            InstructionSource::Extension { name } => InstructionSource::Extension {
                name: name.clone(),
            },
            InstructionSource::Custom { label } => InstructionSource::Custom {
                label: label.clone(),
            },
            InstructionSource::Unknown => InstructionSource::Unknown,
        }
    }
}

/// `prefix` followed by `rest`.
fn prefixed(prefix: &str, rest: &str) -> (out: String)
    ensures
        out@ == prefix@ + rest@,
{
    let mut out = prefix.to_owned();
    out.append(rest);
    out
}

impl InstructionSource {
    /// The canonical key of this source, by which a later instruction of
    /// the same source replaces an earlier one. `Unknown` has no key.
    pub fn key(&self) -> (key: Option<String>)
        ensures
            opt_text(key) == self@.key(),
    {
        match self {
            InstructionSource::CliDefault => Some("cli_default".to_owned()),
            InstructionSource::CliUser => Some("cli_user".to_owned()),
            InstructionSource::Hint { path } => Some(prefixed("hint:", path.as_str())),
            InstructionSource::Recipe { id } => Some(prefixed("recipe:", id.as_str())),
            InstructionSource::FinalOutput => Some("final_output".to_owned()),
            InstructionSource::Api { route } => Some(prefixed("api:", route.as_str())),
            InstructionSource::Extension { name } => Some(prefixed("extension:", name.as_str())),
            InstructionSource::Custom { label } => Some(prefixed("custom:", label.as_str())),
            InstructionSource::Unknown => None,
        }
    }

    /// The name shown for this source in audit records.
    pub fn label(&self) -> (label: String)
        ensures
            label@ == self@.label(),
    {
        match self {
            InstructionSource::CliDefault => "CLI default instructions".to_owned(),
            InstructionSource::CliUser => "CLI user instructions".to_owned(),
            InstructionSource::Hint { path } => prefixed("Hint ", path.as_str()),
            InstructionSource::Recipe { id } => prefixed("Recipe ", id.as_str()),
            InstructionSource::FinalOutput => "Final output tool".to_owned(),
            InstructionSource::Api { route } => prefixed("API route ", route.as_str()),
            InstructionSource::Extension { name } => prefixed("Extension ", name.as_str()),
            InstructionSource::Custom { label } => label.clone(),
            InstructionSource::Unknown => "Unknown".to_owned(),
        }
    }
}

/// One registered instruction.
#[derive(Debug)]
pub struct PromptInstruction {
    pub id: InstructionId,
    pub source: InstructionSource,
    pub scope: InstructionScope,
    pub state: InstructionState,
    pub content: String,
    pub content_hash: String,
    pub created_at: Timestamp,
    pub updated_at: Timestamp,
    pub order: u64,
}

/// The mathematical value of a [`PromptInstruction`].
pub struct PromptInstructionView {
    pub id: Seq<char>,
    pub source: InstructionSourceView,
    pub scope: InstructionScopeView,
    pub state: InstructionState,
    pub content: Seq<char>,
    pub content_hash: Seq<char>,
    pub created_at: Timestamp,
    pub updated_at: Timestamp,
    pub order: u64,
}

impl PromptInstructionView {
    /// The instruction as it is first registered: active, hashed, created
    /// and updated at the same moment.
    pub open spec fn fresh(
        id: Seq<char>,
        source: InstructionSourceView,
        scope: InstructionScopeView,
        content: Seq<char>,
        order: u64,
        at: Timestamp,
    ) -> PromptInstructionView {
        PromptInstructionView {
            id,
            source,
            scope,
            state: InstructionState::Active,
            content,
            content_hash: text_digest(content),
            created_at: at,
            updated_at: at,
            order,
        }
    }

    /// The instruction after its content was replaced at `at`: rehashed and
    /// active again; identity, source, scope, creation time and order stay.
    pub open spec fn with_content(
        self,
        content: Seq<char>,
        at: Timestamp,
    ) -> PromptInstructionView {
        PromptInstructionView {
            content,
            content_hash: text_digest(content),
            updated_at: at,
            state: InstructionState::Active,
            ..self
        }
    }

    /// The instruction after it was retired at `at`.
    pub open spec fn retired(self, at: Timestamp) -> PromptInstructionView {
        PromptInstructionView { state: InstructionState::Retired, updated_at: at, ..self }
    }

    /// Whether the stored hash is the digest of the stored content.
    pub open spec fn hash_matches(self) -> bool {
        self.content_hash == text_digest(self.content)
    }
}

impl View for PromptInstruction {
    type V = PromptInstructionView;

    open spec fn view(&self) -> PromptInstructionView {
        PromptInstructionView {
            id: self.id@,
            source: self.source@,
            scope: self.scope@,
            state: self.state,
            content: self.content@,
            content_hash: self.content_hash@,
            created_at: self.created_at,
            updated_at: self.updated_at,
            order: self.order,
        }
    }
}

impl Clone for PromptInstruction {
    fn clone(&self) -> (copy: Self)
        ensures
            copy@ == self@,
    {
        PromptInstruction {
            id: self.id.clone(),
            source: self.source.clone(),
            scope: self.scope.clone(),
            state: self.state,
            content: self.content.clone(),
            content_hash: self.content_hash.clone(),
            created_at: self.created_at,
            updated_at: self.updated_at,
            order: self.order,
        }
    }
}

impl PromptInstruction {
    /// A new active instruction with the hash of its content.
    pub fn new(
        id: InstructionId,
        source: InstructionSource,
        scope: InstructionScope,
        content: String,
        order: u64,
        timestamp: Timestamp,
    ) -> (instruction: Self)
        ensures
            instruction@ == PromptInstructionView::fresh(
                id@,
                source@,
                scope@,
                content@,
                order,
                timestamp,
            ),
            instruction@.hash_matches(),
    {
        let content_hash = hash_instruction_content(content.as_str());
        PromptInstruction {
            id,
            source,
            scope,
            state: InstructionState::Active,
            content,
            content_hash,
            created_at: timestamp,
            updated_at: timestamp,
            order,
        }
    }

    /// Replaces the content as of the moment `at`: the hash is recomputed
    /// and the instruction becomes active again.
    pub fn update_content_at(&mut self, content: String, at: Timestamp)
        ensures
            final(self)@ == old(self)@.with_content(content@, at),
            final(self)@.hash_matches(),
    {
        self.content_hash = hash_instruction_content(content.as_str());
        self.content = content;
        self.updated_at = at;
        self.state = InstructionState::Active;
    }

    /// Replaces the content as of now. The clock decides `updated_at`;
    /// everything else is as in [`Self::update_content_at`].
    pub fn update_content(&mut self, content: String)
        ensures
            exists|at: Timestamp|
                final(self)@ == #[trigger] old(self)@.with_content(content@, at) && in_calendar(
                    at,
                ),
            final(self)@.hash_matches(),
    {
        let at = now();
        self.update_content_at(content, at);
    }
}

/// The whole state of a registry, as it is stored and restored.
#[derive(Debug)]
pub struct PromptStateSnapshot {
    pub override_prompt: Option<String>,
    pub instructions: Vec<PromptInstruction>,
    pub applied_order: Vec<InstructionId>,
    pub current_date_timestamp: String,
    pub order_counter: u64,
}

/// The mathematical value of a [`PromptStateSnapshot`].
pub struct PromptStateSnapshotView {
    pub override_prompt: Option<Seq<char>>,
    pub instructions: Seq<PromptInstructionView>,
    pub applied_order: Seq<Seq<char>>,
    pub current_date_timestamp: Seq<char>,
    pub order_counter: u64,
}

/// The values of a list of instructions.
pub open spec fn instruction_views(list: Seq<PromptInstruction>) -> Seq<PromptInstructionView> {
    list.map_values(|i: PromptInstruction| i@)
}

/// The texts of a list of handles.
pub open spec fn id_views(list: Seq<InstructionId>) -> Seq<Seq<char>> {
    list.map_values(|i: InstructionId| i@)
}

/// A copy of a list of instructions.
pub fn clone_instructions(list: &Vec<PromptInstruction>) -> (copy: Vec<PromptInstruction>)
    ensures
        instruction_views(copy@) == instruction_views(list@),
{
    let mut copy: Vec<PromptInstruction> = Vec::new();
    let mut i: usize = 0;
    while i < list.len()
        invariant
            i <= list.len(),
            instruction_views(copy@) == instruction_views(list@).take(i as int),
        decreases list.len() - i,
    {
        let ghost before = copy@;
        let item = list[i].clone();
        copy.push(item);
        proof {
            assert(instruction_views(list@)[i as int] == item@);
            assert(instruction_views(copy@) =~= instruction_views(before).push(item@));
            assert(instruction_views(list@).take(i as int + 1) =~= instruction_views(list@).take(
                i as int,
            ).push(item@));
        }
        i += 1;
    }
    assert(instruction_views(list@).take(list.len() as int) =~= instruction_views(list@));
    copy
}

/// A copy of a list of handles.
pub fn clone_ids(list: &Vec<InstructionId>) -> (copy: Vec<InstructionId>)
    ensures
        id_views(copy@) == id_views(list@),
{
    let mut copy: Vec<InstructionId> = Vec::new();
    let mut i: usize = 0;
    while i < list.len()
        invariant
            i <= list.len(),
            id_views(copy@) == id_views(list@).take(i as int),
        decreases list.len() - i,
    {
        let ghost before = copy@;
        let item = list[i].clone();
        copy.push(item);
        proof {
            assert(id_views(list@)[i as int] == item@);
            assert(id_views(copy@) =~= id_views(before).push(item@));
            assert(id_views(list@).take(i as int + 1) =~= id_views(list@).take(i as int).push(
                item@,
            ));
        }
        i += 1;
    }
    assert(id_views(list@).take(list.len() as int) =~= id_views(list@));
    copy
}

impl Clone for PromptStateSnapshot {
    fn clone(&self) -> (copy: Self)
        ensures
            copy@ == self@,
    {
        PromptStateSnapshot {
            override_prompt: self.override_prompt.clone(),
            instructions: clone_instructions(&self.instructions),
            applied_order: clone_ids(&self.applied_order),
            current_date_timestamp: self.current_date_timestamp.clone(),
            order_counter: self.order_counter,
        }
    }
}

impl View for PromptStateSnapshot {
    type V = PromptStateSnapshotView;

    open spec fn view(&self) -> PromptStateSnapshotView {
        PromptStateSnapshotView {
            override_prompt: opt_text(self.override_prompt),
            instructions: instruction_views(self.instructions@),
            applied_order: id_views(self.applied_order@),
            current_date_timestamp: self.current_date_timestamp@,
            order_counter: self.order_counter,
        }
    }
}

} // verus!
