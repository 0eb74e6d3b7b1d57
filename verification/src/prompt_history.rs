//! The audit trail of the registry: one event for every change of an
//! instruction, with a digest and a short preview of the content.

use crate::clock::{in_calendar, now, Timestamp};
use crate::digest::{hash_instruction_content, text_digest};
use crate::prompt_instruction::{
    InstructionScope, InstructionScopeView, InstructionSource, InstructionSourceView,
};
use crate::prompt_state::{hash_project_path, StoragePath, StoragePathView};
use crate::sanitize::{sanitize_unicode_tags, strip_tags};
use vstd::prelude::*;
use vstd::string::*;

verus! {

/// The number of code points that a preview shows of the content.
pub const MAX_PREVIEW_CHARS: usize = 200;

/// The mark that ends a preview that was cut.
pub const TRUNCATION_MARK: char = '\u{2026}';

/// What was done to an instruction.
#[derive(Debug, Clone, Copy, PartialEq, Eq, Structural)]
pub enum InstructionAction {
    Register,
    Apply,
    Refresh,
    Retire,
}

/// One entry of the audit trail.
#[derive(Debug)]
pub struct InstructionEvent {
    pub timestamp: Timestamp,
    pub action: InstructionAction,
    pub session_id: String,
    pub project_path: String,
    pub instruction_id: String,
    pub source_label: String,
    pub scope: InstructionScope,
    pub content_hash: String,
    pub preview: String,
    pub order: u64,
}

/// The mathematical value of an [`InstructionEvent`].
pub struct InstructionEventView {
    pub timestamp: Timestamp,
    pub action: InstructionAction,
    pub session_id: Seq<char>,
    pub project_path: Seq<char>,
    pub instruction_id: Seq<char>,
    pub source_label: Seq<char>,
    pub scope: InstructionScopeView,
    pub content_hash: Seq<char>,
    pub preview: Seq<char>,
    pub order: u64,
}

impl View for InstructionEvent {
    type V = InstructionEventView;

    open spec fn view(&self) -> InstructionEventView {
        InstructionEventView {
            timestamp: self.timestamp,
            action: self.action,
            session_id: self.session_id@,
            project_path: self.project_path@,
            instruction_id: self.instruction_id@,
            source_label: self.source_label@,
            scope: self.scope@,
            content_hash: self.content_hash@,
            preview: self.preview@,
            order: self.order,
        }
    }
}

/// The preview of `content`: the sanitized content if it has at most
/// [`MAX_PREVIEW_CHARS`] code points, else its first [`MAX_PREVIEW_CHARS`]
/// code points and the truncation mark.
pub open spec fn preview_of(content: Seq<char>) -> Seq<char> {
    let clean = strip_tags(content);
    if clean.len() <= MAX_PREVIEW_CHARS {
        clean
    } else {
        clean.take(MAX_PREVIEW_CHARS as int).push(TRUNCATION_MARK)
    }
}

/// The sanitized, length-capped preview of `content`.
pub fn preview_from_content(content: &str) -> (preview: String)
    ensures
        preview@ == preview_of(content@),
        preview@.len() <= MAX_PREVIEW_CHARS + 1,
{
    let sanitized = sanitize_unicode_tags(content);
    if sanitized.as_str().unicode_len() <= MAX_PREVIEW_CHARS {
        sanitized
    } else {
        let mut preview = sanitized.as_str().substring_char(0, MAX_PREVIEW_CHARS).to_owned();
        preview.push(TRUNCATION_MARK);
        preview
    }
}

impl InstructionEventView {
    /// The event that records `action` on an instruction at `timestamp`.
    pub open spec fn recorded(
        timestamp: Timestamp,
        action: InstructionAction,
        session_id: Seq<char>,
        project_path: Seq<char>,
        instruction_id: Seq<char>,
        source: InstructionSourceView,
        scope: InstructionScopeView,
        content: Seq<char>,
        order: u64,
    ) -> InstructionEventView {
        InstructionEventView {
            timestamp,
            action,
            session_id,
            project_path,
            instruction_id,
            source_label: source.label(),
            scope,
            content_hash: text_digest(content),
            preview: preview_of(content),
            order,
        }
    }
}

impl InstructionEvent {
    /// The event that records `action` on an instruction at `timestamp`:
    /// it names the source by its label and holds of the content only the
    /// digest and the preview.
    pub fn at(
        timestamp: Timestamp,
        action: InstructionAction,
        session_id: &str,
        project_path: &str,
        instruction_id: &str,
        source: &InstructionSource,
        scope: &InstructionScope,
        content: &str,
        order: u64,
    ) -> (event: Self)
        ensures
            event@ == InstructionEventView::recorded(
                timestamp,
                action,
                session_id@,
                project_path@,
                instruction_id@,
                source@,
                scope@,
                content@,
                order,
            ),
    {
        InstructionEvent {
            timestamp,
            action,
            session_id: session_id.to_owned(),
            project_path: project_path.to_owned(),
            instruction_id: instruction_id.to_owned(),
            source_label: source.label(),
            scope: scope.clone(),
            content_hash: hash_instruction_content(content),
            preview: preview_from_content(content),
            order,
        }
    }

    /// The event that records `action` on an instruction as of now. The
    /// clock decides the timestamp; everything else is as in [`Self::at`].
    pub fn new(
        action: InstructionAction,
        session_id: &str,
        project_path: &str,
        instruction_id: &str,
        source: &InstructionSource,
        scope: &InstructionScope,
        content: &str,
        order: u64,
    ) -> (event: Self)
        ensures
            event@ == InstructionEventView::recorded(
                event@.timestamp,
                action,
                session_id@,
                project_path@,
                instruction_id@,
                source@,
                scope@,
                content@,
                order,
            ),
            in_calendar(event@.timestamp),
    {
        InstructionEvent::at(
            now(),
            action,
            session_id,
            project_path,
            instruction_id,
            source,
            scope,
            content,
            order,
        )
    }
}

/// The line that is appended to the audit trail for one serialized event:
/// the event, then a line feed. Written in one piece, it keeps records from
/// running into each other.
pub fn record_line(serialized_event: &str) -> (line: String)
    ensures
        line@ == serialized_event@.push('\n'),
{
    let mut line = serialized_event.to_owned();
    line.push('\n');
    line
}

/// The directory of audit trails below the configuration root.
pub open spec fn history_namespace() -> Seq<char> {
    "prompt-history"@
}

/// What follows the session id in the name of an audit trail.
pub open spec fn history_extension() -> Seq<char> {
    ".jsonl"@
}

/// The name of the directory of audit trails below the configuration root.
pub fn prompt_history_root() -> (root: String)
    ensures
        root@ == history_namespace(),
{
    "prompt-history".to_owned()
}

/// Where the audit trail of the session `session_id` of the project at
/// `project_path` is kept.
pub fn history_path(project_path: &str, session_id: &str) -> (path: StoragePath)
    ensures
        path@ == (StoragePathView {
            namespace: history_namespace(),
            shard: text_digest(project_path@),
            file_name: session_id@ + history_extension(),
        }),
{
    let mut file_name = session_id.to_owned();
    file_name.append(".jsonl");
    StoragePath {
        namespace: prompt_history_root(),
        shard: hash_project_path(project_path),
        file_name,
    }
}

} // verus!
