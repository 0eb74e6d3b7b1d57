use prompt_registry::clock::Timestamp;
use prompt_registry::digest::hash_instruction_content;
use prompt_registry::prompt_instruction::{
    InstructionId, InstructionScope, InstructionSource, InstructionState, PromptInstruction,
    PromptStateSnapshot,
};
use prompt_registry::prompt_manager::PromptManager;

fn at(secs: i64) -> Timestamp {
    Timestamp { secs, nanos: 0 }
}

fn id(text: &str) -> InstructionId {
    InstructionId::from_string(text.to_string())
}

fn fixed() -> PromptManager {
    PromptManager::with_date_timestamp("2024-01-01 10:00".to_string())
}

fn recipe(name: &str) -> InstructionSource {
    InstructionSource::Recipe { id: name.to_string() }
}

fn contents(manager: &PromptManager) -> Vec<String> {
    manager.active_instruction_texts()
}

fn orders(manager: &PromptManager) -> Vec<u64> {
    let mut out = Vec::new();
    for instruction in manager.instruction_stack() {
        out.push(instruction.order);
    }
    out
}

#[test]
fn new_registry_is_empty() {
    let manager = PromptManager::new();
    assert_eq!(manager.order_counter(), 0);
    assert!(manager.instruction_stack().is_empty());
    assert!(manager.active_instruction_texts().is_empty());
    assert_eq!(manager.system_prompt_override(), None);
    let snapshot = manager.snapshot_state();
    assert!(snapshot.instructions.is_empty());
    assert!(snapshot.applied_order.is_empty());
}

#[test]
fn new_registry_shows_the_current_hour() {
    let manager = PromptManager::new();
    let stamp = manager.current_date_timestamp();
    let bytes = stamp.as_bytes();
    assert_eq!(stamp.len(), 16);
    assert_eq!(bytes[4], b'-');
    assert_eq!(bytes[7], b'-');
    assert_eq!(bytes[10], b' ');
    assert!(stamp.ends_with(":00"));
    assert!(stamp[0..4].parse::<u32>().unwrap() >= 2024);
}

#[test]
fn default_registry_is_empty() {
    let manager = PromptManager::default();
    assert_eq!(manager.order_counter(), 0);
    assert!(manager.instruction_stack().is_empty());
}

#[test]
fn with_timestamp_formats_to_the_second() {
    let manager = PromptManager::with_timestamp(Timestamp { secs: 0, nanos: 0 }).unwrap();
    assert_eq!(manager.current_date_timestamp(), "1970-01-01 00:00:00");
    let later = PromptManager::with_timestamp(Timestamp { secs: 1431648000 + 3661, nanos: 5 })
        .unwrap();
    assert_eq!(later.current_date_timestamp(), "2015-05-15 01:01:01");
}

#[test]
fn new_at_keeps_to_the_hour() {
    let manager = PromptManager::new_at(Timestamp { secs: 1431648000 + 3661, nanos: 999 }).unwrap();
    assert_eq!(manager.current_date_timestamp(), "2015-05-15 01:00");
    assert_eq!(manager.order_counter(), 0);
    assert!(manager.instruction_stack().is_empty());
    let end_of_hour = PromptManager::new_at(Timestamp { secs: 3599, nanos: 0 }).unwrap();
    assert_eq!(end_of_hour.current_date_timestamp(), "1970-01-01 00:00");
    let before_epoch = PromptManager::new_at(Timestamp { secs: -1, nanos: 0 }).unwrap();
    assert_eq!(before_epoch.current_date_timestamp(), "1969-12-31 23:00");
    assert!(PromptManager::new_at(Timestamp { secs: i64::MIN, nanos: 0 }).is_none());
}

#[test]
fn with_timestamp_refuses_what_the_calendar_cannot_hold() {
    assert!(PromptManager::with_timestamp(Timestamp { secs: i64::MAX, nanos: 0 }).is_none());
    assert!(PromptManager::with_timestamp(Timestamp { secs: 0, nanos: 2_000_000_000 }).is_none());
}

#[test]
fn upsert_creates_with_rising_order() {
    let mut manager = fixed();
    let a = manager.upsert_instruction(
        "first".to_string(),
        recipe("a"),
        InstructionScope::Session,
        id("id-a"),
        at(10),
    );
    let b = manager.upsert_instruction(
        "second".to_string(),
        recipe("b"),
        InstructionScope::Persistent,
        id("id-b"),
        at(20),
    );
    assert_eq!(a, id("id-a"));
    assert_eq!(b, id("id-b"));
    assert_eq!(manager.order_counter(), 2);
    assert_eq!(contents(&manager), vec!["first".to_string(), "second".to_string()]);
    assert_eq!(orders(&manager), vec![1, 2]);
    let stored = manager.get_instruction(&a).unwrap();
    assert_eq!(stored.created_at, at(10));
    assert_eq!(stored.updated_at, at(10));
    assert_eq!(stored.state, InstructionState::Active);
    assert_eq!(stored.source, recipe("a"));
    assert_eq!(stored.content_hash, hash_instruction_content("first"));
}

#[test]
fn upsert_twice_from_one_source_updates_in_place() {
    let mut manager = fixed();
    let first = manager.upsert_instruction(
        "one".to_string(),
        recipe("a"),
        InstructionScope::Session,
        id("id-1"),
        at(10),
    );
    let other = manager.upsert_instruction(
        "other".to_string(),
        recipe("b"),
        InstructionScope::Session,
        id("id-2"),
        at(11),
    );
    let second = manager.upsert_instruction(
        "two".to_string(),
        recipe("a"),
        InstructionScope::Conversation,
        id("id-3"),
        at(20),
    );
    assert_eq!(second, first);
    assert_ne!(second, id("id-3"));
    assert_eq!(manager.order_counter(), 2);
    let stored = manager.get_instruction(&first).unwrap();
    assert_eq!(stored.content, "two");
    assert_eq!(stored.content_hash, hash_instruction_content("two"));
    assert_eq!(stored.order, 1);
    assert_eq!(stored.scope, InstructionScope::Conversation);
    assert_eq!(stored.created_at, at(10));
    assert_eq!(stored.updated_at, at(20));
    assert!(manager.get_instruction(&id("id-3")).is_none());
    assert_eq!(contents(&manager), vec!["two".to_string(), "other".to_string()]);
    assert_eq!(manager.get_instruction(&other).unwrap().order, 2);
}

#[test]
fn upsert_instruction_the_clock_and_a_random_handle() {
    let mut manager = fixed();
    let first = manager.add_instruction_with_metadata(
        "one".to_string(),
        InstructionSource::CliUser,
        InstructionScope::Session,
    );
    let second = manager.add_instruction_with_metadata(
        "two".to_string(),
        InstructionSource::CliUser,
        InstructionScope::Session,
    );
    assert_eq!(first, second);
    assert_eq!(first.as_str().len(), 36);
    let stored = manager.get_instruction(&first).unwrap();
    assert_eq!(stored.content, "two");
    assert_eq!(stored.content_hash, hash_instruction_content("two"));
    assert_eq!(stored.order, 1);
    assert!(stored.updated_at.secs > 1_600_000_000);
    assert!(stored.created_at.secs > 1_600_000_000);
}

#[test]
fn unknown_sources_are_never_deduplicated() {
    let mut manager = fixed();
    manager.add_system_prompt_extra("same".to_string());
    manager.add_system_prompt_extra("same".to_string());
    assert_eq!(contents(&manager), vec!["same".to_string(), "same".to_string()]);
    assert_eq!(orders(&manager), vec![1, 2]);
    let stack = manager.instruction_stack();
    assert_ne!(stack[0].id, stack[1].id);
    assert_eq!(stack[0].source, InstructionSource::Unknown);
    assert_eq!(stack[0].scope, InstructionScope::Session);
}

#[test]
fn retire_excludes_from_the_stack_but_keeps_the_record() {
    let mut manager = fixed();
    let a = manager.upsert_instruction(
        "a".to_string(),
        recipe("a"),
        InstructionScope::Session,
        id("id-a"),
        at(1),
    );
    let b = manager.upsert_instruction(
        "b".to_string(),
        recipe("b"),
        InstructionScope::Session,
        id("id-b"),
        at(2),
    );
    let c = manager.upsert_instruction(
        "c".to_string(),
        recipe("c"),
        InstructionScope::Session,
        id("id-c"),
        at(3),
    );
    assert_eq!(manager.retire_instruction_at(&b, at(9)), Some(id("id-b")));
    assert_eq!(contents(&manager), vec!["a".to_string(), "c".to_string()]);
    assert_eq!(orders(&manager), vec![1, 3]);
    let retired = manager.get_instruction(&b).unwrap();
    assert_eq!(retired.state, InstructionState::Retired);
    assert_eq!(retired.content, "b");
    assert_eq!(retired.updated_at, at(9));
    assert_eq!(retired.created_at, at(2));
    assert_eq!(manager.get_instruction(&a).unwrap().state, InstructionState::Active);
    assert_eq!(manager.get_instruction(&c).unwrap().state, InstructionState::Active);
    for instruction in manager.instruction_stack() {
        assert_ne!(instruction.state, InstructionState::Retired);
    }
}

#[test]
fn retire_is_idempotent_and_bumps_the_time_again() {
    let mut manager = fixed();
    let a = manager.upsert_instruction(
        "a".to_string(),
        recipe("a"),
        InstructionScope::Session,
        id("id-a"),
        at(1),
    );
    assert_eq!(manager.retire_instruction_at(&a, at(5)), Some(a.clone()));
    assert_eq!(manager.retire_instruction_at(&a, at(6)), Some(a.clone()));
    let retired = manager.get_instruction(&a).unwrap();
    assert_eq!(retired.state, InstructionState::Retired);
    assert_eq!(retired.updated_at, at(6));
}

#[test]
fn retire_of_an_unknown_handle_returns_none_and_changes_nothing() {
    let mut manager = fixed();
    manager.upsert_instruction("a".to_string(), recipe("a"), InstructionScope::Session, id("id-a"), at(1));
    assert_eq!(manager.retire_instruction_at(&id("nope"), at(5)), None);
    assert_eq!(manager.retire_instruction(&id("nope")), None);
    assert_eq!(contents(&manager), vec!["a".to_string()]);
    assert_eq!(manager.get_instruction(&id("id-a")).unwrap().updated_at, at(1));
}

#[test]
fn retire_with_the_clock() {
    let mut manager = fixed();
    let a = manager.upsert_instruction(
        "a".to_string(),
        recipe("a"),
        InstructionScope::Session,
        id("id-a"),
        at(1),
    );
    assert_eq!(manager.retire_instruction(&a), Some(a.clone()));
    let retired = manager.get_instruction(&a).unwrap();
    assert_eq!(retired.state, InstructionState::Retired);
    assert!(retired.updated_at.secs > 1_600_000_000);
    assert!(manager.instruction_stack().is_empty());
}

#[test]
fn upsert_after_retire_by_handle_reactivates_in_place() {
    let mut manager = fixed();
    let a = manager.upsert_instruction(
        "a1".to_string(),
        recipe("a"),
        InstructionScope::Session,
        id("id-a"),
        at(1),
    );
    manager.upsert_instruction("b".to_string(), recipe("b"), InstructionScope::Session, id("id-b"), at(2));
    manager.retire_instruction_at(&a, at(3));
    assert_eq!(contents(&manager), vec!["b".to_string()]);
    let again = manager.upsert_instruction(
        "a2".to_string(),
        recipe("a"),
        InstructionScope::Session,
        id("id-z"),
        at(4),
    );
    assert_eq!(again, a);
    assert_eq!(contents(&manager), vec!["a2".to_string(), "b".to_string()]);
    assert_eq!(orders(&manager), vec![1, 2]);
    assert_eq!(manager.order_counter(), 2);
}

#[test]
fn upsert_after_retire_by_source_creates_a_new_instruction() {
    let mut manager = fixed();
    let source = recipe("a");
    let old = manager.upsert_instruction(
        "a1".to_string(),
        source.clone(),
        InstructionScope::Session,
        id("id-old"),
        at(1),
    );
    manager.upsert_instruction("b".to_string(), recipe("b"), InstructionScope::Session, id("id-b"), at(2));
    assert_eq!(manager.retire_instruction_by_source_at(&source, at(3)), Some(old.clone()));
    let new = manager.upsert_instruction(
        "a2".to_string(),
        source.clone(),
        InstructionScope::Session,
        id("id-new"),
        at(4),
    );
    assert_ne!(new, old);
    assert_eq!(new, id("id-new"));
    let retired = manager.get_instruction(&old).unwrap();
    assert_eq!(retired.state, InstructionState::Retired);
    assert_eq!(retired.content, "a1");
    assert_eq!(retired.updated_at, at(3));
    let created = manager.get_instruction(&new).unwrap();
    assert_eq!(created.state, InstructionState::Active);
    assert_eq!(created.order, 3);
    assert_eq!(contents(&manager), vec!["b".to_string(), "a2".to_string()]);
    assert_eq!(orders(&manager), vec![2, 3]);
}

#[test]
fn retire_by_source_with_random_handles() {
    let mut manager = fixed();
    let old = manager.add_instruction_with_metadata(
        "a1".to_string(),
        InstructionSource::FinalOutput,
        InstructionScope::Session,
    );
    assert_eq!(manager.retire_instruction_by_source(&InstructionSource::FinalOutput), Some(old.clone()));
    let new = manager.add_instruction_with_metadata(
        "a2".to_string(),
        InstructionSource::FinalOutput,
        InstructionScope::Session,
    );
    assert_ne!(new, old);
    assert_eq!(manager.get_instruction(&old).unwrap().state, InstructionState::Retired);
    assert_eq!(contents(&manager), vec!["a2".to_string()]);
}

#[test]
fn retire_by_source_without_key_or_mapping_does_nothing() {
    let mut manager = fixed();
    manager.add_system_prompt_extra("x".to_string());
    assert_eq!(manager.retire_instruction_by_source_at(&InstructionSource::Unknown, at(5)), None);
    assert_eq!(manager.retire_instruction_by_source_at(&recipe("absent"), at(5)), None);
    assert_eq!(contents(&manager), vec!["x".to_string()]);
    let source = recipe("a");
    manager.upsert_instruction("a".to_string(), source.clone(), InstructionScope::Session, id("id-a"), at(1));
    assert_eq!(manager.retire_instruction_by_source_at(&source, at(2)), Some(id("id-a")));
    assert_eq!(manager.retire_instruction_by_source_at(&source, at(3)), None);
    assert_eq!(manager.get_instruction(&id("id-a")).unwrap().updated_at, at(2));
}

#[test]
fn a_handle_that_is_in_use_replaces_the_record_under_it() {
    let mut manager = fixed();
    manager.upsert_instruction("a".to_string(), recipe("a"), InstructionScope::Session, id("same"), at(1));
    manager.upsert_instruction("b".to_string(), recipe("b"), InstructionScope::Session, id("same"), at(2));
    let stored = manager.get_instruction(&id("same")).unwrap();
    assert_eq!(stored.content, "b");
    assert_eq!(stored.order, 2);
    let snapshot = manager.snapshot_state();
    assert_eq!(snapshot.instructions.len(), 1);
    assert_eq!(snapshot.applied_order, vec![id("same"), id("same")]);
    assert_eq!(contents(&manager), vec!["b".to_string(), "b".to_string()]);
}

#[test]
fn override_is_stored_and_snapshotted() {
    let mut manager = fixed();
    manager.set_system_prompt_override("custom {{x}}".to_string());
    assert_eq!(manager.system_prompt_override(), Some("custom {{x}}"));
    assert_eq!(manager.snapshot_state().override_prompt, Some("custom {{x}}".to_string()));
}

#[test]
fn snapshot_lists_every_instruction_and_the_applied_order() {
    let mut manager = fixed();
    let a = manager.upsert_instruction(
        "a".to_string(),
        recipe("a"),
        InstructionScope::Session,
        id("id-a"),
        at(1),
    );
    let b = manager.upsert_instruction(
        "b".to_string(),
        InstructionSource::Unknown,
        InstructionScope::Tool { name: "shell".to_string() },
        id("id-b"),
        at(2),
    );
    manager.retire_instruction_at(&a, at(3));
    let snapshot = manager.snapshot_state();
    assert_eq!(snapshot.order_counter, 2);
    assert_eq!(snapshot.current_date_timestamp, "2024-01-01 10:00");
    assert_eq!(snapshot.override_prompt, None);
    assert_eq!(snapshot.applied_order, vec![a.clone(), b.clone()]);
    assert_eq!(snapshot.instructions.len(), 2);
    assert_eq!(snapshot.instructions[0].id, a);
    assert_eq!(snapshot.instructions[0].state, InstructionState::Retired);
    assert_eq!(snapshot.instructions[1].id, b);
    assert_eq!(snapshot.instructions[1].scope, InstructionScope::Tool { name: "shell".to_string() });
}

#[test]
fn snapshot_then_restore_reproduces_the_registry() {
    let mut manager = fixed();
    manager.set_system_prompt_override("override".to_string());
    let a = manager.upsert_instruction(
        "a".to_string(),
        recipe("a"),
        InstructionScope::Persistent,
        id("id-a"),
        at(1),
    );
    let b = manager.upsert_instruction(
        "b".to_string(),
        InstructionSource::CliUser,
        InstructionScope::Session,
        id("id-b"),
        at(2),
    );
    manager.upsert_instruction("c".to_string(), InstructionSource::Unknown, InstructionScope::Session, id("id-c"), at(3));
    manager.retire_instruction_at(&b, at(4));

    let mut restored = PromptManager::with_date_timestamp("other".to_string());
    restored.add_system_prompt_extra("to be replaced".to_string());
    restored.restore_from_snapshot(manager.snapshot_state());

    assert_eq!(restored.order_counter(), manager.order_counter());
    assert_eq!(restored.current_date_timestamp(), "2024-01-01 10:00");
    assert_eq!(restored.system_prompt_override(), Some("override"));
    assert_eq!(contents(&restored), contents(&manager));
    assert_eq!(contents(&restored), vec!["a".to_string(), "c".to_string()]);
    assert_eq!(orders(&restored), orders(&manager));
    let left = manager.instruction_stack();
    let right = restored.instruction_stack();
    assert_eq!(left.len(), right.len());
    for i in 0..left.len() {
        assert_eq!(left[i].id, right[i].id);
        assert_eq!(left[i].scope, right[i].scope);
        assert_eq!(left[i].content_hash, right[i].content_hash);
        assert_eq!(left[i].created_at, right[i].created_at);
        assert_eq!(left[i].updated_at, right[i].updated_at);
    }

    let again_a = restored.upsert_instruction(
        "a2".to_string(),
        recipe("a"),
        InstructionScope::Session,
        id("id-x"),
        at(5),
    );
    assert_eq!(again_a, a);
    let again_b = restored.upsert_instruction(
        "b2".to_string(),
        InstructionSource::CliUser,
        InstructionScope::Session,
        id("id-y"),
        at(6),
    );
    assert_eq!(again_b, b);
    assert_eq!(restored.order_counter(), 3);
    let fresh = restored.upsert_instruction(
        "d".to_string(),
        recipe("d"),
        InstructionScope::Session,
        id("id-d"),
        at(7),
    );
    assert_eq!(restored.get_instruction(&fresh).unwrap().order, 4);
}

#[test]
fn restore_rebuilds_the_index_that_retire_by_source_had_removed() {
    let mut manager = fixed();
    let source = recipe("a");
    let old = manager.upsert_instruction(
        "a1".to_string(),
        source.clone(),
        InstructionScope::Session,
        id("id-old"),
        at(1),
    );
    manager.retire_instruction_by_source_at(&source, at(2));
    let mut restored = fixed();
    restored.restore_from_snapshot(manager.snapshot_state());
    let again = restored.upsert_instruction(
        "a2".to_string(),
        source.clone(),
        InstructionScope::Session,
        id("id-new"),
        at(3),
    );
    assert_eq!(again, old);
    let fresh = manager.upsert_instruction(
        "a2".to_string(),
        source,
        InstructionScope::Session,
        id("id-new"),
        at(3),
    );
    assert_eq!(fresh, id("id-new"));
}

#[test]
fn restore_accepts_any_snapshot() {
    let first = PromptInstruction::new(
        id("dup"),
        recipe("a"),
        InstructionScope::Session,
        "first".to_string(),
        5,
        at(1),
    );
    let second = PromptInstruction::new(
        id("dup"),
        recipe("b"),
        InstructionScope::Session,
        "second".to_string(),
        6,
        at(2),
    );
    let mut rejected = PromptInstruction::new(
        id("rej"),
        recipe("c"),
        InstructionScope::Session,
        "rejected".to_string(),
        2,
        at(3),
    );
    rejected.state = InstructionState::Rejected;
    let snapshot = PromptStateSnapshot {
        override_prompt: None,
        instructions: vec![first, second, rejected],
        applied_order: vec![id("missing"), id("rej"), id("dup")],
        current_date_timestamp: "stamp".to_string(),
        order_counter: 40,
    };
    let mut manager = fixed();
    manager.restore_from_snapshot(snapshot);
    assert_eq!(manager.order_counter(), 40);
    assert_eq!(contents(&manager), vec!["second".to_string()]);
    assert_eq!(manager.get_instruction(&id("rej")).unwrap().state, InstructionState::Rejected);
    assert!(manager.get_instruction(&id("missing")).is_none());
    assert_eq!(manager.snapshot_state().instructions.len(), 2);
    let via_b = manager.upsert_instruction(
        "b2".to_string(),
        recipe("b"),
        InstructionScope::Session,
        id("n1"),
        at(9),
    );
    assert_eq!(via_b, id("dup"));
    let created = manager.upsert_instruction(
        "new".to_string(),
        recipe("zzz"),
        InstructionScope::Session,
        id("n3"),
        at(9),
    );
    assert_eq!(manager.get_instruction(&created).unwrap().order, 41);
}

#[test]
fn scope_does_not_gate_the_stack() {
    let mut manager = fixed();
    manager.upsert_instruction("s".to_string(), recipe("1"), InstructionScope::Session, id("1"), at(1));
    manager.upsert_instruction("c".to_string(), recipe("2"), InstructionScope::Conversation, id("2"), at(1));
    manager.upsert_instruction(
        "t".to_string(),
        recipe("3"),
        InstructionScope::Tool { name: "x".to_string() },
        id("3"),
        at(1),
    );
    manager.upsert_instruction("p".to_string(), recipe("4"), InstructionScope::Persistent, id("4"), at(1));
    assert_eq!(
        contents(&manager),
        vec!["s".to_string(), "c".to_string(), "t".to_string(), "p".to_string()]
    );
}

#[test]
fn instruction_for_source_says_what_an_upsert_would_update() {
    let mut manager = fixed();
    let source = recipe("a");
    assert_eq!(manager.instruction_for_source(&source), None);
    assert_eq!(manager.instruction_for_source(&InstructionSource::Unknown), None);
    let a = manager.upsert_instruction(
        "a".to_string(),
        source.clone(),
        InstructionScope::Session,
        id("id-a"),
        at(1),
    );
    manager.add_system_prompt_extra("x".to_string());
    assert_eq!(manager.instruction_for_source(&source), Some(a.clone()));
    assert_eq!(manager.instruction_for_source(&recipe("b")), None);
    assert_eq!(manager.instruction_for_source(&InstructionSource::Unknown), None);
    manager.retire_instruction_at(&a, at(2));
    assert_eq!(manager.instruction_for_source(&source), Some(a.clone()));
    manager.retire_instruction_by_source_at(&source, at(3));
    assert_eq!(manager.instruction_for_source(&source), None);
    let mut restored = fixed();
    restored.restore_from_snapshot(manager.snapshot_state());
    assert_eq!(restored.instruction_for_source(&source), Some(a));
}

#[test]
fn source_resolution_survives_snapshot_and_restore() {
    let mut manager = fixed();
    let sources = vec![
        InstructionSource::CliDefault,
        InstructionSource::CliUser,
        InstructionSource::Hint { path: "h".to_string() },
        recipe("r"),
        InstructionSource::FinalOutput,
        InstructionSource::Api { route: "/x".to_string() },
        InstructionSource::Extension { name: "e".to_string() },
        InstructionSource::Custom { label: "c".to_string() },
    ];
    for source in &sources {
        manager.add_instruction_with_metadata(
            source.label(),
            source.clone(),
            InstructionScope::Session,
        );
    }
    let mut restored = fixed();
    restored.restore_from_snapshot(manager.snapshot_state());
    for source in &sources {
        let before = manager.instruction_for_source(source);
        assert!(before.is_some());
        assert_eq!(restored.instruction_for_source(source), before);
    }
    assert_eq!(restored.instruction_for_source(&recipe("other")), None);
    assert_eq!(restored.order_counter(), 8);
    assert_eq!(contents(&restored), contents(&manager));
}

#[test]
fn the_instruction_created_after_a_withdrawal_stands_last() {
    let mut manager = fixed();
    let source = InstructionSource::Extension { name: "dev".to_string() };
    let old = manager.upsert_instruction(
        "c1".to_string(),
        source.clone(),
        InstructionScope::Session,
        id("id-1"),
        at(1),
    );
    manager.add_system_prompt_extra("between".to_string());
    assert_eq!(manager.retire_instruction_by_source_at(&source, at(5)), Some(old.clone()));
    let counter = manager.order_counter();
    let new = manager.upsert_instruction(
        "c2".to_string(),
        source,
        InstructionScope::Persistent,
        id("id-2"),
        at(6),
    );
    assert_ne!(new, old);
    let created = manager.get_instruction(&new).unwrap();
    assert_eq!(created.state, InstructionState::Active);
    assert_eq!(created.content, "c2");
    assert_eq!(created.content_hash, hash_instruction_content("c2"));
    assert_eq!(created.order, counter + 1);
    assert_eq!(manager.snapshot_state().applied_order.last(), Some(&new));
    let withdrawn = manager.get_instruction(&old).unwrap();
    assert_eq!(withdrawn.state, InstructionState::Retired);
    assert_eq!(withdrawn.content, "c1");
    assert_eq!(withdrawn.content_hash, hash_instruction_content("c1"));
    assert_eq!(withdrawn.order, 1);
    assert_eq!(withdrawn.updated_at, at(5));
    for instruction in manager.instruction_stack() {
        assert_ne!(instruction.id, old);
    }
    assert_eq!(orders(&manager), vec![2, 3]);
}

#[test]
fn order_rises_along_the_stack_through_a_whole_history() {
    let mut manager = PromptManager::new();
    let mut handles = Vec::new();
    for i in 0..6 {
        handles.push(manager.add_instruction_with_metadata(
            format!("text {}", i),
            recipe(&format!("r{}", i)),
            InstructionScope::Session,
        ));
    }
    manager.retire_instruction(&handles[1]);
    manager.retire_instruction_by_source(&recipe("r3"));
    manager.add_instruction_with_metadata(
        "again".to_string(),
        recipe("r1"),
        InstructionScope::Session,
    );
    manager.add_instruction_with_metadata(
        "anew".to_string(),
        recipe("r3"),
        InstructionScope::Session,
    );
    manager.add_system_prompt_extra("extra".to_string());
    assert_eq!(orders(&manager), vec![1, 2, 3, 5, 6, 7, 8]);
    let mut restored = PromptManager::new();
    restored.restore_from_snapshot(manager.snapshot_state());
    assert_eq!(orders(&restored), vec![1, 2, 3, 5, 6, 7, 8]);
}
