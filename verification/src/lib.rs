//! Instruction registry and system-prompt compositor for an agent runtime.
//!
//! Producers register directives with the [`prompt_manager::PromptManager`];
//! the compositor merges the active ones with a rendered template into the
//! text that is sent to a model. All text that reaches the prompt passes
//! through [`sanitize::sanitize_unicode_tags`].

pub mod clock;
pub mod digest;
pub mod extension;
pub mod prompt_history;
pub mod prompt_instruction;
pub mod prompt_manager;
pub mod prompt_refinement;
pub mod prompt_state;
pub mod registry_laws;
pub mod sanitize;
pub mod system_prompt;
pub mod text;
