//! The compositor: from a registry, a list of extensions and the runtime's
//! configuration to the text of the system prompt.
//!
//! Rendering a template is not done here. The builder says what is to be
//! rendered, with which context, and composes the final text from what the
//! template engine made of it.

use crate::clock::opt_text;
use crate::extension::{
    extension_views, sort_by_name, sort_extensions, ExtensionInfo, ExtensionInfoView,
};
use crate::prompt_manager::{PromptManager, PromptManagerView};
use crate::sanitize::{sanitize_unicode_tags, strip_tags};
use crate::text::{join, join_strings, texts};
use vstd::prelude::*;
use vstd::string::*;

verus! {

/// The number of extensions above which the context carries the counts.
pub const MAX_EXTENSIONS: usize = 5;

/// The number of tools above which the context carries the counts.
pub const MAX_TOOLS: usize = 50;

/// The name of the template that is rendered when no override is set.
pub open spec fn default_template_name() -> Seq<char> {
    "system.md"@
}

/// The name under which the frontend's instructions join the extensions.
pub open spec fn frontend_extension_name() -> Seq<char> {
    "frontend"@
}

/// The prompt that is used when the template could not be rendered.
pub open spec fn fallback_prompt() -> Seq<char> {
    "You are a general-purpose AI agent called goose, created by Block"@
}

/// The sentence that is added to the instructions in chat mode.
pub open spec fn chat_mode_notice() -> Seq<char> {
    "Right now you are in the chat only mode, no access to any tool use and system."@
}

/// What stands between the rendered template and the instructions.
pub open spec fn additional_instructions_header() -> Seq<char> {
    "\n\n# Additional Instructions:\n\n"@
}

/// What stands between two instructions.
pub open spec fn instruction_separator() -> Seq<char> {
    "\n\n"@
}

/// The text that is used when the recipe template could not be rendered.
pub open spec fn recipe_fallback_prompt() -> Seq<char> {
    "The recipe prompt is busted. Tell the user."@
}

/// How far the agent may act on its own.
#[derive(Clone, Copy, Debug, PartialEq, Eq, Structural)]
pub enum GooseMode {
    Auto,
    Approve,
    SmartApprove,
    Chat,
}

/// What the runtime's configuration and its other subsystems contribute to
/// a prompt.
#[derive(Debug)]
pub struct PromptEnvironment {
    /// The execution mode in force.
    pub goose_mode: GooseMode,
    /// Whether the model in use may delegate to subagents.
    pub enable_subagents: bool,
    /// The router's hint on how to select tools, shown when routing is on.
    pub tool_selection_strategy: String,
}

/// The mathematical value of a [`PromptEnvironment`].
pub struct PromptEnvironmentView {
    pub goose_mode: GooseMode,
    pub enable_subagents: bool,
    pub tool_selection_strategy: Seq<char>,
}

impl View for PromptEnvironment {
    type V = PromptEnvironmentView;

    open spec fn view(&self) -> PromptEnvironmentView {
        PromptEnvironmentView {
            goose_mode: self.goose_mode,
            enable_subagents: self.enable_subagents,
            tool_selection_strategy: self.tool_selection_strategy@,
        }
    }
}

impl PromptEnvironment {
    /// The environment for a configuration that sets `configured_mode`, or
    /// leaves the mode open: an open mode counts as `Auto`.
    pub fn new(
        configured_mode: Option<GooseMode>,
        enable_subagents: bool,
        tool_selection_strategy: String,
    ) -> (env: Self)
        ensures
            env@ == (PromptEnvironmentView {
                goose_mode: match configured_mode {
                    Some(mode) => mode,
                    None => GooseMode::Auto,
                },
                enable_subagents,
                tool_selection_strategy: tool_selection_strategy@,
            }),
    {
        let goose_mode = match configured_mode {
            Some(mode) => mode,
            None => GooseMode::Auto,
        };
        PromptEnvironment { goose_mode, enable_subagents, tool_selection_strategy }
    }
}

/// What a template sees when it is rendered.
#[derive(Debug)]
pub struct SystemPromptContext {
    pub extensions: Vec<ExtensionInfo>,
    pub tool_selection_strategy: Option<String>,
    pub current_date_time: String,
    pub extension_tool_limits: Option<(usize, usize)>,
    pub goose_mode: GooseMode,
    pub is_autonomous: bool,
    pub enable_subagents: bool,
    pub max_extensions: usize,
    pub max_tools: usize,
}

/// The mathematical value of a [`SystemPromptContext`].
pub struct SystemPromptContextView {
    pub extensions: Seq<ExtensionInfoView>,
    pub tool_selection_strategy: Option<Seq<char>>,
    pub current_date_time: Seq<char>,
    pub extension_tool_limits: Option<(usize, usize)>,
    pub goose_mode: GooseMode,
    pub is_autonomous: bool,
    pub enable_subagents: bool,
    pub max_extensions: usize,
    pub max_tools: usize,
}

impl View for SystemPromptContext {
    type V = SystemPromptContextView;

    open spec fn view(&self) -> SystemPromptContextView {
        SystemPromptContextView {
            extensions: extension_views(self.extensions@),
            tool_selection_strategy: opt_text(self.tool_selection_strategy),
            current_date_time: self.current_date_time@,
            extension_tool_limits: self.extension_tool_limits,
            goose_mode: self.goose_mode,
            is_autonomous: self.is_autonomous,
            enable_subagents: self.enable_subagents,
            max_extensions: self.max_extensions,
            max_tools: self.max_tools,
        }
    }
}

/// Which template is to be rendered.
#[derive(Debug, PartialEq, Eq)]
pub enum TemplateSource {
    /// The template stored under this name.
    Named(String),
    /// This text, taken as a template.
    Inline(String),
}

/// The mathematical value of a [`TemplateSource`].
pub enum TemplateSourceView {
    Named(Seq<char>),
    Inline(Seq<char>),
}

impl View for TemplateSource {
    type V = TemplateSourceView;

    open spec fn view(&self) -> TemplateSourceView {
        match self {
            TemplateSource::Named(name) => TemplateSourceView::Named(name@),
            TemplateSource::Inline(text) => TemplateSourceView::Inline(text@),
        }
    }
}

/// What the template engine is asked to do.
#[derive(Debug)]
pub struct RenderRequest {
    pub template: TemplateSource,
    pub context: SystemPromptContext,
}

/// The mathematical value of a [`RenderRequest`].
pub struct RenderRequestView {
    pub template: TemplateSourceView,
    pub context: SystemPromptContextView,
}

impl View for RenderRequest {
    type V = RenderRequestView;

    open spec fn view(&self) -> RenderRequestView {
        RenderRequestView { template: self.template@, context: self.context@ }
    }
}

/// Gathers what goes into one system prompt.
pub struct SystemPromptBuilder<'a, M> {
    model_name: String,
    manager: &'a M,
    extensions_info: Vec<ExtensionInfo>,
    frontend_instructions: Option<String>,
    extension_tool_count: Option<(usize, usize)>,
    router_enabled: bool,
}

/// The mathematical value of a [`SystemPromptBuilder`].
pub struct SystemPromptBuilderView {
    pub model_name: Seq<char>,
    pub manager: PromptManagerView,
    pub extensions: Seq<ExtensionInfoView>,
    pub frontend_instructions: Option<Seq<char>>,
    pub extension_tool_count: Option<(usize, usize)>,
    pub router_enabled: bool,
}

/// `e` with its instruction text sanitized; the name stays as it is.
pub open spec fn sanitized_extension(e: ExtensionInfoView) -> ExtensionInfoView {
    ExtensionInfoView { instructions: strip_tags(e.instructions), ..e }
}

/// The counts, if one of them exceeds its ceiling.
pub open spec fn limits_to_show(counts: Option<(usize, usize)>) -> Option<(usize, usize)> {
    match counts {
        Some((extensions, tools)) => if extensions > MAX_EXTENSIONS || tools > MAX_TOOLS {
            counts
        } else {
            None
        },
        None => None,
    }
}

/// `base`, followed by the header and the instructions if there are any.
pub open spec fn compose(base: Seq<char>, extras: Seq<Seq<char>>) -> Seq<char> {
    if extras.len() == 0 {
        base
    } else {
        base + additional_instructions_header() + join(extras, instruction_separator())
    }
}

/// The instructions that follow the rendered template: the contents of the
/// active stack, then the chat notice in chat mode, each sanitized.
pub open spec fn prompt_extras(manager: PromptManagerView, mode: GooseMode) -> Seq<Seq<char>> {
    let listed = if mode == GooseMode::Chat {
        manager.active_texts().push(chat_mode_notice())
    } else {
        manager.active_texts()
    };
    listed.map_values(|t: Seq<char>| strip_tags(t))
}

/// What the engine rendered, or the fallback where it failed.
pub open spec fn base_prompt(rendered: Option<Seq<char>>) -> Seq<char> {
    match rendered {
        Some(text) => text,
        None => fallback_prompt(),
    }
}

impl SystemPromptBuilderView {
    /// The extensions that the context lists, before sorting: those that
    /// were added, then the frontend's instructions as one more.
    pub open spec fn all_extensions(self) -> Seq<ExtensionInfoView> {
        match self.frontend_instructions {
            Some(text) => self.extensions.push(
                ExtensionInfoView {
                    name: frontend_extension_name(),
                    instructions: text,
                    has_resources: false,
                },
            ),
            None => self.extensions,
        }
    }

    /// The context that the template is rendered with.
    pub open spec fn context(self, env: PromptEnvironmentView) -> SystemPromptContextView {
        SystemPromptContextView {
            extensions: sort_by_name(self.all_extensions()).map_values(
                |e: ExtensionInfoView| sanitized_extension(e),
            ),
            tool_selection_strategy: if self.router_enabled {
                Some(env.tool_selection_strategy)
            } else {
                None
            },
            current_date_time: self.manager.current_date_timestamp,
            extension_tool_limits: limits_to_show(self.extension_tool_count),
            goose_mode: env.goose_mode,
            is_autonomous: env.goose_mode == GooseMode::Auto,
            enable_subagents: env.enable_subagents,
            max_extensions: MAX_EXTENSIONS,
            max_tools: MAX_TOOLS,
        }
    }

    /// The template that is rendered: the sanitized override if the
    /// registry has one, else the default template.
    pub open spec fn template(self) -> TemplateSourceView {
        match self.manager.override_prompt {
            Some(text) => TemplateSourceView::Inline(strip_tags(text)),
            None => TemplateSourceView::Named(default_template_name()),
        }
    }

    /// The finished prompt, given what the engine made of the template.
    pub open spec fn prompt(self, mode: GooseMode, rendered: Option<Seq<char>>) -> Seq<char> {
        compose(base_prompt(rendered), prompt_extras(self.manager, mode))
    }
}

impl<'a> View for SystemPromptBuilder<'a, PromptManager> {
    type V = SystemPromptBuilderView;

    closed spec fn view(&self) -> SystemPromptBuilderView {
        SystemPromptBuilderView {
            model_name: self.model_name@,
            manager: self.manager@,
            extensions: extension_views(self.extensions_info@),
            frontend_instructions: opt_text(self.frontend_instructions),
            extension_tool_count: self.extension_tool_count,
            router_enabled: self.router_enabled,
        }
    }
}

impl PromptManager {
    /// A builder for a prompt over this registry, for the model
    /// `model_name`, with no extensions and routing off.
    pub fn builder<'a>(&'a self, model_name: &str) -> (builder: SystemPromptBuilder<'a, Self>)
        ensures
            builder@ == (SystemPromptBuilderView {
                model_name: model_name@,
                manager: self@,
                extensions: Seq::empty(),
                frontend_instructions: None,
                extension_tool_count: None,
                router_enabled: false,
            }),
    {
        let builder = SystemPromptBuilder {
            model_name: model_name.to_owned(),
            manager: self,
            extensions_info: Vec::new(),
            frontend_instructions: None,
            extension_tool_count: None,
            router_enabled: false,
        };
        assert(builder@.extensions =~= Seq::empty());
        builder
    }

    /// The recipe prompt: what the engine rendered of the recipe template,
    /// or a fixed text where it failed.
    pub fn get_recipe_prompt(&self, rendered: Option<String>) -> (prompt: String)
        ensures
            prompt@ == match rendered {
                Some(text) => text@,
                None => recipe_fallback_prompt(),
            },
    {
        match rendered {
            Some(text) => text,
            None => "The recipe prompt is busted. Tell the user.".to_owned(),
        }
    }
}

impl<'a> SystemPromptBuilder<'a, PromptManager> {
    /// The model that the prompt is built for.
    pub fn model_name(&self) -> (name: &str)
        ensures
            name@ == self@.model_name,
    {
        self.model_name.as_str()
    }

    /// Adds one extension.
    pub fn with_extension(self, extension: ExtensionInfo) -> (builder: Self)
        ensures
            builder@ == (SystemPromptBuilderView {
                extensions: self@.extensions.push(extension@),
                ..self@
            }),
    {
        let mut builder = self;
        builder.extensions_info.push(extension);
        assert(builder@.extensions =~= self@.extensions.push(extension@));
        builder
    }

    /// Adds extensions, in their order.
    pub fn with_extensions(self, extensions: Vec<ExtensionInfo>) -> (builder: Self)
        ensures
            builder@ == (SystemPromptBuilderView {
                extensions: self@.extensions + extension_views(extensions@),
                ..self@
            }),
    {
        let ghost before = self@;
        let ghost added = extension_views(extensions@);
        let mut builder = self;
        proof {
            assert(before.extensions + added.take(0) =~= before.extensions);
        }
        for extension in it: extensions
            invariant
                extension_views(it.seq()) == added,
                builder@ == (SystemPromptBuilderView {
                    extensions: before.extensions + added.take(it.index() as int),
                    ..before
                }),
        {
            let ghost had = builder@.extensions;
            builder.extensions_info.push(extension);
            proof {
                let n = it.index() as int;
                assert(builder@.extensions =~= had.push(extension@));
                assert(had.push(extension@) =~= before.extensions + added.take(n + 1));
            }
        }
        proof {
            assert(added.take(added.len() as int) =~= added);
        }
        builder
    }

    /// Sets or clears the frontend's instructions.
    pub fn with_frontend_instructions(
        self,
        frontend_instructions: Option<String>,
    ) -> (builder: Self)
        ensures
            builder@ == (SystemPromptBuilderView {
                frontend_instructions: opt_text(frontend_instructions),
                ..self@
            }),
    {
        let mut builder = self;
        builder.frontend_instructions = frontend_instructions;
        builder
    }

    /// Sets how many extensions and tools are in use.
    pub fn with_extension_and_tool_counts(
        self,
        extension_count: usize,
        tool_count: usize,
    ) -> (builder: Self)
        ensures
            builder@ == (SystemPromptBuilderView {
                extension_tool_count: Some((extension_count, tool_count)),
                ..self@
            }),
    {
        let mut builder = self;
        builder.extension_tool_count = Some((extension_count, tool_count));
        builder
    }

    /// Turns routing on or off.
    pub fn with_router_enabled(self, enabled: bool) -> (builder: Self)
        ensures
            builder@ == (SystemPromptBuilderView { router_enabled: enabled, ..self@ }),
    {
        let mut builder = self;
        builder.router_enabled = enabled;
        builder
    }

    /// What the template engine is to render for this prompt.
    ///
    /// The context lists the extensions sorted by name, whatever the order
    /// in which they were added, with the frontend's instructions as one
    /// more extension, and with every instruction text sanitized. The
    /// template is the registry's override, sanitized, or the default one.
    pub fn render_request(&self, env: &PromptEnvironment) -> (request: RenderRequest)
        ensures
            request@.template == self@.template(),
            request@.context == self@.context(env@),
    {
        let mut listed: Vec<ExtensionInfo> = Vec::new();
        let mut i: usize = 0;
        while i < self.extensions_info.len()
            invariant
                i <= self.extensions_info.len(),
                extension_views(listed@) == self@.extensions.take(i as int),
            decreases self.extensions_info.len() - i,
        {
            let ghost had = listed@;
            let copy = self.extensions_info[i].clone();
            listed.push(copy);
            proof {
                assert(self@.extensions[i as int] == copy@);
                assert(extension_views(listed@) =~= extension_views(had).push(copy@));
                assert(self@.extensions.take(i as int + 1) =~= self@.extensions.take(
                    i as int,
                ).push(copy@));
            }
            i += 1;
        }
        assert(self@.extensions.take(self.extensions_info.len() as int) =~= self@.extensions);
        if let Some(text) = &self.frontend_instructions {
            let ghost had = listed@;
            let frontend = ExtensionInfo::new("frontend", text.as_str(), false);
            listed.push(frontend);
            assert(extension_views(listed@) =~= extension_views(had).push(frontend@));
        }
        assert(extension_views(listed@) == self@.all_extensions());
        let mut extensions = sort_extensions(listed);
        let ghost sorted = extension_views(extensions@);
        let mut j: usize = 0;
        while j < extensions.len()
            invariant
                j <= extensions.len(),
                extensions.len() == sorted.len(),
                forall|k: int|
                    0 <= k < j ==> (#[trigger] extensions[k])@ == sanitized_extension(sorted[k]),
                forall|k: int|
                    j <= k < extensions.len() ==> (#[trigger] extensions[k])@ == sorted[k],
            decreases extensions.len() - j,
        {
            let clean = sanitize_unicode_tags(extensions[j].instructions.as_str());
            extensions[j].instructions = clean;
            j += 1;
        }
        assert(extension_views(extensions@) =~= sorted.map_values(
            |e: ExtensionInfoView| sanitized_extension(e),
        ));
        let limits = match self.extension_tool_count {
            Some((extension_count, tool_count)) => if extension_count > MAX_EXTENSIONS
                || tool_count > MAX_TOOLS {
                Some((extension_count, tool_count))
            } else {
                None
            },
            None => None,
        };
        let context = SystemPromptContext {
            extensions,
            tool_selection_strategy: if self.router_enabled {
                Some(env.tool_selection_strategy.clone())
            } else {
                None
            },
            current_date_time: self.manager.current_date_timestamp().to_owned(),
            extension_tool_limits: limits,
            goose_mode: env.goose_mode,
            is_autonomous: env.goose_mode == GooseMode::Auto,
            enable_subagents: env.enable_subagents,
            max_extensions: MAX_EXTENSIONS,
            max_tools: MAX_TOOLS,
        };
        let template = match self.manager.system_prompt_override() {
            Some(text) => TemplateSource::Inline(sanitize_unicode_tags(text)),
            None => TemplateSource::Named("system.md".to_owned()),
        };
        RenderRequest { template, context }
    }

    /// The finished prompt. `rendered` is what the template engine made of
    /// [`Self::render_request`], or `None` where it failed; a failure never
    /// stops composition, the fallback prompt takes the template's place.
    ///
    /// The rendered text stands first, unchanged. If the registry has
    /// active instructions, or the mode is chat, a header follows and then
    /// the sanitized instructions in applied order, separated by blank
    /// lines, the chat notice last.
    pub fn build(self, env: &PromptEnvironment, rendered: Option<String>) -> (prompt: String)
        requires
            self@.manager.wf(),
        ensures
            prompt@ == self@.prompt(env@.goose_mode, opt_text(rendered)),
    {
        let base = match rendered {
            Some(text) => text,
            None => "You are a general-purpose AI agent called goose, created by Block".to_owned(),
        };
        let mut extras = self.manager.active_instruction_texts();
        if env.goose_mode == GooseMode::Chat {
            let ghost had = extras@;
            let notice =
                "Right now you are in the chat only mode, no access to any tool use and system."
                    .to_owned();
            extras.push(notice);
            assert(texts(extras@) =~= texts(had).push(notice@));
        }
        let ghost listed = texts(extras@);
        let mut clean: Vec<String> = Vec::new();
        let mut i: usize = 0;
        while i < extras.len()
            invariant
                i <= extras.len(),
                texts(extras@) == listed,
                texts(clean@) == listed.take(i as int).map_values(|t: Seq<char>| strip_tags(t)),
            decreases extras.len() - i,
        {
            let ghost had = clean@;
            let text = sanitize_unicode_tags(extras[i].as_str());
            clean.push(text);
            proof {
                assert(listed[i as int] == extras@[i as int]@);
                assert(texts(clean@) =~= texts(had).push(text@));
                assert(listed.take(i as int + 1) =~= listed.take(i as int).push(listed[i as int]));
                assert(listed.take(i as int + 1).map_values(|t: Seq<char>| strip_tags(t))
                    =~= listed.take(i as int).map_values(|t: Seq<char>| strip_tags(t)).push(
                    text@,
                ));
            }
            i += 1;
        }
        assert(listed.take(extras.len() as int) =~= listed);
        if clean.len() == 0 {
            base
        } else {
            let mut prompt = base;
            prompt.append("\n\n# Additional Instructions:\n\n");
            let joined = join_strings(&clean, "\n\n");
            prompt.append(joined.as_str());
            prompt
        }
    }
}

/// With no active instruction and outside chat mode, the prompt is exactly
/// what the engine rendered.
pub proof fn lemma_prompt_without_extras(
    builder: SystemPromptBuilderView,
    mode: GooseMode,
    rendered: Seq<char>,
)
    requires
        builder.manager.active_stack().len() == 0,
        mode != GooseMode::Chat,
    ensures
        builder.prompt(mode, Some(rendered)) == rendered,
{
}

/// The extensions of the context stand in ascending order of their names,
/// whatever the order in which they were added.
pub proof fn lemma_context_extensions_sorted(
    builder: SystemPromptBuilderView,
    env: PromptEnvironmentView,
)
    ensures
        crate::extension::sorted_by_name(builder.context(env).extensions),
        builder.context(env).extensions.len() == builder.all_extensions().len(),
{
    crate::extension::lemma_sort_by_name_sorted(builder.all_extensions());
    crate::extension::lemma_sort_by_name_permutes(builder.all_extensions());
    let sorted = sort_by_name(builder.all_extensions());
    let shown = builder.context(env).extensions;
    assert forall|i: int, j: int| 0 <= i < j < shown.len() implies crate::text::lex_le(
        (#[trigger] shown[i]).name,
        (#[trigger] shown[j]).name,
    ) by {
        assert(crate::text::lex_le(sorted[i].name, sorted[j].name));
    }
}

} // verus!
