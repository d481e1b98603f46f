//! Block segmentation for assembled prompts.
//!
//! A rendered system prompt is one string by the time it reaches a provider,
//! but it is assembled from named parts: identity files, fragment renders,
//! store queries, live state, and the template's own prose between them. Those
//! boundaries exist only during rendering, and they cannot be recovered from
//! the output.
//!
//! So they are recorded while they exist. Every injected value is wrapped in
//! sentinel characters before rendering; the render is then split on those
//! sentinels to recover exact byte ranges, and the sentinels are stripped.
//! Stripping is the only way the final text is produced, so the bytes a block
//! map describes are the bytes that were sent.
use vstd::prelude::*;
use crate::agent::compactor;
use crate::text;

verus! {

broadcast use vstd::seq::group_seq_axioms;

/// Opens an injected value. Followed by the variable name, then `SEP`.
pub const OPEN: char = '\u{E000}';

/// Separates an injected value's name from its content.
pub const SEP: char = '\u{E001}';

/// Closes an injected value.
pub const CLOSE: char = '\u{E002}';

/// Which composition layer a block belongs to.
#[derive(Debug, Clone, Copy, PartialEq, Eq, Structural)]
pub enum BlockLayer {
    /// Operator-authored identity documents and learned identity memories.
    Identity,
    /// The template's own behavioral instructions.
    Contract,
    /// What the process can do this turn: skills, worker types, tools.
    Capabilities,
    /// Synthesized knowledge: memory store render, cortex synthesis.
    Knowledge,
    /// Recent activity: working memory, channel activity, participants.
    Working,
    /// Live state at send time: status block, conversation context, goals.
    Runtime,
}

impl BlockLayer {
    /// The name of a layer.
    pub open spec fn name(self) -> Seq<char> {
        match self {
            BlockLayer::Identity => "identity"@,
            BlockLayer::Contract => "contract"@,
            BlockLayer::Capabilities => "capabilities"@,
            BlockLayer::Knowledge => "knowledge"@,
            BlockLayer::Working => "working"@,
            BlockLayer::Runtime => "runtime"@,
        }
    }

    /// The name of a layer.
    pub fn label(self) -> (label: &'static str)
        ensures
            label@ == self.name(),
    {
        match self {
            BlockLayer::Identity => "identity",
            BlockLayer::Contract => "contract",
            BlockLayer::Capabilities => "capabilities",
            BlockLayer::Knowledge => "knowledge",
            BlockLayer::Working => "working",
            BlockLayer::Runtime => "runtime",
        }
    }
}

/// How often a block's bytes are expected to change.
///
/// `Static` bytes must be identical between two turns of the same process;
/// `Epoch` bytes change only on a named configuration event; `Volatile` bytes
/// may change every turn.
#[derive(Debug, Clone, Copy, PartialEq, Eq, Structural)]
pub enum BlockStability {
    Static,
    Epoch,
    Volatile,
}

impl BlockStability {
    /// The name of a stability.
    pub open spec fn name(self) -> Seq<char> {
        match self {
            BlockStability::Static => "static"@,
            BlockStability::Epoch => "epoch"@,
            BlockStability::Volatile => "volatile"@,
        }
    }

    /// The name of a stability.
    pub fn label(self) -> (label: &'static str)
        ensures
            label@ == self.name(),
    {
        match self {
            BlockStability::Static => "static",
            BlockStability::Epoch => "epoch",
            BlockStability::Volatile => "volatile",
        }
    }
}

/// Where a block's content came from.
#[derive(Debug, Clone, Copy, PartialEq, Eq, Structural)]
pub enum BlockSource {
    /// Literal prose in the template itself.
    Template,
    /// An operator-authored file on disk (SOUL.md, IDENTITY.md, HUMAN.md).
    File,
    /// Rendered from a database query.
    Store,
    /// Written by an LLM process (cortex synthesis, chronicle).
    Synthesis,
    /// Read from process state at send time.
    LiveState,
    /// Derived from configuration.
    Config,
}

/// One named region of an assembled prompt.
#[derive(Debug)]
pub struct PromptBlock {
    /// Template variable name, or `template:{name}` for the template's prose.
    pub id: String,
    pub layer: BlockLayer,
    pub stability: BlockStability,
    pub source: BlockSource,
    /// Byte offset of the block's first byte in the rendered prompt.
    pub start: usize,
    /// Byte offset one past the block's last byte.
    pub end: usize,
    /// Character count, which is what a reader compares against.
    pub chars: usize,
    /// Estimated tokens. The provider's usage total is authoritative for a
    /// request; this only apportions that total across blocks.
    pub tokens: usize,
}

/// What a block says of the prompt.
pub struct BlockModel {
    pub id: Seq<char>,
    pub class: (BlockLayer, BlockStability, BlockSource),
    pub start: nat,
    pub end: nat,
    pub chars: nat,
    pub tokens: nat,
}

impl View for PromptBlock {
    type V = BlockModel;

    open spec fn view(&self) -> BlockModel {
        BlockModel {
            id: self.id@,
            class: (self.layer, self.stability, self.source),
            start: self.start as nat,
            end: self.end as nat,
            chars: self.chars as nat,
            tokens: self.tokens as nat,
        }
    }
}

/// What a list of blocks says of the prompt.
pub open spec fn models(blocks: Seq<PromptBlock>) -> Seq<BlockModel> {
    blocks.map_values(|block: PromptBlock| block@)
}

impl PromptBlock {
    /// How many bytes of the prompt the block covers.
    pub fn bytes(&self) -> (bytes: usize)
        requires
            self.start <= self.end,
        ensures
            bytes == self.end - self.start,
    {
        self.end - self.start
    }
}

/// A rendered prompt and the map of what it is made of.
#[derive(Debug)]
pub struct SegmentedPrompt {
    /// The prompt exactly as it will be sent.
    pub text: String,
    pub blocks: Vec<PromptBlock>,
}

/// The block for a region of prompt text.
pub open spec fn region(
    id: Seq<char>,
    class: (BlockLayer, BlockStability, BlockSource),
    before: Seq<char>,
    content: Seq<char>,
) -> BlockModel {
    BlockModel {
        id,
        class,
        start: text::byte_len(before),
        end: text::byte_len(before + content),
        chars: content.len(),
        tokens: compactor::text_tokens(content),
    }
}

/// Whether blocks cover a text from its first byte to its last, each one
/// beginning where the one before it ends.
pub open spec fn tiles(blocks: Seq<BlockModel>, text: Seq<char>) -> bool {
    if blocks.len() == 0 {
        text::byte_len(text) == 0
    } else {
        &&& blocks[0].start == 0
        &&& blocks.last().end == text::byte_len(text)
        &&& forall|k: int| 0 <= k < blocks.len() ==> (#[trigger] blocks[k]).start <= blocks[k].end
        &&& forall|k: int| 0 < k < blocks.len() ==> (#[trigger] blocks[k]).start == blocks[k - 1].end
    }
}

impl SegmentedPrompt {
    /// Whether the prompt has no map, or one that tiles it.
    pub open spec fn well_mapped(self) -> bool {
        self.blocks@.len() == 0 || tiles(models(self.blocks@), self.text@)
    }
}

/// A prompt assembled outside the template engine has no map, which is a
/// smaller claim than a wrong one: the text still renders whole.
impl SegmentedPrompt {
    /// A prompt without a map.
    pub fn unmapped(text: String) -> (prompt: Self)
        ensures
            prompt.text == text,
            prompt.blocks@.len() == 0,
            prompt.well_mapped(),
    {
        SegmentedPrompt { text, blocks: Vec::new() }
    }
}

impl vstd::std_specs::convert::FromSpecImpl<String> for SegmentedPrompt {
    open spec fn obeys_from_spec() -> bool {
        false
    }

    open spec fn from_spec(text: String) -> Self {
        arbitrary()
    }
}

impl vstd::std_specs::convert::FromSpecImpl<&str> for SegmentedPrompt {
    open spec fn obeys_from_spec() -> bool {
        false
    }

    open spec fn from_spec(text: &str) -> Self {
        arbitrary()
    }
}

impl From<&str> for SegmentedPrompt {
    fn from(text: &str) -> (prompt: Self)
        ensures
            prompt.text@ == text@,
            prompt.blocks@.len() == 0,
    {
        SegmentedPrompt::unmapped(text.to_owned())
    }
}

impl From<String> for SegmentedPrompt {
    fn from(text: String) -> (prompt: Self)
        ensures
            prompt.text@ == text@,
            prompt.blocks@.len() == 0,
    {
        SegmentedPrompt::unmapped(text)
    }
}

/// What the template variables stand for. A name that is not listed is live
/// state, so that a new prompt input shows up in the map.
pub open spec fn class_of(name: Seq<char>) -> (BlockLayer, BlockStability, BlockSource) {
    if name == "identity_context"@ {
        (BlockLayer::Identity, BlockStability::Epoch, BlockSource::File)
    } else if name == "execution_mode"@ || name == "authority"@ || name == "adapter_prompt"@ || name
        == "tool_use_enforcement"@ {
        (BlockLayer::Contract, BlockStability::Epoch, BlockSource::Config)
    } else if name == "skills_prompt"@ || name == "worker_capabilities"@ || name == "required_skills"@ || name
        == "agents_manifest"@ || name == "runtime_config_snapshot"@ {
        (BlockLayer::Capabilities, BlockStability::Epoch, BlockSource::Config)
    } else if name == "available_channels"@ {
        (BlockLayer::Capabilities, BlockStability::Volatile, BlockSource::Store)
    } else if name == "org_context"@ || name == "link_context"@ || name == "project_context"@ {
        (BlockLayer::Capabilities, BlockStability::Epoch, BlockSource::Store)
    } else if name == "knowledge_synthesis"@ {
        (BlockLayer::Knowledge, BlockStability::Volatile, BlockSource::Synthesis)
    } else if name == "changelog_highlights"@ {
        (BlockLayer::Knowledge, BlockStability::Epoch, BlockSource::Config)
    } else if name == "working_memory"@ || name == "session_chronicle"@ {
        (BlockLayer::Working, BlockStability::Volatile, BlockSource::Synthesis)
    } else if name == "channel_activity_map"@ || name == "participant_context"@ || name
        == "channel_transcript"@ {
        (BlockLayer::Working, BlockStability::Volatile, BlockSource::Store)
    } else if name == "backfill_transcript"@ {
        (BlockLayer::Working, BlockStability::Epoch, BlockSource::Store)
    } else if name == "active_goals"@ || name == "task_state"@ || name == "active_workers"@ {
        (BlockLayer::Runtime, BlockStability::Volatile, BlockSource::Store)
    } else if name == "conversation_context"@ {
        (BlockLayer::Runtime, BlockStability::Epoch, BlockSource::LiveState)
    } else {
        (BlockLayer::Runtime, BlockStability::Volatile, BlockSource::LiveState)
    }
}

/// Classifies a template variable.
pub fn classify(name: &str) -> (class: (BlockLayer, BlockStability, BlockSource))
    ensures
        class == class_of(name@),
{
    if text::same(name, "identity_context") {
        (BlockLayer::Identity, BlockStability::Epoch, BlockSource::File)
    } else if text::same(name, "execution_mode") || text::same(name, "authority") || text::same(
        name,
        "adapter_prompt",
    ) || text::same(name, "tool_use_enforcement") {
        (BlockLayer::Contract, BlockStability::Epoch, BlockSource::Config)
    } else if text::same(name, "skills_prompt") || text::same(name, "worker_capabilities") || text::same(
        name,
        "required_skills",
    ) || text::same(name, "agents_manifest") || text::same(name, "runtime_config_snapshot") {
        (BlockLayer::Capabilities, BlockStability::Epoch, BlockSource::Config)
    } else if text::same(name, "available_channels") {
        (BlockLayer::Capabilities, BlockStability::Volatile, BlockSource::Store)
    } else if text::same(name, "org_context") || text::same(name, "link_context") || text::same(
        name,
        "project_context",
    ) {
        (BlockLayer::Capabilities, BlockStability::Epoch, BlockSource::Store)
    } else if text::same(name, "knowledge_synthesis") {
        (BlockLayer::Knowledge, BlockStability::Volatile, BlockSource::Synthesis)
    } else if text::same(name, "changelog_highlights") {
        (BlockLayer::Knowledge, BlockStability::Epoch, BlockSource::Config)
    } else if text::same(name, "working_memory") || text::same(name, "session_chronicle") {
        (BlockLayer::Working, BlockStability::Volatile, BlockSource::Synthesis)
    } else if text::same(name, "channel_activity_map") || text::same(name, "participant_context")
        || text::same(name, "channel_transcript") {
        (BlockLayer::Working, BlockStability::Volatile, BlockSource::Store)
    } else if text::same(name, "backfill_transcript") {
        (BlockLayer::Working, BlockStability::Epoch, BlockSource::Store)
    } else if text::same(name, "active_goals") || text::same(name, "task_state") || text::same(
        name,
        "active_workers",
    ) {
        (BlockLayer::Runtime, BlockStability::Volatile, BlockSource::Store)
    } else if text::same(name, "conversation_context") {
        (BlockLayer::Runtime, BlockStability::Epoch, BlockSource::LiveState)
    } else {
        (BlockLayer::Runtime, BlockStability::Volatile, BlockSource::LiveState)
    }
}

/// Estimates tokens for a slice of prompt text.
///
/// Deliberately the same heuristic the compactor budgets with, so a block's
/// reported size and the budget that admitted it never disagree.
pub fn estimate_tokens(s: &str) -> (tokens: usize)
    ensures
        tokens == compactor::text_tokens(s@),
{
    compactor::estimate_text_tokens(s)
}

/// Whether a text holds one of the sentinels.
pub open spec fn has_sentinel(s: Seq<char>) -> bool {
    s.contains(OPEN) || s.contains(SEP) || s.contains(CLOSE)
}

/// True when a value would collide with the sentinels used to mark it.
///
/// Instrumentation is skipped entirely for such a render rather than editing
/// the value, because the captured bytes must be the sent bytes.
pub fn collides_with_sentinels(value: &str) -> (collides: bool)
    ensures
        collides == has_sentinel(value@),
{
    text::contains_char(value, OPEN) || text::contains_char(value, SEP) || text::contains_char(value, CLOSE)
}

/// A value wrapped in the sentinels.
pub open spec fn marked(name: Seq<char>, value: Seq<char>) -> Seq<char> {
    (seq![OPEN] + name).push(SEP) + value.push(CLOSE)
}

/// Wraps a value so that `segment` can find it in the render.
pub fn mark(name: &str, value: &str) -> (wrapped: String)
    ensures
        wrapped@ == marked(name@, value@),
{
    let mut wrapped = text::prefixed(OPEN, name);
    wrapped.push(SEP);
    wrapped.push_str(value);
    wrapped.push(CLOSE);
    assert(wrapped@ =~= marked(name@, value@));
    wrapped
}

// ---------------------------------------------------------------------------
// Segmentation
// ---------------------------------------------------------------------------

/// A run of prompt text with one origin.
pub struct Run {
    pub id: Seq<char>,
    pub class: (BlockLayer, BlockStability, BlockSource),
    pub content: Seq<char>,
}

/// A run of template prose; none where there is no prose.
pub open spec fn prose(template_id: Seq<char>, content: Seq<char>) -> Seq<Run> {
    if content.len() == 0 {
        Seq::empty()
    } else {
        seq![
            Run {
                id: template_id,
                class: (BlockLayer::Contract, BlockStability::Static, BlockSource::Template),
                content,
            },
        ]
    }
}

/// The runs of an instrumented render of which `pending` prose has been read
/// and `s` is left.
///
/// An injected value of no characters makes no run: the prose before it and
/// the prose after it are one. A marker that is not closed ends the reading:
/// what follows it is prose.
pub open spec fn runs(template_id: Seq<char>, pending: Seq<char>, s: Seq<char>) -> Seq<Run>
    decreases s.len(),
    via runs_decreases
{
    match text::find_char(s, OPEN) {
        None => prose(template_id, pending + s),
        Some(open) => {
            let before = pending + s.take(open);
            let named = s.subrange(open + 1, s.len() as int);
            match text::find_char(named, SEP) {
                None => prose(template_id, before + named),
                Some(sep) => {
                    let name = named.take(sep);
                    let valued = named.subrange(sep + 1, named.len() as int);
                    match text::find_char(valued, CLOSE) {
                        None => prose(template_id, before + valued),
                        Some(close) => {
                            let content = valued.take(close);
                            let rest = valued.subrange(close + 1, valued.len() as int);
                            if content.len() == 0 {
                                runs(template_id, before, rest)
                            } else {
                                prose(template_id, before) + seq![
                                    Run { id: name, class: class_of(name), content },
                                ] + runs(template_id, Seq::empty(), rest)
                            }
                        },
                    }
                },
            }
        },
    }
}

#[via_fn]
proof fn runs_decreases(template_id: Seq<char>, pending: Seq<char>, s: Seq<char>) {
    text::find_char_first(s, OPEN);
    if let Some(open) = text::find_char(s, OPEN) {
        let named = s.subrange(open + 1, s.len() as int);
        text::find_char_first(named, SEP);
        if let Some(sep) = text::find_char(named, SEP) {
            let valued = named.subrange(sep + 1, named.len() as int);
            text::find_char_first(valued, CLOSE);
        }
    }
}

/// The text of runs one after the other.
pub open spec fn run_text(runs: Seq<Run>) -> Seq<char>
    decreases runs.len(),
{
    if runs.len() == 0 {
        Seq::empty()
    } else {
        run_text(runs.drop_last()) + runs.last().content
    }
}

/// The blocks of runs laid one after the other.
pub open spec fn layout(runs: Seq<Run>) -> Seq<BlockModel>
    decreases runs.len(),
{
    if runs.len() == 0 {
        Seq::empty()
    } else {
        let front = runs.drop_last();
        layout(front).push(region(runs.last().id, runs.last().class, run_text(front), runs.last().content))
    }
}

/// The name under which a template's own prose stands in the map.
pub open spec fn template_id(name: Seq<char>) -> Seq<char> {
    "template:"@ + name
}

proof fn layout_push(runs: Seq<Run>, run: Run)
    ensures
        layout(runs.push(run)) == layout(runs).push(region(run.id, run.class, run_text(runs), run.content)),
        run_text(runs.push(run)) == run_text(runs) + run.content,
{
    assert(runs.push(run).drop_last() =~= runs);
}

/// Records the run of template prose that stands behind `before` in the text.
///
/// Runs that are only whitespace are kept. They carry no meaning to a reader,
/// but keeping them means the blocks tile the prompt exactly, so a size map
/// over them is accurate rather than approximate.
pub fn push_literal(blocks: &mut Vec<PromptBlock>, before: &str, content: &str, template_id: &str)
    requires
        text::byte_len(before@ + content@) <= usize::MAX,
    ensures
        models(final(blocks)@) == models(old(blocks)@) + layout_prose(before@, content@, template_id@),
{
    if content.is_empty() {
        assert(models(blocks@) + Seq::<BlockModel>::empty() =~= models(blocks@));
        return;
    }
    proof {
        text::encode_concat(before@, content@);
    }
    let start: usize = text::bytes_in(before);
    blocks.push(
        PromptBlock {
            id: template_id.to_owned(),
            layer: BlockLayer::Contract,
            stability: BlockStability::Static,
            source: BlockSource::Template,
            start,
            end: start + text::bytes_in(content),
            chars: content.unicode_len(),
            tokens: estimate_tokens(content),
        },
    );
    assert(models(blocks@) =~= models(old(blocks)@) + layout_prose(before@, content@, template_id@));
}

/// The block of a run of prose behind `before`; none where there is no prose.
pub open spec fn layout_prose(before: Seq<char>, content: Seq<char>, template_id: Seq<char>) -> Seq<BlockModel> {
    if content.len() == 0 {
        Seq::empty()
    } else {
        seq![
            region(
                template_id,
                (BlockLayer::Contract, BlockStability::Static, BlockSource::Template),
                before,
                content,
            ),
        ]
    }
}

proof fn layout_with_prose(runs: Seq<Run>, content: Seq<char>, id: Seq<char>)
    ensures
        layout(runs + prose(id, content)) == layout(runs) + layout_prose(run_text(runs), content, id),
        run_text(runs + prose(id, content)) == run_text(runs) + content,
{
    if content.len() == 0 {
        assert(runs + prose(id, content) =~= runs);
        assert(layout(runs) + layout_prose(run_text(runs), content, id) =~= layout(runs));
        assert(run_text(runs) + content =~= run_text(runs));
    } else {
        let run = prose(id, content)[0];
        assert(runs + prose(id, content) =~= runs.push(run));
        layout_push(runs, run);
        assert(layout(runs) + layout_prose(run_text(runs), content, id) =~= layout(runs).push(
            region(run.id, run.class, run_text(runs), run.content),
        ));
    }
}

/// Splits an instrumented render into the final text and its block map.
///
/// The returned text is the instrumented render with every marker removed.
pub fn segment(instrumented: &str, template_name: &str) -> (prompt: SegmentedPrompt)
    ensures
        prompt.text@ == run_text(runs(template_id(template_name@), Seq::empty(), instrumented@)),
        models(prompt.blocks@) == layout(runs(template_id(template_name@), Seq::empty(), instrumented@)),
        prompt.well_mapped(),
{
    let mut id = "template:".to_owned();
    id.push_str(template_name);
    let ghost tid = template_id(template_name@);
    let chars = text::chars_of(instrumented);
    let len: usize = chars.len();
    let ghost all = runs(tid, Seq::empty(), instrumented@);
    let ghost mut done: Seq<Run> = Seq::empty();
    // The text of the runs that are done, and the prose read since.
    let mut before = String::new();
    let mut pending = String::new();
    let mut blocks: Vec<PromptBlock> = Vec::new();
    let mut at: usize = 0;
    let mut open_ended = false;
    proof {
        assert(chars@.subrange(0, chars@.len() as int) =~= instrumented@);
        assert(Seq::<Run>::empty() + all =~= all);
        assert(models(blocks@) =~= layout(done));
    }
    while !open_ended
        invariant
            chars@ == instrumented@,
            len == chars@.len(),
            id@ == tid,
            at <= chars@.len(),
            before@ == run_text(done),
            models(blocks@) == layout(done),
            !open_ended ==> all == done + runs(tid, pending@, chars@.subrange(at as int, chars@.len() as int)),
            open_ended ==> all == done + prose(tid, pending@),
        decreases chars@.len() - at, (if open_ended { 0int } else { 1int }),
    {
        let ghost rest = chars@.subrange(at as int, chars@.len() as int);
        let ghost held = pending@;
        proof {
            text::find_char_first(rest, OPEN);
        }
        let opened = text::find_char_from(&chars, OPEN, at);
        let open: usize = match opened {
            Some(open) => open,
            None => {
                let tail = text::string_between(&chars, at, len);
                pending.push_str(tail.as_str());
                open_ended = true;
                continue;
            },
        };
        let lead = text::string_between(&chars, at, open);
        pending.push_str(lead.as_str());
        assert(rest.take(open - at) =~= lead@);
        let ghost named = rest.subrange(open - at + 1, rest.len() as int);
        assert(named =~= chars@.subrange(open + 1, chars@.len() as int));
        proof {
            text::find_char_first(named, SEP);
        }
        let parted = text::find_char_from(&chars, SEP, open + 1);
        let sep: usize = match parted {
            Some(sep) => sep,
            None => {
                let tail = text::string_between(&chars, open + 1, len);
                pending.push_str(tail.as_str());
                open_ended = true;
                continue;
            },
        };
        let name = text::string_between(&chars, open + 1, sep);
        assert(named.take(sep - open - 1) =~= name@);
        let ghost valued = named.subrange(sep - open, named.len() as int);
        assert(valued =~= chars@.subrange(sep + 1, chars@.len() as int));
        proof {
            text::find_char_first(valued, CLOSE);
        }
        let closed = text::find_char_from(&chars, CLOSE, sep + 1);
        let close: usize = match closed {
            Some(close) => close,
            None => {
                let tail = text::string_between(&chars, sep + 1, len);
                pending.push_str(tail.as_str());
                open_ended = true;
                continue;
            },
        };
        let content = text::string_between(&chars, sep + 1, close);
        assert(valued.take(close - sep - 1) =~= content@);
        assert(valued.subrange(close - sep, valued.len() as int) =~= chars@.subrange(
            close + 1,
            chars@.len() as int,
        ));
        let ghost left = chars@.subrange(close + 1, chars@.len() as int);
        at = close + 1;
        if content.as_str().is_empty() {
            continue;
        }
        let ghost run = Run { id: name@, class: class_of(name@), content: content@ };
        proof {
            layout_with_prose(done, pending@, tid);
            layout_push(done + prose(tid, pending@), run);
            assert(done + (prose(tid, pending@) + seq![run] + runs(tid, Seq::empty(), left)) =~= (done + prose(
                tid,
                pending@,
            )).push(run) + runs(tid, Seq::empty(), left));
        }
        let mut whole = before.clone();
        whole.push_str(pending.as_str());
        let start: usize = text::bytes_in(whole.as_str());
        push_literal(&mut blocks, before.as_str(), pending.as_str(), id.as_str());
        let (layer, stability, source) = classify(name.as_str());
        let ghost with_prose = models(blocks@);
        whole.push_str(content.as_str());
        let ghost earlier = blocks@;
        blocks.push(
            PromptBlock {
                id: name,
                layer,
                stability,
                source,
                start,
                end: text::bytes_in(whole.as_str()),
                chars: content.as_str().unicode_len(),
                tokens: estimate_tokens(content.as_str()),
            },
        );
        proof {
            assert(models(blocks@) =~= models(earlier).push(
                region(run.id, run.class, run_text(done + prose(tid, pending@)), run.content),
            ));
            done = (done + prose(tid, pending@)).push(run);
        }
        before = whole;
        pending = String::new();
        assert(pending@ =~= Seq::<char>::empty());
    }
    proof {
        layout_with_prose(done, pending@, tid);
    }
    let mut text = before.clone();
    text.push_str(pending.as_str());
    let size: usize = text::bytes_in(text.as_str());
    push_literal(&mut blocks, before.as_str(), pending.as_str(), id.as_str());
    proof {
        law_layout_tiles(all);
    }
    SegmentedPrompt { text, blocks }
}

// ---------------------------------------------------------------------------
// Laws
// ---------------------------------------------------------------------------

/// The blocks of any runs tile the text of the runs: every byte belongs to
/// exactly one block.
pub proof fn law_layout_tiles(runs: Seq<Run>)
    ensures
        tiles(layout(runs), run_text(runs)),
        layout(runs).len() == runs.len(),
    decreases runs.len(),
{
    if runs.len() > 0 {
        let front = runs.drop_last();
        law_layout_tiles(front);
        text::encode_concat(run_text(front), runs.last().content);
    }
}

/// Whether every block covers something.
pub open spec fn solid(blocks: Seq<BlockModel>) -> bool {
    forall|k: int| 0 <= k < blocks.len() ==> (#[trigger] blocks[k]).start < blocks[k].end
}

proof fn prose_is_solid(id: Seq<char>, content: Seq<char>)
    ensures
        forall|k: int| 0 <= k < prose(id, content).len() ==> (#[trigger] prose(id, content)[k]).content.len() > 0,
{
}

proof fn runs_are_solid(id: Seq<char>, pending: Seq<char>, s: Seq<char>)
    ensures
        forall|k: int| 0 <= k < runs(id, pending, s).len() ==> (#[trigger] runs(id, pending, s)[k]).content.len() > 0,
    decreases s.len(),
{
    text::find_char_first(s, OPEN);
    if text::find_char(s, OPEN) is None {
        prose_is_solid(id, pending + s);
    }
    if let Some(open) = text::find_char(s, OPEN) {
        let before = pending + s.take(open);
        let named = s.subrange(open + 1, s.len() as int);
        text::find_char_first(named, SEP);
        prose_is_solid(id, before);
        if text::find_char(named, SEP) is None {
            prose_is_solid(id, before + named);
        }
        if let Some(sep) = text::find_char(named, SEP) {
            let valued = named.subrange(sep + 1, named.len() as int);
            text::find_char_first(valued, CLOSE);
            if text::find_char(valued, CLOSE) is None {
                prose_is_solid(id, before + valued);
            }
            if let Some(close) = text::find_char(valued, CLOSE) {
                let rest = valued.subrange(close + 1, valued.len() as int);
                if valued.take(close).len() == 0 {
                    runs_are_solid(id, before, rest);
                    assert(runs(id, pending, s) == runs(id, before, rest));
                } else {
                    let name = named.take(sep);
                    let value = Run { id: name, class: class_of(name), content: valued.take(close) };
                    let tail = runs(id, Seq::empty(), rest);
                    runs_are_solid(id, Seq::empty(), rest);
                    let all = prose(id, before) + seq![value] + tail;
                    assert(runs(id, pending, s) == all);
                    assert forall|k: int| 0 <= k < all.len() implies (#[trigger] all[k]).content.len() > 0 by {
                        let ahead = prose(id, before).len() + 1;
                        if k >= ahead {
                            assert(all[k] == tail[k - ahead]);
                        }
                    }
                }
            }
        }
    }
}

proof fn layout_is_solid(runs: Seq<Run>)
    requires
        forall|k: int| 0 <= k < runs.len() ==> (#[trigger] runs[k]).content.len() > 0,
    ensures
        solid(layout(runs)),
    decreases runs.len(),
{
    if runs.len() > 0 {
        let front = runs.drop_last();
        let last = runs[runs.len() - 1].content;
        layout_is_solid(front);
        text::encode_concat(run_text(front), last);
        text::some_bytes(last);
    }
}

/// No block of a segmented prompt is empty: a value or a stretch of prose
/// without characters makes none.
pub proof fn law_no_block_is_empty(id: Seq<char>, instrumented: Seq<char>)
    ensures
        solid(layout(runs(id, Seq::empty(), instrumented))),
{
    runs_are_solid(id, Seq::empty(), instrumented);
    layout_is_solid(runs(id, Seq::empty(), instrumented));
}

/// Every run's block addresses exactly the bytes of the run in the text.
pub proof fn law_block_addresses_its_bytes(runs: Seq<Run>, k: int)
    requires
        0 <= k < runs.len(),
    ensures
        layout(runs)[k].start <= layout(runs)[k].end <= text::byte_len(run_text(runs)),
        vstd::utf8::encode_utf8(run_text(runs)).subrange(
            layout(runs)[k].start as int,
            layout(runs)[k].end as int,
        ) == vstd::utf8::encode_utf8(runs[k].content),
        layout(runs)[k].id == runs[k].id,
        layout(runs)[k].class == runs[k].class,
        layout(runs)[k].chars == runs[k].content.len(),
    decreases runs.len(),
{
    let front = runs.drop_last();
    law_layout_tiles(front);
    text::encode_concat(run_text(front), runs.last().content);
    let head = vstd::utf8::encode_utf8(run_text(front));
    let tail = vstd::utf8::encode_utf8(runs.last().content);
    if k < front.len() {
        law_block_addresses_its_bytes(front, k);
        let block = layout(front)[k];
        assert(layout(runs)[k] == block);
        assert((head + tail).subrange(block.start as int, block.end as int) =~= head.subrange(
            block.start as int,
            block.end as int,
        ));
    } else {
        assert((head + tail).subrange(head.len() as int, (head + tail).len() as int) =~= tail);
    }
}

/// A part of a template: prose, or a value injected under a name.
pub enum Part {
    Prose(Seq<char>),
    Value(Seq<char>, Seq<char>),
}

/// Whether a part holds no sentinel of its own.
pub open spec fn clean(part: Part) -> bool {
    match part {
        Part::Prose(prose) => !has_sentinel(prose),
        Part::Value(name, value) => !has_sentinel(name) && !has_sentinel(value),
    }
}

/// A template rendered with its values as they are.
pub open spec fn plain_render(parts: Seq<Part>) -> Seq<char>
    decreases parts.len(),
{
    if parts.len() == 0 {
        Seq::empty()
    } else {
        (match parts[0] {
            Part::Prose(prose) => prose,
            Part::Value(_, value) => value,
        }) + plain_render(parts.subrange(1, parts.len() as int))
    }
}

/// A template rendered with its values marked.
pub open spec fn marked_render(parts: Seq<Part>) -> Seq<char>
    decreases parts.len(),
{
    if parts.len() == 0 {
        Seq::empty()
    } else {
        (match parts[0] {
            Part::Prose(prose) => prose,
            Part::Value(name, value) => marked(name, value),
        }) + marked_render(parts.subrange(1, parts.len() as int))
    }
}

/// Prose without a sentinel is carried over.
proof fn runs_prose(id: Seq<char>, pending: Seq<char>, prose: Seq<char>, rest: Seq<char>)
    requires
        !has_sentinel(prose),
    ensures
        runs(id, pending, prose + rest) == runs(id, pending + prose, rest),
{
    let s = prose + rest;
    text::find_char_first(s, OPEN);
    text::find_char_first(rest, OPEN);
    assert forall|k: int| 0 <= k < prose.len() implies s[k] != OPEN by {
        assert(prose.contains(prose[k]));
    }
    match text::find_char(rest, OPEN) {
        None => {
            assert forall|k: int| 0 <= k < s.len() implies s[k] != OPEN by {
                if k >= prose.len() {
                    assert(s[k] == rest[k - prose.len()]);
                }
            }
            assert(pending + s =~= (pending + prose) + rest);
        },
        Some(open) => {
            assert forall|k: int| 0 <= k < prose.len() + open implies s[k] != OPEN by {
                if k >= prose.len() {
                    assert(s[k] == rest[k - prose.len()]);
                }
            }
            text::find_char_at(s, OPEN, prose.len() + open);
            assert(pending + s.take(prose.len() + open) =~= (pending + prose) + rest.take(open));
            assert(s.subrange(prose.len() + open + 1, s.len() as int) =~= rest.subrange(
                open + 1,
                rest.len() as int,
            ));
        },
    }
}

/// A marked value is read back under its name.
proof fn runs_value(id: Seq<char>, pending: Seq<char>, name: Seq<char>, value: Seq<char>, rest: Seq<char>)
    requires
        !has_sentinel(name),
        !has_sentinel(value),
    ensures
        runs(id, pending, marked(name, value) + rest) == (if value.len() == 0 {
            runs(id, pending, rest)
        } else {
            prose(id, pending) + seq![Run { id: name, class: class_of(name), content: value }] + runs(
                id,
                Seq::empty(),
                rest,
            )
        }),
{
    let s = marked(name, value) + rest;
    let named = s.subrange(1, s.len() as int);
    let valued = named.subrange(name.len() as int + 1, named.len() as int);
    assert(s[0] == OPEN);
    text::find_char_at(s, OPEN, 0);
    assert forall|k: int| 0 <= k < name.len() implies named[k] != SEP by {
        assert(named[k] == name[k]);
        assert(name.contains(name[k]));
    }
    assert(named[name.len() as int] == SEP);
    text::find_char_at(named, SEP, name.len() as int);
    assert forall|k: int| 0 <= k < value.len() implies valued[k] != CLOSE by {
        assert(valued[k] == value[k]);
        assert(value.contains(value[k]));
    }
    assert(valued[value.len() as int] == CLOSE);
    text::find_char_at(valued, CLOSE, value.len() as int);
    assert(named.take(name.len() as int) =~= name);
    assert(valued.take(value.len() as int) =~= value);
    assert(valued.subrange(value.len() as int + 1, valued.len() as int) =~= rest);
    assert(pending + s.take(0) =~= pending);
}

/// Stripping the markers of an instrumented render gives the bytes that the
/// same template renders to with its values unmarked, as long as neither the
/// template nor the values hold a sentinel.
pub proof fn law_stripping_gives_the_plain_render(id: Seq<char>, parts: Seq<Part>)
    requires
        forall|k: int| 0 <= k < parts.len() ==> clean(#[trigger] parts[k]),
    ensures
        run_text(runs(id, Seq::empty(), marked_render(parts))) == plain_render(parts),
{
    stripped(id, Seq::empty(), parts);
    assert(Seq::<char>::empty() + plain_render(parts) =~= plain_render(parts));
}

proof fn run_text_concat(a: Seq<Run>, b: Seq<Run>)
    ensures
        run_text(a + b) == run_text(a) + run_text(b),
    decreases b.len(),
{
    if b.len() == 0 {
        assert(a + b =~= a);
        assert(run_text(a) + run_text(b) =~= run_text(a));
    } else {
        run_text_concat(a, b.drop_last());
        assert((a + b).drop_last() =~= a + b.drop_last());
        assert((run_text(a) + run_text(b.drop_last())) + b.last().content =~= run_text(a) + (run_text(
            b.drop_last(),
        ) + b.last().content));
    }
}

proof fn prose_text(id: Seq<char>, content: Seq<char>)
    ensures
        run_text(prose(id, content)) == content,
{
    if content.len() > 0 {
        assert(prose(id, content).drop_last() =~= Seq::<Run>::empty());
        assert(run_text(Seq::<Run>::empty()) + content =~= content);
    } else {
        assert(content =~= Seq::<char>::empty());
    }
}

proof fn stripped(id: Seq<char>, pending: Seq<char>, parts: Seq<Part>)
    requires
        forall|k: int| 0 <= k < parts.len() ==> clean(#[trigger] parts[k]),
    ensures
        run_text(runs(id, pending, marked_render(parts))) == pending + plain_render(parts),
    decreases parts.len(),
{
    if parts.len() == 0 {
        let none = Seq::<char>::empty();
        assert(text::find_char(none, OPEN) is None);
        assert(pending + none =~= pending);
        prose_text(id, pending);
    } else {
        let rest = parts.subrange(1, parts.len() as int);
        assert(clean(parts[0]));
        assert forall|k: int| 0 <= k < rest.len() implies clean(#[trigger] rest[k]) by {
            assert(rest[k] == parts[k + 1]);
        }
        match parts[0] {
            Part::Prose(prose) => {
                runs_prose(id, pending, prose, marked_render(rest));
                stripped(id, pending + prose, rest);
                assert((pending + prose) + plain_render(rest) =~= pending + (prose + plain_render(rest)));
            },
            Part::Value(name, value) => {
                runs_value(id, pending, name, value, marked_render(rest));
                if value.len() == 0 {
                    stripped(id, pending, rest);
                    assert(value + plain_render(rest) =~= plain_render(rest));
                } else {
                    let run = Run { id: name, class: class_of(name), content: value };
                    stripped(id, Seq::empty(), rest);
                    prose_text(id, pending);
                    run_text_concat(
                        prose(id, pending) + seq![run],
                        runs(id, Seq::empty(), marked_render(rest)),
                    );
                    assert(prose(id, pending) + seq![run] =~= prose(id, pending).push(run));
                    layout_push(prose(id, pending), run);
                    assert((pending + value) + (Seq::<char>::empty() + plain_render(rest)) =~= pending + (value
                        + plain_render(rest)));
                }
            },
        }
    }
}

/// The runs of the values that a template injects, in order; a value of no
/// characters makes none.
pub open spec fn injected(parts: Seq<Part>) -> Seq<Run>
    decreases parts.len(),
{
    if parts.len() == 0 {
        Seq::empty()
    } else {
        (match parts[0] {
            Part::Value(name, value) => if value.len() > 0 {
                seq![Run { id: name, class: class_of(name), content: value }]
            } else {
                Seq::empty()
            },
            Part::Prose(_) => Seq::empty(),
        }) + injected(parts.subrange(1, parts.len() as int))
    }
}

/// Whether a block is not one of a template's prose.
pub open spec fn not_template(id: Seq<char>) -> spec_fn(BlockModel) -> bool {
    |block: BlockModel| block.id != id
}

spec fn not_prose(id: Seq<char>) -> spec_fn(Run) -> bool {
    |run: Run| run.id != id
}

/// Whether a block is that of a run, at its place in a text.
pub open spec fn shows(block: BlockModel, run: Run, text: Seq<char>) -> bool {
    &&& block.id == run.id
    &&& block.class == run.class
    &&& block.chars == run.content.len()
    &&& block.start <= block.end <= text::byte_len(text)
    &&& vstd::utf8::encode_utf8(text).subrange(block.start as int, block.end as int) == vstd::utf8::encode_utf8(
        run.content,
    )
}

/// The runs of a render that are not prose are those of the values.
proof fn injected_runs(id: Seq<char>, pending: Seq<char>, parts: Seq<Part>)
    requires
        forall|k: int| 0 <= k < parts.len() ==> clean(#[trigger] parts[k]),
        forall|k: int| 0 <= k < parts.len() ==> (#[trigger] parts[k] matches Part::Value(name, _) ==> name != id),
    ensures
        runs(id, pending, marked_render(parts)).filter(not_prose(id)) == injected(parts),
    decreases parts.len(),
{
    reveal(Seq::filter);
    let wanted = not_prose(id);
    prose_is_left_out(id, pending);
    if parts.len() == 0 {
        let none = Seq::<char>::empty();
        assert(text::find_char(none, OPEN) is None);
        assert(pending + none =~= pending);
        assert(injected(parts) =~= Seq::<Run>::empty());
    } else {
        let rest = parts.subrange(1, parts.len() as int);
        assert(clean(parts[0]));
        assert forall|k: int| 0 <= k < rest.len() implies clean(#[trigger] rest[k]) by {
            assert(rest[k] == parts[k + 1]);
        }
        assert forall|k: int| 0 <= k < rest.len() implies (#[trigger] rest[k] matches Part::Value(name, _) ==> name
            != id) by {
            assert(rest[k] == parts[k + 1]);
        }
        let none = Seq::<Run>::empty();
        match parts[0] {
            Part::Prose(prose) => {
                runs_prose(id, pending, prose, marked_render(rest));
                injected_runs(id, pending + prose, rest);
                assert(none + injected(rest) =~= injected(rest));
            },
            Part::Value(name, value) => {
                runs_value(id, pending, name, value, marked_render(rest));
                if value.len() == 0 {
                    injected_runs(id, pending, rest);
                    assert(none + injected(rest) =~= injected(rest));
                } else {
                    let one = seq![Run { id: name, class: class_of(name), content: value }];
                    let left = runs(id, Seq::empty(), marked_render(rest));
                    injected_runs(id, Seq::empty(), rest);
                    Seq::filter_distributes_over_add(prose(id, pending) + one, left, wanted);
                    Seq::filter_distributes_over_add(prose(id, pending), one, wanted);
                    assert(one.drop_last() =~= none);
                    assert(one.filter(wanted) =~= one);
                    assert(none + one =~= one);
                }
            },
        }
    }
}

proof fn prose_is_left_out(id: Seq<char>, content: Seq<char>)
    ensures
        prose(id, content).filter(not_prose(id)) == Seq::<Run>::empty(),
{
    reveal(Seq::filter);
    let all = prose(id, content);
    let none = Seq::<Run>::empty();
    assert(none.filter(not_prose(id)) =~= none);
    if content.len() > 0 {
        assert(all.drop_last() =~= none);
        assert(!not_prose(id)(all.last()));
    }
    assert(all.filter(not_prose(id)) =~= none);
}

/// The blocks that are not prose are those of the runs that are not.
proof fn shown_runs(all: Seq<Run>, id: Seq<char>)
    ensures
        layout(all).filter(not_template(id)).len() == all.filter(not_prose(id)).len(),
        forall|k: int|
            0 <= k < all.filter(not_prose(id)).len() ==> shows(
                #[trigger] layout(all).filter(not_template(id))[k],
                all.filter(not_prose(id))[k],
                run_text(all),
            ),
    decreases all.len(),
{
    reveal(Seq::filter);
    if all.len() > 0 {
        let front = all.drop_last();
        let run = all.last();
        shown_runs(front, id);
        let blocks = layout(front).filter(not_template(id));
        let kept = front.filter(not_prose(id));
        let block = region(run.id, run.class, run_text(front), run.content);
        text::encode_concat(run_text(front), run.content);
        let head = vstd::utf8::encode_utf8(run_text(front));
        let tail = vstd::utf8::encode_utf8(run.content);
        assert(layout(all).drop_last() =~= layout(front));
        assert(layout(all).last() == block);
        let shown = layout(all).filter(not_template(id));
        assert forall|k: int| 0 <= k < all.filter(not_prose(id)).len() implies shows(
            #[trigger] shown[k],
            all.filter(not_prose(id))[k],
            run_text(all),
        ) by {
            if k < kept.len() {
                assert(shown[k] == blocks[k]);
                assert(all.filter(not_prose(id))[k] == kept[k]);
                assert((head + tail).subrange(blocks[k].start as int, blocks[k].end as int) =~= head.subrange(
                    blocks[k].start as int,
                    blocks[k].end as int,
                ));
            } else {
                assert((head + tail).subrange(head.len() as int, (head + tail).len() as int) =~= tail);
            }
        }
    }
}

/// The blocks of an instrumented render that are not the template's own prose
/// are the injected values that have any characters, in the order in which the
/// template injects them: each stands under the value's name, and its bytes in
/// the plain render are the value's.
pub proof fn law_blocks_are_the_injected_values(id: Seq<char>, parts: Seq<Part>)
    requires
        forall|k: int| 0 <= k < parts.len() ==> clean(#[trigger] parts[k]),
        forall|k: int| 0 <= k < parts.len() ==> (#[trigger] parts[k] matches Part::Value(name, _) ==> name != id),
    ensures
        ({
            let blocks = layout(runs(id, Seq::empty(), marked_render(parts))).filter(not_template(id));
            let values = injected(parts);
            &&& blocks.len() == values.len()
            &&& forall|k: int|
                0 <= k < values.len() ==> shows(#[trigger] blocks[k], values[k], plain_render(parts))
        }),
{
    let all = runs(id, Seq::empty(), marked_render(parts));
    injected_runs(id, Seq::empty(), parts);
    shown_runs(all, id);
    law_stripping_gives_the_plain_render(id, parts);
}

// ---------------------------------------------------------------------------
// Appending
// ---------------------------------------------------------------------------

/// What a prompt becomes when it adopts a replacement.
pub open spec fn adopted(
    text: Seq<char>,
    blocks: Seq<BlockModel>,
    replacement: Seq<char>,
    id: Seq<char>,
) -> (Seq<char>, Seq<BlockModel>) {
    if blocks.len() == 0 && text.len() > 0 {
        (replacement, blocks)
    } else if !text::begins(replacement, text) {
        (replacement, Seq::empty())
    } else if replacement == text {
        (text, blocks)
    } else {
        (
            replacement,
            blocks.push(
                region(id, class_of(id), text, replacement.subrange(text.len() as int, replacement.len() as int)),
            ),
        )
    }
}

/// What a prompt becomes when a section is appended to it.
pub open spec fn with_section(
    text: Seq<char>,
    blocks: Seq<BlockModel>,
    id: Seq<char>,
    section: Seq<char>,
) -> (Seq<char>, Seq<BlockModel>) {
    if section.len() == 0 {
        (text, blocks)
    } else if text.len() == 0 {
        adopted(text, blocks, section, id)
    } else {
        adopted(text, blocks, text + "\n\n"@ + section, id)
    }
}

impl SegmentedPrompt {
    /// Adopts a version of this prompt with text appended, recording the
    /// appended region as a block of its own.
    ///
    /// The caller passes the whole replacement. A replacement that is not an
    /// extension of the current text has rewritten mapped bytes, so the map is
    /// dropped rather than left describing content that moved. Appending to a
    /// prompt that was never mapped records nothing: a map that starts partway
    /// through the text would leave the bytes above it unaccounted for.
    pub fn adopt_appended(&mut self, replacement: String, id: &str)
        ensures
            (final(self).text@, models(final(self).blocks@)) == adopted(
                old(self).text@,
                models(old(self).blocks@),
                replacement@,
                id@,
            ),
            old(self).well_mapped() ==> final(self).well_mapped(),
            old(self).blocks@.len() == 0 && old(self).text@.len() > 0 ==> final(self).blocks@.len() == 0,
    {
        let ghost before = models(self.blocks@);
        if self.blocks.len() == 0 && !self.text.as_str().is_empty() {
            self.text = replacement;
            return;
        }
        if !text::starts_with(replacement.as_str(), self.text.as_str()) {
            self.text = replacement;
            self.blocks.clear();
            assert(models(self.blocks@) =~= Seq::<BlockModel>::empty());
            return;
        }
        let len: usize = self.text.as_str().unicode_len();
        let whole = text::chars_of(replacement.as_str());
        if whole.len() == len {
            assert(replacement@ =~= self.text@) by {
                assert(replacement@.subrange(0, len as int) =~= replacement@);
            }
            return;
        }
        assert(replacement@ != self.text@);
        let start: usize = text::bytes_in(self.text.as_str());
        let suffix = text::string_between(&whole, len, whole.len());
        proof {
            assert(replacement@ =~= self.text@ + suffix@) by {
                assert(replacement@ =~= replacement@.subrange(0, len as int) + suffix@);
            }
            text::encode_concat(self.text@, suffix@);
        }
        let (layer, stability, source) = classify(id);
        let block = PromptBlock {
            id: id.to_owned(),
            layer,
            stability,
            source,
            start,
            end: text::bytes_in(replacement.as_str()),
            chars: suffix.as_str().unicode_len(),
            tokens: estimate_tokens(suffix.as_str()),
        };
        self.blocks.push(block);
        assert(models(self.blocks@) =~= before.push(block@));
        self.text = replacement;
        proof {
            if old(self).well_mapped() {
                assert forall|k: int| 0 < k < before.len() implies (#[trigger] models(self.blocks@)[k]).start
                    == models(self.blocks@)[k - 1].end by {
                    assert(models(self.blocks@)[k] == before[k]);
                    assert(models(self.blocks@)[k - 1] == before[k - 1]);
                }
                if before.len() == 0 {
                    assert(old(self).text@.len() == 0);
                    assert(old(self).text@ =~= Seq::<char>::empty());
                }
            }
        }
    }

    /// Appends a named section, separated by a blank line.
    ///
    /// Empty sections are skipped rather than recorded as zero-width blocks.
    pub fn append_section(&mut self, id: &str, section: &str)
        ensures
            (final(self).text@, models(final(self).blocks@)) == with_section(
                old(self).text@,
                models(old(self).blocks@),
                id@,
                section@,
            ),
            old(self).well_mapped() ==> final(self).well_mapped(),
            old(self).blocks@.len() == 0 && old(self).text@.len() > 0 ==> final(self).blocks@.len() == 0,
    {
        if section.is_empty() {
            return;
        }
        if self.text.as_str().is_empty() {
            self.adopt_appended(section.to_owned(), id);
        } else {
            let mut whole = self.text.clone();
            whole.push_str("\n\n");
            whole.push_str(section);
            self.adopt_appended(whole, id);
        }
    }
}

/// Neither a replacement nor a section that is appended adds an empty block.
pub proof fn law_appending_adds_no_empty_block(
    text: Seq<char>,
    blocks: Seq<BlockModel>,
    id: Seq<char>,
    added: Seq<char>,
)
    requires
        solid(blocks),
    ensures
        solid(adopted(text, blocks, added, id).1),
        solid(with_section(text, blocks, id, added).1),
{
    adopting_stays_solid(text, blocks, id, added);
    adopting_stays_solid(text, blocks, id, text + "\n\n"@ + added);
}

proof fn adopting_stays_solid(text: Seq<char>, blocks: Seq<BlockModel>, id: Seq<char>, replacement: Seq<char>)
    requires
        solid(blocks),
    ensures
        solid(adopted(text, blocks, replacement, id).1),
{
    if text::begins(replacement, text) && replacement != text {
        let suffix = replacement.subrange(text.len() as int, replacement.len() as int);
        assert(text + suffix =~= replacement) by {
            assert(replacement =~= replacement.subrange(0, text.len() as int) + suffix);
        }
        if suffix.len() == 0 {
            assert(replacement =~= text);
        }
        text::some_bytes(suffix);
        text::encode_concat(text, suffix);
    }
}

/// Every input of a template belongs to one layer, and an unknown one to the
/// runtime.
pub proof fn law_inputs_belong_to_their_layer(name: Seq<char>)
    ensures
        class_of(name).0 == BlockLayer::Identity <==> name == "identity_context"@,
        class_of(name).0 == BlockLayer::Contract <==> name == "execution_mode"@ || name == "authority"@ || name == "adapter_prompt"@ || name == "tool_use_enforcement"@,
        class_of(name).0 == BlockLayer::Capabilities <==> name == "skills_prompt"@ || name == "worker_capabilities"@ || name == "required_skills"@ || name == "agents_manifest"@ || name == "runtime_config_snapshot"@ || name == "available_channels"@ || name == "org_context"@ || name == "link_context"@ || name == "project_context"@,
        class_of(name).0 == BlockLayer::Knowledge <==> name == "knowledge_synthesis"@ || name == "changelog_highlights"@,
        class_of(name).0 == BlockLayer::Working <==> name == "working_memory"@ || name == "session_chronicle"@ || name == "channel_activity_map"@ || name == "participant_context"@ || name == "channel_transcript"@ || name == "backfill_transcript"@,
{
    names_differ();
}

/// An input changes with the configuration where it stands for something that
/// is set or read once, and is volatile where it stands for something that goes
/// on; no input is as static as the template's own prose.
pub proof fn law_inputs_change_as_what_they_stand_for(name: Seq<char>)
    ensures
        class_of(name).1 != BlockStability::Static,
        class_of(name).1 == BlockStability::Epoch <==> name == "identity_context"@ || name == "execution_mode"@ || name == "authority"@ || name == "adapter_prompt"@ || name == "tool_use_enforcement"@ || name == "skills_prompt"@ || name == "worker_capabilities"@ || name == "required_skills"@ || name == "agents_manifest"@ || name == "runtime_config_snapshot"@ || name == "org_context"@ || name == "link_context"@ || name == "project_context"@ || name == "changelog_highlights"@ || name == "backfill_transcript"@ || name == "conversation_context"@,
{
    names_differ();
}

/// An input is traced to where its content comes from, and an unknown one to
/// live state; the template itself is the source of none.
pub proof fn law_inputs_are_traced_to_their_source(name: Seq<char>)
    ensures
        class_of(name).2 != BlockSource::Template,
        class_of(name).2 == BlockSource::File <==> name == "identity_context"@,
        class_of(name).2 == BlockSource::Config <==> name == "execution_mode"@ || name == "authority"@ || name == "adapter_prompt"@ || name == "tool_use_enforcement"@ || name == "skills_prompt"@ || name == "worker_capabilities"@ || name == "required_skills"@ || name == "agents_manifest"@ || name == "runtime_config_snapshot"@ || name == "changelog_highlights"@,
        class_of(name).2 == BlockSource::Synthesis <==> name == "knowledge_synthesis"@ || name == "working_memory"@ || name == "session_chronicle"@,
        class_of(name).2 == BlockSource::Store <==> name == "available_channels"@ || name == "org_context"@ || name == "link_context"@ || name == "project_context"@ || name == "channel_activity_map"@ || name == "participant_context"@ || name == "channel_transcript"@ || name == "backfill_transcript"@ || name == "active_goals"@ || name == "task_state"@ || name == "active_workers"@,
{
    names_differ();
}

/// The names of inputs differ in their length or in a letter.
proof fn names_differ()
    ensures
        "identity_context"@.len() == 16,
        "execution_mode"@.len() == 14,
        "authority"@.len() == 9,
        "adapter_prompt"@.len() == 14,
        "tool_use_enforcement"@.len() == 20,
        "skills_prompt"@.len() == 13,
        "worker_capabilities"@.len() == 19,
        "required_skills"@.len() == 15,
        "agents_manifest"@.len() == 15,
        "runtime_config_snapshot"@.len() == 23,
        "available_channels"@.len() == 18,
        "org_context"@.len() == 11,
        "link_context"@.len() == 12,
        "project_context"@.len() == 15,
        "knowledge_synthesis"@.len() == 19,
        "changelog_highlights"@.len() == 20,
        "working_memory"@.len() == 14,
        "session_chronicle"@.len() == 17,
        "channel_activity_map"@.len() == 20,
        "participant_context"@.len() == 19,
        "channel_transcript"@.len() == 18,
        "backfill_transcript"@.len() == 19,
        "active_goals"@.len() == 12,
        "task_state"@.len() == 10,
        "active_workers"@.len() == 14,
        "conversation_context"@.len() == 20,
        "execution_mode"@ != "working_memory"@,
        "execution_mode"@ != "active_workers"@,
        "adapter_prompt"@ != "working_memory"@,
        "adapter_prompt"@ != "active_workers"@,
        "tool_use_enforcement"@ != "changelog_highlights"@,
        "tool_use_enforcement"@ != "channel_activity_map"@,
        "tool_use_enforcement"@ != "conversation_context"@,
        "worker_capabilities"@ != "knowledge_synthesis"@,
        "worker_capabilities"@ != "participant_context"@,
        "worker_capabilities"@ != "backfill_transcript"@,
        "required_skills"@ != "project_context"@,
        "agents_manifest"@ != "project_context"@,
        "available_channels"@ != "channel_transcript"@,
        "link_context"@ != "active_goals"@,
        "knowledge_synthesis"@ != "participant_context"@,
        "knowledge_synthesis"@ != "backfill_transcript"@,
        "changelog_highlights"@ != "channel_activity_map"@,
        "changelog_highlights"@ != "conversation_context"@,
        "working_memory"@ != "active_workers"@,
        "channel_activity_map"@ != "conversation_context"@,
        "participant_context"@ != "backfill_transcript"@,
{
    reveal_strlit("identity_context");
    reveal_strlit("execution_mode");
    reveal_strlit("authority");
    reveal_strlit("adapter_prompt");
    reveal_strlit("tool_use_enforcement");
    reveal_strlit("skills_prompt");
    reveal_strlit("worker_capabilities");
    reveal_strlit("required_skills");
    reveal_strlit("agents_manifest");
    reveal_strlit("runtime_config_snapshot");
    reveal_strlit("available_channels");
    reveal_strlit("org_context");
    reveal_strlit("link_context");
    reveal_strlit("project_context");
    reveal_strlit("knowledge_synthesis");
    reveal_strlit("changelog_highlights");
    reveal_strlit("working_memory");
    reveal_strlit("session_chronicle");
    reveal_strlit("channel_activity_map");
    reveal_strlit("participant_context");
    reveal_strlit("channel_transcript");
    reveal_strlit("backfill_transcript");
    reveal_strlit("active_goals");
    reveal_strlit("task_state");
    reveal_strlit("active_workers");
    reveal_strlit("conversation_context");
    assert("execution_mode"@[0] != "working_memory"@[0]);
    assert("execution_mode"@[0] != "active_workers"@[0]);
    assert("adapter_prompt"@[0] != "working_memory"@[0]);
    assert("adapter_prompt"@[1] != "active_workers"@[1]);
    assert("tool_use_enforcement"@[0] != "changelog_highlights"@[0]);
    assert("tool_use_enforcement"@[0] != "channel_activity_map"@[0]);
    assert("tool_use_enforcement"@[0] != "conversation_context"@[0]);
    assert("worker_capabilities"@[0] != "knowledge_synthesis"@[0]);
    assert("worker_capabilities"@[0] != "participant_context"@[0]);
    assert("worker_capabilities"@[0] != "backfill_transcript"@[0]);
    assert("required_skills"@[0] != "project_context"@[0]);
    assert("agents_manifest"@[0] != "project_context"@[0]);
    assert("available_channels"@[0] != "channel_transcript"@[0]);
    assert("link_context"@[0] != "active_goals"@[0]);
    assert("knowledge_synthesis"@[0] != "participant_context"@[0]);
    assert("knowledge_synthesis"@[0] != "backfill_transcript"@[0]);
    assert("changelog_highlights"@[4] != "channel_activity_map"@[4]);
    assert("changelog_highlights"@[1] != "conversation_context"@[1]);
    assert("working_memory"@[0] != "active_workers"@[0]);
    assert("channel_activity_map"@[1] != "conversation_context"@[1]);
    assert("participant_context"@[0] != "backfill_transcript"@[0]);
}

/// Layers and stabilities have names of their own.
pub proof fn law_layers_are_told_apart(a: BlockLayer, b: BlockLayer, s: BlockStability, t: BlockStability)
    ensures
        a.name() == b.name() ==> a == b,
        s.name() == t.name() ==> s == t,
{
    reveal_strlit("identity");
    reveal_strlit("contract");
    reveal_strlit("capabilities");
    reveal_strlit("knowledge");
    reveal_strlit("working");
    reveal_strlit("runtime");
    reveal_strlit("static");
    reveal_strlit("epoch");
    reveal_strlit("volatile");
    assert("identity"@[0] != "contract"@[0] && "identity"@[0] != "capabilities"@[0]);
    assert("identity"@[0] != "knowledge"@[0] && "identity"@[0] != "working"@[0] && "identity"@[0] != "runtime"@[0]);
    assert("contract"@[1] != "capabilities"@[1] && "contract"@[0] != "knowledge"@[0]);
    assert("contract"@[0] != "working"@[0] && "contract"@[0] != "runtime"@[0]);
    assert("capabilities"@[0] != "knowledge"@[0] && "capabilities"@[0] != "working"@[0]);
    assert("capabilities"@[0] != "runtime"@[0] && "knowledge"@[0] != "working"@[0]);
    assert("knowledge"@[0] != "runtime"@[0] && "working"@[0] != "runtime"@[0]);
    assert("static"@[0] != "epoch"@[0] && "static"@[0] != "volatile"@[0]);
}

/// A block tells of its region alone: it begins where the text before it ends,
/// is as long as its content and counts that content's characters and tokens.
pub proof fn law_a_block_measures_its_content(
    id: Seq<char>,
    class: (BlockLayer, BlockStability, BlockSource),
    before: Seq<char>,
    content: Seq<char>,
)
    ensures
        region(id, class, before, content).id == id,
        region(id, class, before, content).class == class,
        region(id, class, before, content).start == text::byte_len(before),
        region(id, class, before, content).end == region(id, class, before, content).start + text::byte_len(content),
        region(id, class, before, content).chars == content.len(),
        region(id, class, before, content).tokens == compactor::text_tokens(content),
{
    text::encode_concat(before, content);
}

/// A prompt becomes what it adopts. Its blocks stay where it only grew, with one
/// more for what was added; they are dropped where it was rewritten.
pub proof fn law_a_prompt_becomes_what_it_adopts(
    text: Seq<char>,
    blocks: Seq<BlockModel>,
    replacement: Seq<char>,
    id: Seq<char>,
)
    ensures
        adopted(text, blocks, replacement, id).0 == replacement,
        blocks.len() == 0 && text.len() > 0 ==> adopted(text, blocks, replacement, id).1.len() == 0,
        !text::begins(replacement, text) ==> adopted(text, blocks, replacement, id).1.len() == 0,
        text::begins(replacement, text) && replacement.len() > text.len() && (blocks.len() > 0 || text.len() == 0) ==> {
            let after = adopted(text, blocks, replacement, id).1;
            &&& after.drop_last() == blocks
            &&& after.last().id == id
            &&& after.last().start == text::byte_len(text)
            &&& after.last().end == text::byte_len(replacement)
            &&& after.last().chars == replacement.len() - text.len()
            &&& after.last().class == class_of(id)
        },
        replacement == text ==> adopted(text, blocks, replacement, id).1 == blocks,
{
    if text::begins(replacement, text) && replacement != text {
        let suffix = replacement.subrange(text.len() as int, replacement.len() as int);
        assert(text + suffix =~= replacement) by {
            assert(replacement =~= replacement.subrange(0, text.len() as int) + suffix);
        }
    }
    if text::begins(replacement, text) && (blocks.len() > 0 || text.len() == 0) && replacement.len() > text.len() {
        assert(adopted(text, blocks, replacement, id).1.drop_last() =~= blocks);
    }
    if replacement == text {
        assert(replacement.subrange(0, text.len() as int) =~= text);
        assert(blocks.len() == 0 ==> blocks =~= Seq::<BlockModel>::empty());
    }
}

/// A section is put at the end, a blank line after what is there; an empty one
/// changes nothing.
pub proof fn law_a_section_is_put_at_the_end(
    text: Seq<char>,
    blocks: Seq<BlockModel>,
    id: Seq<char>,
    section: Seq<char>,
)
    ensures
        section.len() == 0 ==> with_section(text, blocks, id, section) == (text, blocks),
        section.len() > 0 && text.len() == 0 ==> with_section(text, blocks, id, section).0 == section,
        section.len() > 0 && text.len() > 0 ==> with_section(text, blocks, id, section).0 == text + "\n\n"@ + section,
        section.len() > 0 && blocks.len() > 0 && text.len() > 0 ==> with_section(text, blocks, id, section).1.len()
            == blocks.len() + 1 && with_section(text, blocks, id, section).1.last().id == id,
{
    let whole = text + "\n\n"@ + section;
    law_a_prompt_becomes_what_it_adopts(text, blocks, section, id);
    law_a_prompt_becomes_what_it_adopts(text, blocks, whole, id);
    assert(whole.subrange(0, text.len() as int) =~= text);
    let after = adopted(text, blocks, whole, id).1;
    assert(section.len() > 0 && blocks.len() > 0 ==> after.drop_last().len() == blocks.len());
}

/// The blocks of a layout are those of its runs, one each and in order.
pub proof fn law_every_run_has_its_block(runs: Seq<Run>, k: int)
    requires
        0 <= k < runs.len(),
    ensures
        layout(runs).len() == runs.len(),
        layout(runs)[k].id == runs[k].id,
        layout(runs)[k].class == runs[k].class,
        layout(runs)[k].chars == runs[k].content.len(),
    decreases runs.len(),
{
    let front = runs.drop_last();
    let last = runs.last();
    assert(layout(runs) == layout(front).push(region(last.id, last.class, run_text(front), last.content)));
    if front.len() > 0 {
        law_every_run_has_its_block(front, if k < front.len() {
            k
        } else {
            0
        });
    } else {
        assert(layout(front).len() == 0);
    }
}

/// A marked value stands between its sentinels, behind its name.
pub proof fn law_a_marked_value_stands_behind_its_name(name: Seq<char>, value: Seq<char>)
    ensures
        marked(name, value)[0] == OPEN,
        marked(name, value).last() == CLOSE,
        marked(name, value).subrange(1, 1 + name.len() as int) == name,
        marked(name, value)[1 + name.len() as int] == SEP,
        marked(name, value).subrange(2 + name.len() as int, marked(name, value).len() - 1) == value,
        has_sentinel(value) <==> value.contains(OPEN) || value.contains(SEP) || value.contains(CLOSE),
{
    let whole = marked(name, value);
    assert(whole.subrange(1, 1 + name.len() as int) =~= name);
    assert(whole.subrange(2 + name.len() as int, whole.len() - 1) =~= value);
}

} // verus!
