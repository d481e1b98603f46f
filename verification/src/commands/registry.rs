//! Typed slash-command registry.
//!
//! Every command is defined once in [`commands`]. Parsing, dispatch, and
//! `/help` all derive from the same table, so adding a command is one entry
//! here and a handler arm.
use vstd::prelude::*;
use crate::conversation::settings::ResponseMode;
use crate::text;

verus! {

broadcast use vstd::seq::group_seq_axioms;

/// Definition of a single slash command.
#[derive(Debug)]
pub struct CommandDef {
    /// Canonical name without the slash (e.g. "status").
    pub name: &'static str,
    /// Short description shown in `/help` and platform menus.
    pub description: &'static str,
    /// Grouping for `/help` display.
    pub category: CommandCategory,
    /// Alternative names that resolve to this command.
    pub aliases: Vec<&'static str>,
    /// Argument shape: drives validation and help hints.
    pub args: ArgSpec,
    /// How this command executes.
    pub handler: CommandHandler,
}

/// Grouping for `/help` display, rendered in the order of `help`.
#[derive(Debug, Clone, Copy, PartialEq, Eq, Structural)]
pub enum CommandCategory {
    Session,
    Response,
    Memory,
    Tasks,
    Skills,
    Info,
    Config,
}

/// Argument shape for a command.
#[derive(Debug)]
pub enum ArgSpec {
    /// Takes no arguments. Trailing text means the message is conversation
    /// that happens to start with a command word ("/status update: shipped")
    /// and must reach the model untouched.
    NoArgs,
    /// Optional free text, named for the help hint: "[query]".
    Optional(&'static str),
    /// Required free text: "<prompt>". Missing args produce a usage reply.
    Required(&'static str),
    /// Closed set, validated case-insensitively: "[on|off|status]".
    /// Empty args are allowed (commands treat that as a status query).
    Choice(Vec<&'static str>),
}

/// How a command executes.
#[derive(Debug, Clone, Copy)]
pub enum CommandHandler {
    /// Executes deterministically on the channel control plane. Never consumes
    /// an agent turn.
    Control(ControlAction),
    /// Forwarded to the agent as a normal turn.
    Agent(AgentAction),
}

/// Control-plane operations.
#[derive(Debug, Clone, Copy, PartialEq, Eq, Structural)]
pub enum ControlAction {
    /// Report mode, resolved models, adapter, and current time.
    Status,
    /// Persist a new response mode for this channel.
    SetResponseMode(ResponseMode),
    /// Render the generated command list.
    Help,
    /// Print the runtime agent id. Deterministic so identity checks bypass
    /// model output drift.
    AgentId,
}

/// Agent-turn commands.
#[derive(Debug, Clone, Copy)]
pub enum AgentAction {
    /// Replace the raw text with a deterministic instruction rendered as a
    /// normal agent turn.
    PromptRewrite(&'static str),
}

/// A successfully parsed command with validated, normalized arguments.
#[derive(Debug)]
pub struct ParsedCommand<'a> {
    pub def: &'a CommandDef,
    pub args: String,
}

/// Result of [`CommandRegistry::parse`].
#[derive(Debug)]
pub enum ParseResult<'a> {
    /// Recognized command with valid arguments.
    Command(ParsedCommand<'a>),
    /// Recognized command with invalid arguments: reply with usage text, do
    /// not dispatch.
    Usage(&'a CommandDef, String),
    /// Not a command; the text flows to the model untouched.
    NotACommand,
}

/// Lookup and parsing over a command table.
pub struct CommandRegistry<'a> {
    pub defs: &'a Vec<CommandDef>,
}

/// What an argument shape is.
pub enum ArgModel {
    NoArgs,
    Optional(Seq<char>),
    Required(Seq<char>),
    Choice(Seq<Seq<char>>),
}

impl View for ArgSpec {
    type V = ArgModel;

    open spec fn view(&self) -> ArgModel {
        match self {
            ArgSpec::NoArgs => ArgModel::NoArgs,
            ArgSpec::Optional(hint) => ArgModel::Optional(hint@),
            ArgSpec::Required(hint) => ArgModel::Required(hint@),
            ArgSpec::Choice(options) => ArgModel::Choice(text::slices(options@)),
        }
    }
}

/// What a command definition is.
pub struct DefModel {
    pub name: Seq<char>,
    pub description: Seq<char>,
    pub category: CommandCategory,
    pub aliases: Seq<Seq<char>>,
    pub args: ArgModel,
    pub handler: CommandHandler,
}

impl View for CommandDef {
    type V = DefModel;

    open spec fn view(&self) -> DefModel {
        DefModel {
            name: self.name@,
            description: self.description@,
            category: self.category,
            aliases: text::slices(self.aliases@),
            args: self.args@,
            handler: self.handler,
        }
    }
}

/// What a command table is.
pub open spec fn table(defs: Seq<CommandDef>) -> Seq<DefModel> {
    defs.map_values(|def: CommandDef| def@)
}

impl ArgModel {
    /// The help hint of an argument shape.
    pub open spec fn hint_text(self) -> Option<Seq<char>> {
        match self {
            ArgModel::NoArgs => None,
            ArgModel::Optional(hint) => Some(hint),
            ArgModel::Required(hint) => Some(hint),
            ArgModel::Choice(options) => Some("["@ + text::joined(options, "|"@) + "]"@),
        }
    }
}

/// A closed set as it reads in hints and usage replies.
fn bracketed(options: &Vec<&'static str>) -> (hint: String)
    ensures
        hint@ == "["@ + text::joined(text::slices(options@), "|"@) + "]"@,
{
    let mut hint = "[".to_owned();
    hint.push_str(text::join_slices(options, "|").as_str());
    hint.push_str("]");
    hint
}

impl ArgSpec {
    /// Help hint for this argument shape, e.g. "[query]" or "[on|off]".
    pub fn hint(&self) -> (hint: Option<String>)
        ensures
            text::opt_text(hint) == self@.hint_text(),
    {
        match self {
            ArgSpec::NoArgs => None,
            ArgSpec::Optional(hint) => Some((*hint).to_owned()),
            ArgSpec::Required(hint) => Some((*hint).to_owned()),
            ArgSpec::Choice(options) => Some(bracketed(options)),
        }
    }
}

// ---------------------------------------------------------------------------
// Lookup
// ---------------------------------------------------------------------------

/// Whether a name is one of a list, ASCII case aside.
pub open spec fn among(names: Seq<Seq<char>>, name: Seq<char>) -> bool {
    exists|k: int| 0 <= k < names.len() && text::same_ignoring_case(#[trigger] names[k], name)
}

/// Whether a command goes by a name.
pub open spec fn answers_to(def: DefModel, name: Seq<char>) -> bool {
    text::same_ignoring_case(def.name, name) || among(def.aliases, name)
}

/// The first command of a table that goes by a name.
pub open spec fn resolved(defs: Seq<DefModel>, name: Seq<char>) -> Option<int>
    decreases defs.len(),
{
    if defs.len() == 0 {
        None
    } else {
        match resolved(defs.drop_last(), name) {
            Some(k) => Some(k),
            None => if answers_to(defs.last(), name) {
                Some(defs.len() - 1)
            } else {
                None
            },
        }
    }
}

/// What the first command that goes by a name is.
pub proof fn resolved_first(defs: Seq<DefModel>, name: Seq<char>)
    ensures
        match resolved(defs, name) {
            Some(k) => 0 <= k < defs.len() && answers_to(defs[k], name) && forall|i: int|
                0 <= i < k ==> !answers_to(#[trigger] defs[i], name),
            None => forall|i: int| 0 <= i < defs.len() ==> !answers_to(#[trigger] defs[i], name),
        },
    decreases defs.len(),
{
    if defs.len() > 0 {
        let front = defs.drop_last();
        resolved_first(front, name);
        assert forall|i: int| 0 <= i < front.len() implies front[i] == defs[i] by {}
    }
}

/// Whether a name is one of a list, ASCII case aside.
fn is_among(names: &Vec<&'static str>, name: &str) -> (found: bool)
    ensures
        found == among(text::slices(names@), name@),
{
    let ghost all = text::slices(names@);
    let mut k: usize = 0;
    while k < names.len()
        invariant
            k <= names@.len(),
            all == text::slices(names@),
            forall|i: int| 0 <= i < k ==> !text::same_ignoring_case(#[trigger] all[i], name@),
        decreases names@.len() - k,
    {
        if text::eq_ignore_ascii_case(names[k], name) {
            assert(text::same_ignoring_case(all[k as int], name@));
            return true;
        }
        k = k + 1;
    }
    false
}

// ---------------------------------------------------------------------------
// Parsing
// ---------------------------------------------------------------------------

/// Arguments with the dashes that phones type in place of `--` and `-`.
pub open spec fn plain_dashes(args: Seq<char>) -> Seq<char> {
    text::replaced(
        text::replaced(
            text::replaced(args, seq!['\u{2014}', '\u{2014}'], "--"@),
            seq!['\u{2014}'],
            "--"@,
        ),
        seq!['\u{2013}'],
        "-"@,
    )
}

/// iOS autocorrects `--` to an em dash and `-` to an en dash, silently
/// breaking flag-style arguments typed from a phone. The double-em case is
/// replaced first so a mangled `----` collapses correctly.
pub fn normalize_smart_dashes(args: &str) -> (plain: String)
    ensures
        plain@ == plain_dashes(args@),
{
    proof {
        reveal_strlit("\u{2014}\u{2014}");
        reveal_strlit("\u{2014}");
        reveal_strlit("\u{2013}");
        assert("\u{2014}\u{2014}"@ =~= seq!['\u{2014}', '\u{2014}']);
        assert("\u{2014}"@ =~= seq!['\u{2014}']);
        assert("\u{2013}"@ =~= seq!['\u{2013}']);
    }
    let once = text::replace(args, "\u{2014}\u{2014}", "--");
    let twice = text::replace(once.as_str(), "\u{2014}", "--");
    text::replace(twice.as_str(), "\u{2013}", "-")
}

/// What a message is to a command table. A command is told by its position.
pub enum ParseModel {
    Command(int, Seq<char>),
    Usage(int, Seq<char>),
    NotACommand,
}

/// The command word of a message body and what follows it.
pub open spec fn word_and_rest(body: Seq<char>) -> (Seq<char>, Seq<char>) {
    match text::find_space(body) {
        Some(k) => (body.take(k), body.subrange(k + 1, body.len() as int)),
        None => (body, Seq::empty()),
    }
}

/// A command word without a bot name behind an `@`.
pub open spec fn without_bot(token: Seq<char>) -> Seq<char> {
    match text::find_char(token, '@') {
        Some(k) => token.take(k),
        None => token,
    }
}

/// What a command makes of its arguments.
pub open spec fn accepted(def: DefModel, k: int, args: Seq<char>) -> ParseModel {
    match def.args {
        ArgModel::NoArgs => if args.len() == 0 {
            ParseModel::Command(k, args)
        } else {
            ParseModel::NotACommand
        },
        ArgModel::Optional(_) => ParseModel::Command(k, args),
        ArgModel::Required(hint) => if args.len() == 0 {
            ParseModel::Usage(k, "usage: /"@ + def.name + " "@ + hint)
        } else {
            ParseModel::Command(k, args)
        },
        ArgModel::Choice(options) => if args.len() == 0 || among(options, args) {
            ParseModel::Command(k, text::ascii_lowered(args))
        } else {
            ParseModel::Usage(
                k,
                "usage: /"@ + def.name + " "@ + ("["@ + text::joined(options, "|"@) + "]"@),
            )
        },
    }
}

/// What a message is to a command table.
pub open spec fn parsed(defs: Seq<DefModel>, message: Seq<char>) -> ParseModel {
    let line = text::trimmed(message);
    if line.len() == 0 || line[0] != '/' {
        ParseModel::NotACommand
    } else {
        let (token, rest) = word_and_rest(line.subrange(1, line.len() as int));
        if token.len() == 0 || token.contains('/') {
            ParseModel::NotACommand
        } else {
            match resolved(defs, without_bot(token)) {
                None => ParseModel::NotACommand,
                Some(k) => accepted(defs[k], k, plain_dashes(text::trimmed(rest))),
            }
        }
    }
}

// ---------------------------------------------------------------------------
// Help
// ---------------------------------------------------------------------------

/// The aliases of a command as `/help` shows them.
pub open spec fn alias_list(aliases: Seq<Seq<char>>) -> Seq<char> {
    text::joined(aliases.map_values(|alias: Seq<char>| "/"@ + alias), ", "@)
}

/// The line of a command in `/help`.
pub open spec fn help_line(def: DefModel) -> Seq<char> {
    let named = "\n- /"@ + def.name;
    let hinted = match def.args.hint_text() {
        Some(hint) => named + " "@ + hint,
        None => named,
    };
    let aliased = if def.aliases.len() > 0 {
        hinted + " (or "@ + alias_list(def.aliases) + ")"@
    } else {
        hinted
    };
    aliased + ": "@ + def.description
}

/// The lines of the commands of a category.
pub open spec fn help_lines(defs: Seq<DefModel>, category: CommandCategory) -> Seq<char>
    decreases defs.len(),
{
    if defs.len() == 0 {
        Seq::empty()
    } else if defs.last().category == category {
        help_lines(defs.drop_last(), category) + help_line(defs.last())
    } else {
        help_lines(defs.drop_last(), category)
    }
}

/// Whether a table has a command of a category.
pub open spec fn has_category(defs: Seq<DefModel>, category: CommandCategory) -> bool {
    exists|k: int| 0 <= k < defs.len() && (#[trigger] defs[k]).category == category
}

/// The section of a category in `/help`; none where it has no command.
pub open spec fn help_section(defs: Seq<DefModel>, category: CommandCategory, label: Seq<char>) -> Seq<char> {
    if has_category(defs, category) {
        "\n\n"@ + label + ":"@ + help_lines(defs, category)
    } else {
        Seq::empty()
    }
}

/// The body of `/help`: every command grouped by category.
pub open spec fn help(defs: Seq<DefModel>) -> Seq<char> {
    "commands:"@ + help_section(defs, CommandCategory::Session, "session"@) + help_section(
        defs,
        CommandCategory::Response,
        "response mode"@,
    ) + help_section(defs, CommandCategory::Memory, "memory"@) + help_section(
        defs,
        CommandCategory::Tasks,
        "tasks"@,
    ) + help_section(defs, CommandCategory::Skills, "skills"@) + help_section(
        defs,
        CommandCategory::Info,
        "info"@,
    ) + help_section(defs, CommandCategory::Config, "config"@)
}

/// The line of a command in `/help`.
fn command_line(def: &CommandDef) -> (line: String)
    ensures
        line@ == help_line(def@),
{
    let mut line = "\n- /".to_owned();
    line.push_str(def.name);
    if let Some(hint) = def.args.hint() {
        line.push_str(" ");
        line.push_str(hint.as_str());
    }
    if def.aliases.len() > 0 {
        let mut slashed: Vec<String> = Vec::new();
        let ghost wanted = def@.aliases.map_values(|alias: Seq<char>| "/"@ + alias);
        let mut k: usize = 0;
        assert(text::texts(slashed@) =~= wanted.take(0));
        while k < def.aliases.len()
            invariant
                k <= def.aliases@.len(),
                wanted == def@.aliases.map_values(|alias: Seq<char>| "/"@ + alias),
                text::texts(slashed@) == wanted.take(k as int),
            decreases def.aliases@.len() - k,
        {
            let mut alias = "/".to_owned();
            alias.push_str(def.aliases[k]);
            assert(def@.aliases[k as int] == def.aliases@[k as int]@);
            assert(wanted.take(k + 1) =~= wanted.take(k as int).push(alias@));
            proof {
                text::texts_push(slashed@, alias);
            }
            slashed.push(alias);
            k = k + 1;
        }
        assert(wanted.take(k as int) =~= wanted);
        line.push_str(" (or ");
        line.push_str(text::join(&slashed, ", ").as_str());
        line.push_str(")");
    }
    line.push_str(": ");
    line.push_str(def.description);
    line
}

impl<'a> CommandRegistry<'a> {
    /// A registry over a command table.
    pub fn new(defs: &'a Vec<CommandDef>) -> (registry: Self)
        ensures
            registry.defs == defs,
    {
        CommandRegistry { defs }
    }

    /// The table of this registry.
    pub open spec fn model(self) -> Seq<DefModel> {
        table(self.defs@)
    }

    /// Resolves a bare command token (no slash) across names and aliases,
    /// case-insensitively.
    pub fn resolve(&self, name: &str) -> (def: Option<&'a CommandDef>)
        ensures
            match def {
                Some(def) => resolved(self.model(), name@) matches Some(k) && 0 <= k < self.defs@.len() && *def
                    == self.defs@[k],
                None => resolved(self.model(), name@) is None,
            },
    {
        let ghost model = self.model();
        let mut k: usize = 0;
        proof {
            resolved_first(model, name@);
        }
        while k < self.defs.len()
            invariant
                model == table(self.defs@),
                k <= self.defs@.len(),
                forall|i: int| 0 <= i < k ==> !answers_to(#[trigger] model[i], name@),
                match resolved(model, name@) {
                    Some(k) => 0 <= k < model.len() && answers_to(model[k], name@) && forall|i: int|
                        0 <= i < k ==> !answers_to(#[trigger] model[i], name@),
                    None => forall|i: int| 0 <= i < model.len() ==> !answers_to(#[trigger] model[i], name@),
                },
            decreases self.defs@.len() - k,
        {
            let def: &'a CommandDef = &self.defs[k];
            assert(model[k as int] == def@);
            if text::eq_ignore_ascii_case(def.name, name) || is_among(&def.aliases, name) {
                assert(answers_to(model[k as int], name@));
                return Some(def);
            }
            k = k + 1;
        }
        None
    }

    /// Parses message text into a command.
    ///
    /// Strips a Telegram-style `@botname` suffix from the command token,
    /// rejects tokens containing `/` so that pasted file paths never parse as
    /// commands, and un-mangles smart dashes in arguments.
    pub fn parse(&self, message: &str) -> (result: ParseResult<'a>)
        ensures
            match result {
                ParseResult::Command(command) => parsed(self.model(), message@) matches ParseModel::Command(k, args)
                    && 0 <= k < self.defs@.len() && *command.def == self.defs@[k] && command.args@ == args,
                ParseResult::Usage(def, usage) => parsed(self.model(), message@) matches ParseModel::Usage(k, reply)
                    && 0 <= k < self.defs@.len() && *def == self.defs@[k] && usage@ == reply,
                ParseResult::NotACommand => parsed(self.model(), message@) is NotACommand,
            },
    {
        let line = text::chars_of(text::trim(message).as_str());
        if line.len() == 0 || line[0] != '/' {
            return ParseResult::NotACommand;
        }
        let ghost body = line@.subrange(1, line@.len() as int);
        proof {
            text::find_space_first(body);
        }
        let len: usize = line.len();
        let (token, rest) = match text::find_space_from(&line, 1) {
            Some(at) => {
                assert(body.take(at - 1) =~= line@.subrange(1, at as int));
                assert(body.subrange(at as int, body.len() as int) =~= line@.subrange(at + 1, len as int));
                (text::string_between(&line, 1, at), text::string_between(&line, at + 1, len))
            },
            None => (text::string_between(&line, 1, len), String::new()),
        };
        assert((token@, rest@) == word_and_rest(body));
        if token.as_str().is_empty() || text::contains_char(token.as_str(), '/') {
            return ParseResult::NotACommand;
        }
        let word = text::chars_of(token.as_str());
        proof {
            assert(word@.subrange(0, word@.len() as int) =~= word@);
            text::find_char_first(word@, '@');
        }
        let bare = match text::find_char_from(&word, '@', 0) {
            Some(at) => {
                assert(word@.take(at as int) =~= word@.subrange(0, at as int));
                text::string_between(&word, 0, at)
            },
            None => token,
        };
        let def = match self.resolve(bare.as_str()) {
            Some(def) => def,
            None => {
                return ParseResult::NotACommand;
            },
        };
        let ghost k = resolved(self.model(), bare@)->0;
        assert(self.model()[k] == def@);
        let args = normalize_smart_dashes(text::trim(rest.as_str()).as_str());
        match &def.args {
            ArgSpec::NoArgs => {
                if args.as_str().is_empty() {
                    ParseResult::Command(ParsedCommand { def, args })
                } else {
                    ParseResult::NotACommand
                }
            },
            ArgSpec::Optional(_) => ParseResult::Command(ParsedCommand { def, args }),
            ArgSpec::Required(hint) => {
                if args.as_str().is_empty() {
                    let mut usage = "usage: /".to_owned();
                    usage.push_str(def.name);
                    usage.push_str(" ");
                    usage.push_str(hint);
                    ParseResult::Usage(def, usage)
                } else {
                    ParseResult::Command(ParsedCommand { def, args })
                }
            },
            ArgSpec::Choice(options) => {
                if args.as_str().is_empty() || is_among(options, args.as_str()) {
                    ParseResult::Command(ParsedCommand { def, args: text::to_ascii_lowercase(args.as_str()) })
                } else {
                    let mut usage = "usage: /".to_owned();
                    usage.push_str(def.name);
                    usage.push_str(" ");
                    usage.push_str(bracketed(options).as_str());
                    ParseResult::Usage(def, usage)
                }
            },
        }
    }

    /// Adds the section of a category to the body of `/help`.
    fn push_section(&self, out: &mut String, category: CommandCategory, label: &str)
        ensures
            final(out)@ == old(out)@ + help_section(self.model(), category, label@),
    {
        let ghost model = self.model();
        let mut listed = String::new();
        let mut any = false;
        let mut k: usize = 0;
        while k < self.defs.len()
            invariant
                model == table(self.defs@),
                k <= self.defs@.len(),
                listed@ == help_lines(model.take(k as int), category),
                any == has_category(model.take(k as int), category),
            decreases self.defs@.len() - k,
        {
            let ghost head = model.take(k + 1);
            assert(head.drop_last() =~= model.take(k as int));
            assert(head.last() == self.defs@[k as int]@);
            if self.defs[k].category == category {
                listed.push_str(command_line(&self.defs[k]).as_str());
                any = true;
                assert(head[k as int].category == category);
            }
            proof {
                if has_category(model.take(k as int), category) {
                    let i = choose|i: int|
                        0 <= i < model.take(k as int).len() && (#[trigger] model.take(k as int)[i]).category
                            == category;
                    assert(head[i].category == category);
                }
                if has_category(head, category) {
                    let i = choose|i: int| 0 <= i < head.len() && (#[trigger] head[i]).category == category;
                    if i < k {
                        assert(model.take(k as int)[i].category == category);
                    }
                }
            }
            k = k + 1;
        }
        assert(model.take(k as int) =~= model);
        if any {
            let mut section = "\n\n".to_owned();
            section.push_str(label);
            section.push_str(":");
            section.push_str(listed.as_str());
            out.push_str(section.as_str());
        } else {
            assert(out@ + Seq::<char>::empty() =~= out@);
        }
    }

    /// Renders the `/help` body: every command grouped by category, with
    /// aliases and argument hints. Generated so that it cannot drift from the
    /// table.
    pub fn help_text(&self) -> (body: String)
        ensures
            body@ == help(self.model()),
    {
        let mut out = "commands:".to_owned();
        self.push_section(&mut out, CommandCategory::Session, "session");
        self.push_section(&mut out, CommandCategory::Response, "response mode");
        self.push_section(&mut out, CommandCategory::Memory, "memory");
        self.push_section(&mut out, CommandCategory::Tasks, "tasks");
        self.push_section(&mut out, CommandCategory::Skills, "skills");
        self.push_section(&mut out, CommandCategory::Info, "info");
        self.push_section(&mut out, CommandCategory::Config, "config");
        out
    }

    /// The table of this registry.
    pub fn defs(&self) -> (defs: &'a Vec<CommandDef>)
        ensures
            defs == self.defs,
    {
        self.defs
    }
}

// ---------------------------------------------------------------------------
// The table
// ---------------------------------------------------------------------------

/// What `/tasks` asks of the agent.
pub const TASKS_PROMPT: &'static str = "use channel tools to fetch my ready tasks (limit 10) and reply exactly with:\n\
     - header: tasks (ready):\n\
     - each line: - #<task_number> [<priority>] <title>\n\
     if no tasks are ready, reply exactly: tasks (ready): none";

/// What `/today` asks of the agent.
pub const TODAY_PROMPT: &'static str = "use channel tools to build a local tasks snapshot and reply exactly in this format:\n\
     - first line: today (local tasks snapshot):\n\
     - section 1: in-progress tasks (up to 5), each line:   #<task_number> [<priority>] <title>\n\
     - section 2: up next ready tasks (up to 5), each line:   #<task_number> [<priority>] <title>\n\
     if a section is empty use:\n\
     - in progress: none\n\
     - up next (ready): none";

/// What `/digest` asks of the agent.
pub const DIGEST_PROMPT: &'static str = "using available tools and channel context, generate a concise day digest from local 00:00 to now with exactly this order:\n\
     1) top decisions\n\
     2) key convo themes\n\
     3) open loops\n\
     keep it practical and concise; if there are no meaningful updates, reply exactly: no material updates today.";

/// A command that takes no arguments.
pub open spec fn plain_def(
    name: Seq<char>,
    description: Seq<char>,
    category: CommandCategory,
    aliases: Seq<Seq<char>>,
    handler: CommandHandler,
) -> DefModel {
    DefModel { name, description, category, aliases, args: ArgModel::NoArgs, handler }
}

/// The commands there are. Order within a category is display order in `/help`.
pub open spec fn command_table() -> Seq<DefModel> {
    seq![
        plain_def(
            "active"@,
            "normal reply mode"@,
            CommandCategory::Response,
            Seq::empty(),
            CommandHandler::Control(ControlAction::SetResponseMode(ResponseMode::Active)),
        ),
        plain_def(
            "mention-only"@,
            "only respond when @mentioned, replied to, or given a command"@,
            CommandCategory::Response,
            Seq::empty(),
            CommandHandler::Control(ControlAction::SetResponseMode(ResponseMode::MentionOnly)),
        ),
        plain_def(
            "quiet"@,
            "learn from conversation, never respond"@,
            CommandCategory::Response,
            seq!["observe"@],
            CommandHandler::Control(ControlAction::SetResponseMode(ResponseMode::Observe)),
        ),
        plain_def(
            "tasks"@,
            "ready task list"@,
            CommandCategory::Tasks,
            Seq::empty(),
            CommandHandler::Agent(AgentAction::PromptRewrite(TASKS_PROMPT)),
        ),
        plain_def(
            "today"@,
            "in-progress + ready task snapshot"@,
            CommandCategory::Tasks,
            Seq::empty(),
            CommandHandler::Agent(AgentAction::PromptRewrite(TODAY_PROMPT)),
        ),
        plain_def(
            "digest"@,
            "one-shot day digest (00:00 -> now)"@,
            CommandCategory::Tasks,
            Seq::empty(),
            CommandHandler::Agent(AgentAction::PromptRewrite(DIGEST_PROMPT)),
        ),
        plain_def(
            "status"@,
            "current mode, models, binding snapshot"@,
            CommandCategory::Info,
            Seq::empty(),
            CommandHandler::Control(ControlAction::Status),
        ),
        plain_def(
            "help"@,
            "show available commands"@,
            CommandCategory::Info,
            seq!["commands"@],
            CommandHandler::Control(ControlAction::Help),
        ),
        plain_def(
            "agent-id"@,
            "runtime agent id"@,
            CommandCategory::Info,
            Seq::empty(),
            CommandHandler::Control(ControlAction::AgentId),
        ),
    ]
}

fn one(alias: &'static str) -> (aliases: Vec<&'static str>)
    ensures
        text::slices(aliases@) == seq![alias@],
{
    let mut aliases: Vec<&'static str> = Vec::new();
    aliases.push(alias);
    assert(text::slices(aliases@) =~= seq![alias@]);
    aliases
}

/// The command table.
pub fn commands() -> (defs: Vec<CommandDef>)
    ensures
        table(defs@) == command_table(),
{
    let mut defs: Vec<CommandDef> = Vec::new();
    defs.push(
        CommandDef {
            name: "active",
            description: "normal reply mode",
            category: CommandCategory::Response,
            aliases: Vec::new(),
            args: ArgSpec::NoArgs,
            handler: CommandHandler::Control(ControlAction::SetResponseMode(ResponseMode::Active)),
        },
    );
    defs.push(
        CommandDef {
            name: "mention-only",
            description: "only respond when @mentioned, replied to, or given a command",
            category: CommandCategory::Response,
            aliases: Vec::new(),
            args: ArgSpec::NoArgs,
            handler: CommandHandler::Control(ControlAction::SetResponseMode(ResponseMode::MentionOnly)),
        },
    );
    defs.push(
        CommandDef {
            name: "quiet",
            description: "learn from conversation, never respond",
            category: CommandCategory::Response,
            aliases: one("observe"),
            args: ArgSpec::NoArgs,
            handler: CommandHandler::Control(ControlAction::SetResponseMode(ResponseMode::Observe)),
        },
    );
    defs.push(
        CommandDef {
            name: "tasks",
            description: "ready task list",
            category: CommandCategory::Tasks,
            aliases: Vec::new(),
            args: ArgSpec::NoArgs,
            handler: CommandHandler::Agent(AgentAction::PromptRewrite(TASKS_PROMPT)),
        },
    );
    defs.push(
        CommandDef {
            name: "today",
            description: "in-progress + ready task snapshot",
            category: CommandCategory::Tasks,
            aliases: Vec::new(),
            args: ArgSpec::NoArgs,
            handler: CommandHandler::Agent(AgentAction::PromptRewrite(TODAY_PROMPT)),
        },
    );
    defs.push(
        CommandDef {
            name: "digest",
            description: "one-shot day digest (00:00 -> now)",
            category: CommandCategory::Tasks,
            aliases: Vec::new(),
            args: ArgSpec::NoArgs,
            handler: CommandHandler::Agent(AgentAction::PromptRewrite(DIGEST_PROMPT)),
        },
    );
    defs.push(
        CommandDef {
            name: "status",
            description: "current mode, models, binding snapshot",
            category: CommandCategory::Info,
            aliases: Vec::new(),
            args: ArgSpec::NoArgs,
            handler: CommandHandler::Control(ControlAction::Status),
        },
    );
    defs.push(
        CommandDef {
            name: "help",
            description: "show available commands",
            category: CommandCategory::Info,
            aliases: one("commands"),
            args: ArgSpec::NoArgs,
            handler: CommandHandler::Control(ControlAction::Help),
        },
    );
    defs.push(
        CommandDef {
            name: "agent-id",
            description: "runtime agent id",
            category: CommandCategory::Info,
            aliases: Vec::new(),
            args: ArgSpec::NoArgs,
            handler: CommandHandler::Control(ControlAction::AgentId),
        },
    );
    proof {
        let none: Seq<&'static str> = Seq::empty();
        assert(text::slices(none) =~= Seq::<Seq<char>>::empty());
        assert(table(defs@) =~= command_table());
    }
    defs
}

// ---------------------------------------------------------------------------
// Laws
// ---------------------------------------------------------------------------

/// Lookup does not depend on the case of ASCII letters.
pub proof fn law_lookup_ignores_case(defs: Seq<DefModel>, a: Seq<char>, b: Seq<char>)
    requires
        text::same_ignoring_case(a, b),
    ensures
        resolved(defs, a) == resolved(defs, b),
    decreases defs.len(),
{
    if defs.len() > 0 {
        law_lookup_ignores_case(defs.drop_last(), a, b);
        let aliases = defs.last().aliases;
        if among(aliases, a) {
            let k = choose|k: int| 0 <= k < aliases.len() && text::same_ignoring_case(#[trigger] aliases[k], a);
            assert(text::same_ignoring_case(aliases[k], b));
        }
        if among(aliases, b) {
            let k = choose|k: int| 0 <= k < aliases.len() && text::same_ignoring_case(#[trigger] aliases[k], b);
            assert(text::same_ignoring_case(aliases[k], a));
        }
    }
}

/// Whether no two commands of a table go by a common name.
pub open spec fn names_are_unique(defs: Seq<DefModel>) -> bool {
    forall|i: int, k: int, name: Seq<char>|
        0 <= i < k < defs.len() && #[trigger] answers_to(defs[i], name) ==> !#[trigger] answers_to(defs[k], name)
}

/// Where names and aliases are unique, every name and every alias of a command
/// resolves to that command.
pub proof fn law_names_resolve_to_their_command(defs: Seq<DefModel>, k: int, name: Seq<char>)
    requires
        names_are_unique(defs),
        0 <= k < defs.len(),
        answers_to(defs[k], name),
    ensures
        resolved(defs, name) == Some(k),
{
    resolved_first(defs, name);
    let found = resolved(defs, name);
    assert(found is Some);
    let i = found->0;
    if i < k {
        assert(answers_to(defs[i], name));
    }
}

/// A message whose first word, behind the slash, holds another slash is no
/// command: a pasted file path reaches the model untouched.
pub proof fn law_paths_are_not_commands(defs: Seq<DefModel>, message: Seq<char>)
    requires
        ({
            let line = text::trimmed(message);
            line.len() > 0 && word_and_rest(line.subrange(1, line.len() as int)).0.contains('/')
        }),
    ensures
        parsed(defs, message) is NotACommand,
{
}

/// A message that does not begin with a slash is no command.
pub proof fn law_plain_text_is_not_a_command(defs: Seq<DefModel>, message: Seq<char>)
    requires
        text::trimmed(message).len() == 0 || text::trimmed(message)[0] != '/',
    ensures
        parsed(defs, message) is NotACommand,
{
}

/// A command without arguments leaves a message with trailing text alone.
pub proof fn law_trailing_text_is_conversation(defs: Seq<DefModel>, message: Seq<char>)
    ensures
        parsed(defs, message) matches ParseModel::Command(k, args) ==> 0 <= k < defs.len() && (
        defs[k].args is NoArgs ==> args.len() == 0),
{
    let line = text::trimmed(message);
    let (token, _) = word_and_rest(line.subrange(1, line.len() as int));
    resolved_first(defs, without_bot(token));
}

proof fn occurs_in_concat(a: Seq<char>, b: Seq<char>, pat: Seq<char>)
    ensures
        text::occurs_in(a, pat) ==> text::occurs_in(a + b, pat),
        text::occurs_in(b, pat) ==> text::occurs_in(a + b, pat),
{
    if text::occurs_in(a, pat) {
        let i = choose|i: int| text::occurs_at(a, pat, i);
        assert((a + b).subrange(i, i + pat.len()) =~= a.subrange(i, i + pat.len()));
        assert(text::occurs_at(a + b, pat, i));
    }
    if text::occurs_in(b, pat) {
        let i = choose|i: int| text::occurs_at(b, pat, i);
        let at = a.len() + i;
        assert((a + b).subrange(at, at + pat.len()) =~= b.subrange(i, i + pat.len()));
        assert(text::occurs_at(a + b, pat, at));
    }
}

proof fn lines_hold(defs: Seq<DefModel>, k: int)
    requires
        0 <= k < defs.len(),
    ensures
        text::occurs_in(help_lines(defs, defs[k].category), help_line(defs[k])),
    decreases defs.len(),
{
    let category = defs[k].category;
    let front = defs.drop_last();
    let line = help_line(defs[k]);
    if k < front.len() {
        lines_hold(front, k);
        occurs_in_concat(help_lines(front, category), help_line(defs.last()), line);
    } else {
        assert(line.subrange(0, line.len() as int) =~= line);
        assert(text::occurs_at(line, line, 0));
        occurs_in_concat(help_lines(front, category), line, line);
    }
}

/// `/help` lists every command of the table.
pub proof fn law_help_lists_every_command(defs: Seq<DefModel>, k: int)
    requires
        0 <= k < defs.len(),
    ensures
        text::occurs_in(help(defs), help_line(defs[k])),
{
    let line = help_line(defs[k]);
    lines_hold(defs, k);
    let category = defs[k].category;
    assert(defs[k].category == category);
    let a = help_section(defs, CommandCategory::Session, "session"@);
    let b = help_section(defs, CommandCategory::Response, "response mode"@);
    let c = help_section(defs, CommandCategory::Memory, "memory"@);
    let d = help_section(defs, CommandCategory::Tasks, "tasks"@);
    let e = help_section(defs, CommandCategory::Skills, "skills"@);
    let f = help_section(defs, CommandCategory::Info, "info"@);
    let g = help_section(defs, CommandCategory::Config, "config"@);
    occurs_in_concat("\n\n"@ + category_label(category) + ":"@, help_lines(defs, category), line);
    occurs_in_concat("commands:"@, a, line);
    occurs_in_concat("commands:"@ + a, b, line);
    occurs_in_concat("commands:"@ + a + b, c, line);
    occurs_in_concat("commands:"@ + a + b + c, d, line);
    occurs_in_concat("commands:"@ + a + b + c + d, e, line);
    occurs_in_concat("commands:"@ + a + b + c + d + e, f, line);
    occurs_in_concat("commands:"@ + a + b + c + d + e + f, g, line);
}

/// The label of a category in `/help`.
pub open spec fn category_label(category: CommandCategory) -> Seq<char> {
    match category {
        CommandCategory::Session => "session"@,
        CommandCategory::Response => "response mode"@,
        CommandCategory::Memory => "memory"@,
        CommandCategory::Tasks => "tasks"@,
        CommandCategory::Skills => "skills"@,
        CommandCategory::Info => "info"@,
        CommandCategory::Config => "config"@,
    }
}

/// Every command of the table that sets a response mode goes by the name of
/// the mode that it sets, and stands with the response modes.
pub proof fn law_mode_commands_go_by_their_mode(k: int, mode: ResponseMode)
    requires
        0 <= k < command_table().len(),
        command_table()[k].handler == CommandHandler::Control(ControlAction::SetResponseMode(mode)),
    ensures
        answers_to(command_table()[k], crate::commands::control::short_name(mode)),
        command_table()[k].category == CommandCategory::Response,
{
    let aliases = command_table()[k].aliases;
    if mode == ResponseMode::Observe {
        assert(aliases[0] == "observe"@);
        assert(text::same_ignoring_case(aliases[0], "observe"@));
    }
}

/// Every response mode is set by exactly one command.
pub proof fn law_each_mode_has_one_command(mode: ResponseMode)
    ensures
        exists|k: int|
            0 <= k < command_table().len() && (#[trigger] command_table()[k]).handler == CommandHandler::Control(
                ControlAction::SetResponseMode(mode),
            ),
        forall|i: int, k: int|
            0 <= i < command_table().len() && 0 <= k < command_table().len() && (#[trigger] command_table()[i]).handler
                == CommandHandler::Control(ControlAction::SetResponseMode(mode)) && (
            #[trigger] command_table()[k]).handler == CommandHandler::Control(ControlAction::SetResponseMode(mode))
                ==> i == k,
{
    let k: int = match mode {
        ResponseMode::Active => 0,
        ResponseMode::MentionOnly => 1,
        ResponseMode::Observe => 2,
    };
    assert(command_table()[k].handler == CommandHandler::Control(ControlAction::SetResponseMode(mode)));
}

/// The commands that report something go by the name of what they report, and
/// none of them is there twice.
pub proof fn law_reports_go_by_their_names(i: int, k: int)
    requires
        0 <= i < command_table().len(),
        0 <= k < command_table().len(),
    ensures
        command_table()[k].handler == CommandHandler::Control(ControlAction::Status) <==> command_table()[k].name
            == "status"@,
        command_table()[k].handler == CommandHandler::Control(ControlAction::Help) <==> command_table()[k].name
            == "help"@,
        command_table()[k].handler == CommandHandler::Control(ControlAction::AgentId) <==> command_table()[k].name
            == "agent-id"@,
        command_table()[i].handler is Control && command_table()[i].handler == command_table()[k].handler ==> i == k,
{
    names_in_lower_case();
    names_told_apart();
}


/// What a command asks of the agent, where the agent answers it.
pub open spec fn prompt_of(def: DefModel) -> Option<Seq<char>> {
    match def.handler {
        CommandHandler::Agent(AgentAction::PromptRewrite(prompt)) => Some(prompt@),
        CommandHandler::Control(_) => None,
    }
}

/// A command that is answered by the agent asks for what its name says, and no
/// two ask for the same.
pub proof fn law_prompts_speak_of_their_command(k: int, i: int)
    requires
        0 <= k < command_table().len(),
        command_table()[k].handler is Agent,
    ensures
        prompt_of(command_table()[k]) matches Some(prompt) && text::occurs_in(prompt, command_table()[k].name),
        0 <= i < command_table().len() && i != k && command_table()[i].handler is Agent ==> prompt_of(
            command_table()[i],
        ) != prompt_of(command_table()[k]),
        command_table()[k].category == CommandCategory::Tasks,
{
    names_told_apart();
    reveal_strlit("tasks");
    reveal_strlit("today");
    reveal_strlit("digest");
    reveal_strlit(
        "use channel tools to fetch my ready tasks (limit 10) and reply exactly with:\n\
     - header: tasks (ready):\n\
     - each line: - #<task_number> [<priority>] <title>\n\
     if no tasks are ready, reply exactly: tasks (ready): none",
    );
    reveal_strlit(
        "use channel tools to build a local tasks snapshot and reply exactly in this format:\n\
     - first line: today (local tasks snapshot):\n\
     - section 1: in-progress tasks (up to 5), each line:   #<task_number> [<priority>] <title>\n\
     - section 2: up next ready tasks (up to 5), each line:   #<task_number> [<priority>] <title>\n\
     if a section is empty use:\n\
     - in progress: none\n\
     - up next (ready): none",
    );
    reveal_strlit(
        "using available tools and channel context, generate a concise day digest from local 00:00 to now with exactly this order:\n\
     1) top decisions\n\
     2) key convo themes\n\
     3) open loops\n\
     keep it practical and concise; if there are no meaningful updates, reply exactly: no material updates today.",
    );
    let tasks = TASKS_PROMPT@;
    let today = TODAY_PROMPT@;
    let digest = DIGEST_PROMPT@;
    assert(tasks.subrange(36, 41) =~= "tasks"@);
    assert(text::occurs_at(tasks, "tasks"@, 36));
    assert(today.subrange(98, 103) =~= "today"@);
    assert(text::occurs_at(today, "today"@, 98));
    assert(digest.subrange(66, 72) =~= "digest"@);
    assert(text::occurs_at(digest, "digest"@, 66));
    assert(tasks.len() != today.len() && tasks.len() != digest.len() && today.len() != digest.len());
}

/// No command of the table takes arguments: with anything behind it, a message
/// is conversation.
pub proof fn law_the_table_takes_no_arguments(message: Seq<char>, k: int)
    requires
        0 <= k < command_table().len(),
    ensures
        command_table()[k].args is NoArgs,
        !(parsed(command_table(), message) is Usage),
        parsed(command_table(), message) matches ParseModel::Command(_, args) ==> args.len() == 0,
{
    let line = text::trimmed(message);
    let (token, _) = word_and_rest(line.subrange(1, line.len() as int));
    resolved_first(command_table(), without_bot(token));
}

spec fn low(name: Seq<char>) -> Seq<char> {
    name.map_values(|c: char| text::ascii_lower(c))
}

proof fn names_in_lower_case()
    ensures
        low("active"@) == "active"@,
        low("mention-only"@) == "mention-only"@,
        low("quiet"@) == "quiet"@,
        low("observe"@) == "observe"@,
        low("tasks"@) == "tasks"@,
        low("today"@) == "today"@,
        low("digest"@) == "digest"@,
        low("status"@) == "status"@,
        low("help"@) == "help"@,
        low("commands"@) == "commands"@,
        low("agent-id"@) == "agent-id"@,
{
    reveal_strlit("active");
    reveal_strlit("mention-only");
    reveal_strlit("quiet");
    reveal_strlit("observe");
    reveal_strlit("tasks");
    reveal_strlit("today");
    reveal_strlit("digest");
    reveal_strlit("status");
    reveal_strlit("help");
    reveal_strlit("commands");
    reveal_strlit("agent-id");
    assert(low("active"@) =~= "active"@);
    assert(low("mention-only"@) =~= "mention-only"@);
    assert(low("quiet"@) =~= "quiet"@);
    assert(low("observe"@) =~= "observe"@);
    assert(low("tasks"@) =~= "tasks"@);
    assert(low("today"@) =~= "today"@);
    assert(low("digest"@) =~= "digest"@);
    assert(low("status"@) =~= "status"@);
    assert(low("help"@) =~= "help"@);
    assert(low("commands"@) =~= "commands"@);
    assert(low("agent-id"@) =~= "agent-id"@);
}

/// Which command of the table a name in lower case belongs to.
spec fn owner(name: Seq<char>) -> int {
    if name == "active"@ {
        0
    } else if name == "mention-only"@ {
        1
    } else if name == "quiet"@ || name == "observe"@ {
        2
    } else if name == "tasks"@ {
        3
    } else if name == "today"@ {
        4
    } else if name == "digest"@ {
        5
    } else if name == "status"@ {
        6
    } else if name == "help"@ || name == "commands"@ {
        7
    } else {
        8
    }
}

proof fn names_told_apart()
    ensures
        owner("active"@) == 0,
        owner("mention-only"@) == 1,
        owner("quiet"@) == 2,
        owner("observe"@) == 2,
        owner("tasks"@) == 3,
        owner("today"@) == 4,
        owner("digest"@) == 5,
        owner("status"@) == 6,
        owner("help"@) == 7,
        owner("commands"@) == 7,
        owner("agent-id"@) == 8,
{
    reveal_strlit("active");
    reveal_strlit("mention-only");
    reveal_strlit("quiet");
    reveal_strlit("observe");
    reveal_strlit("tasks");
    reveal_strlit("today");
    reveal_strlit("digest");
    reveal_strlit("status");
    reveal_strlit("help");
    reveal_strlit("commands");
    reveal_strlit("agent-id");
    assert("active"@.len() == 6 && "digest"@.len() == 6 && "status"@.len() == 6);
    assert("active"@[0] == 'a' && "digest"@[0] == 'd' && "status"@[0] == 's');
    assert("quiet"@.len() == 5 && "tasks"@.len() == 5 && "today"@.len() == 5);
    assert("quiet"@[0] == 'q' && "tasks"@[1] == 'a' && "today"@[1] == 'o' && "tasks"@[0] == 't' && "today"@[0] == 't');
    assert("commands"@.len() == 8 && "agent-id"@.len() == 8);
    assert("commands"@[0] == 'c' && "agent-id"@[0] == 'a');
    assert("mention-only"@.len() == 12 && "observe"@.len() == 7 && "help"@.len() == 4);
}

/// No two commands of the table go by a common name, so every name and every
/// alias in it finds its command.
pub proof fn law_table_names_are_unique(k: int, name: Seq<char>)
    requires
        0 <= k < command_table().len(),
        answers_to(command_table()[k], name),
    ensures
        names_are_unique(command_table()),
        resolved(command_table(), name) == Some(k),
{
    names_in_lower_case();
    names_told_apart();
    let defs = command_table();
    assert forall|i: int, name: Seq<char>| 0 <= i < defs.len() && #[trigger] answers_to(defs[i], name) implies owner(
        low(name),
    ) == i by {
        if !text::same_ignoring_case(defs[i].name, name) {
            let aliases = defs[i].aliases;
            let m = choose|m: int| 0 <= m < aliases.len() && text::same_ignoring_case(#[trigger] aliases[m], name);
            assert(m == 0);
        }
    }
    law_names_resolve_to_their_command(defs, k, name);
}

proof fn no_space_is_found(s: Seq<char>)
    requires
        forall|i: int| 0 <= i < s.len() ==> !text::is_space(#[trigger] s[i]),
    ensures
        text::find_space(s) is None,
    decreases s.len(),
{
    if s.len() > 0 {
        let rest = s.subrange(1, s.len() as int);
        assert forall|i: int| 0 <= i < rest.len() implies !text::is_space(#[trigger] rest[i]) by {
            assert(rest[i] == s[i + 1]);
        }
        no_space_is_found(rest);
        assert(!text::is_space(s[0]));
    }
}

proof fn first_space_is_found(head: Seq<char>, c: char, tail: Seq<char>)
    requires
        forall|i: int| 0 <= i < head.len() ==> !text::is_space(#[trigger] head[i]),
        text::is_space(c),
    ensures
        text::find_space(head.push(c) + tail) == Some(head.len() as int),
    decreases head.len(),
{
    let all = head.push(c) + tail;
    if head.len() > 0 {
        let rest = head.subrange(1, head.len() as int);
        assert forall|i: int| 0 <= i < rest.len() implies !text::is_space(#[trigger] rest[i]) by {
            assert(rest[i] == head[i + 1]);
        }
        first_space_is_found(rest, c, tail);
        assert(all.subrange(1, all.len() as int) =~= rest.push(c) + tail);
        assert(all[0] == head[0]);
        assert(!text::is_space(head[0]));
    } else {
        assert(all[0] == c);
    }
}

/// Whether a name can stand behind a slash as a command word.
pub open spec fn is_word(name: Seq<char>) -> bool {
    &&& name.len() > 0
    &&& forall|i: int|
        0 <= i < name.len() ==> !text::is_space(#[trigger] name[i]) && name[i] != '/' && name[i] != '@'
}

/// A slash and a name of a command is that command without arguments, also
/// with the name of a bot behind it.
pub proof fn law_a_bare_command_is_recognized(defs: Seq<DefModel>, k: int, name: Seq<char>, bot: Option<Seq<char>>)
    requires
        names_are_unique(defs),
        0 <= k < defs.len(),
        answers_to(defs[k], name),
        is_word(name),
        bot is Some ==> is_word(bot->0),
    ensures
        ({
            let message = seq!['/'] + name + (match bot {
                Some(bot) => seq!['@'] + bot,
                None => Seq::empty(),
            });
            match defs[k].args {
                ArgModel::Required(_) => parsed(defs, message) matches ParseModel::Usage(at, _) && at == k,
                _ => parsed(defs, message) == ParseModel::Command(k, Seq::empty()),
            }
        }),
{
    let token = name + (match bot {
        Some(bot) => seq!['@'] + bot,
        None => Seq::empty(),
    });
    let message = seq!['/'] + name + (match bot {
        Some(bot) => seq!['@'] + bot,
        None => Seq::empty(),
    });
    word_of_a_token(name, bot);
    assert(message =~= seq!['/'] + token);
    assert forall|i: int| 0 <= i < token.len() implies !text::is_space(#[trigger] token[i]) && token[i] != '/' by {
        if i > name.len() {
            assert(token[i] == bot->0[i - name.len() - 1]);
        } else if i < name.len() {
            assert(token[i] == name[i]);
        }
    }
    assert(message.last() == token[token.len() - 1]);
    assert(text::trimmed(message) == message);
    assert(message.subrange(1, message.len() as int) =~= token);
    no_space_is_found(token);
    law_names_resolve_to_their_command(defs, k, name);
    nothing_is_plain();
    assert(text::ascii_lowered(Seq::<char>::empty()) =~= Seq::<char>::empty());
}

proof fn word_of_a_token(name: Seq<char>, bot: Option<Seq<char>>)
    requires
        is_word(name),
    ensures
        without_bot(
            name + (match bot {
                Some(bot) => seq!['@'] + bot,
                None => Seq::empty(),
            }),
        ) == name,
{
    let token = name + (match bot {
        Some(bot) => seq!['@'] + bot,
        None => Seq::empty(),
    });
    text::find_char_first(token, '@');
    if let Some(at) = text::find_char(token, '@') {
        if at < name.len() {
            assert(token[at] == name[at]);
        } else if at > name.len() {
            assert(token[name.len() as int] == '@');
        }
        assert(token.take(at) =~= name);
    } else {
        if bot is Some {
            assert(token[name.len() as int] == '@');
        }
        assert(token =~= name);
    }
}

proof fn nothing_is_plain()
    ensures
        plain_dashes(text::trimmed(Seq::<char>::empty())) == Seq::<char>::empty(),
{
    reveal_with_fuel(text::replaced, 2);
}

/// What stands behind a command and a blank is what the command gets as its
/// arguments, without the blanks around it and with plain dashes.
pub proof fn law_arguments_stand_behind_the_command(defs: Seq<DefModel>, k: int, name: Seq<char>, args: Seq<char>)
    requires
        names_are_unique(defs),
        0 <= k < defs.len(),
        answers_to(defs[k], name),
        is_word(name),
        args.len() > 0,
        text::trimmed(args) == args,
        plain_dashes(args) == args,
        !text::is_space(args.last()),
    ensures
        match defs[k].args {
            ArgModel::NoArgs => parsed(defs, seq!['/'] + name + seq![' '] + args) is NotACommand,
            ArgModel::Optional(_) => parsed(defs, seq!['/'] + name + seq![' '] + args) == ParseModel::Command(k, args),
            ArgModel::Required(_) => parsed(defs, seq!['/'] + name + seq![' '] + args) == ParseModel::Command(k, args),
            ArgModel::Choice(options) => match parsed(defs, seq!['/'] + name + seq![' '] + args) {
                ParseModel::Command(at, chosen) => at == k && text::same_ignoring_case(chosen, args) && exists|i: int|
                    0 <= i < options.len() && text::same_ignoring_case(#[trigger] options[i], args),
                ParseModel::Usage(at, _) => at == k && forall|i: int|
                    0 <= i < options.len() ==> !text::same_ignoring_case(#[trigger] options[i], args),
                ParseModel::NotACommand => false,
            },
        },
{
    let message = seq!['/'] + name + seq![' '] + args;
    let body = name.push(' ') + args;
    word_of_a_token(name, None);
    assert(name + Seq::<char>::empty() =~= name);
    assert(message.last() == args.last());
    assert(text::trimmed(message) == message);
    assert(message.subrange(1, message.len() as int) =~= body);
    first_space_is_found(name, ' ', args);
    assert(body.take(name.len() as int) =~= name);
    assert(body.subrange(name.len() as int + 1, body.len() as int) =~= args);
    assert forall|i: int| 0 <= i < name.len() implies #[trigger] name[i] != '/' by {}
    assert(!name.contains('/'));
    law_names_resolve_to_their_command(defs, k, name);
    lowered_is_the_same(args);
}

proof fn lowered_is_the_same(args: Seq<char>)
    ensures
        text::same_ignoring_case(text::ascii_lowered(args), args),
{
    let one = text::ascii_lowered(args).map_values(|c: char| text::ascii_lower(c));
    let other = args.map_values(|c: char| text::ascii_lower(c));
    assert forall|i: int| 0 <= i < args.len() implies #[trigger] one[i] == other[i] by {
        lower_twice(args[i]);
    }
    assert(one =~= other);
}

proof fn lower_twice(c: char)
    ensures
        text::ascii_lower(text::ascii_lower(c)) == text::ascii_lower(c),
{
}

/// Blanks around a message do not matter.
pub proof fn law_blanks_around_a_message_do_not_matter(defs: Seq<DefModel>, message: Seq<char>)
    ensures
        parsed(defs, message) == parsed(defs, text::trimmed(message)),
{
    text::trimmed_twice(message);
}

/// A usage reply names the command and how it is used.
pub proof fn law_usage_names_the_command(def: DefModel, k: int, args: Seq<char>)
    ensures
        accepted(def, k, args) matches ParseModel::Usage(at, reply) ==> at == k && def.args.hint_text() is Some && reply
            == "usage: /"@ + def.name + " "@ + def.args.hint_text()->0,
        accepted(def, k, args) is Usage ==> def.args is Required && args.len() == 0 || def.args is Choice && args.len()
            > 0,
        accepted(def, k, args) is NotACommand <==> def.args is NoArgs && args.len() > 0,
        accepted(def, k, args) matches ParseModel::Command(at, taken) ==> at == k && taken.len() == args.len(),
{
}

proof fn absent_is_not_replaced(s: Seq<char>, from: Seq<char>, to: Seq<char>)
    requires
        from.len() > 0,
        !s.contains(from[0]),
    ensures
        text::replaced(s, from, to) == s,
    decreases s.len(),
{
    if s.len() > 0 {
        let rest = s.subrange(1, s.len() as int);
        assert(s.contains(s[0]));
        if text::begins(s, from) {
            assert(s.subrange(0, from.len() as int)[0] == s[0]);
        }
        assert forall|i: int| 0 <= i < rest.len() implies #[trigger] rest[i] != from[0] by {
            assert(s.contains(s[i + 1]));
        }
        absent_is_not_replaced(rest, from, to);
        assert(seq![s[0]] + rest =~= s);
    }
}

proof fn replaced_stays_free(s: Seq<char>, from: Seq<char>, to: Seq<char>, c: char)
    requires
        from.len() > 0,
        !to.contains(c),
        s.contains(c) ==> from == seq![c],
    ensures
        !text::replaced(s, from, to).contains(c),
    decreases s.len(),
{
    let out = text::replaced(s, from, to);
    if s.len() > 0 {
        if text::begins(s, from) {
            let rest = s.subrange(from.len() as int, s.len() as int);
            if rest.contains(c) {
                let i = choose|i: int| 0 <= i < rest.len() && rest[i] == c;
                assert(s[from.len() + i] == c);
            }
            replaced_stays_free(rest, from, to, c);
            let tail = text::replaced(rest, from, to);
            assert forall|i: int| 0 <= i < out.len() implies #[trigger] out[i] != c by {
                if i < to.len() {
                    assert(to.contains(to[i]));
                } else {
                    assert(tail.contains(tail[i - to.len()]));
                }
            }
        } else {
            let rest = s.subrange(1, s.len() as int);
            if rest.contains(c) {
                let i = choose|i: int| 0 <= i < rest.len() && rest[i] == c;
                assert(s[1 + i] == c);
            }
            replaced_stays_free(rest, from, to, c);
            if s[0] == c {
                assert(s.contains(s[0]));
                assert(s.subrange(0, 1) =~= seq![c]);
            }
            let tail = text::replaced(rest, from, to);
            assert forall|i: int| 0 <= i < out.len() implies #[trigger] out[i] != c by {
                if i > 0 {
                    assert(tail.contains(tail[i - 1]));
                }
            }
        }
    }
}

/// Arguments never keep a dash that a phone typed, and arguments without one
/// are left as they are.
pub proof fn law_smart_dashes_are_gone(args: Seq<char>)
    ensures
        !plain_dashes(args).contains('\u{2014}'),
        !plain_dashes(args).contains('\u{2013}'),
        !args.contains('\u{2014}') && !args.contains('\u{2013}') ==> plain_dashes(args) == args,
{
    reveal_strlit("--");
    reveal_strlit("-");
    let em = '\u{2014}';
    let en = '\u{2013}';
    let once = text::replaced(args, seq![em, em], "--"@);
    let twice = text::replaced(once, seq![em], "--"@);
    replaced_stays_free(once, seq![em], "--"@, em);
    replaced_stays_free(twice, seq![en], "-"@, en);
    replaced_stays_free(twice, seq![en], "-"@, em);
    if !args.contains(em) && !args.contains(en) {
        absent_is_not_replaced(args, seq![em, em], "--"@);
        absent_is_not_replaced(args, seq![em], "--"@);
        absent_is_not_replaced(args, seq![en], "-"@);
    }
}

/// A line of `/help` names the command and ends with what it does.
pub proof fn law_a_help_line_tells_of_its_command(def: DefModel)
    ensures
        text::begins(help_line(def), "\n- /"@ + def.name),
        text::ends(help_line(def), ": "@ + def.description),
        def.args.hint_text() matches Some(hint) ==> text::begins(help_line(def), "\n- /"@ + def.name + " "@ + hint),
        def.aliases.len() > 0 ==> text::occurs_in(help_line(def), alias_list(def.aliases)),
{
    let whole = help_line(def);
    let named = "\n- /"@ + def.name;
    let told = ": "@ + def.description;
    let hinted = match def.args.hint_text() {
        Some(hint) => named + " "@ + hint,
        None => named,
    };
    assert(whole.subrange(0, named.len() as int) =~= named);
    assert(whole.subrange(0, hinted.len() as int) =~= hinted);
    assert(whole.subrange(whole.len() - told.len(), whole.len() as int) =~= told);
    if def.aliases.len() > 0 {
        let listed = alias_list(def.aliases);
        let at = (hinted + " (or "@).len() as int;
        assert(whole.subrange(at, at + listed.len()) =~= listed);
        assert(text::occurs_at(whole, listed, at));
    }
}

/// A section of the help stands under its label, and only where a command
/// belongs to it.
pub proof fn law_a_help_section_stands_under_its_label(defs: Seq<DefModel>, category: CommandCategory, label: Seq<char>)
    ensures
        !has_category(defs, category) ==> help_section(defs, category, label).len() == 0,
        has_category(defs, category) ==> text::begins(help_section(defs, category, label), "\n\n"@ + label + ":"@)
            && text::ends(help_section(defs, category, label), help_lines(defs, category)),
{
    if has_category(defs, category) {
        let head = "\n\n"@ + label + ":"@;
        text::law_parts_occur(Seq::empty(), head, help_lines(defs, category));
        text::law_parts_occur(head, help_lines(defs, category), Seq::empty());
    }
}

/// The lines of a section are those of its own commands, in their order.
pub proof fn law_help_lines_keep_to_their_category(
    first: Seq<DefModel>,
    second: Seq<DefModel>,
    category: CommandCategory,
)
    ensures
        help_lines(first + second, category) == help_lines(first, category) + help_lines(second, category),
        first.len() == 1 && first[0].category == category ==> help_lines(first, category) == help_line(first[0]),
        first.len() == 1 && first[0].category != category ==> help_lines(first, category).len() == 0,
    decreases second.len(),
{
    let all = first + second;
    if second.len() == 0 {
        assert(all =~= first);
        assert(help_lines(second, category) =~= Seq::<char>::empty());
    } else {
        assert(all.drop_last() =~= first + second.drop_last());
        assert(all.last() == second.last());
        law_help_lines_keep_to_their_category(first, second.drop_last(), category);
    }
    assert(help_lines(all, category) =~= help_lines(first, category) + help_lines(second, category));
    if first.len() == 1 {
        assert(first.last() == first[0]);
        assert(help_lines(first.drop_last(), category) =~= Seq::<char>::empty());
        if first[0].category == category {
            assert(help_lines(first, category) =~= help_line(first[0]));
        }
    }
}

} // verus!
