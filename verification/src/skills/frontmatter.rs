//! The head of a skill file: YAML between two `---` lines, then the body.
use vstd::prelude::*;
use crate::text;

verus! {

broadcast use vstd::seq::group_seq_axioms;

/// A host platform a skill can be gated to.
#[derive(Debug, Clone, Copy, PartialEq, Eq, Structural)]
pub enum Platform {
    Linux,
    Macos,
    Windows,
    /// Any value we don't recognize. Never matches the host, so a skill gated
    /// to an unknown platform is skipped rather than failing to parse.
    Other,
}

impl Platform {
    /// The platform that a name in a skill file stands for.
    pub open spec fn written(value: Seq<char>) -> Platform {
        let name = text::ascii_lowered(text::trimmed(value));
        if name == "linux"@ {
            Platform::Linux
        } else if name == "macos"@ || name == "darwin"@ || name == "mac"@ {
            Platform::Macos
        } else if name == "windows"@ || name == "win"@ {
            Platform::Windows
        } else {
            Platform::Other
        }
    }

    /// Reads the name of a platform in a skill file.
    pub fn parse(value: &str) -> (platform: Platform)
        ensures
            platform == Platform::written(value@),
    {
        let name = text::to_ascii_lowercase(text::trim(value).as_str());
        let name = name.as_str();
        if text::same(name, "linux") {
            Platform::Linux
        } else if text::same(name, "macos") || text::same(name, "darwin") || text::same(name, "mac") {
            Platform::Macos
        } else if text::same(name, "windows") || text::same(name, "win") {
            Platform::Windows
        } else {
            Platform::Other
        }
    }

    /// The platform of a host, by the name of its operating system.
    pub open spec fn running(os: Seq<char>) -> Platform {
        if os == "linux"@ {
            Platform::Linux
        } else if os == "macos"@ {
            Platform::Macos
        } else if os == "windows"@ {
            Platform::Windows
        } else {
            Platform::Other
        }
    }

    /// The platform of the host this process is running on, by the name of
    /// its operating system.
    pub fn host(os: &str) -> (platform: Platform)
        ensures
            platform == Platform::running(os@),
    {
        if text::same(os, "linux") {
            Platform::Linux
        } else if text::same(os, "macos") {
            Platform::Macos
        } else if text::same(os, "windows") {
            Platform::Windows
        } else {
            Platform::Other
        }
    }

    /// Whether a list of platforms lets a skill run on a host.
    pub open spec fn admits(platforms: Seq<Platform>, host: Platform) -> bool {
        host != Platform::Other && platforms.contains(host)
    }

    /// Whether a skill's platform list matches the host.
    ///
    /// `Other` never matches: a skill gated to unrecognized platforms stays
    /// off every host, and an unrecognized host fails all gates rather than
    /// passing them.
    pub fn list_matches_host(platforms: &Vec<Platform>, host: Platform) -> (matches: bool)
        ensures
            matches == Platform::admits(platforms@, host),
    {
        if host == Platform::Other {
            return false;
        }
        let mut k: usize = 0;
        while k < platforms.len()
            invariant
                host != Platform::Other,
                k <= platforms@.len(),
                forall|i: int| 0 <= i < k ==> platforms@[i] != host,
            decreases platforms@.len() - k,
        {
            if platforms[k] == host {
                assert(platforms@[k as int] == host);
                return true;
            }
            k = k + 1;
        }
        false
    }
}

/// Typed frontmatter. Unknown fields are ignored so that skills from other
/// ecosystems (carrying `version`, `author`, `license`, ...) load fine.
#[derive(Debug)]
pub struct SkillFrontmatter {
    /// Skill name; falls back to the directory name when absent.
    pub name: Option<String>,
    /// Short description shown in prompt indexes.
    pub description: Option<String>,
    /// Host platforms this skill applies to. Absent means all platforms.
    pub platforms: Option<Vec<Platform>>,
    /// Free-form tags.
    pub tags: Option<Vec<String>>,
    /// Names of related skills, surfaced as navigation hints.
    pub related_skills: Option<Vec<String>>,
    /// GitHub `owner/repo` this skill was installed from, if any.
    pub source_repo: Option<String>,
}

/// What frontmatter says.
pub struct FrontmatterModel {
    pub name: Option<Seq<char>>,
    pub description: Option<Seq<char>>,
    pub platforms: Option<Seq<Platform>>,
    pub tags: Option<Seq<Seq<char>>>,
    pub related_skills: Option<Seq<Seq<char>>>,
    pub source_repo: Option<Seq<char>>,
}

/// The texts of an optional list.
pub open spec fn opt_texts(list: Option<Vec<String>>) -> Option<Seq<Seq<char>>> {
    match list {
        Some(list) => Some(text::texts(list@)),
        None => None,
    }
}

impl View for SkillFrontmatter {
    type V = FrontmatterModel;

    open spec fn view(&self) -> FrontmatterModel {
        FrontmatterModel {
            name: text::opt_text(self.name),
            description: text::opt_text(self.description),
            platforms: match self.platforms {
                Some(platforms) => Some(platforms@),
                None => None,
            },
            tags: opt_texts(self.tags),
            related_skills: opt_texts(self.related_skills),
            source_repo: text::opt_text(self.source_repo),
        }
    }
}

/// Frontmatter that says nothing.
pub open spec fn silent() -> FrontmatterModel {
    FrontmatterModel {
        name: None,
        description: None,
        platforms: None,
        tags: None,
        related_skills: None,
        source_repo: None,
    }
}

impl Default for SkillFrontmatter {
    fn default() -> (frontmatter: Self)
        ensures
            frontmatter@ == silent(),
    {
        SkillFrontmatter {
            name: None,
            description: None,
            platforms: None,
            tags: None,
            related_skills: None,
            source_repo: None,
        }
    }
}

/// Why a skill file is refused.
#[derive(Debug)]
pub enum SkillParseError {
    /// The opening `---` has no closing one.
    Unclosed,
    /// The YAML does not parse, or a field holds what it cannot: what is wrong.
    Frontmatter(String),
}

/// What a refusal is.
pub enum RefusalModel {
    Unclosed,
    Frontmatter(Seq<char>),
}

impl View for SkillParseError {
    type V = RefusalModel;

    open spec fn view(&self) -> RefusalModel {
        match self {
            SkillParseError::Unclosed => RefusalModel::Unclosed,
            SkillParseError::Frontmatter(reason) => RefusalModel::Frontmatter(reason@),
        }
    }
}

impl SkillParseError {
    /// How the refusal reads.
    pub fn message(&self) -> (message: String)
        ensures
            message@ == (match self@ {
                RefusalModel::Unclosed => "unclosed frontmatter: missing closing ---"@,
                RefusalModel::Frontmatter(reason) => "failed to parse skill frontmatter: "@ + reason,
            }),
    {
        match self {
            SkillParseError::Unclosed => "unclosed frontmatter: missing closing ---".to_owned(),
            SkillParseError::Frontmatter(reason) => {
                let mut message = "failed to parse skill frontmatter: ".to_owned();
                message.push_str(reason.as_str());
                message
            },
        }
    }
}

// ---------------------------------------------------------------------------
// Framing
// ---------------------------------------------------------------------------

/// A text without the line feeds it begins with.
pub open spec fn without_leading_feeds(s: Seq<char>) -> Seq<char>
    decreases s.len(),
{
    if s.len() > 0 && s[0] == '\n' {
        without_leading_feeds(s.subrange(1, s.len() as int))
    } else {
        s
    }
}

/// Where the closing delimiter stands: the first line feed with `---` behind
/// it.
pub open spec fn closing(s: Seq<char>, at: int) -> bool {
    text::occurs_at(s, "\n---"@, at) && forall|i: int| 0 <= i < at ==> !text::occurs_at(s, "\n---"@, i)
}

/// A skill file taken apart.
#[derive(Debug)]
pub enum Framed {
    /// No frontmatter: the whole file is the body.
    Plain,
    /// The YAML, trimmed, and the body.
    Headed(String, String),
    /// The opening `---` has no closing one.
    Unclosed,
}

/// Where the closing delimiter stands, where there is one.
pub open spec fn closing_at(s: Seq<char>) -> int {
    choose|at: int| closing(s, at)
}

/// What the parts of a skill file are: its YAML, trimmed, and its body.
pub enum FramedModel {
    Plain,
    Headed(Seq<char>, Seq<char>),
    Unclosed,
}

impl View for Framed {
    type V = FramedModel;

    open spec fn view(&self) -> FramedModel {
        match self {
            Framed::Plain => FramedModel::Plain,
            Framed::Headed(yaml, body) => FramedModel::Headed(yaml@, body@),
            Framed::Unclosed => FramedModel::Unclosed,
        }
    }
}

/// How a skill file comes apart.
pub open spec fn framed(content: Seq<char>) -> FramedModel {
    let trimmed = text::trimmed_start(content);
    let after = trimmed.subrange(3, trimmed.len() as int);
    if !text::begins(trimmed, "---"@) {
        FramedModel::Plain
    } else if !text::occurs_in(after, "\n---"@) {
        FramedModel::Unclosed
    } else {
        FramedModel::Headed(
            text::trimmed(after.take(closing_at(after))),
            without_leading_feeds(after.subrange(closing_at(after) + 4, after.len() as int)),
        )
    }
}

/// Takes a skill file apart at its `---` delimiters.
pub fn frame_skill_markdown(content: &str) -> (parts: Framed)
    ensures
        parts@ == framed(content@),
{
    proof {
        reveal_strlit("---");
        reveal_strlit("\n---");
    }
    let trimmed = text::chars_of(text::trim_start(content).as_str());
    let open = text::chars_of("---");
    let close = text::chars_of("\n---");
    if !text::matches_at(&trimmed, &open, 0) {
        return Framed::Plain;
    }
    let len: usize = trimmed.len();
    let after = text::chars_of(text::string_between(&trimmed, 3, len).as_str());
    match text::find_from(&after, &close, 0) {
        None => {
            assert(!text::occurs_in(after@, "\n---"@)) by {
                assert forall|i: int| !text::occurs_at(after@, "\n---"@, i) by {}
            }
            Framed::Unclosed
        },
        Some(at) => {
            let yaml = text::trim(text::string_between(&after, 0, at).as_str());
            assert(after@.subrange(0, at as int) =~= after@.take(at as int));
            let rest: usize = after.len();
            let mut from: usize = at + 4;
            let ghost tail = after@.subrange(at + 4, after@.len() as int);
            while from < rest && after[from] == '\n'
                invariant
                    rest == after@.len(),
                    at + 4 <= from <= rest,
                    tail == after@.subrange(at + 4, after@.len() as int),
                    without_leading_feeds(tail) == without_leading_feeds(
                        after@.subrange(from as int, after@.len() as int),
                    ),
                decreases rest - from,
            {
                let ghost here = after@.subrange(from as int, after@.len() as int);
                assert(here.subrange(1, here.len() as int) =~= after@.subrange(from + 1, after@.len() as int));
                from = from + 1;
            }
            let body = text::string_between(&after, from, rest);
            assert(closing(after@, at as int));
            assert(closing_at(after@) == at as int) by {
                let other = closing_at(after@);
                assert(closing(after@, other));
                assert(other >= at) by {
                    if 0 <= other < at {
                        assert(!text::occurs_at(after@, "\n---"@, other));
                    }
                }
                assert(at >= other);
            }
            Framed::Headed(yaml, body)
        },
    }
}

// ---------------------------------------------------------------------------
// What the YAML says
// ---------------------------------------------------------------------------

/// The platforms that a list of names stands for.
pub open spec fn named_platforms(names: Seq<Seq<char>>) -> Seq<Platform> {
    names.map_values(|name: Seq<char>| Platform::written(name))
}

/// Reads the names of platforms.
pub fn read_platforms(names: &Vec<String>) -> (platforms: Vec<Platform>)
    ensures
        platforms@ == named_platforms(text::texts(names@)),
{
    let ghost all = named_platforms(text::texts(names@));
    let mut platforms: Vec<Platform> = Vec::new();
    let mut k: usize = 0;
    assert(platforms@ =~= all.take(0));
    while k < names.len()
        invariant
            all == named_platforms(text::texts(names@)),
            k <= names@.len(),
            platforms@ == all.take(k as int),
        decreases names@.len() - k,
    {
        let platform = Platform::parse(names[k].as_str());
        assert(text::texts(names@)[k as int] == names@[k as int]@);
        assert(all.take(k + 1) =~= all.take(k as int).push(platform));
        platforms.push(platform);
        k = k + 1;
    }
    assert(all.take(k as int) =~= all);
    platforms
}

/// What was read of the YAML of a skill file: the frontmatter, or what is
/// wrong with it.
pub open spec fn said_model(said: Result<SkillFrontmatter, String>) -> Result<FrontmatterModel, Seq<char>> {
    match said {
        Ok(frontmatter) => Ok(frontmatter@),
        Err(reason) => Err(reason@),
    }
}

/// A markdown file with what was read of its YAML.
#[derive(Debug)]
pub struct SkillText {
    pub content: String,
    /// What [`yaml_in`] gives for the content, deserialized; unread where it
    /// gives nothing.
    pub said: Result<SkillFrontmatter, String>,
}

impl SkillText {
    /// What the file parses to.
    pub open spec fn parses_to(self) -> Result<(FrontmatterModel, Seq<char>), RefusalModel> {
        parsed(self.content@, said_model(self.said))
    }
}

/// The YAML of a skill file, where it has any.
pub open spec fn yaml_of(content: Seq<char>) -> Option<Seq<char>> {
    match framed(content) {
        FramedModel::Headed(yaml, _) => if yaml.len() == 0 {
            None
        } else {
            Some(yaml)
        },
        _ => None,
    }
}

/// The YAML of a skill file, where it has any that is to be read.
pub fn yaml_in(content: &str) -> (yaml: Option<String>)
    ensures
        text::opt_text(yaml) == yaml_of(content@),
{
    match frame_skill_markdown(content) {
        Framed::Headed(yaml, _) => if yaml.as_str().is_empty() {
            None
        } else {
            Some(yaml)
        },
        _ => None,
    }
}

/// What a skill file parses to, given what its YAML says.
pub open spec fn parsed(content: Seq<char>, said: Result<FrontmatterModel, Seq<char>>) -> Result<
    (FrontmatterModel, Seq<char>),
    RefusalModel,
> {
    match framed(content) {
        FramedModel::Plain => Ok((silent(), content)),
        FramedModel::Unclosed => Err(RefusalModel::Unclosed),
        FramedModel::Headed(yaml, body) => if yaml.len() == 0 {
            Ok((silent(), body))
        } else {
            match said {
                Ok(frontmatter) => Ok((frontmatter, body)),
                Err(reason) => Err(RefusalModel::Frontmatter(reason)),
            }
        },
    }
}

/// What the result of a parse is.
pub open spec fn parse_model(result: Result<(SkillFrontmatter, String), SkillParseError>) -> Result<
    (FrontmatterModel, Seq<char>),
    RefusalModel,
> {
    match result {
        Ok((frontmatter, body)) => Ok((frontmatter@, body@)),
        Err(error) => Err(error@),
    }
}

/// Splits YAML frontmatter from a markdown file and puts what it says beside
/// the body. `said` is what deserializing the YAML gave (see [`yaml_in`]).
///
/// Expects `---` delimiters. Content without frontmatter yields default
/// (empty) frontmatter and the full content as body.
pub fn parse_skill_markdown(content: &str, said: Result<SkillFrontmatter, String>) -> (result: Result<
    (SkillFrontmatter, String),
    SkillParseError,
>)
    ensures
        parse_model(result) == parsed(content@, said_model(said)),
{
    match frame_skill_markdown(content) {
        Framed::Plain => Ok((SkillFrontmatter::default(), content.to_owned())),
        Framed::Unclosed => Err(SkillParseError::Unclosed),
        Framed::Headed(yaml, body) => {
            if yaml.as_str().is_empty() {
                return Ok((SkillFrontmatter::default(), body));
            }
            match said {
                Ok(frontmatter) => Ok((frontmatter, body)),
                Err(reason) => Err(SkillParseError::Frontmatter(reason)),
            }
        },
    }
}

// ---------------------------------------------------------------------------
// Laws
// ---------------------------------------------------------------------------

/// A skill gated to platforms that are not recognized stays off every host.
pub proof fn law_unknown_platforms_match_no_host(platforms: Seq<Platform>, host: Platform)
    requires
        forall|k: int| 0 <= k < platforms.len() ==> platforms[k] == Platform::Other,
    ensures
        !Platform::admits(platforms, host),
{
}

/// An unrecognized host fails every gate.
pub proof fn law_an_unknown_host_fails_every_gate(platforms: Seq<Platform>)
    ensures
        !Platform::admits(platforms, Platform::Other),
{
}

/// What is read of YAML matters only where there is some: a file without
/// frontmatter, with an empty one or with one that is not closed parses to the
/// same whatever was read.
pub proof fn law_only_yaml_is_read(
    content: Seq<char>,
    one: Result<FrontmatterModel, Seq<char>>,
    other: Result<FrontmatterModel, Seq<char>>,
)
    requires
        yaml_of(content) is None,
    ensures
        parsed(content, one) == parsed(content, other),
{
}

/// A platform goes by its names in any case and with whitespace around them;
/// every platform has a name that a host reports.
pub proof fn law_platforms_go_by_their_names(value: Seq<char>, other: Seq<char>)
    ensures
        text::ascii_lowered(text::trimmed(value)) == text::ascii_lowered(text::trimmed(other)) ==> Platform::written(
            value,
        ) == Platform::written(other),
        Platform::written(value) == Platform::Linux <==> text::ascii_lowered(text::trimmed(value)) == "linux"@,
        text::ascii_lowered(text::trimmed(value)) == "macos"@ || text::ascii_lowered(text::trimmed(value)) == "darwin"@
            || text::ascii_lowered(text::trimmed(value)) == "mac"@ <==> Platform::written(value) == Platform::Macos,
        text::ascii_lowered(text::trimmed(value)) == "windows"@ || text::ascii_lowered(text::trimmed(value)) == "win"@
            <==> Platform::written(value) == Platform::Windows,
        Platform::running("linux"@) == Platform::Linux,
        Platform::running("macos"@) == Platform::Macos,
        Platform::running("windows"@) == Platform::Windows,
        other != "linux"@ && other != "macos"@ && other != "windows"@ ==> Platform::running(other) == Platform::Other,
{
    reveal_strlit("linux");
    reveal_strlit("macos");
    reveal_strlit("darwin");
    reveal_strlit("mac");
    reveal_strlit("windows");
    reveal_strlit("win");
    assert("linux"@[0] != "macos"@[0] && "linux"@[0] != "windows"@[0] && "macos"@[0] != "windows"@[0]);
    assert("linux"@[0] != "darwin"@[0] && "linux"@[0] != "mac"@[0] && "linux"@[0] != "win"@[0]);
    assert("windows"@[0] != "darwin"@[0] && "windows"@[0] != "mac"@[0] && "win"@[0] != "macos"@[0]);
    assert("win"@[0] != "darwin"@[0] && "win"@[0] != "mac"@[0]);
}

/// A known host is admitted exactly where it is listed.
pub proof fn law_a_listed_host_is_admitted(platforms: Seq<Platform>, host: Platform)
    requires
        host != Platform::Other,
    ensures
        Platform::admits(platforms, host) <==> exists|k: int| 0 <= k < platforms.len() && platforms[k] == host,
{
}

/// A text without a leading fence has no head, and a fence that is not closed
/// is told apart from both.
pub proof fn law_a_head_stands_between_fences(content: Seq<char>)
    ensures
        framed(content) is Plain <==> !text::begins(text::trimmed_start(content), "---"@),
        framed(content) matches FramedModel::Headed(yaml, body) ==> {
            let after = text::trimmed_start(content).subrange(3, text::trimmed_start(content).len() as int);
            exists|at: int|
                #![trigger text::occurs_at(after, "\n---"@, at)]
                {
                    &&& text::occurs_at(after, "\n---"@, at)
                    &&& (forall|i: int| 0 <= i < at ==> !#[trigger] text::occurs_at(after, "\n---"@, i))
                    &&& yaml == text::trimmed(after.take(at))
                    &&& text::ends(after.subrange(at + 4, after.len() as int), body)
                    &&& body.len() > 0 ==> body[0] != '\n'
                }
        },
        framed(content) is Unclosed <==> text::begins(text::trimmed_start(content), "---"@) && !text::occurs_in(
            text::trimmed_start(content).subrange(3, text::trimmed_start(content).len() as int),
            "\n---"@,
        ),
{
    let after = text::trimmed_start(content).subrange(3, text::trimmed_start(content).len() as int);
    if framed(content) is Headed {
        let some = choose|i: int| text::occurs_at(after, "\n---"@, i);
        first_closing(after, some);
        let at = closing_at(after);
        assert(closing(after, at));
        assert(text::occurs_at(after, "\n---"@, at));
        reveal_strlit("\n---");
        feeds_taken(after.subrange(at + 4, after.len() as int));
    }
}

proof fn first_closing(s: Seq<char>, at: int)
    requires
        text::occurs_at(s, "\n---"@, at),
    ensures
        exists|first: int| #[trigger] closing(s, first),
    decreases at,
{
    if forall|i: int| 0 <= i < at ==> !text::occurs_at(s, "\n---"@, i) {
        assert(closing(s, at));
    } else {
        let i = choose|i: int| 0 <= i < at && text::occurs_at(s, "\n---"@, i);
        first_closing(s, i);
    }
}

proof fn feeds_taken(s: Seq<char>)
    ensures
        text::ends(s, without_leading_feeds(s)),
        without_leading_feeds(s).len() > 0 ==> without_leading_feeds(s)[0] != '\n',
    decreases s.len(),
{
    if s.len() > 0 && s[0] == '\n' {
        let rest = s.subrange(1, s.len() as int);
        feeds_taken(rest);
        let left = without_leading_feeds(rest);
        assert(s.subrange(s.len() - left.len(), s.len() as int) =~= rest.subrange(rest.len() - left.len(), rest.len() as int));
    } else {
        assert(s.subrange(0, s.len() as int) =~= s);
    }
}

/// A skill without a head keeps its whole text and says nothing of itself; what
/// a head says is taken over unless it is refused, and an unclosed one always is.
pub proof fn law_a_parse_goes_by_its_frame(content: Seq<char>, said: Result<FrontmatterModel, Seq<char>>)
    ensures
        framed(content) is Plain ==> parsed(content, said) == Ok::<(FrontmatterModel, Seq<char>), RefusalModel>(
            (silent(), content),
        ),
        framed(content) is Unclosed ==> parsed(content, said) == Err::<(FrontmatterModel, Seq<char>), RefusalModel>(
            RefusalModel::Unclosed,
        ),
        framed(content) matches FramedModel::Headed(yaml, body) ==> {
            &&& parsed(content, said) matches Ok((_, kept)) ==> kept == body
            &&& yaml.len() == 0 ==> parsed(content, said) is Ok && parsed(content, said)->Ok_0.0 == silent()
            &&& yaml.len() > 0 && said is Ok ==> parsed(content, said) is Ok && parsed(content, said)->Ok_0.0
                == said->Ok_0
            &&& yaml.len() > 0 && said is Err ==> parsed(content, said) == Err::<
                (FrontmatterModel, Seq<char>),
                RefusalModel,
            >(RefusalModel::Frontmatter(said->Err_0))
        },
        silent().name is None && silent().description is None && silent().platforms is None && silent().tags is None
            && silent().related_skills is None && silent().source_repo is None,
        yaml_of(content) matches Some(yaml) ==> yaml.len() > 0 && framed(content) is Headed,
        framed(content) matches FramedModel::Headed(yaml, body) ==> (yaml.len() > 0 ==> yaml_of(content) == Some(yaml)),
{
}

} // verus!
