//! Project workspaces: placing and registering git worktrees.
use vstd::prelude::*;
use crate::paths;
use crate::text;

verus! {

broadcast use vstd::seq::group_seq_axioms;

/// A tracked project.
#[derive(Debug)]
pub struct Project {
    pub id: String,
    pub name: String,
    pub root_path: String,
}

/// A repository of a project.
#[derive(Debug)]
pub struct ProjectRepo {
    pub id: String,
    pub project_id: String,
    pub name: String,
    /// Path below the project root; `.` where the root is the repository.
    pub path: String,
}

impl Clone for ProjectRepo {
    fn clone(&self) -> (copy: Self)
        ensures
            copy == *self,
    {
        ProjectRepo {
            id: self.id.clone(),
            project_id: self.project_id.clone(),
            name: self.name.clone(),
            path: self.path.clone(),
        }
    }
}

/// A worktree to be registered.
#[derive(Debug)]
pub struct CreateWorktreeInput {
    pub project_id: String,
    pub repo_id: String,
    pub name: String,
    pub path: String,
    pub branch: String,
    pub created_by: String,
}

/// A registered worktree.
#[derive(Debug)]
pub struct ProjectWorktree {
    pub id: String,
    pub input: CreateWorktreeInput,
}

/// A worktree that was created: the registered record plus its absolute
/// on-disk path.
#[derive(Debug)]
pub struct ProvisionedWorktree {
    pub worktree: ProjectWorktree,
    pub abs_path: String,
}

/// Why no worktree is provisioned.
#[derive(Debug)]
pub enum ProvisionError {
    /// There is no such project.
    NoProject(String),
    /// There is no such repo.
    NoRepo(String),
    /// The repo belongs to another project: repo, project.
    ForeignRepo(String, String),
    /// The project has no repos: its name.
    NoRepos(String),
    /// The project has several repos: its name and what they are.
    ManyRepos(String, String),
    /// The name is not one of a single directory.
    InvalidName(String),
    /// The project root has no directory beside which to place the worktree.
    NoParent,
    /// `git worktree add` failed.
    Git,
    /// The worktree could not be registered.
    Register,
}

/// What a refusal is.
pub enum Refusal {
    NoProject(Seq<char>),
    NoRepo(Seq<char>),
    ForeignRepo(Seq<char>, Seq<char>),
    NoRepos(Seq<char>),
    ManyRepos(Seq<char>, Seq<char>),
    InvalidName(Seq<char>),
    NoParent,
    Git,
    Register,
}

impl View for ProvisionError {
    type V = Refusal;

    open spec fn view(&self) -> Refusal {
        match self {
            ProvisionError::NoProject(id) => Refusal::NoProject(id@),
            ProvisionError::NoRepo(id) => Refusal::NoRepo(id@),
            ProvisionError::ForeignRepo(repo, project) => Refusal::ForeignRepo(repo@, project@),
            ProvisionError::NoRepos(name) => Refusal::NoRepos(name@),
            ProvisionError::ManyRepos(name, repos) => Refusal::ManyRepos(name@, repos@),
            ProvisionError::InvalidName(name) => Refusal::InvalidName(name@),
            ProvisionError::NoParent => Refusal::NoParent,
            ProvisionError::Git => Refusal::Git,
            ProvisionError::Register => Refusal::Register,
        }
    }
}

impl Refusal {
    /// How a refusal reads.
    pub open spec fn reads(self) -> Seq<char> {
        match self {
            Refusal::NoProject(id) => "project not found: "@ + id,
            Refusal::NoRepo(id) => "repo not found: "@ + id,
            Refusal::ForeignRepo(repo, project) => "repo '"@ + repo + "' does not belong to project '"@ + project
                + "'"@,
            Refusal::NoRepos(name) => "project '"@ + name + "' has no repos"@,
            Refusal::ManyRepos(name, repos) => "project '"@ + name
                + "' has multiple repos — specify repo_id (one of: "@ + repos + ")"@,
            Refusal::InvalidName(name) => "invalid worktree name '"@ + name + "': must be a single directory name"@,
            Refusal::NoParent => "single-repo project root has no parent directory"@,
            Refusal::Git => "git worktree add failed"@,
            Refusal::Register => "failed to register worktree in database"@,
        }
    }
}

impl ProvisionError {
    /// How a refusal reads.
    pub fn message(&self) -> (message: String)
        ensures
            message@ == self@.reads(),
    {
        match self {
            ProvisionError::NoProject(id) => {
                let mut message = "project not found: ".to_owned();
                message.push_str(id.as_str());
                message
            },
            ProvisionError::NoRepo(id) => {
                let mut message = "repo not found: ".to_owned();
                message.push_str(id.as_str());
                message
            },
            ProvisionError::ForeignRepo(repo, project) => {
                let mut message = "repo '".to_owned();
                message.push_str(repo.as_str());
                message.push_str("' does not belong to project '");
                message.push_str(project.as_str());
                message.push_str("'");
                message
            },
            ProvisionError::NoRepos(name) => {
                let mut message = "project '".to_owned();
                message.push_str(name.as_str());
                message.push_str("' has no repos");
                message
            },
            ProvisionError::ManyRepos(name, repos) => {
                let mut message = "project '".to_owned();
                message.push_str(name.as_str());
                message.push_str("' has multiple repos — specify repo_id (one of: ");
                message.push_str(repos.as_str());
                message.push_str(")");
                message
            },
            ProvisionError::InvalidName(name) => {
                let mut message = "invalid worktree name '".to_owned();
                message.push_str(name.as_str());
                message.push_str("': must be a single directory name");
                message
            },
            ProvisionError::NoParent => "single-repo project root has no parent directory".to_owned(),
            ProvisionError::Git => "git worktree add failed".to_owned(),
            ProvisionError::Register => "failed to register worktree in database".to_owned(),
        }
    }
}

/// A repo as it is offered for choice.
pub open spec fn offered(repo: ProjectRepo) -> Seq<char> {
    repo.name@ + " ("@ + repo.id@ + ")"@
}

/// The repos of a project as they are offered for choice.
pub open spec fn choices(repos: Seq<ProjectRepo>) -> Seq<char> {
    text::joined(repos.map_values(|repo: ProjectRepo| offered(repo)), ", "@)
}

fn offer(repos: &Vec<ProjectRepo>) -> (s: String)
    ensures
        s@ == choices(repos@),
{
    let ghost all = repos@.map_values(|repo: ProjectRepo| offered(repo));
    let mut parts: Vec<String> = Vec::new();
    let mut k: usize = 0;
    assert(text::texts(parts@) =~= all.take(0));
    while k < repos.len()
        invariant
            all == repos@.map_values(|repo: ProjectRepo| offered(repo)),
            k <= repos@.len(),
            text::texts(parts@) == all.take(k as int),
        decreases repos@.len() - k,
    {
        let mut part = repos[k].name.clone();
        part.push_str(" (");
        part.push_str(repos[k].id.as_str());
        part.push_str(")");
        proof {
            text::texts_push(parts@, part);
            assert(all.take(k + 1) =~= all.take(k as int).push(part@));
        }
        parts.push(part);
        k = k + 1;
    }
    assert(all.take(k as int) =~= all);
    text::join(&parts, ", ")
}

/// The repo that a worktree is made for: the one asked for, which must belong
/// to the project, or the only one there is.
pub open spec fn chosen_repo(
    project: Project,
    asked: Option<Seq<char>>,
    found: Option<ProjectRepo>,
    repos: Seq<ProjectRepo>,
) -> Result<ProjectRepo, Refusal> {
    match asked {
        Some(id) => match found {
            None => Err(Refusal::NoRepo(id)),
            Some(repo) => if repo.project_id@ == project.id@ {
                Ok(repo)
            } else {
                Err(Refusal::ForeignRepo(id, project.id@))
            },
        },
        None => if repos.len() == 1 {
            Ok(repos[0])
        } else if repos.len() == 0 {
            Err(Refusal::NoRepos(project.name@))
        } else {
            Err(Refusal::ManyRepos(project.name@, choices(repos)))
        },
    }
}

/// Chooses the repo that a worktree is made for.
pub fn choose_repo(project: &Project, asked: Option<&str>, found: Option<ProjectRepo>, repos: &Vec<ProjectRepo>) -> (repo: Result<
    ProjectRepo,
    ProvisionError,
>)
    ensures
        (match repo {
            Ok(repo) => Ok(repo),
            Err(error) => Err(error@),
        }) == chosen_repo(
            *project,
            match asked {
                Some(id) => Some(id@),
                None => None,
            },
            found,
            repos@,
        ),
{
    match asked {
        Some(id) => match found {
            None => Err(ProvisionError::NoRepo(id.to_owned())),
            Some(repo) => {
                if repo.project_id == project.id {
                    Ok(repo)
                } else {
                    Err(ProvisionError::ForeignRepo(id.to_owned(), project.id.clone()))
                }
            },
        },
        None => {
            if repos.len() == 1 {
                Ok(repos[0].clone())
            } else if repos.len() == 0 {
                Err(ProvisionError::NoRepos(project.name.clone()))
            } else {
                Err(ProvisionError::ManyRepos(project.name.clone(), offer(repos)))
            }
        },
    }
}

/// The directory name of a worktree: the one given, or the branch with its
/// slashes replaced.
pub open spec fn dir_name(branch: Seq<char>, name: Option<Seq<char>>) -> Seq<char> {
    match name {
        Some(name) => name,
        None => text::replaced(branch, "/"@, "-"@),
    }
}

/// Whether a name is one of a single directory.
pub open spec fn single_dir(name: Seq<char>) -> bool {
    name.len() > 0 && !name.contains('/') && !name.contains('\\') && name != ".."@ && name != "."@
}

/// Names the directory of a worktree.
pub fn name_worktree(branch: &str, name: &Option<String>) -> (dir: Result<String, ProvisionError>)
    ensures
        match dir {
            Ok(dir) => dir@ == dir_name(branch@, text::opt_text(*name)) && single_dir(dir@),
            Err(error) => error@ == Refusal::InvalidName(dir_name(branch@, text::opt_text(*name))) && !single_dir(
                dir_name(branch@, text::opt_text(*name)),
            ),
        },
{
    proof {
        reveal_strlit("/");
    }
    let dir = match name {
        Some(name) => name.clone(),
        None => text::replace(branch, "/", "-"),
    };
    if dir.as_str().is_empty() || text::contains_char(dir.as_str(), '/') || text::contains_char(dir.as_str(), '\\')
        || text::same(dir.as_str(), "..") || text::same(dir.as_str(), ".") {
        return Err(ProvisionError::InvalidName(dir));
    }
    Ok(dir)
}

/// Where a worktree goes: its path on disk, and the one that is recorded.
/// Single-repo projects place worktrees beside the repo; multi-repo projects
/// place them inside the project root.
pub open spec fn placement(root: Seq<char>, repo_path: Seq<char>, dir: Seq<char>) -> Option<(Seq<char>, Seq<char>)> {
    if repo_path == "."@ {
        match paths::parent_of(root) {
            Some(parent) => Some((paths::joined(parent, dir), "../"@ + dir)),
            None => None,
        }
    } else {
        Some((paths::joined(root, dir), dir))
    }
}

/// What provisioning a worktree takes.
#[derive(Debug)]
pub struct WorktreePlan {
    /// The repository on disk.
    pub repo_abs_path: String,
    /// Where the worktree goes.
    pub worktree_abs_path: String,
    pub input: CreateWorktreeInput,
}

/// Whether a plan places and records a worktree as it should.
pub open spec fn plans(
    plan: WorktreePlan,
    project: Project,
    repo: ProjectRepo,
    branch: Seq<char>,
    dir: Seq<char>,
    created_by: Seq<char>,
) -> bool {
    &&& plan.repo_abs_path@ == paths::joined(project.root_path@, repo.path@)
    &&& placement(project.root_path@, repo.path@, dir) == Some((plan.worktree_abs_path@, plan.input.path@))
    &&& plan.input.project_id@ == project.id@
    &&& plan.input.repo_id@ == repo.id@
    &&& plan.input.name@ == dir
    &&& plan.input.branch@ == branch
    &&& plan.input.created_by@ == created_by
}

/// What stands in the way of a worktree, if anything.
pub open spec fn obstacle(
    project: Option<Project>,
    project_id: Seq<char>,
    asked: Option<Seq<char>>,
    found: Option<ProjectRepo>,
    repos: Seq<ProjectRepo>,
    branch: Seq<char>,
    name: Option<Seq<char>>,
) -> Option<Refusal> {
    match project {
        None => Some(Refusal::NoProject(project_id)),
        Some(project) => match chosen_repo(project, asked, found, repos) {
            Err(refusal) => Some(refusal),
            Ok(repo) => if !single_dir(dir_name(branch, name)) {
                Some(Refusal::InvalidName(dir_name(branch, name)))
            } else if placement(project.root_path@, repo.path@, dir_name(branch, name)) is None {
                Some(Refusal::NoParent)
            } else {
                None
            },
        },
    }
}

/// Plans a git worktree for a project repo: path placement, name sanitization,
/// and what is to be registered. `repo_id` may be omitted for single-repo
/// projects.
///
/// `found` is what the store holds under `repo_id`, and `repos` are the repos
/// of the project.
pub fn plan_worktree(
    project: Option<Project>,
    project_id: &str,
    repo_id: Option<&str>,
    found: Option<ProjectRepo>,
    repos: &Vec<ProjectRepo>,
    branch: &str,
    worktree_name: &Option<String>,
    created_by: &str,
) -> (plan: Result<WorktreePlan, ProvisionError>)
    ensures
        ({
            let asked = match repo_id {
                Some(id) => Some(id@),
                None => None,
            };
            let name = text::opt_text(*worktree_name);
            match plan {
                Err(error) => obstacle(project, project_id@, asked, found, repos@, branch@, name) == Some(error@),
                Ok(plan) => obstacle(project, project_id@, asked, found, repos@, branch@, name) is None && plans(
                    plan,
                    project->0,
                    chosen_repo(project->0, asked, found, repos@)->Ok_0,
                    branch@,
                    dir_name(branch@, name),
                    created_by@,
                ),
            }
        }),
{
    let project = match project {
        Some(project) => project,
        None => {
            return Err(ProvisionError::NoProject(project_id.to_owned()));
        },
    };
    let repo = match choose_repo(&project, repo_id, found, repos) {
        Ok(repo) => repo,
        Err(error) => {
            return Err(error);
        },
    };
    let dir = match name_worktree(branch, worktree_name) {
        Ok(dir) => dir,
        Err(error) => {
            return Err(error);
        },
    };
    let repo_abs_path = paths::join(project.root_path.as_str(), repo.path.as_str());
    let (worktree_abs_path, path) = if text::same(repo.path.as_str(), ".") {
        match paths::parent(project.root_path.as_str()) {
            None => {
                return Err(ProvisionError::NoParent);
            },
            Some(parent) => {
                let mut path = "../".to_owned();
                path.push_str(dir.as_str());
                (paths::join(parent.as_str(), dir.as_str()), path)
            },
        }
    } else {
        (paths::join(project.root_path.as_str(), dir.as_str()), dir.clone())
    };
    Ok(
        WorktreePlan {
            repo_abs_path,
            worktree_abs_path,
            input: CreateWorktreeInput {
                project_id: project.id,
                repo_id: repo.id,
                name: dir,
                path,
                branch: branch.to_owned(),
                created_by: created_by.to_owned(),
            },
        },
    )
}

/// How provisioning goes on.
#[derive(Debug)]
pub enum ProvisionStep {
    /// Register the worktree.
    Register,
    /// Done.
    Provisioned(ProvisionedWorktree),
    /// Remove the worktree that was added, then fail.
    Undo(ProvisionError),
    /// Fail.
    Failed(ProvisionError),
}

/// Goes on once `git worktree add` has run.
pub fn after_add(added: bool) -> (step: ProvisionStep)
    ensures
        added ==> step is Register,
        !added ==> step == ProvisionStep::Failed(ProvisionError::Git),
{
    if added {
        ProvisionStep::Register
    } else {
        ProvisionStep::Failed(ProvisionError::Git)
    }
}

/// Goes on once the worktree was to be registered. One that is not registered
/// does not stay on disk.
pub fn after_register(registered: Option<ProjectWorktree>, plan: WorktreePlan) -> (step: ProvisionStep)
    ensures
        match registered {
            Some(worktree) => step == ProvisionStep::Provisioned(
                (ProvisionedWorktree { worktree, abs_path: plan.worktree_abs_path }),
            ),
            None => step == ProvisionStep::Undo(ProvisionError::Register),
        },
{
    match registered {
        Some(worktree) => ProvisionStep::Provisioned(
            ProvisionedWorktree { worktree, abs_path: plan.worktree_abs_path },
        ),
        None => ProvisionStep::Undo(ProvisionError::Register),
    }
}

/// The root paths that the sandbox lets projects use.
pub fn sandbox_paths(projects: &Vec<Project>) -> (roots: Vec<String>)
    ensures
        roots@ == projects@.map_values(|project: Project| project.root_path),
{
    let ghost all = projects@.map_values(|project: Project| project.root_path);
    let mut roots: Vec<String> = Vec::new();
    let mut k: usize = 0;
    assert(roots@ =~= all.take(0));
    while k < projects.len()
        invariant
            all == projects@.map_values(|project: Project| project.root_path),
            k <= projects@.len(),
            roots@ == all.take(k as int),
        decreases projects@.len() - k,
    {
        roots.push(projects[k].root_path.clone());
        assert(all.take(k + 1) =~= all.take(k as int).push(projects@[k as int].root_path));
        k = k + 1;
    }
    assert(all.take(k as int) =~= all);
    roots
}

// ---------------------------------------------------------------------------
// Laws
// ---------------------------------------------------------------------------

/// A worktree of a multi-repo project lies directly in the project root.
pub proof fn law_worktrees_stay_in_the_root(root: Seq<char>, repo_path: Seq<char>, dir: Seq<char>)
    requires
        single_dir(dir),
        repo_path != "."@,
        root.len() > 0,
    ensures
        placement(root, repo_path, dir) matches Some((path, recorded)) && (path == root + dir || path == root + "/"@
            + dir) && recorded == dir,
{
    reveal_strlit("/");
    if text::begins(dir, "/"@) {
        assert(text::occurs_at(dir, "/"@, 0));
        assert(dir.subrange(0, 1)[0] == '/');
        assert(dir.contains('/'));
    }
}

/// A branch name gives a directory name without slashes.
pub proof fn law_branches_name_single_directories(branch: Seq<char>, k: int)
    requires
        0 <= k < dir_name(branch, None).len(),
    ensures
        dir_name(branch, None)[k] != '/',
    decreases branch.len(),
{
    reveal_strlit("/");
    reveal_strlit("-");
    if branch.len() > 0 {
        let rest = branch.subrange(1, branch.len() as int);
        if text::occurs_at(branch, "/"@, 0) {
            if k >= 1 {
                law_branches_name_single_directories(rest, k - 1);
            }
        } else {
            if k >= 1 {
                law_branches_name_single_directories(rest, k - 1);
            } else {
                assert(dir_name(branch, None)[0] == branch[0]);
                if branch[0] == '/' {
                    assert(branch.subrange(0, 1) =~= "/"@);
                }
            }
        }
    }
}

/// A repository that is asked for is taken where the project owns it and refused
/// where it does not exist or is another's; without one the project's only
/// repository is taken, and a choice is never made.
pub proof fn law_a_repository_is_never_guessed(
    project: Project,
    asked: Option<Seq<char>>,
    found: Option<ProjectRepo>,
    repos: Seq<ProjectRepo>,
)
    ensures
        asked is Some && found is None ==> chosen_repo(project, asked, found, repos) == Err::<ProjectRepo, Refusal>(
            Refusal::NoRepo(asked->0),
        ),
        asked is Some && found is Some && found->0.project_id@ == project.id@ ==> chosen_repo(
            project,
            asked,
            found,
            repos,
        ) == Ok::<ProjectRepo, Refusal>(found->0),
        asked is Some && found is Some && found->0.project_id@ != project.id@ ==> chosen_repo(
            project,
            asked,
            found,
            repos,
        ) == Err::<ProjectRepo, Refusal>(Refusal::ForeignRepo(asked->0, project.id@)),
        asked is None && repos.len() == 1 ==> chosen_repo(project, asked, found, repos) == Ok::<ProjectRepo, Refusal>(
            repos[0],
        ),
        asked is None && repos.len() == 0 ==> chosen_repo(project, asked, found, repos) == Err::<ProjectRepo, Refusal>(
            Refusal::NoRepos(project.name@),
        ),
        asked is None && repos.len() > 1 ==> chosen_repo(project, asked, found, repos) == Err::<ProjectRepo, Refusal>(
            Refusal::ManyRepos(project.name@, choices(repos)),
        ),
{
}

/// A repository is offered by its name and its identifier, and where there are
/// two both are offered.
pub proof fn law_every_repository_is_offered(a: ProjectRepo, b: ProjectRepo)
    ensures
        text::begins(offered(a), a.name@),
        text::ends(offered(a), "("@ + a.id@ + ")"@),
        choices(seq![a]) == offered(a),
        choices(seq![a, b]) == offered(a) + ", "@ + offered(b),
{
    reveal_strlit(" (");
    reveal_strlit("(");
    text::law_grouping_does_not_matter(a.name@, " ("@, a.id@ + ")"@);
    text::law_grouping_does_not_matter(a.name@ + " ("@, a.id@, ")"@);
    text::law_parts_occur(Seq::empty(), a.name@, " ("@ + (a.id@ + ")"@));
    let space = " ("@.subrange(0, 1);
    let opened = "("@;
    assert(" ("@ =~= space + opened);
    text::law_grouping_does_not_matter(a.name@, space, opened);
    text::law_grouping_does_not_matter(a.name@ + space, opened, a.id@ + ")"@);
    text::law_grouping_does_not_matter(opened, a.id@, ")"@);
    text::law_parts_occur(a.name@ + space, opened + (a.id@ + ")"@), Seq::empty());
    let show = |repo: ProjectRepo| offered(repo);
    assert(seq![a].map_values(show) =~= seq![offered(a)]);
    assert(seq![a, b].map_values(show) =~= seq![offered(a), offered(b)]);
    assert(seq![offered(a), offered(b)].drop_last() =~= seq![offered(a)]);
    assert(text::joined(seq![offered(a)], ", "@) =~= offered(a));
}

/// A worktree is named as it was asked for, or by its branch with every slash
/// made a dash.
pub proof fn law_a_worktree_is_named_by_its_branch(branch: Seq<char>, name: Option<Seq<char>>)
    ensures
        name is Some ==> dir_name(branch, name) == name->0,
        name is None && !branch.contains('/') ==> dir_name(branch, name) == branch,
        single_dir(branch) ==> branch.len() > 0 && !branch.contains('/') && !branch.contains('\\') && branch != "."@
            && branch != ".."@,
        branch.len() > 0 && !branch.contains('/') && !branch.contains('\\') && branch[0] != '.' ==> single_dir(branch),
{
    reveal_strlit("/");
    reveal_strlit(".");
    reveal_strlit("..");
    if !branch.contains('/') {
        if text::occurs_in(branch, "/"@) {
            let i = choose|i: int| text::occurs_at(branch, "/"@, i);
            assert(branch.subrange(i, i + 1)[0] == '/');
            assert(branch[i] == '/');
        }
        text::law_replacing_swaps_the_pattern("/"@, "-"@, branch);
    }
}

/// A worktree of a repository that is the project's root stands beside it.
pub proof fn law_worktrees_of_the_root_stand_beside_it(root: Seq<char>, dir: Seq<char>)
    ensures
        placement(root, "."@, dir) is Some <==> paths::parent_of(root) is Some,
        placement(root, "."@, dir) matches Some((path, recorded)) ==> path == paths::joined(
            paths::parent_of(root)->0,
            dir,
        ) && recorded == "../"@ + dir,
{
}

/// A plan registers the worktree under its project, repository and branch, where
/// it will stand.
pub proof fn law_a_plan_registers_what_it_makes(
    plan: WorktreePlan,
    project: Project,
    repo: ProjectRepo,
    branch: Seq<char>,
    dir: Seq<char>,
    created_by: Seq<char>,
)
    requires
        plans(plan, project, repo, branch, dir, created_by),
    ensures
        plan.input.project_id@ == project.id@ && plan.input.repo_id@ == repo.id@,
        plan.input.name@ == dir && plan.input.branch@ == branch && plan.input.created_by@ == created_by,
        plan.repo_abs_path@ == paths::joined(project.root_path@, repo.path@),
        repo.path@ != "."@ ==> plan.worktree_abs_path@ == paths::joined(project.root_path@, dir) && plan.input.path@
            == dir,
{
}

/// What stands in the way is told in order: the project, its repository, the
/// name, and the place.
pub proof fn law_obstacles_are_told_in_order(
    project: Option<Project>,
    project_id: Seq<char>,
    asked: Option<Seq<char>>,
    found: Option<ProjectRepo>,
    repos: Seq<ProjectRepo>,
    branch: Seq<char>,
    name: Option<Seq<char>>,
)
    ensures
        ({
            let told = obstacle(project, project_id, asked, found, repos, branch, name);
            let dir = dir_name(branch, name);
            &&& project is None ==> told == Some(Refusal::NoProject(project_id))
            &&& project matches Some(project) ==> match chosen_repo(project, asked, found, repos) {
                Err(refusal) => told == Some(refusal),
                Ok(repo) => {
                    &&& !single_dir(dir) ==> told == Some(Refusal::InvalidName(dir))
                    &&& single_dir(dir) && placement(project.root_path@, repo.path@, dir) is None ==> told == Some(
                        Refusal::NoParent,
                    )
                    &&& single_dir(dir) && placement(project.root_path@, repo.path@, dir) is Some ==> told is None
                },
            }
        }),
{
}

} // verus!
