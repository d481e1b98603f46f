//! The archive of removed skills.
//!
//! Archiving moves a skill directory under `.archive/` in the skills root
//! instead of deleting it; restoring moves the latest copy back.
use vstd::prelude::*;
use crate::paths;
use crate::text;

verus! {

broadcast use vstd::seq::group_seq_axioms;

/// Name of the archive directory under a workspace skills root. Hidden, so
/// archived skills are excluded from discovery.
pub const ARCHIVE_DIR: &'static str = ".archive";

/// The name of a copy: the plain one, then those with a suffix.
pub open spec fn copy_name(name: Seq<char>, suffix: nat) -> Seq<char> {
    if suffix == 0 {
        name
    } else {
        name + "-"@ + text::decimal(suffix)
    }
}

/// The name of a copy.
fn name_copy(name: &str, suffix: usize) -> (copy: String)
    ensures
        copy@ == copy_name(name@, suffix as nat),
{
    if suffix == 0 {
        return name.to_owned();
    }
    let mut copy = name.to_owned();
    copy.push_str("-");
    copy.push_str(text::show_usize(suffix).as_str());
    copy
}

proof fn copies_distinct(name: Seq<char>, a: nat, b: nat)
    requires
        a != b,
    ensures
        copy_name(name, a) != copy_name(name, b),
{
    reveal_strlit("-");
    let n = name.len() as int;
    let one = copy_name(name, a);
    let two = copy_name(name, b);
    if one == two {
        if a == 0 {
            assert(two.len() >= n + 1);
        } else if b == 0 {
            assert(one.len() >= n + 1);
        } else {
            assert(one.subrange(n + 1, one.len() as int) =~= text::decimal(a));
            assert(two.subrange(n + 1, two.len() as int) =~= text::decimal(b));
            text::decimal_distinct(a, b);
        }
    }
}

/// Among one more copy than names are taken, one is free.
proof fn a_copy_is_free(taken: Seq<Seq<char>>, name: Seq<char>)
    ensures
        exists|k: nat| k <= taken.len() && !taken.contains(#[trigger] copy_name(name, k)),
{
    let n = taken.len() as int;
    if forall|k: nat| k <= taken.len() ==> taken.contains(#[trigger] copy_name(name, k)) {
        let at = Seq::new((n + 1) as nat, |k: int| taken.index_of(copy_name(name, k as nat)));
        assert forall|i: int, k: int| 0 <= i < at.len() && 0 <= k < at.len() && i != k implies at[i] != at[k] by {
            assert(taken.contains(copy_name(name, i as nat)));
            assert(taken.contains(copy_name(name, k as nat)));
            copies_distinct(name, i as nat, k as nat);
        }
        assert(at.no_duplicates());
        at.unique_seq_to_set();
        assert forall|x: int| at.to_set().contains(x) implies vstd::set_lib::set_int_range(0, n).contains(x) by {
            let k = choose|k: int| 0 <= k < at.len() && at[k] == x;
            assert(taken.contains(copy_name(name, k as nat)));
        }
        vstd::set_lib::lemma_int_range(0, n);
        vstd::set_lib::lemma_len_subset(at.to_set(), vstd::set_lib::set_int_range(0, n));
    }
}

/// Whether a copy is the first whose name is free.
pub open spec fn first_free(taken: Seq<Seq<char>>, name: Seq<char>, suffix: nat) -> bool {
    !taken.contains(copy_name(name, suffix)) && forall|k: nat|
        k < suffix ==> taken.contains(#[trigger] copy_name(name, k))
}

/// Names the archived copy of a skill, given what stands in the archive
/// directory.
///
/// An existing archived copy is suffixed away (`{name}-1`, `{name}-2`, ...)
/// rather than overwritten, so repeated archive cycles never destroy a prior
/// snapshot.
pub fn archive_name(taken: &Vec<String>, name: &str) -> (copy: String)
    ensures
        exists|suffix: nat|
            #[trigger] first_free(text::texts(taken@), name@, suffix) && copy@ == copy_name(name@, suffix),
{
    let ghost names = text::texts(taken@);
    let len: usize = taken.len();
    let mut suffix: usize = 0;
    let mut copy = name.to_owned();
    proof {
        a_copy_is_free(names, name@);
    }
    while text::lists(taken, copy.as_str())
        invariant
            names == text::texts(taken@),
            names.len() == len,
            suffix <= len,
            copy@ == copy_name(name@, suffix as nat),
            forall|k: nat| k < suffix ==> names.contains(#[trigger] copy_name(name@, k)),
            exists|k: nat| k <= names.len() && !names.contains(#[trigger] copy_name(name@, k)),
        decreases len - suffix,
    {
        assert(names.contains(copy_name(name@, suffix as nat)));
        assert(suffix < len) by {
            let k = choose|k: nat| k <= names.len() && !names.contains(#[trigger] copy_name(name@, k));
            assert(k > suffix);
        }
        suffix = suffix + 1;
        copy = name_copy(name, suffix);
    }
    assert(first_free(names, name@, suffix as nat));
    copy
}

/// The part of a skill's parent directory below the skills root; nothing where
/// it lies elsewhere.
pub open spec fn relative_parent(root: Seq<char>, base_dir: Seq<char>) -> Seq<char> {
    match paths::parent_of(base_dir) {
        Some(parent) => match paths::below(root, parent) {
            Some(relative) => relative,
            None => Seq::empty(),
        },
        None => Seq::empty(),
    }
}

/// The archive directory that a skill goes to.
pub open spec fn archive_dir_of(root: Seq<char>, base_dir: Seq<char>) -> Seq<char> {
    let relative = relative_parent(root, base_dir);
    let archive = paths::joined(root, ".archive"@);
    if relative.len() == 0 {
        archive
    } else {
        paths::joined(archive, relative)
    }
}

/// The archive directory that a skill goes to: its path relative to the skills
/// root is preserved under `.archive/`, so a categorized skill
/// (`{category}/{name}`) restores to the same location.
pub fn archive_parent(root: &str, base_dir: &str) -> (dir: String)
    ensures
        dir@ == archive_dir_of(root@, base_dir@),
{
    let archive = paths::join(root, ARCHIVE_DIR);
    let relative = match paths::parent(base_dir) {
        Some(parent) => match paths::strip(root, parent.as_str()) {
            Some(relative) => relative,
            None => String::new(),
        },
        None => String::new(),
    };
    if relative.as_str().is_empty() {
        return archive;
    }
    paths::join(archive.as_str(), relative.as_str())
}

/// Moves a skill directory into the workspace archive instead of deleting it:
/// the path that it goes to, given what stands in its archive directory.
pub fn archive_skill_dir(root: &str, base_dir: &str, name: &str, taken: &Vec<String>) -> (destination: String)
    ensures
        exists|suffix: nat|
            #[trigger] first_free(text::texts(taken@), name@, suffix) && destination@ == paths::joined(
                archive_dir_of(root@, base_dir@),
                copy_name(name@, suffix),
            ),
{
    let parent = archive_parent(root, base_dir);
    let copy = archive_name(taken, name);
    paths::join(parent.as_str(), copy.as_str())
}

/// How many copies with a suffix stand in a directory without a gap.
pub open spec fn copies(dirs: Seq<Seq<char>>, name: Seq<char>, run: nat) -> bool {
    !dirs.contains(copy_name(name, run + 1)) && forall|k: nat|
        0 < k <= run ==> dirs.contains(#[trigger] copy_name(name, k))
}

/// Whether a copy is the most recent one in a directory.
pub open spec fn is_latest(dirs: Seq<Seq<char>>, name: Seq<char>, copy: Option<Seq<char>>) -> bool {
    exists|run: nat|
        #[trigger] copies(dirs, name, run) && copy == (if run > 0 {
            Some(copy_name(name, run))
        } else if dirs.contains(name) {
            Some(name)
        } else {
            None
        })
}

/// Finds the most recently archived copy of a skill among the names of the
/// directories beside it: the highest suffix, or `None`.
pub fn latest_archived_copy(dirs: &Vec<String>, name: &str) -> (copy: Option<String>)
    ensures
        is_latest(text::texts(dirs@), name@, text::opt_text(copy)),
{
    let ghost names = text::texts(dirs@);
    let len: usize = dirs.len();
    let mut latest: Option<String> = None;
    if text::lists(dirs, name) {
        latest = Some(name.to_owned());
    }
    let mut run: usize = 0;
    proof {
        run_is_short(names, name@);
    }
    while run < len
        invariant_except_break
            names == text::texts(dirs@),
            names.len() == len,
            run <= len,
            forall|k: nat| 0 < k <= run ==> names.contains(#[trigger] copy_name(name@, k)),
            exists|k: nat| 0 < k <= names.len() + 1 && !names.contains(#[trigger] copy_name(name@, k)),
            text::opt_text(latest) == (if run > 0 {
                Some(copy_name(name@, run as nat))
            } else if names.contains(name@) {
                Some(name@)
            } else {
                None
            }),
        ensures
            copies(names, name@, run as nat),
            text::opt_text(latest) == (if run > 0 {
                Some(copy_name(name@, run as nat))
            } else if names.contains(name@) {
                Some(name@)
            } else {
                None
            }),
        decreases len - run,
    {
        let candidate = name_copy(name, run + 1);
        if !text::lists(dirs, candidate.as_str()) {
            break;
        }
        latest = Some(candidate);
        run = run + 1;
    }
    latest
}

/// Copies with a suffix cannot outnumber the names.
proof fn run_is_short(names: Seq<Seq<char>>, name: Seq<char>)
    ensures
        exists|k: nat| 0 < k <= names.len() + 1 && !names.contains(#[trigger] copy_name(name, k)),
        names.len() == 0 ==> copies(names, name, 0),
{
    let extended = names.push(name);
    a_copy_is_free(extended, name);
    let k = choose|k: nat| k <= extended.len() && !extended.contains(#[trigger] copy_name(name, k));
    assert(extended.last() == name);
    assert(extended.contains(copy_name(name, 0)));
    assert(k != 0);
    if names.contains(copy_name(name, k)) {
        let i = choose|i: int| 0 <= i < names.len() && names[i] == copy_name(name, k);
        assert(extended[i] == copy_name(name, k));
    }
}

/// A category directory of the archive, with the names of the directories in
/// it.
#[derive(Debug)]
pub struct ArchivedCategory {
    pub name: String,
    pub dirs: Vec<String>,
}

/// A directory to be moved.
#[derive(Debug)]
pub struct Move {
    pub source: String,
    pub destination: String,
}

/// Whether a category holds no copy of a skill.
pub open spec fn holds_none(category: ArchivedCategory, name: Seq<char>) -> bool {
    is_latest(text::texts(category.dirs@), name, None)
}

/// Whether a move brings the latest archived copy of a skill back: from the
/// archive root, or else from the first category that holds one.
pub open spec fn restores(
    root: Seq<char>,
    dirs: Seq<String>,
    categories: Seq<ArchivedCategory>,
    name: Seq<char>,
    found: Option<(Seq<char>, Seq<char>)>,
) -> bool {
    let archive = paths::joined(root, ".archive"@);
    ||| exists|copy: Seq<char>|
        #[trigger] is_latest(text::texts(dirs), name, Some(copy)) && found == Some(
            (paths::joined(archive, copy), paths::joined(root, name)),
        )
    ||| is_latest(text::texts(dirs), name, None) && exists|at: int, copy: Seq<char>|
        0 <= at < categories.len() && (forall|k: int| 0 <= k < at ==> holds_none(#[trigger] categories[k], name))
            && #[trigger] is_latest(text::texts(categories[at].dirs@), name, Some(copy)) && found == Some(
            (
                paths::joined(paths::joined(archive, categories[at].name@), copy),
                paths::joined(paths::joined(root, categories[at].name@), name),
            ),
        )
    ||| is_latest(text::texts(dirs), name, None) && found is None && forall|k: int|
        0 <= k < categories.len() ==> holds_none(#[trigger] categories[k], name)
}

/// Finds the copy of a skill to bring back and where it goes.
///
/// Looks in the archive root, then one category level deep, mirroring
/// discovery's two levels.
pub fn find_archived(root: &str, dirs: &Vec<String>, categories: &Vec<ArchivedCategory>, name: &str) -> (found: Option<
    Move,
>)
    ensures
        restores(
            root@,
            dirs@,
            categories@,
            name@,
            match found {
                Some(found) => Some((found.source@, found.destination@)),
                None => None,
            },
        ),
{
    let archive = paths::join(root, ARCHIVE_DIR);
    if let Some(copy) = latest_archived_copy(dirs, name) {
        return Some(
            Move { source: paths::join(archive.as_str(), copy.as_str()), destination: paths::join(root, name) },
        );
    }
    let mut k: usize = 0;
    while k < categories.len()
        invariant
            k <= categories@.len(),
            archive@ == paths::joined(root@, ".archive"@),
            is_latest(text::texts(dirs@), name@, None),
            forall|i: int| 0 <= i < k ==> holds_none(#[trigger] categories@[i], name@),
        decreases categories@.len() - k,
    {
        let category = &categories[k];
        if let Some(copy) = latest_archived_copy(&category.dirs, name) {
            let from = paths::join(archive.as_str(), category.name.as_str());
            let to = paths::join(root, category.name.as_str());
            assert(is_latest(text::texts(categories@[k as int].dirs@), name@, Some(copy@)));
            return Some(
                Move {
                    source: paths::join(from.as_str(), copy.as_str()),
                    destination: paths::join(to.as_str(), name),
                },
            );
        }
        k = k + 1;
    }
    None
}

/// Why a skill is not restored.
#[derive(Debug)]
pub enum RestoreError {
    /// There is no archived copy.
    NoCopy,
    /// An active skill directory already stands at a path.
    Occupied(String),
}

/// Restores the most recently archived copy of a skill to the location it was
/// archived from: the directory to move, once it is known whether the place it
/// goes to is taken.
///
/// Fails when no archived copy exists or when an active skill directory
/// already occupies the name.
pub fn restore_skill_dir(found: Option<Move>, occupied: bool) -> (planned: Result<Move, RestoreError>)
    ensures
        match planned {
            Ok(planned) => !occupied && found == Some(planned),
            Err(RestoreError::NoCopy) => found is None,
            Err(RestoreError::Occupied(path)) => found matches Some(m) && occupied && path == m.destination,
        },
{
    match found {
        None => Err(RestoreError::NoCopy),
        Some(found) => if occupied {
            Err(RestoreError::Occupied(found.destination))
        } else {
            Ok(found)
        },
    }
}

impl RestoreError {
    /// How the refusal reads.
    pub fn message(&self, root: &str, name: &str) -> (message: String)
        ensures
            message@ == (match self {
                RestoreError::NoCopy => "no archived copy of '"@ + name@ + "' found under "@ + paths::joined(
                    root@,
                    ".archive"@,
                ),
                RestoreError::Occupied(path) => "cannot restore '"@ + name@
                    + "': an active skill directory already exists at "@ + path@,
            }),
    {
        match self {
            RestoreError::NoCopy => {
                let mut message = "no archived copy of '".to_owned();
                message.push_str(name);
                message.push_str("' found under ");
                message.push_str(paths::join(root, ARCHIVE_DIR).as_str());
                message
            },
            RestoreError::Occupied(path) => {
                let mut message = "cannot restore '".to_owned();
                message.push_str(name);
                message.push_str("': an active skill directory already exists at ");
                message.push_str(path.as_str());
                message
            },
        }
    }
}

// ---------------------------------------------------------------------------
// Laws
// ---------------------------------------------------------------------------

/// Archiving a skill again never overwrites an earlier copy.
pub proof fn law_archiving_never_overwrites(taken: Seq<Seq<char>>, name: Seq<char>, suffix: nat, other: Seq<char>)
    requires
        first_free(taken, name, suffix),
        taken.contains(other),
    ensures
        copy_name(name, suffix) != other,
{
}

/// Whether a listing of a directory is what it was with a name more, in
/// whatever order.
pub open spec fn gained(before: Seq<Seq<char>>, name: Seq<char>, after: Seq<Seq<char>>) -> bool {
    forall|other: Seq<char>| #[trigger] after.contains(other) == (before.contains(other) || other == name)
}

/// The copy that was archived last is the one that is restored, where no copy
/// with the next suffix stands there.
pub proof fn law_the_last_archived_copy_is_restored(
    taken: Seq<Seq<char>>,
    name: Seq<char>,
    suffix: nat,
    dirs: Seq<Seq<char>>,
)
    requires
        first_free(taken, name, suffix),
        !taken.contains(copy_name(name, suffix + 1)),
        gained(taken, copy_name(name, suffix), dirs),
    ensures
        is_latest(dirs, name, Some(copy_name(name, suffix))),
{
    copies_distinct(name, suffix, suffix + 1);
    assert(dirs.contains(copy_name(name, suffix)));
    assert(!dirs.contains(copy_name(name, suffix + 1)));
    assert forall|k: nat| 0 < k <= suffix implies dirs.contains(#[trigger] copy_name(name, k)) by {
        if k < suffix {
            assert(taken.contains(copy_name(name, k)));
        }
    }
    assert(copies(dirs, name, suffix));
}

/// A directory has one latest copy at most.
proof fn latest_is_one(dirs: Seq<Seq<char>>, name: Seq<char>, one: Option<Seq<char>>, other: Option<Seq<char>>)
    requires
        is_latest(dirs, name, one),
        is_latest(dirs, name, other),
    ensures
        one == other,
{
    let a = choose|run: nat|
        #[trigger] copies(dirs, name, run) && one == (if run > 0 {
            Some(copy_name(name, run))
        } else if dirs.contains(name) {
            Some(name)
        } else {
            None
        });
    let b = choose|run: nat|
        #[trigger] copies(dirs, name, run) && other == (if run > 0 {
            Some(copy_name(name, run))
        } else if dirs.contains(name) {
            Some(name)
        } else {
            None
        });
    if a < b {
        assert(dirs.contains(copy_name(name, a + 1)));
    } else if b < a {
        assert(dirs.contains(copy_name(name, b + 1)));
    }
}

/// A skill of the skills root that is archived and restored ends where it
/// stood: the move that restores it undoes the one that archived it. `taken`
/// is what stood in the archive before, `dirs` what stands there after.
pub proof fn law_archiving_and_restoring_gives_back_the_directory(
    root: Seq<char>,
    name: Seq<char>,
    taken: Seq<Seq<char>>,
    suffix: nat,
    dirs: Seq<String>,
    categories: Seq<ArchivedCategory>,
    found: Option<(Seq<char>, Seq<char>)>,
)
    requires
        paths::plain(name),
        first_free(taken, name, suffix),
        !taken.contains(copy_name(name, suffix + 1)),
        gained(taken, copy_name(name, suffix), text::texts(dirs)),
        restores(root, dirs, categories, name, found),
    ensures
        found == Some(
            (
                paths::joined(archive_dir_of(root, paths::joined(root, name)), copy_name(name, suffix)),
                paths::joined(root, name),
            ),
        ),
{
    let listed = text::texts(dirs);
    let latest = Some(copy_name(name, suffix));
    law_the_last_archived_copy_is_restored(taken, name, suffix, listed);
    paths::law_a_joined_path_lies_in_its_directory(root, name);
    paths::law_a_directory_is_nothing_below_itself(root);
    if is_latest(listed, name, None) {
        latest_is_one(listed, name, latest, None);
    }
    let copy = choose|copy: Seq<char>|
        #[trigger] is_latest(listed, name, Some(copy)) && found == Some(
            (paths::joined(paths::joined(root, ".archive"@), copy), paths::joined(root, name)),
        );
    latest_is_one(listed, name, latest, Some(copy));
}

/// A categorized skill that is archived and restored ends where it stood: the
/// move that restores it undoes the one that archived it. `taken` is what
/// stood in the category's archive directory before. No copy of the skill
/// stands in the archive root or in a category before its own, where it would
/// be found first.
pub proof fn law_archiving_and_restoring_keeps_the_category(
    root: Seq<char>,
    name: Seq<char>,
    taken: Seq<Seq<char>>,
    suffix: nat,
    dirs: Seq<String>,
    categories: Seq<ArchivedCategory>,
    at: int,
    found: Option<(Seq<char>, Seq<char>)>,
)
    requires
        paths::plain(name),
        0 <= at < categories.len(),
        paths::plain(categories[at].name@),
        first_free(taken, name, suffix),
        !taken.contains(copy_name(name, suffix + 1)),
        gained(taken, copy_name(name, suffix), text::texts(categories[at].dirs@)),
        is_latest(text::texts(dirs), name, None),
        forall|k: int| 0 <= k < at ==> holds_none(#[trigger] categories[k], name),
        restores(root, dirs, categories, name, found),
    ensures
        ({
            let base_dir = paths::joined(paths::joined(root, categories[at].name@), name);
            found == Some((paths::joined(archive_dir_of(root, base_dir), copy_name(name, suffix)), base_dir))
        }),
{
    let category = categories[at].name@;
    let dir = paths::joined(root, category);
    let latest = Some(copy_name(name, suffix));
    let listed = text::texts(categories[at].dirs@);
    let archive = paths::joined(root, ".archive"@);
    law_the_last_archived_copy_is_restored(taken, name, suffix, listed);
    paths::law_a_joined_path_lies_in_its_directory(dir, name);
    paths::law_a_joined_path_lies_below_its_directory(root, category);
    paths::law_a_joined_path_is_trimmed(root, category);
    assert(archive_dir_of(root, paths::joined(dir, name)) == paths::joined(archive, category));
    if let Some(copy) = found {
        if exists|copy: Seq<char>| #[trigger] is_latest(text::texts(dirs), name, Some(copy)) {
            let copy = choose|copy: Seq<char>| #[trigger] is_latest(text::texts(dirs), name, Some(copy));
            latest_is_one(text::texts(dirs), name, Some(copy), None);
        }
        let (k, copy) = choose|k: int, copy: Seq<char>|
            0 <= k < categories.len() && (forall|i: int| 0 <= i < k ==> holds_none(#[trigger] categories[i], name))
                && #[trigger] is_latest(text::texts(categories[k].dirs@), name, Some(copy)) && found == Some(
                (
                    paths::joined(paths::joined(archive, categories[k].name@), copy),
                    paths::joined(paths::joined(root, categories[k].name@), name),
                ),
            );
        if k < at {
            assert(holds_none(categories[k], name));
            latest_is_one(text::texts(categories[k].dirs@), name, Some(copy), None);
        } else if at < k {
            assert(holds_none(categories[at], name));
            latest_is_one(listed, name, latest, None);
        } else {
            latest_is_one(listed, name, latest, Some(copy));
        }
    } else {
        assert(holds_none(categories[at], name));
        latest_is_one(listed, name, latest, None);
    }
}

/// Of two copies archived one after the other, the later one is restored, to
/// where it stood, and the earlier one stays in the archive: it stands there,
/// and it is another directory than the one that is moved.
pub proof fn law_the_earlier_of_two_copies_stays_archived(
    root: Seq<char>,
    name: Seq<char>,
    taken: Seq<Seq<char>>,
    first: nat,
    between: Seq<Seq<char>>,
    second: nat,
    dirs: Seq<String>,
    categories: Seq<ArchivedCategory>,
    found: Option<(Seq<char>, Seq<char>)>,
)
    requires
        paths::plain(name),
        first_free(taken, name, first),
        gained(taken, copy_name(name, first), between),
        first_free(between, name, second),
        !between.contains(copy_name(name, second + 1)),
        gained(between, copy_name(name, second), text::texts(dirs)),
        restores(root, dirs, categories, name, found),
    ensures
        first < second,
        copy_name(name, first) != copy_name(name, second),
        text::texts(dirs).contains(copy_name(name, first)),
        ({
            let archive = archive_dir_of(root, paths::joined(root, name));
            found == Some((paths::joined(archive, copy_name(name, second)), paths::joined(root, name)))
        }),
{
    law_archiving_and_restoring_gives_back_the_directory(root, name, between, second, dirs, categories, found);
    assert(between.contains(copy_name(name, first)));
    assert(text::texts(dirs).contains(copy_name(name, first)));
    if second < first {
        assert(taken.contains(copy_name(name, second)));
        assert(between.contains(copy_name(name, second)));
    }
    assert(first != second);
    copies_distinct(name, first, second);
}

/// Of two copies of a skill of a category archived one after the other, the
/// later one is restored, to its category, and the earlier one stays in the
/// category's archive directory. No copy of the skill stands in the archive root
/// or in a category before its own, where it would be found first.
pub proof fn law_the_earlier_of_two_copies_stays_in_its_category(
    root: Seq<char>,
    name: Seq<char>,
    taken: Seq<Seq<char>>,
    first: nat,
    between: Seq<Seq<char>>,
    second: nat,
    dirs: Seq<String>,
    categories: Seq<ArchivedCategory>,
    at: int,
    found: Option<(Seq<char>, Seq<char>)>,
)
    requires
        paths::plain(name),
        0 <= at < categories.len(),
        paths::plain(categories[at].name@),
        first_free(taken, name, first),
        gained(taken, copy_name(name, first), between),
        first_free(between, name, second),
        !between.contains(copy_name(name, second + 1)),
        gained(between, copy_name(name, second), text::texts(categories[at].dirs@)),
        is_latest(text::texts(dirs), name, None),
        forall|k: int| 0 <= k < at ==> holds_none(#[trigger] categories[k], name),
        restores(root, dirs, categories, name, found),
    ensures
        first < second,
        copy_name(name, first) != copy_name(name, second),
        text::texts(categories[at].dirs@).contains(copy_name(name, first)),
        ({
            let base_dir = paths::joined(paths::joined(root, categories[at].name@), name);
            found == Some((paths::joined(archive_dir_of(root, base_dir), copy_name(name, second)), base_dir))
        }),
{
    law_archiving_and_restoring_keeps_the_category(root, name, between, second, dirs, categories, at, found);
    assert(between.contains(copy_name(name, first)));
    assert(text::texts(categories[at].dirs@).contains(copy_name(name, first)));
    if second < first {
        assert(taken.contains(copy_name(name, second)));
        assert(between.contains(copy_name(name, second)));
    }
    assert(first != second);
    copies_distinct(name, first, second);
}

} // verus!
