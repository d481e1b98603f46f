//! The version a build reports.
use vstd::prelude::*;
use crate::text;

verus! {

/// What git says of a checkout.
#[derive(Debug)]
pub struct Checkout {
    /// The short hash of the commit.
    pub commit: String,
    /// The tag exactly on the commit.
    pub tag: Option<String>,
    /// The branch; `HEAD` where there is none.
    pub branch: Option<String>,
}

/// The version of a build that is no release.
pub open spec fn dev_version_of(pkg: Seq<char>, checkout: Option<Checkout>) -> Option<Seq<char>> {
    match checkout {
        None => None,
        Some(checkout) => if text::opt_text(checkout.tag) == Some("v"@ + pkg) {
            None
        } else {
            let detail = match checkout.branch {
                Some(branch) => if branch@ == "HEAD"@ {
                    checkout.commit@
                } else {
                    branch@ + "@"@ + checkout.commit@
                },
                None => checkout.commit@,
            };
            Some(pkg + " ("@ + detail + ")"@)
        },
    }
}

/// The version of a build that is no release: none for release builds (HEAD
/// exactly on the matching `v{version}` tag, or no git repo at all), otherwise
/// `{version} ({branch}@{commit})`.
pub fn dev_version(pkg: &str, checkout: &Option<Checkout>) -> (version: Option<String>)
    ensures
        text::opt_text(version) == dev_version_of(pkg@, *checkout),
{
    let checkout = match checkout {
        Some(checkout) => checkout,
        None => {
            return None;
        },
    };
    let mut release = "v".to_owned();
    release.push_str(pkg);
    if let Some(tag) = &checkout.tag {
        if text::same(tag.as_str(), release.as_str()) {
            return None;
        }
    }
    let detail = match &checkout.branch {
        Some(branch) => {
            if text::same(branch.as_str(), "HEAD") {
                checkout.commit.clone()
            } else {
                let mut detail = branch.clone();
                detail.push_str("@");
                detail.push_str(checkout.commit.as_str());
                detail
            }
        },
        None => checkout.commit.clone(),
    };
    let mut version = pkg.to_owned();
    version.push_str(" (");
    version.push_str(detail.as_str());
    version.push_str(")");
    Some(version)
}

/// The version that a build reports.
pub fn full_version(pkg: &str, checkout: &Option<Checkout>) -> (version: String)
    ensures
        version@ == (match dev_version_of(pkg@, *checkout) {
            Some(version) => version,
            None => pkg@,
        }),
{
    match dev_version(pkg, checkout) {
        Some(version) => version,
        None => pkg.to_owned(),
    }
}

// ---------------------------------------------------------------------------
// Laws
// ---------------------------------------------------------------------------

/// A build is a development one unless it stands on the tag of its version; it
/// is told by its version and its commit, and by its branch where it is on one.
pub proof fn law_a_development_build_tells_its_commit(pkg: Seq<char>, checkout: Checkout)
    ensures
        dev_version_of(pkg, None) is None,
        dev_version_of(pkg, Some(checkout)) is None <==> checkout.tag is Some && checkout.tag->0@ == "v"@ + pkg,
        dev_version_of(pkg, Some(checkout)) matches Some(told) ==> {
            &&& text::begins(told, pkg)
            &&& text::ends(told, checkout.commit@ + ")"@)
            &&& checkout.branch is Some && checkout.branch->0@ != "HEAD"@ ==> text::occurs_in(
                told,
                checkout.branch->0@ + "@"@ + checkout.commit@,
            )
            &&& checkout.branch is None || checkout.branch->0@ == "HEAD"@ ==> told == pkg + " ("@ + checkout.commit@
                + ")"@
        },
{
    if let Some(told) = dev_version_of(pkg, Some(checkout)) {
        let commit = checkout.commit@;
        let opened = pkg + " ("@;
        if checkout.branch is Some && checkout.branch->0@ != "HEAD"@ {
            let at = checkout.branch->0@ + "@"@;
            let detail = at + commit;
            text::law_parts_occur(opened, detail, ")"@);
            text::law_grouping_does_not_matter(at, commit, ")"@);
            text::law_grouping_does_not_matter(opened, detail, ")"@);
            text::law_grouping_does_not_matter(opened, at, commit + ")"@);
            text::law_parts_occur(opened + at, commit + ")"@, Seq::empty());
            text::law_grouping_does_not_matter(pkg, " ("@, detail + ")"@);
            text::law_parts_occur(Seq::empty(), pkg, " ("@ + (detail + ")"@));
        } else {
            text::law_grouping_does_not_matter(opened, commit, ")"@);
            text::law_parts_occur(opened, commit + ")"@, Seq::empty());
            text::law_grouping_does_not_matter(pkg, " ("@, commit + ")"@);
            text::law_parts_occur(Seq::empty(), pkg, " ("@ + (commit + ")"@));
        }
    }
}

} // verus!
