//! Changing the theme of a blog: the theme is a git repository cloned into
//! `theme/`.
use vstd::prelude::*;
use vstd::string::StringExecFns;
use crate::error::{Error, message_of};
use crate::script::{Action, Level, Log, Next, Outcome};
use crate::text::chars_of;

verus! {

broadcast use vstd::string::group_string_axioms;

/// How often `c` occurs in `s`.
pub open spec fn count_char(s: Seq<char>, c: char) -> nat
    decreases s.len(),
{
    if s.len() == 0 {
        0
    } else {
        count_char(s.drop_last(), c) + if s.last() == c {
            1nat
        } else {
            0nat
        }
    }
}

/// `repo` reads as `owner/name` on GitHub: one slash, neither first nor
/// last.
pub open spec fn is_github_like(repo: Seq<char>) -> bool {
    &&& count_char(repo, '/') == 1
    &&& !(repo.len() > 0 && repo[0] == '/')
    &&& !(repo.len() > 0 && repo.last() == '/')
}

/// Whether `repo` reads as `owner/name` on GitHub.
pub fn github_like(repo: &str) -> (b: bool)
    ensures
        b == is_github_like(repo@),
{
    let cs = chars_of(repo);
    let n = cs.len();
    let mut slashes: usize = 0;
    for i in 0..n
        invariant
            cs@ == repo@,
            n == cs.len(),
            slashes == count_char(cs@.take(i as int), '/'),
            slashes <= i,
    {
        assert(cs@.take(i + 1).drop_last() =~= cs@.take(i as int));
        if cs[i] == '/' {
            slashes = slashes + 1;
        }
    }
    assert(cs@.take(n as int) =~= cs@);
    slashes == 1 && !(n > 0 && cs[0] == '/') && !(n > 0 && cs[n - 1] == '/')
}

/// Where `c` is nowhere in `s`, it is counted no time, and the converse.
proof fn lemma_count_none(s: Seq<char>, c: char)
    ensures
        count_char(s, c) == 0 <==> forall|j: int| 0 <= j < s.len() ==> s[j] != c,
    decreases s.len(),
{
    if s.len() > 0 {
        lemma_count_none(s.drop_last(), c);
        if count_char(s, c) == 0 {
            assert forall|j: int| 0 <= j < s.len() implies s[j] != c by {
                if j < s.len() - 1 {
                    assert(s.drop_last()[j] == s[j]);
                }
            }
        }
        if forall|j: int| 0 <= j < s.len() ==> s[j] != c {
            assert forall|j: int| 0 <= j < s.drop_last().len() implies s.drop_last()[j] != c by {
                assert(s.drop_last()[j] == s[j]);
            }
        }
    }
}

/// `c` is counted once in `s` exactly when it stands at one position only.
proof fn lemma_count_one(s: Seq<char>, c: char)
    ensures
        count_char(s, c) == 1 <==> exists|i: int|
            0 <= i < s.len() && #[trigger] s[i] == c && forall|j: int|
                0 <= j < s.len() && j != i ==> s[j] != c,
    decreases s.len(),
{
    if s.len() > 0 {
        let t = s.drop_last();
        let l = s.len() - 1;
        lemma_count_one(t, c);
        lemma_count_none(t, c);
        if count_char(s, c) == 1 {
            if s[l] == c {
                assert forall|j: int| 0 <= j < s.len() && j != l implies s[j] != c by {
                    assert(t[j] == s[j]);
                }
                assert(s[l] == c);
            } else {
                let i = choose|i: int|
                    0 <= i < t.len() && #[trigger] t[i] == c && forall|j: int|
                        0 <= j < t.len() && j != i ==> t[j] != c;
                assert forall|j: int| 0 <= j < s.len() && j != i implies s[j] != c by {
                    if j < l {
                        assert(t[j] == s[j]);
                    }
                }
                assert(s[i] == t[i]);
            }
        }
        if exists|i: int|
            0 <= i < s.len() && #[trigger] s[i] == c && forall|j: int|
                0 <= j < s.len() && j != i ==> s[j] != c {
            let i = choose|i: int|
                0 <= i < s.len() && #[trigger] s[i] == c && forall|j: int|
                    0 <= j < s.len() && j != i ==> s[j] != c;
            if i == l {
                assert forall|j: int| 0 <= j < t.len() implies t[j] != c by {
                    assert(t[j] == s[j]);
                }
            } else {
                assert(s[l] != c);
                assert(t[i] == s[i]);
                assert forall|j: int| 0 <= j < t.len() && j != i implies t[j] != c by {
                    assert(t[j] == s[j]);
                }
            }
        }
    }
}

/// A theme names a GitHub repository exactly when it holds one `/`, neither
/// its first nor its last character, whatever its other characters: then
/// it is cloned from `https://github.com/` followed by it; anything else is
/// cloned from where it says.
pub proof fn lemma_clone_url_completes_owner_name(repo: Seq<char>)
    ensures
        (exists|i: int|
            0 < i < repo.len() - 1 && #[trigger] repo[i] == '/' && forall|j: int|
                0 <= j < repo.len() && j != i ==> repo[j] != '/') ==> clone_url_of(repo)
            == "https://github.com/"@ + repo,
        !(exists|i: int|
            0 < i < repo.len() - 1 && #[trigger] repo[i] == '/' && forall|j: int|
                0 <= j < repo.len() && j != i ==> repo[j] != '/') ==> clone_url_of(repo) == repo,
{
    lemma_count_one(repo, '/');
    if is_github_like(repo) {
        let i = choose|i: int|
            0 <= i < repo.len() && #[trigger] repo[i] == '/' && forall|j: int|
                0 <= j < repo.len() && j != i ==> repo[j] != '/';
        assert(0 < i < repo.len() - 1);
    }
}

/// The URL to clone a theme from: a GitHub `owner/name` is completed to its
/// GitHub URL, anything else is taken as it stands.
pub open spec fn clone_url_of(repo: Seq<char>) -> Seq<char> {
    if is_github_like(repo) {
        "https://github.com/"@ + repo
    } else {
        repo
    }
}

/// The URL to clone the theme `repo` from.
pub fn clone_url(repo: &str) -> (url: String)
    ensures
        url@ == clone_url_of(repo@),
{
    let mut url = String::new();
    if github_like(repo) {
        url.append("https://github.com/");
    }
    url.append(repo);
    url
}

/// The directory that holds the theme.
pub open spec fn theme_dir() -> Seq<char> {
    "theme"@
}

/// The message shown when the theme could not be changed.
pub open spec fn failure_text(e: Error) -> Seq<char> {
    "Theme change failed: "@ + message_of(e) + "."@
}

/// Where a theme change stands.
#[derive(Debug, PartialEq, Eq)]
pub enum ThemeStage {
    Start,
    FindingRoot,
    Removing,
    Cloning,
    Reported(Result<(), Error>),
    Ended,
}

/// A change of theme in progress.
#[derive(Debug)]
pub struct ThemeRun {
    pub url: String,
    pub stage: ThemeStage,
}

impl ThemeRun {
    /// A change of the blog's theme to the repository `repo`.
    pub fn new(repo: &str) -> (run: ThemeRun)
        ensures
            run.url@ == clone_url_of(repo@),
            run.stage == ThemeStage::Start,
    {
        ThemeRun { url: clone_url(repo), stage: ThemeStage::Start }
    }
}

fn failure_log(e: &Error) -> (log: Log)
    ensures
        log.level == Level::Error,
        log.text@ == failure_text(*e),
{
    let mut text = String::from_str("Theme change failed: ");
    let m = e.message();
    text.append(m.as_str());
    text.append(".");
    Log { level: Level::Error, text }
}

/// Takes the theme change one step on, given how the last action went: it
/// moves to the root of the blog, deletes `theme/` (which may be missing),
/// clones the repository into it, and says whether the theme changed. The
/// first failure ends the change with its error. A change that has
/// finished is not taken further.
pub fn execute(run: &mut ThemeRun, outcome: Outcome) -> (next: Next)
    requires
        !(old(run).stage is Ended),
    ensures
        final(run).url == old(run).url,
        match (old(run).stage, outcome) {
            (ThemeStage::Start, _) => {
                &&& final(run).stage == ThemeStage::FindingRoot
                &&& next == Next::Perform(Action::FindRoot)
            },
            (ThemeStage::FindingRoot, Outcome::NotFound(e))
            | (ThemeStage::FindingRoot, Outcome::Failed(e))
            | (ThemeStage::Removing, Outcome::Failed(e))
            | (ThemeStage::Cloning, Outcome::NotFound(e))
            | (ThemeStage::Cloning, Outcome::Failed(e)) => {
                &&& final(run).stage == ThemeStage::Reported(Err(e))
                &&& next matches Next::Say(log)
                &&& log.level == Level::Error
                &&& log.text@ == failure_text(e)
            },
            (ThemeStage::FindingRoot, _) => {
                &&& final(run).stage == ThemeStage::Removing
                &&& next matches Next::Perform(Action::RemoveDirAll(d))
                &&& d@ == theme_dir()
            },
            (ThemeStage::Removing, _) => {
                &&& final(run).stage == ThemeStage::Cloning
                &&& next matches Next::Perform(Action::CloneRepo { url, into })
                &&& url@ == old(run).url@
                &&& into@ == theme_dir()
            },
            (ThemeStage::Cloning, _) => {
                &&& final(run).stage == ThemeStage::Reported(Ok(()))
                &&& next matches Next::Say(log)
                &&& log.level == Level::Info
                &&& log.text@ == "Theme changed!"@
            },
            (ThemeStage::Reported(r), _) => {
                &&& final(run).stage == ThemeStage::Ended
                &&& next == Next::Finish(r)
            },
            (ThemeStage::Ended, _) => false,
        },
{
    match (&run.stage, outcome) {
        (ThemeStage::Start, _) => {
            run.stage = ThemeStage::FindingRoot;
            Next::Perform(Action::FindRoot)
        },
        (ThemeStage::FindingRoot, Outcome::NotFound(e))
        | (ThemeStage::FindingRoot, Outcome::Failed(e))
        | (ThemeStage::Removing, Outcome::Failed(e))
        | (ThemeStage::Cloning, Outcome::NotFound(e))
        | (ThemeStage::Cloning, Outcome::Failed(e)) => {
            let log = failure_log(&e);
            run.stage = ThemeStage::Reported(Err(e));
            Next::Say(log)
        },
        (ThemeStage::FindingRoot, _) => {
            run.stage = ThemeStage::Removing;
            Next::Perform(Action::RemoveDirAll(String::from_str("theme")))
        },
        (ThemeStage::Removing, _) => {
            run.stage = ThemeStage::Cloning;
            Next::Perform(
                Action::CloneRepo { url: run.url.clone(), into: String::from_str("theme") },
            )
        },
        (ThemeStage::Cloning, _) => {
            run.stage = ThemeStage::Reported(Ok(()));
            Next::Say(Log { level: Level::Info, text: String::from_str("Theme changed!") })
        },
        (ThemeStage::Reported(_), _) => {
            let mut stage = ThemeStage::Ended;
            std::mem::swap(&mut stage, &mut run.stage);
            match stage {
                ThemeStage::Reported(r) => Next::Finish(r),
                _ => Next::Finish(Ok(())),
            }
        },
        (ThemeStage::Ended, _) => Next::Finish(Ok(())),
    }
}

} // verus!
