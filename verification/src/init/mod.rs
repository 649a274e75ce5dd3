//! Creating a new blog: a directory with the configuration, a first post
//! and a theme's templates.
use vstd::prelude::*;
use vstd::string::StringExecFns;
use crate::error::{Error, message_of};
use crate::script::{Action, Level, Log, Next, Outcome};

verus! {

broadcast use vstd::string::group_string_axioms;

/// The directories of a new blog, inside its own.
pub open spec fn scaffold_dirs() -> Seq<Seq<char>> {
    seq!["content"@, "theme"@, "theme/assets"@, "theme/templates"@]
}

/// The files of a new blog, inside its directory.
pub open spec fn scaffold_files() -> Seq<Seq<char>> {
    seq![
        "Leven.toml"@,
        "content/Hello, Stranger!.md"@,
        "theme/templates/index.html"@,
        "theme/templates/archive.html"@,
        "theme/templates/post.html"@,
    ]
}

/// How many actions make a new blog.
pub open spec fn scaffold_len() -> nat {
    2 + scaffold_dirs().len() + scaffold_files().len()
}

/// `a` is action `k` of making the blog `name`: create its directory, move
/// into it, create the directories, then write the files.
pub open spec fn is_scaffold_action(name: Seq<char>, k: int, a: Action) -> bool {
    if k == 0 {
        a matches Action::CreateDir(p) && p@ == name
    } else if k == 1 {
        a matches Action::EnterDir(p) && p@ == name
    } else if k < 2 + scaffold_dirs().len() {
        a matches Action::CreateDir(p) && p@ == scaffold_dirs()[k - 2]
    } else {
        a matches Action::WriteFile(p) && p@ == scaffold_files()[k - 2 - scaffold_dirs().len()]
    }
}

/// The message shown when the blog could not be made.
pub open spec fn failure_text(e: Error) -> Seq<char> {
    "initialization failed ("@ + message_of(e) + ")"@
}

/// The error that an outcome reports, if it is a failure.
pub open spec fn failure(o: Outcome) -> Option<Error> {
    match o {
        Outcome::NotFound(e) => Some(e),
        Outcome::Failed(e) => Some(e),
        _ => None,
    }
}

/// Where the making of a blog stands.
#[derive(Debug, PartialEq, Eq)]
pub enum InitStage {
    /// This many actions have been asked for.
    Asked(usize),
    /// All went well; the second message is still to be shown.
    Ready,
    /// The result is known and has been reported.
    Reported(Result<(), Error>),
    /// The result has been given.
    Ended,
}

/// The making of a blog in progress.
#[derive(Debug)]
pub struct InitRun {
    pub name: String,
    pub stage: InitStage,
}

impl InitRun {
    /// The making of a blog in the new directory `name`.
    pub fn new(name: &str) -> (run: InitRun)
        ensures
            run.name@ == name@,
            run.stage == InitStage::Asked(0),
            run.wf(),
    {
        InitRun { name: String::from_str(name), stage: InitStage::Asked(0) }
    }

    /// No more actions have been asked for than there are.
    pub open spec fn wf(&self) -> bool {
        self.stage matches InitStage::Asked(k) ==> k <= scaffold_len()
    }
}

fn scaffold_action(name: &String, k: usize) -> (a: Action)
    requires
        k < scaffold_len(),
    ensures
        is_scaffold_action(name@, k as int, a),
{
    proof {
        reveal_strlit("content");
        reveal_strlit("theme");
        reveal_strlit("theme/assets");
        reveal_strlit("theme/templates");
        reveal_strlit("Leven.toml");
        reveal_strlit("content/Hello, Stranger!.md");
        reveal_strlit("theme/templates/index.html");
        reveal_strlit("theme/templates/archive.html");
        reveal_strlit("theme/templates/post.html");
    }
    if k == 0 {
        Action::CreateDir(name.clone())
    } else if k == 1 {
        Action::EnterDir(name.clone())
    } else if k == 2 {
        Action::CreateDir(String::from_str("content"))
    } else if k == 3 {
        Action::CreateDir(String::from_str("theme"))
    } else if k == 4 {
        Action::CreateDir(String::from_str("theme/assets"))
    } else if k == 5 {
        Action::CreateDir(String::from_str("theme/templates"))
    } else if k == 6 {
        Action::WriteFile(String::from_str("Leven.toml"))
    } else if k == 7 {
        Action::WriteFile(String::from_str("content/Hello, Stranger!.md"))
    } else if k == 8 {
        Action::WriteFile(String::from_str("theme/templates/index.html"))
    } else if k == 9 {
        Action::WriteFile(String::from_str("theme/templates/archive.html"))
    } else {
        Action::WriteFile(String::from_str("theme/templates/post.html"))
    }
}

/// Takes the making of a blog one step on, given how the last action went:
/// it asks for the actions of a new blog in order, stops at the first that
/// fails and says so, or says that the blog is ready; then it gives the
/// result. A run that has given its result is not taken further.
pub fn execute(run: &mut InitRun, outcome: Outcome) -> (next: Next)
    requires
        old(run).wf(),
        !(old(run).stage is Ended),
    ensures
        final(run).wf(),
        final(run).name == old(run).name,
        match old(run).stage {
            InitStage::Asked(k) => if k > 0 && failure(outcome) is Some {
                let e = failure(outcome)->0;
                &&& final(run).stage == InitStage::Reported(Err(e))
                &&& next matches Next::Say(log)
                &&& log.level == Level::Error
                &&& log.text@ == failure_text(e)
            } else if k < scaffold_len() {
                &&& final(run).stage == InitStage::Asked((k + 1) as usize)
                &&& next matches Next::Perform(a)
                &&& is_scaffold_action(old(run).name@, k as int, a)
            } else {
                &&& final(run).stage == InitStage::Ready
                &&& next matches Next::Say(log)
                &&& log.level == Level::Info
                &&& log.text@ == "blog ready :)"@
            },
            InitStage::Ready => {
                &&& final(run).stage == InitStage::Reported(Ok(()))
                &&& next matches Next::Say(log)
                &&& log.level == Level::Info
                &&& log.text@ == "see `content/Hello, Stranger!.md` for an introduction"@
            },
            InitStage::Reported(r) => {
                &&& final(run).stage == InitStage::Ended
                &&& next == Next::Finish(r)
            },
            InitStage::Ended => false,
        },
{
    match run.stage {
        InitStage::Asked(k) => {
            if k > 0 {
                match outcome {
                    Outcome::NotFound(e) | Outcome::Failed(e) => {
                        let mut text = String::from_str("initialization failed (");
                        let m = e.message();
                        text.append(m.as_str());
                        text.append(")");
                        run.stage = InitStage::Reported(Err(e));
                        return Next::Say(Log { level: Level::Error, text });
                    },
                    _ => {},
                }
            }
            if k < 11 {
                let a = scaffold_action(&run.name, k);
                run.stage = InitStage::Asked(k + 1);
                Next::Perform(a)
            } else {
                run.stage = InitStage::Ready;
                Next::Say(Log { level: Level::Info, text: String::from_str("blog ready :)") })
            }
        },
        InitStage::Ready => {
            run.stage = InitStage::Reported(Ok(()));
            Next::Say(
                Log {
                    level: Level::Info,
                    text: String::from_str("see `content/Hello, Stranger!.md` for an introduction"),
                },
            )
        },
        InitStage::Reported(_) => {
            let mut stage = InitStage::Ended;
            std::mem::swap(&mut stage, &mut run.stage);
            match stage {
                InitStage::Reported(r) => Next::Finish(r),
                _ => Next::Finish(Ok(())),
            }
        },
        InitStage::Ended => Next::Finish(Ok(())),
    }
}

} // verus!
