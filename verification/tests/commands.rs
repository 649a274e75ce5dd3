use leven::error::Error;
use leven::init::{execute as init_step, InitRun, InitStage};
use leven::metadata::Timestamp;
use leven::post::{post, post_date, post_file_name, PostRun, PostStage};
use leven::script::{Action, Level, Log, Next, Outcome};
use leven::theme::{clone_url, execute as theme_step, github_like, ThemeRun, ThemeStage};
use leven::util::{cd2root, cpr, join_path, CopyRun, CopyStage, RootStep};

fn say(level: Level, text: &str) -> Next {
    Next::Say(Log { level, text: text.to_string() })
}

#[test]
fn error_messages() {
    assert_eq!(Error::ConfigNotFound.message(), "no config found");
    assert_eq!(Error::TemplateNotFound("post".to_string()).message(), "template `post` not found");
    assert_eq!(Error::Io("denied".to_string()).message(), "denied");
    assert_eq!(Error::Other("x".to_string()).message(), "x");
}

#[test]
fn github_like_repositories() {
    assert!(github_like("user/theme"));
    assert!(!github_like("/theme"));
    assert!(!github_like("user/"));
    assert!(!github_like("theme"));
    assert!(!github_like("a/b/c"));
    assert!(!github_like("https://example.com/a/b"));
    assert_eq!(clone_url("user/theme"), "https://github.com/user/theme");
    assert_eq!(clone_url("https://example.com/a/b.git"), "https://example.com/a/b.git");
    assert_eq!(clone_url("git@host:a/b.git"), "https://github.com/git@host:a/b.git");
}

#[test]
fn theme_change_runs_in_order() {
    let mut run = ThemeRun::new("user/theme");
    assert_eq!(theme_step(&mut run, Outcome::Done), Next::Perform(Action::FindRoot));
    assert_eq!(theme_step(&mut run, Outcome::Done), Next::Perform(Action::RemoveDirAll("theme".to_string())));
    let missing = Outcome::NotFound(Error::Io("gone".to_string()));
    assert_eq!(
        theme_step(&mut run, missing),
        Next::Perform(Action::CloneRepo { url: "https://github.com/user/theme".to_string(), into: "theme".to_string() })
    );
    assert_eq!(theme_step(&mut run, Outcome::Done), say(Level::Info, "Theme changed!"));
    assert_eq!(theme_step(&mut run, Outcome::Done), Next::Finish(Ok(())));
    assert_eq!(run.stage, ThemeStage::Ended);
}

#[test]
fn theme_change_stops_at_first_failure() {
    let mut run = ThemeRun::new("x");
    theme_step(&mut run, Outcome::Done);
    assert_eq!(
        theme_step(&mut run, Outcome::Failed(Error::ConfigNotFound)),
        say(Level::Error, "Theme change failed: no config found.")
    );
    assert_eq!(theme_step(&mut run, Outcome::Done), Next::Finish(Err(Error::ConfigNotFound)));
    let mut run = ThemeRun::new("x");
    theme_step(&mut run, Outcome::Done);
    theme_step(&mut run, Outcome::Done);
    let e = Error::Io("denied".to_string());
    assert_eq!(theme_step(&mut run, Outcome::Failed(e.clone())), say(Level::Error, "Theme change failed: denied."));
    assert_eq!(theme_step(&mut run, Outcome::Done), Next::Finish(Err(e)));
}

#[test]
fn new_blog_is_made_in_order() {
    let mut run = InitRun::new("blog");
    let expected = vec![
        Action::CreateDir("blog".to_string()),
        Action::EnterDir("blog".to_string()),
        Action::CreateDir("content".to_string()),
        Action::CreateDir("theme".to_string()),
        Action::CreateDir("theme/assets".to_string()),
        Action::CreateDir("theme/templates".to_string()),
        Action::WriteFile("Leven.toml".to_string()),
        Action::WriteFile("content/Hello, Stranger!.md".to_string()),
        Action::WriteFile("theme/templates/index.html".to_string()),
        Action::WriteFile("theme/templates/archive.html".to_string()),
        Action::WriteFile("theme/templates/post.html".to_string()),
    ];
    for a in expected {
        assert_eq!(init_step(&mut run, Outcome::Done), Next::Perform(a));
    }
    assert_eq!(init_step(&mut run, Outcome::Done), say(Level::Info, "blog ready :)"));
    assert_eq!(
        init_step(&mut run, Outcome::Done),
        say(Level::Info, "see `content/Hello, Stranger!.md` for an introduction")
    );
    assert_eq!(init_step(&mut run, Outcome::Done), Next::Finish(Ok(())));
    assert_eq!(run.stage, InitStage::Ended);
}

#[test]
fn new_blog_stops_at_first_failure() {
    let mut run = InitRun::new("blog");
    init_step(&mut run, Outcome::Done);
    let e = Error::Io("File exists (os error 17)".to_string());
    assert_eq!(
        init_step(&mut run, Outcome::Failed(e.clone())),
        say(Level::Error, "initialization failed (File exists (os error 17))")
    );
    assert_eq!(init_step(&mut run, Outcome::Done), Next::Finish(Err(e)));
}

#[test]
fn post_file_names() {
    assert_eq!(post_file_name("2017-05-03", "Hello"), "2017-05-03 Hello.md");
}

#[test]
fn post_is_named_after_the_day_in_utc() {
    let now = Timestamp { seconds: 1493855999, nanos: 999_999_999 };
    assert_eq!(post_date(now), Some("2017-05-03".to_string()));
    let run = PostRun::at("posts", now, "Hello", false).unwrap();
    assert_eq!(run.file, "posts/2017-05-03 Hello.md");
    assert_eq!(run.stage, PostStage::Start);
    assert!(!run.edit);
}

#[test]
fn unplaceable_instant_gives_no_post() {
    let now = Timestamp { seconds: i64::MAX, nanos: 0 };
    assert_eq!(post_date(now), None);
    assert!(PostRun::at("posts", now, "Hello", false).is_none());
}

#[test]
fn new_post_runs_in_order() {
    let mut run = PostRun::new("/blog/posts", "2017-05-03", "Hello", true);
    let file = "/blog/posts/2017-05-03 Hello.md".to_string();
    assert_eq!(post(&mut run, Outcome::Done), Next::Perform(Action::EnsureDir("/blog/posts".to_string())));
    assert_eq!(post(&mut run, Outcome::Done), Next::Perform(Action::CheckAbsent(file.clone())));
    assert_eq!(post(&mut run, Outcome::Done), Next::Perform(Action::CreateNewFile(file.clone())));
    assert_eq!(post(&mut run, Outcome::Done), say(Level::Info, "Created post at `/blog/posts/2017-05-03 Hello.md`."));
    assert_eq!(post(&mut run, Outcome::Done), Next::Perform(Action::OpenEditor(file)));
    assert_eq!(
        post(&mut run, Outcome::NotFound(Error::Other("no EDITOR".to_string()))),
        say(Level::Warn, "Could not find EDITOR environment variable.")
    );
    assert_eq!(post(&mut run, Outcome::Done), Next::Finish(Ok(())));
    assert_eq!(run.stage, PostStage::Ended);
}

#[test]
fn existing_post_is_refused() {
    let mut run = PostRun::new("posts", "2017-05-03", "Hello", false);
    post(&mut run, Outcome::Done);
    post(&mut run, Outcome::Done);
    assert_eq!(
        post(&mut run, Outcome::Exists),
        Next::Finish(Err(Error::Other("You already made that post today.".to_string())))
    );
}

#[test]
fn post_without_editor_ends_after_creation() {
    let mut run = PostRun::new("posts", "2017-05-03", "Hello", false);
    for _ in 0..3 {
        post(&mut run, Outcome::Done);
    }
    assert!(matches!(post(&mut run, Outcome::Done), Next::Say(_)));
    assert_eq!(post(&mut run, Outcome::Done), Next::Finish(Ok(())));
}

#[test]
fn broken_editor_is_a_warning() {
    let mut run = PostRun::new("posts", "2017-05-03", "Hello", true);
    for _ in 0..5 {
        post(&mut run, Outcome::Done);
    }
    assert_eq!(
        post(&mut run, Outcome::Failed(Error::Io("not found".to_string()))),
        say(Level::Warn, "The EDITOR could not be started: not found.")
    );
}

#[test]
fn root_search_decisions() {
    assert_eq!(cd2root(true, true), Ok(RootStep::EnterHere));
    assert_eq!(cd2root(true, false), Ok(RootStep::EnterHere));
    assert_eq!(cd2root(false, true), Ok(RootStep::GoUp));
    assert_eq!(cd2root(false, false), Err(Error::ConfigNotFound));
}

fn perform(action: Action) -> Next {
    Next::Perform(action)
}

#[test]
fn paths_are_joined_with_one_slash() {
    assert_eq!(join_path("out", "a.css"), "out/a.css");
    assert_eq!(join_path("out/", "a.css"), "out/a.css");
    assert_eq!(join_path("", "a.css"), "a.css");
}

#[test]
fn file_is_copied() {
    let mut run = CopyRun::new("theme/logo.png", "out/logo.png");
    assert_eq!(cpr(&mut run, Outcome::Done), perform(Action::CheckFile("theme/logo.png".to_string())));
    assert_eq!(
        cpr(&mut run, Outcome::Exists),
        perform(Action::CopyFile { from: "theme/logo.png".to_string(), to: "out/logo.png".to_string() })
    );
    assert_eq!(cpr(&mut run, Outcome::Done), Next::Finish(Ok(())));
    assert_eq!(run.stage, CopyStage::Ended);
}

#[test]
fn failed_top_copy_is_an_error() {
    let mut run = CopyRun::new("theme/assets", "out/assets");
    cpr(&mut run, Outcome::Done);
    assert_eq!(cpr(&mut run, Outcome::Done), perform(Action::CreateDir("out/assets".to_string())));
    let e = Error::Io("File exists (os error 17)".to_string());
    assert_eq!(cpr(&mut run, Outcome::Failed(e.clone())), Next::Finish(Err(e)));
}

#[test]
fn tree_is_copied_entry_by_entry() {
    let mut run = CopyRun::new("theme/assets", "out/assets");
    cpr(&mut run, Outcome::Done);
    cpr(&mut run, Outcome::Done);
    assert_eq!(cpr(&mut run, Outcome::Done), perform(Action::ListDir("theme/assets".to_string())));
    let names = vec!["a.css".to_string(), "img".to_string(), "b.js".to_string()];
    assert_eq!(
        cpr(&mut run, Outcome::Listed(names)),
        perform(Action::CheckFile("theme/assets/a.css".to_string()))
    );
    cpr(&mut run, Outcome::Exists);
    let e = Error::Io("Permission denied (os error 13)".to_string());
    assert_eq!(
        cpr(&mut run, Outcome::Failed(e)),
        say(Level::Error, "failed to copy `theme/assets/a.css` (Permission denied (os error 13))")
    );
    assert_eq!(cpr(&mut run, Outcome::Done), perform(Action::CheckFile("theme/assets/img".to_string())));
    assert_eq!(cpr(&mut run, Outcome::Done), perform(Action::CreateDir("out/assets/img".to_string())));
    assert_eq!(cpr(&mut run, Outcome::Done), perform(Action::ListDir("theme/assets/img".to_string())));
    assert_eq!(
        cpr(&mut run, Outcome::Listed(vec!["x.png".to_string()])),
        perform(Action::CheckFile("theme/assets/img/x.png".to_string()))
    );
    assert_eq!(
        cpr(&mut run, Outcome::Exists),
        perform(Action::CopyFile {
            from: "theme/assets/img/x.png".to_string(),
            to: "out/assets/img/x.png".to_string()
        })
    );
    assert_eq!(cpr(&mut run, Outcome::Done), perform(Action::CheckFile("theme/assets/b.js".to_string())));
    cpr(&mut run, Outcome::Exists);
    assert_eq!(cpr(&mut run, Outcome::Done), Next::Finish(Ok(())));
}

#[test]
fn empty_directory_is_created() {
    let mut run = CopyRun::new("a", "b");
    cpr(&mut run, Outcome::Done);
    cpr(&mut run, Outcome::Done);
    cpr(&mut run, Outcome::Done);
    assert_eq!(cpr(&mut run, Outcome::Listed(Vec::new())), Next::Finish(Ok(())));
}
