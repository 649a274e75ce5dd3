//! Starting a new post: an empty file named after today's date and the
//! title, opened in the user's editor if asked.
use vstd::prelude::*;
use vstd::string::StringExecFns;
use crate::error::{Error, message_of};
use crate::init::failure;
use crate::metadata::Timestamp;
use crate::script::{Action, Level, Log, Next, Outcome};
use crate::util::{format_utc, formatted_utc};
use crate::build::post::{date_format, naive_date_of, stem_fields};
use crate::text::{encode_scalar_of, lemma_encode_concat, trimmed};
use vstd::utf8::{encode_utf8, encode_utf8_decode_utf8};

verus! {

broadcast use vstd::string::group_string_axioms;

/// The file name of a post written on `date` (`YYYY-MM-DD`) with `title`.
pub open spec fn post_file_name_of(date: Seq<char>, title: Seq<char>) -> Seq<char> {
    date + " "@ + title + ".md"@
}

/// The file name of a post written on `date` with `title`.
pub fn post_file_name(date: &str, title: &str) -> (name: String)
    ensures
        name@ == post_file_name_of(date@, title@),
{
    let mut name = String::from_str(date);
    name.append(" ");
    name.append(title);
    name.append(".md");
    name
}

/// The format of the date that starts a post's file name.
pub open spec fn day_format() -> Seq<char> {
    "%Y-%m-%d"@
}

/// The day of the instant `now` in UTC, written by `chrono` as `YYYY-MM-DD`;
/// `None` where `chrono` cannot place the instant.
pub fn post_date(now: Timestamp) -> (r: Option<String>)
    ensures
        match formatted_utc(now.seconds, now.nanos, day_format()) {
            Some(d) => r matches Some(s) && s@ == d,
            None => r is None,
        },
{
    format_utc(now.seconds, now.nanos, "%Y-%m-%d")
}

/// Characters below `0x80` take one byte each in UTF-8.
proof fn lemma_encode_ascii_len(s: Seq<char>)
    requires
        forall|i: int| 0 <= i < s.len() ==> (#[trigger] s[i] as u32) <= 0x7f,
    ensures
        encode_utf8(s).len() == s.len(),
    decreases s.len(),
{
    if s.len() > 0 {
        assert forall|i: int| 0 <= i < s.drop_first().len() implies (#[trigger] s.drop_first()[i]
            as u32) <= 0x7f by {
            assert(s.drop_first()[i] == s[i + 1]);
        }
        lemma_encode_ascii_len(s.drop_first());
        assert(encode_scalar_of(s[0]).len() == 1);
    }
}

/// A post's file is read back as the post it was made for. The stem of the
/// file that `post` makes for `title` on the day `day` (the file's name,
/// `post_file_name_of(day, title)`, without `.md`) names, where `day` is
/// written in ten characters below `0x80`, the post dated `day` with the
/// title trimmed, and its date is what `chrono` reads from `day`; it names
/// none where the title is only white space or `chrono` reads no date.
pub proof fn lemma_post_file_read_back(day: Seq<char>, title: Seq<char>)
    requires
        day.len() == 10,
        forall|i: int| 0 <= i < 10 ==> (#[trigger] day[i] as u32) <= 0x7f,
    ensures
        post_file_name_of(day, title) == day + " "@ + title + ".md"@,
        stem_fields(encode_utf8(day + " "@ + title)) == if trimmed(title).len() == 0 {
            None
        } else {
            match naive_date_of(day, date_format()) {
                Some(x) => Some((day, trimmed(title), x)),
                None => None,
            }
        },
{
    reveal_strlit(" ");
    let rest = " "@ + title;
    assert(day + " "@ + title =~= day + rest);
    lemma_encode_concat(day, rest);
    lemma_encode_ascii_len(day);
    let bytes = encode_utf8(day + rest);
    assert(rest.drop_first() =~= title);
    assert(encode_utf8(rest) == encode_scalar_of(' ') + encode_utf8(title));
    assert(bytes.subrange(0, 10) =~= encode_utf8(day));
    assert(bytes.subrange(10, bytes.len() as int) =~= encode_utf8(rest));
    encode_utf8_decode_utf8(day);
    encode_utf8_decode_utf8(rest);
    assert(trimmed(rest) == trimmed(title));
}

/// The error given when today's post with this title exists.
pub open spec fn exists_text() -> Seq<char> {
    "You already made that post today."@
}

/// Where the start of a post stands.
#[derive(Debug, PartialEq, Eq)]
pub enum PostStage {
    Start,
    EnsuringDir,
    Checking,
    Creating,
    Announced,
    Editing,
    Warned,
    Ended,
}

/// The start of a new post in progress.
#[derive(Debug)]
pub struct PostRun {
    /// The directory of the posts.
    pub dir: String,
    /// The path of the new post's file.
    pub file: String,
    /// Whether to open it in the editor.
    pub edit: bool,
    pub stage: PostStage,
}

impl PostRun {
    /// The start of a post titled `title` in the directory `dir`, on the day
    /// `date` (`YYYY-MM-DD`); `edit` asks for the editor.
    pub fn new(dir: &str, date: &str, title: &str, edit: bool) -> (run: PostRun)
        ensures
            run.dir@ == dir@,
            run.file@ == dir@ + "/"@ + post_file_name_of(date@, title@),
            run.edit == edit,
            run.stage == PostStage::Start,
    {
        let mut file = String::from_str(dir);
        file.append("/");
        let name = post_file_name(date, title);
        file.append(name.as_str());
        PostRun { dir: String::from_str(dir), file, edit, stage: PostStage::Start }
    }

    /// The start of a post titled `title` in the directory `dir` at the
    /// instant `now`, named after its day in UTC; `None` where that day
    /// cannot be written.
    pub fn at(dir: &str, now: Timestamp, title: &str, edit: bool) -> (r: Option<PostRun>)
        ensures
            match formatted_utc(now.seconds, now.nanos, day_format()) {
                Some(d) => r matches Some(run) && {
                    &&& run.dir@ == dir@
                    &&& run.file@ == dir@ + "/"@ + post_file_name_of(d, title@)
                    &&& run.edit == edit
                    &&& run.stage == PostStage::Start
                },
                None => r is None,
            },
    {
        match post_date(now) {
            Some(date) => Some(PostRun::new(dir, date.as_str(), title, edit)),
            None => None,
        }
    }
}

/// Takes the start of a post one step on, given how the last action went:
/// it makes sure the posts' directory exists, refuses a post that exists
/// already, creates the file and says where, and opens it in the editor if
/// asked (a missing or broken editor only gives a warning). A run that has
/// finished is not taken further.
pub fn post(run: &mut PostRun, outcome: Outcome) -> (next: Next)
    requires
        !(old(run).stage is Ended),
    ensures
        final(run).dir == old(run).dir,
        final(run).file == old(run).file,
        final(run).edit == old(run).edit,
        match old(run).stage {
            PostStage::Start => {
                &&& final(run).stage == PostStage::EnsuringDir
                &&& next matches Next::Perform(Action::EnsureDir(d))
                &&& d@ == old(run).dir@
            },
            PostStage::EnsuringDir => if failure(outcome) is Some {
                &&& final(run).stage == PostStage::Ended
                &&& next == Next::Finish(Err(failure(outcome)->0))
            } else {
                &&& final(run).stage == PostStage::Checking
                &&& next matches Next::Perform(Action::CheckAbsent(f))
                &&& f@ == old(run).file@
            },
            PostStage::Checking => if outcome is Exists {
                &&& final(run).stage == PostStage::Ended
                &&& next matches Next::Finish(Err(Error::Other(m)))
                &&& m@ == exists_text()
            } else if failure(outcome) is Some {
                &&& final(run).stage == PostStage::Ended
                &&& next == Next::Finish(Err(failure(outcome)->0))
            } else {
                &&& final(run).stage == PostStage::Creating
                &&& next matches Next::Perform(Action::CreateNewFile(f))
                &&& f@ == old(run).file@
            },
            PostStage::Creating => if failure(outcome) is Some {
                &&& final(run).stage == PostStage::Ended
                &&& next == Next::Finish(Err(failure(outcome)->0))
            } else {
                &&& final(run).stage == PostStage::Announced
                &&& next matches Next::Say(log)
                &&& log.level == Level::Info
                &&& log.text@ == "Created post at `"@ + old(run).file@ + "`."@
            },
            PostStage::Announced => if old(run).edit {
                &&& final(run).stage == PostStage::Editing
                &&& next matches Next::Perform(Action::OpenEditor(f))
                &&& f@ == old(run).file@
            } else {
                &&& final(run).stage == PostStage::Ended
                &&& next == Next::Finish(Ok(()))
            },
            PostStage::Editing => match outcome {
                Outcome::NotFound(_) => {
                    &&& final(run).stage == PostStage::Warned
                    &&& next matches Next::Say(log)
                    &&& log.level == Level::Warn
                    &&& log.text@ == "Could not find EDITOR environment variable."@
                },
                Outcome::Failed(e) => {
                    &&& final(run).stage == PostStage::Warned
                    &&& next matches Next::Say(log)
                    &&& log.level == Level::Warn
                    &&& log.text@ == "The EDITOR could not be started: "@ + message_of(e) + "."@
                },
                _ => {
                    &&& final(run).stage == PostStage::Ended
                    &&& next == Next::Finish(Ok(()))
                },
            },
            PostStage::Warned => {
                &&& final(run).stage == PostStage::Ended
                &&& next == Next::Finish(Ok(()))
            },
            PostStage::Ended => false,
        },
{
    match run.stage {
        PostStage::Start => {
            run.stage = PostStage::EnsuringDir;
            Next::Perform(Action::EnsureDir(run.dir.clone()))
        },
        PostStage::EnsuringDir => match outcome {
            Outcome::NotFound(e) | Outcome::Failed(e) => {
                run.stage = PostStage::Ended;
                Next::Finish(Err(e))
            },
            _ => {
                run.stage = PostStage::Checking;
                Next::Perform(Action::CheckAbsent(run.file.clone()))
            },
        },
        PostStage::Checking => match outcome {
            Outcome::Exists => {
                run.stage = PostStage::Ended;
                Next::Finish(Err(Error::Other(String::from_str("You already made that post today."))))
            },
            Outcome::NotFound(e) | Outcome::Failed(e) => {
                run.stage = PostStage::Ended;
                Next::Finish(Err(e))
            },
            _ => {
                run.stage = PostStage::Creating;
                Next::Perform(Action::CreateNewFile(run.file.clone()))
            },
        },
        PostStage::Creating => match outcome {
            Outcome::NotFound(e) | Outcome::Failed(e) => {
                run.stage = PostStage::Ended;
                Next::Finish(Err(e))
            },
            _ => {
                run.stage = PostStage::Announced;
                let mut text = String::from_str("Created post at `");
                text.append(run.file.as_str());
                text.append("`.");
                Next::Say(Log { level: Level::Info, text })
            },
        },
        PostStage::Announced => {
            if run.edit {
                run.stage = PostStage::Editing;
                Next::Perform(Action::OpenEditor(run.file.clone()))
            } else {
                run.stage = PostStage::Ended;
                Next::Finish(Ok(()))
            }
        },
        PostStage::Editing => match outcome {
            Outcome::NotFound(_) => {
                run.stage = PostStage::Warned;
                Next::Say(
                    Log {
                        level: Level::Warn,
                        text: String::from_str("Could not find EDITOR environment variable."),
                    },
                )
            },
            Outcome::Failed(e) => {
                run.stage = PostStage::Warned;
                let mut text = String::from_str("The EDITOR could not be started: ");
                let m = e.message();
                text.append(m.as_str());
                text.append(".");
                Next::Say(Log { level: Level::Warn, text })
            },
            _ => {
                run.stage = PostStage::Ended;
                Next::Finish(Ok(()))
            },
        },
        PostStage::Warned => {
            run.stage = PostStage::Ended;
            Next::Finish(Ok(()))
        },
        PostStage::Ended => Next::Finish(Ok(())),
    }
}

} // verus!
