//! Shared helpers: finding the blog's root, reading its configuration, and
//! the date that templates can show.
use vstd::prelude::*;
use vstd::string::StringExecFns;
use std::fmt::Write;
use crate::error::{Error, message_of};
use crate::script::{Action, Level, Log, Next, Outcome};
use crate::text::chars_of;
use crate::metadata::{Metadata, Timestamp, parse_toml, toml_document};

verus! {

broadcast use vstd::string::group_string_axioms;

/// What to do at a directory while looking for the blog's root.
#[derive(Debug, Clone, Copy, PartialEq, Eq)]
pub enum RootStep {
    /// The configuration is here: make this the current directory.
    EnterHere,
    /// Look in the parent directory.
    GoUp,
}

/// The decision of the search for the blog's root, which is the nearest
/// directory, from the current one up, that holds `Leven.toml`: at a
/// directory that holds it, stop there; else go up while there is a parent;
/// at the top, there is no configuration.
pub fn cd2root(config_here: bool, has_parent: bool) -> (r: Result<RootStep, Error>)
    ensures
        config_here ==> r == Ok::<RootStep, Error>(RootStep::EnterHere),
        !config_here && has_parent ==> r == Ok::<RootStep, Error>(RootStep::GoUp),
        !config_here && !has_parent ==> r == Err::<RootStep, Error>(Error::ConfigNotFound),
{
    if config_here {
        Ok(RootStep::EnterHere)
    } else if has_parent {
        Ok(RootStep::GoUp)
    } else {
        Err(Error::ConfigNotFound)
    }
}

/// Reads the configuration from the text of `Leven.toml`: its table, each
/// key with its value where that is a string; the error of `toml` where the
/// text is no TOML. A value that is not a table has no entries.
pub fn load_config(text: &str) -> (r: Result<Metadata, Error>)
    ensures
        match toml_document(text@) {
            Ok(Some(e)) => r matches Ok(m) && m@ == e,
            Ok(None) => r matches Ok(m) && m@ == Seq::<(Seq<char>, Option<Seq<char>>)>::empty(),
            Err(msg) => r matches Err(Error::Toml(m)) && m@ == msg,
        },
{
    match parse_toml(text) {
        Ok(Some(entries)) => Ok(Metadata::from_entries(entries)),
        Ok(None) => Ok(Metadata::default()),
        Err(m) => Err(Error::Toml(m)),
    }
}

/// What `chrono` writes of the instant (seconds, nanoseconds since the Unix
/// epoch) in UTC with the format `format`, or `None` where the instant is
/// out of its range or the format is invalid.
pub uninterp spec fn formatted_utc(seconds: i64, nanos: u32, format: Seq<char>) -> Option<Seq<char>>;

/// Writes the instant in UTC with `chrono`'s `DateTime::format`. The result
/// is named `formatted_utc(seconds, nanos, format)`; what chrono writes for
/// a given format is not stated.
#[verifier::external_body]
pub(crate) fn format_utc(seconds: i64, nanos: u32, format: &str) -> (r: Option<String>)
    ensures
        match r {
            Some(s) => formatted_utc(seconds, nanos, format@) == Some(s@),
            None => formatted_utc(seconds, nanos, format@) is None,
        },
{
    let date = chrono::DateTime::<chrono::Utc>::from_timestamp(seconds, nanos)?;
    let mut out = String::new();
    write!(out, "{}", date.format(format)).ok()?;
    Some(out)
}

/// The format of a date as ISO 8601.
pub open spec fn iso8601_format() -> Seq<char> {
    "%Y-%m-%dT%H:%M:%S%.f%:z"@
}

/// Why a template's use of the date failed.
#[derive(Debug, Clone, Copy, PartialEq, Eq)]
pub enum ContextError {
    /// Nothing is at the path.
    Undefined,
    /// The date cannot be iterated over.
    NotIterable,
    /// The date could not be written with the format.
    Format,
}

/// A path into the date: nothing (the date itself) or `iso8601`.
pub open spec fn names_date(parts: Seq<Seq<char>>) -> bool {
    parts.len() == 0 || (parts.len() == 1 && parts[0] == "iso8601"@)
}

/// The parts' views.
pub open spec fn parts_view(parts: Seq<String>) -> Seq<Seq<char>> {
    parts.map_values(|p: String| p@)
}

/// A date for templates: shown with `format`, or as ISO 8601 under the
/// path `iso8601`.
#[derive(Debug)]
pub struct InjectDate {
    pub format: String,
    pub date: Timestamp,
}

impl InjectDate {
    fn is_date_path(parts: &Vec<String>) -> (b: bool)
        ensures
            b == names_date(parts_view(parts@)),
    {
        if parts.len() == 0 {
            return true;
        }
        proof {
            reveal_strlit("iso8601");
        }
        let iso = String::from_str("iso8601");
        parts.len() == 1 && parts[0] == iso
    }

    /// Whether a template's condition on the path holds: it does for the
    /// date and its ISO form, and for nothing else.
    pub fn truthy(&self, parts: &Vec<String>) -> (b: bool)
        ensures
            b == names_date(parts_view(parts@)),
    {
        InjectDate::is_date_path(parts)
    }

    /// What a template shows at the path: the date with its format, the date
    /// as ISO 8601 under `iso8601`; nothing else is defined.
    pub fn inject(&self, parts: &Vec<String>) -> (r: Result<String, ContextError>)
        ensures
            parts.len() == 0 ==> match formatted_utc(self.date.seconds, self.date.nanos, self.format@) {
                Some(s) => r matches Ok(t) && t@ == s,
                None => r == Err::<String, ContextError>(ContextError::Format),
            },
            parts.len() > 0 && names_date(parts_view(parts@)) ==> match formatted_utc(
                self.date.seconds,
                self.date.nanos,
                iso8601_format(),
            ) {
                Some(s) => r matches Ok(t) && t@ == s,
                None => r == Err::<String, ContextError>(ContextError::Format),
            },
            !names_date(parts_view(parts@)) ==> r == Err::<String, ContextError>(
                ContextError::Undefined,
            ),
    {
        if !InjectDate::is_date_path(parts) {
            return Err(ContextError::Undefined);
        }
        let shown = if parts.len() == 0 {
            format_utc(self.date.seconds, self.date.nanos, self.format.as_str())
        } else {
            proof {
                reveal_strlit("%Y-%m-%dT%H:%M:%S%.f%:z");
            }
            format_utc(self.date.seconds, self.date.nanos, "%Y-%m-%dT%H:%M:%S%.f%:z")
        };
        match shown {
            Some(s) => Ok(s),
            None => Err(ContextError::Format),
        }
    }

    /// Why a template cannot iterate over the path: the date and its ISO
    /// form are not iterable, anything else is undefined.
    pub fn iterate(&self, parts: &Vec<String>) -> (e: ContextError)
        ensures
            e == if names_date(parts_view(parts@)) {
                ContextError::NotIterable
            } else {
                ContextError::Undefined
            },
    {
        if InjectDate::is_date_path(parts) {
            ContextError::NotIterable
        } else {
            ContextError::Undefined
        }
    }
}

/// `name` joined to the path `base`, with a `/` between them unless `base`
/// is empty or ends with one.
pub open spec fn joined(base: Seq<char>, name: Seq<char>) -> Seq<char> {
    if base.len() == 0 || base.last() == '/' {
        base + name
    } else {
        base + "/"@ + name
    }
}

/// The path `base` joined with `name`.
pub fn join_path(base: &str, name: &str) -> (r: String)
    ensures
        r@ == joined(base@, name@),
{
    let cs = chars_of(base);
    let mut r = String::from_str(base);
    if cs.len() > 0 && cs[cs.len() - 1] != '/' {
        r.append("/");
    }
    r.append(name);
    r
}

/// A directory being copied: its path, the path of its copy, and the names
/// of the entries still to copy.
#[derive(Debug)]
pub struct DirCopy {
    pub from: String,
    pub to: String,
    pub left: Vec<String>,
}

/// Where a copy stands.
#[derive(Debug, PartialEq, Eq)]
pub enum CopyStage {
    Start,
    /// Asking whether the entry being copied is a file.
    Inspecting,
    CopyingFile,
    CreatingDir,
    Listing,
    /// The failure of an entry inside a directory has been reported.
    Reported,
    Ended,
}

/// A copy of a file or a directory tree in progress: the entry being
/// copied, where it goes, and the directories it lies in, outermost first.
#[derive(Debug)]
pub struct CopyRun {
    pub from: String,
    pub to: String,
    pub dirs: Vec<DirCopy>,
    pub stage: CopyStage,
}

impl CopyRun {
    /// The copy of `from`, a file or a directory, to `to`.
    pub fn new(from: &str, to: &str) -> (run: CopyRun)
        ensures
            run.from@ == from@,
            run.to@ == to@,
            run.dirs@.len() == 0,
            run.stage == CopyStage::Start,
    {
        CopyRun {
            from: String::from_str(from),
            to: String::from_str(to),
            dirs: Vec::new(),
            stage: CopyStage::Start,
        }
    }
}

/// The directories left once those with no entry left to copy are done:
/// the innermost are dropped while they have none.
pub open spec fn settled(dirs: Seq<DirCopy>) -> Seq<DirCopy>
    decreases dirs.len(),
{
    if dirs.len() == 0 {
        dirs
    } else if dirs.last().left.len() == 0 {
        settled(dirs.drop_last())
    } else {
        dirs
    }
}

/// The copy moves on from the directories `dirs`: once none has an entry
/// left, it ends well; else it takes the first entry left in the innermost
/// one and asks whether it is a file.
pub open spec fn advanced(dirs: Seq<DirCopy>, run: CopyRun, next: Next) -> bool {
    let s = settled(dirs);
    if s.len() == 0 {
        &&& run.stage == CopyStage::Ended
        &&& next == Next::Finish(Ok(()))
    } else {
        let top = s.last();
        let name = top.left@[0]@;
        &&& run.stage == CopyStage::Inspecting
        &&& run.dirs@.len() == s.len()
        &&& forall|i: int| 0 <= i < s.len() - 1 ==> #[trigger] run.dirs@[i] == s[i]
        &&& run.dirs@.last().from == top.from
        &&& run.dirs@.last().to == top.to
        &&& run.dirs@.last().left@ == top.left@.drop_first()
        &&& run.from@ == joined(top.from@, name)
        &&& run.to@ == joined(top.to@, name)
        &&& next matches Next::Perform(Action::CheckFile(p))
        &&& p@ == run.from@
    }
}

/// The message shown when an entry inside a directory could not be copied.
pub open spec fn copy_failure_text(from: Seq<char>, e: Error) -> Seq<char> {
    "failed to copy `"@ + from + "` ("@ + message_of(e) + ")"@
}

/// The copy of the entry `run.from` failed with `e`: the copy as a whole
/// fails where that entry is the one asked for; inside a directory, the
/// failure is reported and the copy goes on.
pub open spec fn failed(old_run: CopyRun, e: Error, run: CopyRun, next: Next) -> bool {
    if old_run.dirs.len() == 0 {
        &&& run.stage == CopyStage::Ended
        &&& next == Next::Finish(Err(e))
    } else {
        &&& run.stage == CopyStage::Reported
        &&& run.dirs == old_run.dirs
        &&& next matches Next::Say(log)
        &&& log.level == Level::Error
        &&& log.text@ == copy_failure_text(old_run.from@, e)
    }
}

fn advance(run: &mut CopyRun) -> (next: Next)
    ensures
        advanced(old(run).dirs@, *final(run), next),
{
    loop
        invariant
            settled(run.dirs@) == settled(old(run).dirs@),
        ensures
            settled(run.dirs@) == settled(old(run).dirs@),
            run.dirs.len() == 0 || run.dirs@.last().left.len() > 0,
        decreases run.dirs.len(),
    {
        let n = run.dirs.len();
        if n == 0 {
            break;
        }
        if run.dirs[n - 1].left.len() == 0 {
            run.dirs.pop();
        } else {
            break;
        }
    }
    assert(settled(run.dirs@) == run.dirs@);
    if run.dirs.len() == 0 {
        run.stage = CopyStage::Ended;
        return Next::Finish(Ok(()));
    }
    let ghost before = run.dirs@;
    let mut top = run.dirs.pop().unwrap();
    let name = top.left.remove(0);
    let from = join_path(top.from.as_str(), name.as_str());
    let to = join_path(top.to.as_str(), name.as_str());
    run.dirs.push(top);
    assert forall|i: int| 0 <= i < before.len() - 1 implies #[trigger] run.dirs@[i] == before[i] by {}
    let check = from.clone();
    run.from = from;
    run.to = to;
    run.stage = CopyStage::Inspecting;
    Next::Perform(Action::CheckFile(check))
}

fn fail(run: &mut CopyRun, e: Error) -> (next: Next)
    ensures
        failed(*old(run), e, *final(run), next),
        final(run).from == old(run).from,
{
    if run.dirs.len() == 0 {
        run.stage = CopyStage::Ended;
        Next::Finish(Err(e))
    } else {
        let mut text = String::from_str("failed to copy `");
        text.append(run.from.as_str());
        text.append("` (");
        let m = e.message();
        text.append(m.as_str());
        text.append(")");
        run.stage = CopyStage::Reported;
        Next::Say(Log { level: Level::Error, text })
    }
}

/// Takes the copy of a file or a directory tree one step on, given how the
/// last action went. A file is copied; for a directory, its copy is
/// created, its entries are listed, and each is copied in turn, in the order
/// listed, into the new directory. Where the entry asked for fails, so does
/// the copy; where an entry inside a directory fails, the failure is
/// reported and the copy goes on with the next. A copy that has finished is
/// not taken further.
pub fn cpr(run: &mut CopyRun, outcome: Outcome) -> (next: Next)
    requires
        !(old(run).stage is Ended),
    ensures
        match (old(run).stage, outcome) {
            (CopyStage::Start, _) => {
                &&& final(run).stage == CopyStage::Inspecting
                &&& final(run).from == old(run).from
                &&& final(run).to == old(run).to
                &&& final(run).dirs == old(run).dirs
                &&& next matches Next::Perform(Action::CheckFile(p))
                &&& p@ == old(run).from@
            },
            (CopyStage::Inspecting, Outcome::Exists) => {
                &&& final(run).stage == CopyStage::CopyingFile
                &&& final(run).from == old(run).from
                &&& final(run).to == old(run).to
                &&& final(run).dirs == old(run).dirs
                &&& next matches Next::Perform(Action::CopyFile { from, to })
                &&& from@ == old(run).from@
                &&& to@ == old(run).to@
            },
            (CopyStage::Inspecting, _) => {
                &&& final(run).stage == CopyStage::CreatingDir
                &&& final(run).from == old(run).from
                &&& final(run).to == old(run).to
                &&& final(run).dirs == old(run).dirs
                &&& next matches Next::Perform(Action::CreateDir(d))
                &&& d@ == old(run).to@
            },
            (CopyStage::CopyingFile, Outcome::NotFound(e))
            | (CopyStage::CopyingFile, Outcome::Failed(e))
            | (CopyStage::CreatingDir, Outcome::NotFound(e))
            | (CopyStage::CreatingDir, Outcome::Failed(e))
            | (CopyStage::Listing, Outcome::NotFound(e))
            | (CopyStage::Listing, Outcome::Failed(e)) => failed(*old(run), e, *final(run), next),
            (CopyStage::CopyingFile, _) | (CopyStage::Reported, _) => advanced(
                old(run).dirs@,
                *final(run),
                next,
            ),
            (CopyStage::CreatingDir, _) => {
                &&& final(run).stage == CopyStage::Listing
                &&& final(run).from == old(run).from
                &&& final(run).to == old(run).to
                &&& final(run).dirs == old(run).dirs
                &&& next matches Next::Perform(Action::ListDir(d))
                &&& d@ == old(run).from@
            },
            (CopyStage::Listing, Outcome::Listed(names)) => advanced(
                old(run).dirs@.push(DirCopy { from: old(run).from, to: old(run).to, left: names }),
                *final(run),
                next,
            ),
            (CopyStage::Listing, _) => advanced(old(run).dirs@, *final(run), next),
            (CopyStage::Ended, _) => false,
        },
{
    match (&run.stage, outcome) {
        (CopyStage::Start, _) => {
            run.stage = CopyStage::Inspecting;
            Next::Perform(Action::CheckFile(run.from.clone()))
        },
        (CopyStage::Inspecting, Outcome::Exists) => {
            run.stage = CopyStage::CopyingFile;
            Next::Perform(Action::CopyFile { from: run.from.clone(), to: run.to.clone() })
        },
        (CopyStage::Inspecting, _) => {
            run.stage = CopyStage::CreatingDir;
            Next::Perform(Action::CreateDir(run.to.clone()))
        },
        (CopyStage::CopyingFile, Outcome::NotFound(e))
        | (CopyStage::CopyingFile, Outcome::Failed(e))
        | (CopyStage::CreatingDir, Outcome::NotFound(e))
        | (CopyStage::CreatingDir, Outcome::Failed(e))
        | (CopyStage::Listing, Outcome::NotFound(e))
        | (CopyStage::Listing, Outcome::Failed(e)) => fail(run, e),
        (CopyStage::CreatingDir, _) => {
            run.stage = CopyStage::Listing;
            Next::Perform(Action::ListDir(run.from.clone()))
        },
        (CopyStage::Listing, Outcome::Listed(names)) => {
            let dir = DirCopy { from: run.from.clone(), to: run.to.clone(), left: names };
            run.dirs.push(dir);
            advance(run)
        },
        (CopyStage::CopyingFile, _) | (CopyStage::Reported, _) | (CopyStage::Listing, _) => advance(run),
        (CopyStage::Ended, _) => Next::Finish(Ok(())),
    }
}

} // verus!
