//! Writing files whole or not at all, and the time.
use crate::text;
use std::time::{Duration, SystemTime};
use vstd::prelude::*;
use vstd::string::*;

verus! {

/// One action on the file system.
#[derive(Debug)]
pub enum FileAction {
    Write { path: String, contents: String },
    Rename { from: String, to: String },
}

/// `FileAction` with texts by their characters.
#[verifier::ext_equal]
pub enum FileActionView {
    Write { path: Seq<char>, contents: Seq<char> },
    Rename { from: Seq<char>, to: Seq<char> },
}

impl View for FileAction {
    type V = FileActionView;

    open spec fn view(&self) -> FileActionView {
        match *self {
            FileAction::Write { path, contents } => FileActionView::Write {
                path: path@,
                contents: contents@,
            },
            FileAction::Rename { from, to } => FileActionView::Rename { from: from@, to: to@ },
        }
    }
}

/// The file that is written before it takes its place.
pub open spec fn temporary(path: Seq<char>) -> Seq<char> {
    path + ".tmp"@
}

/// How a file is replaced: written beside its place, then renamed.
pub open spec fn replacement(path: Seq<char>, contents: Seq<char>) -> Seq<FileActionView> {
    seq![
        FileActionView::Write { path: temporary(path), contents },
        FileActionView::Rename { from: temporary(path), to: path },
    ]
}

pub open spec fn actions_view(v: Seq<FileAction>) -> Seq<FileActionView> {
    v.map_values(|a: FileAction| a@)
}

/// How to put `contents` in the file at `path` so that no reader ever sees a part of it.
pub fn write_atomic(path: &str, contents: &str) -> (r: Vec<FileAction>)
    ensures
        actions_view(r@) == replacement(path@, contents@),
        r@.len() == 2,
        r@[0] matches FileAction::Write { path: p, contents: c } && p@ == path@ + ".tmp"@ && c@
            == contents@,
        r@[1] matches FileAction::Rename { from, to } && from@ == path@ + ".tmp"@ && to@ == path@,
{
    let mut tmp = path.to_owned();
    tmp.push_str(".tmp");
    let from = tmp.clone();
    let mut out: Vec<FileAction> = Vec::new();
    out.push(FileAction::Write { path: tmp, contents: contents.to_owned() });
    out.push(FileAction::Rename { from, to: path.to_owned() });
    assert(actions_view(out@) =~= replacement(path@, contents@));
    assert(out@[0] is Write && out@[1] is Rename);
    out
}

/// The files after one action, by path. Renaming replaces the target at once.
pub open spec fn performed(
    files: Map<Seq<char>, Seq<char>>,
    action: FileActionView,
) -> Map<Seq<char>, Seq<char>> {
    match action {
        FileActionView::Write { path, contents } => files.insert(path, contents),
        FileActionView::Rename { from, to } => files.insert(to, files[from]).remove(from),
    }
}

/// The files after a crash inside an action: an unfinished write leaves anything in its own
/// file, an unfinished rename leaves everything as it was.
pub open spec fn crashed(
    files: Map<Seq<char>, Seq<char>>,
    action: FileActionView,
    left: Seq<char>,
) -> Map<Seq<char>, Seq<char>> {
    match action {
        FileActionView::Write { path, contents } => files.insert(path, left),
        FileActionView::Rename { from, to } => files,
    }
}

/// The files after the first `done` actions.
pub open spec fn performed_all(
    files: Map<Seq<char>, Seq<char>>,
    actions: Seq<FileActionView>,
    done: nat,
) -> Map<Seq<char>, Seq<char>>
    decreases done,
{
    if done == 0 {
        files
    } else {
        performed(performed_all(files, actions, (done - 1) as nat), actions[done - 1])
    }
}

/// A replacement is whole or not at all: however far it comes, with or without a crash in its
/// next action, the file holds what it held before or all of the new contents, no other file but
/// the temporary one changes, and once all is done the file holds the new contents.
pub proof fn replacement_is_whole_or_nothing(
    files: Map<Seq<char>, Seq<char>>,
    path: Seq<char>,
    contents: Seq<char>,
    done: nat,
    left: Seq<char>,
)
    requires
        done <= 2,
    ensures
        ({
            let actions = replacement(path, contents);
            let seen = performed_all(files, actions, done);
            let kept = |now: Map<Seq<char>, Seq<char>>|
                (now.contains_key(path) == files.contains_key(path) && now[path] == files[path]) || (
                now.contains_key(path) && now[path] == contents);
            let others = |now: Map<Seq<char>, Seq<char>>|
                forall|p: Seq<char>|
                    p != path && p != temporary(path) ==> #[trigger] now.contains_key(p)
                        == files.contains_key(p) && now[p] == files[p];
            &&& kept(seen)
            &&& others(seen)
            &&& done < 2 ==> kept(crashed(seen, actions[done as int], left)) && others(
                crashed(seen, actions[done as int], left),
            )
            &&& done == 2 ==> seen.contains_key(path) && seen[path] == contents
        }),
{
    reveal_strlit(".tmp");
    assert(temporary(path).len() == path.len() + 4);
    let actions = replacement(path, contents);
    let one = performed(files, actions[0]);
    let two = performed(one, actions[1]);
    assert(performed_all(files, actions, 0) == files);
    assert(performed_all(files, actions, 1) == one);
    assert(performed_all(files, actions, 2) == two);
}

/// `std::time::SystemTime`, a moment of the system clock.
#[verifier::external_type_specification]
#[verifier::external_body]
pub struct ExSystemTime(std::time::SystemTime);

/// `SystemTime::now`: the system clock. Nothing is promised of it.
pub assume_specification[ std::time::SystemTime::now ]() -> std::time::SystemTime
;

/// `SystemTime::duration_since` the Unix epoch; `None` for a clock that stands before it. What
/// the clock shows is not said.
#[verifier::external_body]
fn since_epoch(t: &SystemTime) -> Option<Duration> {
    t.duration_since(std::time::UNIX_EPOCH).ok()
}

/// `Duration::as_secs`: the whole seconds of a duration. The duration is opaque, so nothing is
/// said of how many they are.
#[verifier::external_body]
fn whole_seconds(d: &Duration) -> u64 {
    d.as_secs()
}

/// A moment as it is kept in a job: seconds since the epoch, in decimal.
pub fn epoch_string(seconds: u64) -> (r: String)
    ensures
        r@ == text::decimal(seconds as nat),
{
    text::decimal_text(seconds)
}

/// What a clock shows, as it is kept in a job: its seconds since the epoch, or zero for a clock
/// that stands before it.
pub fn epoch_string_of(seconds: Option<u64>) -> (r: String)
    ensures
        r@ == text::decimal(
            match seconds {
                Some(n) => n as nat,
                None => 0,
            },
        ),
{
    match seconds {
        Some(n) => epoch_string(n),
        None => epoch_string(0),
    }
}

/// Some moment, as it is kept in a job.
pub open spec fn is_moment(s: Seq<char>) -> bool {
    exists|n: u64| s == #[trigger] text::decimal(n as nat)
}

/// Now, as it is kept in a job; zero for a clock that stands before the epoch.
pub fn now_epoch_string() -> (r: String)
    ensures
        is_moment(r@),
{
    let seconds: Option<u64> = match since_epoch(&SystemTime::now()) {
        Some(d) => Some(whole_seconds(&d)),
        None => None,
    };
    epoch_string_of(seconds)
}

} // verus!
