use vstd::prelude::*;
use crate::engine::{
    patched, plan_patch, plan_result, prepare_patterns, prepare_result, Patch, PatchError,
};
use crate::pattern::MatchToken;

verus! {

/// What the caller reports back after carrying out the last action.
#[derive(Debug)]
pub enum Event {
    /// The whole input file was read.
    Read(Vec<u8>),
    ReadFailed,
    /// No file stands at the backup's name.
    BackupFree,
    /// A file already stands at the backup's name.
    BackupTaken,
    /// The input file was renamed to the backup's name.
    Renamed,
    RenameFailed,
    /// The patched bytes were written at the input's name.
    Written,
    WriteFailed,
}

/// How a patch session ended.
#[derive(Clone, Debug, PartialEq, Eq)]
pub enum Outcome {
    /// The first match, at `offset`, was replaced; the original now lives at the backup's name.
    Patched { offset: usize },
    /// The search pattern matched nowhere; no file was touched.
    NoMatch,
    /// The patterns were refused; no file was touched.
    Rejected(PatchError),
    /// The input could not be read; no file was touched.
    ReadFailed,
    /// A backup from an earlier run is in the way; it is kept and no file was touched.
    BackupExists,
    /// The input could not be renamed to the backup's name; no file was touched.
    RenameFailed,
    /// The original is safe at the backup's name, but nothing stands at the input's name.
    WriteFailed,
    /// An event came that does not answer the last action.
    OutOfOrder,
}

/// What the caller is to do next.
#[derive(Debug)]
pub enum Action {
    ReadInput,
    /// Find out whether a file stands at the backup's name.
    ProbeBackup,
    RenameInputToBackup,
    /// Create a file at the input's name holding these bytes.
    WriteInput(Vec<u8>),
    Finish(Outcome),
}

/// Where a patch session stands.
#[derive(Debug)]
pub enum Session {
    AwaitingRead { search: Vec<MatchToken>, replace: Vec<MatchToken> },
    AwaitingProbe { offset: usize, bytes: Vec<u8> },
    AwaitingRename { offset: usize, bytes: Vec<u8> },
    AwaitingWrite { offset: usize },
    Finished,
}

/// The session's next state and action once a patch has been planned with result `pr`.
pub open spec fn after_plan(pr: Result<Option<Patch>, PatchError>) -> (Session, Action) {
    match pr {
        Ok(Some(p)) => (Session::AwaitingProbe { offset: p.offset, bytes: p.bytes }, Action::ProbeBackup),
        Ok(None) => (Session::Finished, Action::Finish(Outcome::NoMatch)),
        Err(e) => (Session::Finished, Action::Finish(Outcome::Rejected(e))),
    }
}

/// The session ends with `o`.
pub open spec fn finish(o: Outcome) -> (Session, Action) {
    (Session::Finished, Action::Finish(o))
}

/// One step of a patch session: from state `pre`, on event `ev`, to `r`.
pub open spec fn step_result(pre: Session, ev: Event, r: (Session, Action)) -> bool {
    match (pre, ev) {
        (Session::AwaitingRead { search, replace }, Event::Read(data)) => exists|
            pr: Result<Option<Patch>, PatchError>,
        |
            plan_result(data@, search@, replace@, pr) && r == after_plan(pr),
        (Session::AwaitingRead { .. }, Event::ReadFailed) => r == finish(Outcome::ReadFailed),
        (Session::AwaitingProbe { offset, bytes }, Event::BackupFree) => r == (
            Session::AwaitingRename { offset, bytes },
            Action::RenameInputToBackup,
        ),
        (Session::AwaitingProbe { .. }, Event::BackupTaken) => r == finish(Outcome::BackupExists),
        (Session::AwaitingRename { offset, bytes }, Event::Renamed) => r == (
            Session::AwaitingWrite { offset },
            Action::WriteInput(bytes),
        ),
        (Session::AwaitingRename { .. }, Event::RenameFailed) => r == finish(Outcome::RenameFailed),
        (Session::AwaitingWrite { offset }, Event::Written) => r == finish(
            Outcome::Patched { offset },
        ),
        (Session::AwaitingWrite { .. }, Event::WriteFailed) => r == finish(Outcome::WriteFailed),
        _ => r == finish(Outcome::OutOfOrder),
    }
}

impl Session {
    /// Opens a session for the two pattern strings: it asks for the input to be read, or ends
    /// at once, before any file is touched, where the patterns are refused.
    pub fn start(search_text: &str, replace_text: &str) -> (r: (Session, Action))
        ensures
            exists|p: Result<(Vec<MatchToken>, Vec<MatchToken>), PatchError>|
                prepare_result(search_text@, replace_text@, p) && r == match p {
                    Ok((search, replace)) => (
                        Session::AwaitingRead { search, replace },
                        Action::ReadInput,
                    ),
                    Err(e) => finish(Outcome::Rejected(e)),
                },
    {
        match prepare_patterns(search_text, replace_text) {
            Ok((search, replace)) => (Session::AwaitingRead { search, replace }, Action::ReadInput),
            Err(e) => (Session::Finished, Action::Finish(Outcome::Rejected(e))),
        }
    }

    /// Advances the session on the event that answers its last action.
    pub fn step(self, ev: Event) -> (r: (Session, Action))
        ensures
            step_result(self, ev, r),
    {
        match (self, ev) {
            (Session::AwaitingRead { search, replace }, Event::Read(data)) => {
                let pr = plan_patch(data.as_slice(), search.as_slice(), replace.as_slice());
                let ghost planned = pr;
                let r = match pr {
                    Ok(Some(p)) => (
                        Session::AwaitingProbe { offset: p.offset, bytes: p.bytes },
                        Action::ProbeBackup,
                    ),
                    Ok(None) => (Session::Finished, Action::Finish(Outcome::NoMatch)),
                    Err(e) => (Session::Finished, Action::Finish(Outcome::Rejected(e))),
                };
                assert(r == after_plan(planned));
                r
            },
            (Session::AwaitingRead { .. }, Event::ReadFailed) => (
                Session::Finished,
                Action::Finish(Outcome::ReadFailed),
            ),
            (Session::AwaitingProbe { offset, bytes }, Event::BackupFree) => (
                Session::AwaitingRename { offset, bytes },
                Action::RenameInputToBackup,
            ),
            (Session::AwaitingProbe { .. }, Event::BackupTaken) => (
                Session::Finished,
                Action::Finish(Outcome::BackupExists),
            ),
            (Session::AwaitingRename { offset, bytes }, Event::Renamed) => (
                Session::AwaitingWrite { offset },
                Action::WriteInput(bytes),
            ),
            (Session::AwaitingRename { .. }, Event::RenameFailed) => (
                Session::Finished,
                Action::Finish(Outcome::RenameFailed),
            ),
            (Session::AwaitingWrite { offset }, Event::Written) => (
                Session::Finished,
                Action::Finish(Outcome::Patched { offset }),
            ),
            (Session::AwaitingWrite { .. }, Event::WriteFailed) => (
                Session::Finished,
                Action::Finish(Outcome::WriteFailed),
            ),
            _ => (Session::Finished, Action::Finish(Outcome::OutOfOrder)),
        }
    }
}

/// The two files a session touches, as (content at the input's name, content at the
/// backup's name); `None` where no file stands.
pub type FilePair = (Option<Seq<u8>>, Option<Seq<u8>>);

/// What carrying out action `act` successfully does to the files.
pub open spec fn perform(files: FilePair, act: Action) -> FilePair {
    match act {
        Action::RenameInputToBackup => (None, files.0),
        Action::WriteInput(bytes) => (Some(bytes@), files.1),
        _ => files,
    }
}

/// Restoring by hand: the backup is renamed back to the input's name.
pub open spec fn restore(files: FilePair) -> FilePair {
    (files.1, None)
}

/// A session whose every action succeeds leaves the patched bytes at the input's name and the
/// bytes that were read at the backup's name, so restoring the backup gives back the original
/// file unchanged.
pub proof fn lemma_restore_undoes_patch(
    pre: Session,
    data: Vec<u8>,
    r1: (Session, Action),
    r2: (Session, Action),
    r3: (Session, Action),
    r4: (Session, Action),
)
    requires
        pre is AwaitingRead,
        step_result(pre, Event::Read(data), r1),
        r1.1 is ProbeBackup,
        step_result(r1.0, Event::BackupFree, r2),
        step_result(r2.0, Event::Renamed, r3),
        step_result(r3.0, Event::Written, r4),
    ensures
        r4.1 is Finish,
        r4.1->Finish_0 is Patched,
        ({
            let offset = r4.1->Finish_0->Patched_offset as int;
            let files = perform(perform((Some(data@), None), r2.1), r3.1);
            &&& files == (
                Some(patched(data@, offset, pre->AwaitingRead_replace@)),
                Some(data@),
            )
            &&& restore(files) == (Some(data@), None::<Seq<u8>>)
        }),
{
    let pr = choose|pr: Result<Option<Patch>, PatchError>|
        plan_result(data@, pre->AwaitingRead_search@, pre->AwaitingRead_replace@, pr) && r1
            == after_plan(pr);
    assert(pr is Ok && pr->Ok_0 is Some);
}

} // verus!
