//! Auto-save.
//!
//! At every interval the program writes the project to a `.autosave` file
//! beside the project. On startup, an autosave that is newer than the project
//! is offered for recovery.

use crate::clock::{counts_between, nanos_between};
use crate::paths::{
    file_name, file_name_is_name, file_name_of, is_name, parent, renamed_has_name,
    renamed_stays_in_place, set_file_name, with_file_name,
};
use crate::text::cat;
use std::time::Instant;
use vstd::prelude::*;

verus! {

#[derive(Clone, Copy, Debug)]
pub struct AutoSave {
    /// Nanoseconds between saves.
    pub interval_nanos: u128,
    /// When the last save was.
    pub last_save: Option<Instant>,
}

/// Five minutes.
pub const DEFAULT_INTERVAL_NANOS: u128 = 300_000_000_000;

/// Whether a save is due `elapsed` nanoseconds after the last one, or without
/// one so far.
pub open spec fn save_due(interval_nanos: u128, elapsed: Option<u128>) -> bool {
    match elapsed {
        None => true,
        Some(e) => e >= interval_nanos,
    }
}

impl AutoSave {
    pub fn new(interval_nanos: u128) -> (r: Self)
        ensures
            r.interval_nanos == interval_nanos,
            r.last_save is None,
    {
        AutoSave { interval_nanos, last_save: None }
    }

    /// Saves every five minutes.
    pub fn default_interval() -> (r: Self)
        ensures
            r.interval_nanos == DEFAULT_INTERVAL_NANOS,
            r.last_save is None,
    {
        AutoSave::new(DEFAULT_INTERVAL_NANOS)
    }

    /// Whether to save `elapsed` nanoseconds after the last save.
    pub fn is_due(&self, elapsed: Option<u128>) -> (r: bool)
        ensures
            r == save_due(self.interval_nanos, elapsed),
    {
        match elapsed {
            None => true,
            Some(e) => e >= self.interval_nanos,
        }
    }

    /// Whether to save now; counts as a save if so. The first call always says
    /// yes, and later ones go by the time since the last yes.
    pub fn should_save_now(&mut self) -> (r: bool)
        ensures
            exists|now: Instant| #[trigger]
                call_ensures(Instant::now, (), now) && match old(self).last_save {
                    None => r && final(self).last_save == Some(now),
                    Some(t) => exists|n: u128| #[trigger]
                        counts_between(now, t, n) && r == save_due(
                            old(self).interval_nanos,
                            Some(n),
                        ) && (r ==> final(self).last_save == Some(now)),
                },
            old(self).interval_nanos == 0 ==> r,
            final(self).interval_nanos == old(self).interval_nanos,
            !r ==> *final(self) == *old(self),
    {
        let clock = Instant::now;
        let now = clock();
        let elapsed = match self.last_save {
            None => None,
            Some(t) => Some(nanos_between(now, t)),
        };
        let due = self.is_due(elapsed);
        if due {
            self.last_save = Some(now);
        }
        assert(call_ensures(Instant::now, (), now));
        due
    }
}

/// Saves are at least an interval apart: after a save there is none until the
/// interval has passed, and from then on there is one. Without a save so far
/// there is one at once.
pub proof fn saves_keep_their_distance(interval_nanos: u128, n: u128)
    ensures
        save_due(interval_nanos, None),
        n < interval_nanos ==> !save_due(interval_nanos, Some(n)),
        n >= interval_nanos ==> save_due(interval_nanos, Some(n)),
{
}

/// The name of the autosave file for `project_path`.
pub open spec fn autosave_name(project_path: Seq<char>) -> Seq<char> {
    (match file_name(project_path) {
        Some(f) => f,
        None => "project.felx"@,
    }) + ".autosave"@
}

/// The autosave file for `project_path`: in the same directory, with the
/// suffix `.autosave`.
pub fn autosave_path(project_path: &str) -> (r: String)
    ensures
        r@ == with_file_name(project_path@, autosave_name(project_path@)),
{
    let name = match file_name_of(project_path) {
        Some(f) => f,
        None => "project.felx".to_owned(),
    };
    let name = cat(&name, ".autosave");
    set_file_name(project_path, &name)
}

/// The autosave file has its own name and, where the project has one, stands in
/// the project's directory: it never takes the place of the project file.
pub proof fn autosave_stands_beside(p: Seq<char>)
    ensures
        ({
            let a = with_file_name(p, autosave_name(p));
            &&& file_name(a) == Some(autosave_name(p))
            &&& a != p
            &&& file_name(p) is Some ==> parent(a) == parent(p)
        }),
{
    reveal_strlit(".autosave");
    reveal_strlit("project.felx");
    let n = autosave_name(p);
    let stem = match file_name(p) {
        Some(f) => f,
        None => "project.felx"@,
    };
    if file_name(p) is Some {
        file_name_is_name(p);
    }
    assert(is_name(n)) by {
        assert(n.len() == stem.len() + 9);
        assert forall|i: int| 0 <= i < n.len() implies n[i] != '/' by {
            if i >= stem.len() {
                assert(n[i] == ".autosave"@[i - stem.len()]);
            }
        }
    }
    renamed_has_name(p, n);
    if file_name(p) is Some {
        renamed_stays_in_place(p, n);
    }
}

/// What there is to recover at startup.
#[derive(Clone, Copy, Debug, PartialEq, Eq, Structural)]
pub enum RecoveryStatus {
    /// No autosave found; nothing to recover.
    Absent,
    /// The project file is newer than the autosave.
    Stale,
    /// The autosave is newer than the project file.
    Available,
}

/// What there is to recover, from whether the autosave exists and when both
/// files were last changed.
pub open spec fn recovery_status(
    autosave_exists: bool,
    project_time: Option<i128>,
    autosave_time: Option<i128>,
) -> RecoveryStatus {
    if !autosave_exists {
        RecoveryStatus::Absent
    } else {
        match (project_time, autosave_time) {
            (Some(p), Some(a)) => if a > p {
                RecoveryStatus::Available
            } else {
                RecoveryStatus::Stale
            },
            (None, Some(_)) => RecoveryStatus::Available,
            _ => RecoveryStatus::Stale,
        }
    }
}

/// What there is to recover. The times are those at which the files were last
/// changed, `None` where that is not known.
pub fn check_recovery(
    autosave_exists: bool,
    project_time: Option<i128>,
    autosave_time: Option<i128>,
) -> (r: RecoveryStatus)
    ensures
        r == recovery_status(autosave_exists, project_time, autosave_time),
{
    if !autosave_exists {
        return RecoveryStatus::Absent;
    }
    match (project_time, autosave_time) {
        (Some(p), Some(a)) => if a > p {
            RecoveryStatus::Available
        } else {
            RecoveryStatus::Stale
        },
        (None, Some(_)) => RecoveryStatus::Available,
        _ => RecoveryStatus::Stale,
    }
}

/// The message for an autosave to `target` that failed with `error`.
pub fn autosave_failed(target: &str, error: &str) -> (r: String)
    ensures
        r@ == (("autosave write "@ + target@) + ": "@) + error@,
{
    let s = cat("autosave write ", target);
    let s = cat(&s, ": ");
    cat(&s, error)
}

/// An autosave is offered if it is there and newer than the project, or the
/// project is not there. Without a time it is never offered.
pub proof fn newer_autosave_is_offered(p: i128, a: i128, project: Option<i128>)
    ensures
        recovery_status(true, Some(p), Some(a)) is Available <==> a > p,
        recovery_status(true, Some(p), Some(a)) is Stale <==> a <= p,
        recovery_status(true, None, Some(a)) is Available,
        recovery_status(true, project, None) is Stale,
        recovery_status(false, project, Some(a)) is Absent,
        recovery_status(false, project, None) is Absent,
{
}

/// The name of an autosave begins with the name of its project.
pub proof fn autosave_is_named_after_its_project(p: Seq<char>)
    requires
        file_name(p) is Some,
    ensures
        autosave_name(p).len() > file_name(p)->0.len(),
        autosave_name(p).take(file_name(p)->0.len() as int) == file_name(p)->0,
{
    reveal_strlit(".autosave");
    assert(autosave_name(p).take(file_name(p)->0.len() as int) =~= file_name(p)->0);
}

} // verus!
