//! The lock marker of a job: a file named after the job identifier in the
//! lock directory, present while a run that forbids overlap is under way.

use vstd::prelude::*;

use crate::text::{concat, in_dir, path_in};

verus! {

/// The name of the marker file of a job.
pub open spec fn marker_name(identifer: Seq<char>) -> Seq<char> {
    identifer + ".pid"@
}

/// The lock marker of one job for one run.
pub struct Pid {
    /// Whether runs of the job may overlap; then no marker is kept.
    pub multipled: bool,
    /// The path of the marker file.
    pub path: String,
    /// The process id written into the marker; `0` until it is written.
    pub pid: u32,
}

impl Pid {
    /// The marker of job `identifer` in the directory `pid_dir`.
    pub fn new(identifer: &str, multipled: bool, pid_dir: &str) -> (r: Pid)
        ensures
            r.multipled == multipled,
            r.path@ == in_dir(pid_dir@, marker_name(identifer@)),
            r.pid == 0,
    {
        let name = concat(identifer, ".pid");
        Pid { multipled, path: path_in(pid_dir, name.as_str()), pid: 0 }
    }

    /// Whether a run must be skipped: overlap is forbidden and the marker file
    /// was found on disk.
    pub fn is_exists(&self, marker_found: bool) -> (r: bool)
        ensures
            r == (!self.multipled && marker_found),
    {
        !self.multipled && marker_found
    }

    /// Records that the command runs as process `pid`; `true` when the marker
    /// file must now be written with that id.
    pub fn touch(&mut self, pid: u32) -> (write: bool)
        ensures
            final(self).pid == pid,
            final(self).multipled == old(self).multipled,
            final(self).path == old(self).path,
            write == !old(self).multipled,
    {
        self.pid = pid;
        !self.multipled
    }

    /// Whether the marker file is this run's to delete when the run ends:
    /// it wrote the marker, with a real process id.
    pub fn releases(&self) -> (r: bool)
        ensures
            r == (self.pid > 0 && !self.multipled),
    {
        self.pid > 0 && !self.multipled
    }
}

} // verus!
