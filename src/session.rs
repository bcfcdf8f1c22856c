//! An install session: the host that probes, shows and runs, together with a
//! record of everything the library asked of it.
use vstd::prelude::*;

use crate::command::{CommandView, InstallCommand};
use crate::install::SpawnOutcome;

verus! {

/// The host side of an install: probing for executables, reporting lines to
/// the user, and running a command.
pub trait Executor {
    /// Whether `executable` answers a version probe.
    fn is_available(&mut self, executable: &str) -> bool;

    /// Shows one line of progress to the user.
    fn show(&mut self, line: &str);

    /// Runs `command` with inherited standard streams and waits for it.
    fn spawn(&mut self, command: &InstallCommand) -> SpawnOutcome;
}

/// A host together with the record of the probes made, the lines shown and
/// the commands run through it, in order. The record is kept by the methods
/// below, the only way to reach the host while the session lasts.
pub struct Session<E: Executor> {
    executor: E,
    probes: Ghost<Seq<(Seq<char>, bool)>>,
    shown: Ghost<Seq<Seq<char>>>,
    spawns: Ghost<Seq<(CommandView, SpawnOutcome)>>,
}

impl<E: Executor> Session<E> {
    /// Each executable probed, with its answer.
    pub closed spec fn probes(&self) -> Seq<(Seq<char>, bool)> {
        self.probes@
    }

    /// Each line shown.
    pub closed spec fn shown(&self) -> Seq<Seq<char>> {
        self.shown@
    }

    /// Each command run, with how it ended.
    pub closed spec fn spawns(&self) -> Seq<(CommandView, SpawnOutcome)> {
        self.spawns@
    }

    /// A session on `executor`, with nothing done yet.
    pub fn new(executor: E) -> (r: Self)
        ensures
            r.probes() == Seq::<(Seq<char>, bool)>::empty(),
            r.shown() == Seq::<Seq<char>>::empty(),
            r.spawns() == Seq::<(CommandView, SpawnOutcome)>::empty(),
    {
        Session { executor, probes: Ghost(Seq::empty()), shown: Ghost(Seq::empty()), spawns: Ghost(Seq::empty()) }
    }

    /// The host, to be read.
    pub fn executor(&self) -> &E {
        &self.executor
    }

    /// Ends the session and hands the host back.
    pub fn into_executor(self) -> E {
        self.executor
    }

    /// Probes `executable`; the answer is recorded.
    pub fn probe(&mut self, executable: &str) -> (r: bool)
        ensures
            final(self).probes() == old(self).probes().push((executable@, r)),
            final(self).shown() == old(self).shown(),
            final(self).spawns() == old(self).spawns(),
    {
        let r = self.executor.is_available(executable);
        self.probes = Ghost(self.probes@.push((executable@, r)));
        r
    }

    /// Shows `line`; the line is recorded.
    pub fn show(&mut self, line: &str)
        ensures
            final(self).probes() == old(self).probes(),
            final(self).shown() == old(self).shown().push(line@),
            final(self).spawns() == old(self).spawns(),
    {
        self.executor.show(line);
        self.shown = Ghost(self.shown@.push(line@));
    }

    /// Runs `command`; the command and how it ended are recorded.
    pub fn spawn(&mut self, command: &InstallCommand) -> (r: SpawnOutcome)
        ensures
            final(self).probes() == old(self).probes(),
            final(self).shown() == old(self).shown(),
            final(self).spawns() == old(self).spawns().push((command@, r)),
    {
        let r = self.executor.spawn(command);
        self.spawns = Ghost(self.spawns@.push((command@, r)));
        r
    }
}

} // verus!
