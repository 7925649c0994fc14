use vstd::prelude::*;
use crate::text::{
    chars_of, parse_unsigned, parse_unsigned_str, split_chars, split_on, string_from, trim,
    trim_chars, views,
};

verus! {

/// The process IDs listed one per line in `pgrep` output: each line is
/// trimmed and kept when it parses as a `u32`.
pub open spec fn pids_in(lines: Seq<Seq<char>>) -> Seq<u32>
    decreases lines.len(),
{
    if lines.len() == 0 {
        Seq::empty()
    } else {
        let rest = pids_in(lines.drop_last());
        match parse_unsigned(trim(lines.last()), u32::MAX as nat) {
            Some(n) => rest.push(n as u32),
            None => rest,
        }
    }
}

/// The child PIDs in the output of `pgrep -P <parent>`: every line that,
/// trimmed, parses as a `u32`, in order.
pub fn parse_child_pids(output: &str) -> (r: Vec<u32>)
    ensures
        r@ == pids_in(split_on(output@, '\n')),
{
    let v = chars_of(output);
    let pieces = split_chars(&v, '\n');
    let ghost ls = views(pieces@);
    let mut r: Vec<u32> = Vec::new();
    let mut i: usize = 0;
    assert(ls.take(0) =~= Seq::<Seq<char>>::empty());
    while i < pieces.len()
        invariant
            i <= pieces@.len(),
            ls == views(pieces@),
            ls == split_on(output@, '\n'),
            r@ == pids_in(ls.take(i as int)),
        decreases pieces.len() - i,
    {
        assert(ls.take(i + 1).drop_last() =~= ls.take(i as int));
        assert(ls.take(i + 1).last() == pieces@[i as int]@);
        let t = trim_chars(&pieces[i]);
        let ts = string_from(&t, 0, t.len());
        assert(ts@ =~= t@);
        match parse_unsigned_str(ts.as_str(), 0xffff_ffffu64) {
            Some(n) => {
                r.push(n as u32);
            },
            None => {},
        }
        i = i + 1;
    }
    assert(ls.take(i as int) =~= ls);
    r
}

/// The walk over a process and its descendants: the PIDs found so far and
/// those whose children are still to be listed.
pub struct ProcessTree {
    pub tree: Vec<u32>,
    pub frontier: Vec<u32>,
}

impl ProcessTree {
    /// The walk from `pid`: it is found, and its children are to be listed.
    pub fn new(pid: u32) -> (r: ProcessTree)
        ensures
            r.tree@ == seq![pid],
            r.frontier@ == seq![pid],
    {
        ProcessTree { tree: vec![pid], frontier: vec![pid] }
    }

    /// The next process whose children are to be listed (the most recently
    /// found one), taken off the list.
    pub fn next_parent(&mut self) -> (r: Option<u32>)
        ensures
            final(self).tree == old(self).tree,
            old(self).frontier@.len() == 0 ==> r is None && final(self).frontier@ == old(self).frontier@,
            old(self).frontier@.len() > 0 ==> r == Some(old(self).frontier@.last())
                && final(self).frontier@ == old(self).frontier@.drop_last(),
    {
        self.frontier.pop()
    }

    /// Records the children of a listed process: they are found, and theirs
    /// are to be listed in turn.
    pub fn add_children(&mut self, children: &Vec<u32>)
        ensures
            final(self).tree@ == old(self).tree@ + children@,
            final(self).frontier@ == old(self).frontier@ + children@,
    {
        let mut i: usize = 0;
        let ghost t0 = self.tree@;
        let ghost f0 = self.frontier@;
        while i < children.len()
            invariant
                i <= children@.len(),
                self.tree@ == t0 + children@.take(i as int),
                self.frontier@ == f0 + children@.take(i as int),
            decreases children.len() - i,
        {
            self.tree.push(children[i]);
            self.frontier.push(children[i]);
            i = i + 1;
            assert(self.tree@ =~= t0 + children@.take(i as int));
            assert(self.frontier@ =~= f0 + children@.take(i as int));
        }
        assert(children@.take(i as int) =~= children@);
    }
}


/// How far the termination of a process tree has gone: the polite signal
/// (`SIGTERM`) first, then the forced one (`SIGKILL`).
#[derive(Clone, Copy, Debug, PartialEq, Eq, Structural)]
pub enum KillStage {
    Terminate,
    Force,
}

/// What the termination does after looking at the signalled processes.
#[derive(Clone, Copy, Debug, PartialEq, Eq, Structural)]
pub enum KillStep {
    /// Stop; the flag tells whether every process was confirmed gone.
    Finish(bool),
    /// Pause briefly, then look again.
    Pause,
    /// Send the forced signal to every process, then look again.
    Escalate,
}

/// How many pauses each stage waits for the processes to exit.
pub const EXIT_CHECKS: u32 = 10;

/// A process needs terminating when its PID is known and it is running.
pub open spec fn kill_needed_spec(pid: u32, alive: bool) -> bool {
    pid > 0 && alive
}

/// Whether the process `pid`, whose liveness is `alive`, needs terminating;
/// an unknown PID (0) or a process already gone counts as done.
pub fn kill_needed(pid: u32, alive: bool) -> (r: bool)
    ensures
        r == kill_needed_spec(pid, alive),
{
    pid > 0 && alive
}

/// No process in the list is alive.
pub open spec fn all_gone(alive: Seq<bool>) -> bool {
    forall|i: int| 0 <= i < alive.len() ==> !#[trigger] alive[i]
}

/// The termination rule: done as soon as every process is gone; otherwise
/// pause while fewer than `EXIT_CHECKS` pauses were made in this stage; after
/// that the polite stage escalates to the forced one, and the forced stage
/// gives up.
pub open spec fn kill_step_spec(stage: KillStage, pauses: nat, gone: bool) -> KillStep {
    if gone {
        KillStep::Finish(true)
    } else if pauses < EXIT_CHECKS {
        KillStep::Pause
    } else if stage == KillStage::Terminate {
        KillStep::Escalate
    } else {
        KillStep::Finish(false)
    }
}

/// One look at the signalled processes: `alive[i]` is whether the `i`-th of
/// them still runs, `pauses` how many pauses this stage has made so far.
pub fn kill_step(stage: KillStage, pauses: u32, alive: &Vec<bool>) -> (r: KillStep)
    ensures
        r == kill_step_spec(stage, pauses as nat, all_gone(alive@)),
{
    let mut gone = true;
    let mut i: usize = 0;
    while i < alive.len()
        invariant
            i <= alive@.len(),
            gone == (forall|k: int| 0 <= k < i ==> !#[trigger] alive@[k]),
        decreases alive.len() - i,
    {
        if alive[i] {
            gone = false;
        }
        i = i + 1;
    }
    if gone {
        KillStep::Finish(true)
    } else if pauses < EXIT_CHECKS {
        KillStep::Pause
    } else {
        match stage {
            KillStage::Terminate => KillStep::Escalate,
            KillStage::Force => KillStep::Finish(false),
        }
    }
}

/// The termination reports success only when every process is gone, and
/// always ends: at most `EXIT_CHECKS` pauses per stage and a single
/// escalation, after which the forced stage finishes.
pub proof fn lemma_kill_step_ends(stage: KillStage, pauses: nat, gone: bool)
    ensures
        kill_step_spec(stage, pauses, gone) == KillStep::Finish(true) <==> gone,
        kill_step_spec(stage, pauses, gone) == KillStep::Pause ==> pauses < EXIT_CHECKS,
        kill_step_spec(stage, pauses, gone) == KillStep::Escalate ==> stage == KillStage::Terminate,
        stage == KillStage::Force && pauses >= EXIT_CHECKS ==> kill_step_spec(stage, pauses, gone)
            is Finish,
{
}

/// What one look at the signalled processes decides, in terms of which of
/// them still run: success exactly when none of them does, so a single live
/// process, wherever it stands in the list, keeps the termination going:
/// it pauses while pauses are left, then escalates to the forced signal, and
/// the forced stage gives up rather than report success.
pub proof fn lemma_kill_step_waits_for_every_process(stage: KillStage, pauses: nat, alive: Seq<bool>)
    ensures
        kill_step_spec(stage, pauses, all_gone(alive)) == KillStep::Finish(true) <==> (forall|i: int|
            0 <= i < alive.len() ==> !alive[i]),
        forall|i: int|
            0 <= i < alive.len() && #[trigger] alive[i] ==> kill_step_spec(
                stage,
                pauses,
                all_gone(alive),
            ) == (if pauses < EXIT_CHECKS {
                KillStep::Pause
            } else if stage == KillStage::Terminate {
                KillStep::Escalate
            } else {
                KillStep::Finish(false)
            }),
{
    assert forall|i: int| 0 <= i < alive.len() && #[trigger] alive[i] implies !all_gone(alive) by {
    }
}

} // verus!
