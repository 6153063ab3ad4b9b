//! The replicas of one program as a group: it creates and retires
//! instances as the program's description asks, fans operator commands out
//! to them, and reports on them.

use crate::config::program::{instance_name, Program, ProgramView};
use crate::exec::process::{
    no_directive, policy_of, quiet, Core, Directive, Event, Process, ProcessState, ProcessView,
    Status, status_of, KILL_MARGIN_SECS,
};
use vstd::prelude::*;

verus! {

/// The views of a list of instances.
pub open spec fn process_views(v: Seq<Process>) -> Seq<ProcessView> {
    Seq::new(v.len(), |i: int| v[i]@)
}

/// The replica `index` of `program` as it is created: stopped, with nothing
/// to its name.
pub open spec fn fresh_instance(program: ProgramView, index: int) -> ProcessView {
    ProcessView {
        name: instance_name(program.programname, index as nat),
        index: index as u8,
        core: Core::initial(policy_of(program)),
        exitcodes: program.exitcodes,
    }
}

/// The seconds that an instance may still take to stop: its grace period
/// and the margin behind the forceful signal while it is stopping, nothing
/// otherwise.
pub open spec fn grace_of(p: ProcessView) -> nat {
    if p.core.state == ProcessState::STOPPING {
        (p.core.policy.stopwaitsecs + KILL_MARGIN_SECS) as nat
    } else {
        0
    }
}

/// The sum of the seconds that the instances may still take to stop.
pub open spec fn grace_sum(ps: Seq<ProcessView>) -> nat
    decreases ps.len(),
{
    if ps.len() == 0 {
        0
    } else {
        grace_sum(ps.drop_last()) + grace_of(ps.last())
    }
}

/// The longest time that one of the instances may still take to stop.
pub open spec fn grace_max(ps: Seq<ProcessView>) -> nat
    decreases ps.len(),
{
    if ps.len() == 0 {
        0
    } else if grace_max(ps.drop_last()) >= grace_of(ps.last()) {
        grace_max(ps.drop_last())
    } else {
        grace_of(ps.last())
    }
}

/// The mathematical content of a [`ProcessGroup`].
pub struct GroupView {
    /// The description of the program as it is now.
    pub program: ProgramView,
    /// Whether the program has left the configuration: its instances are
    /// stopped and dropped, and none is created.
    pub removed: bool,
    /// The instances by index. Those whose index is below the number of
    /// replicas are supervised; the others are being retired.
    pub processes: Seq<ProcessView>,
}

impl GroupView {
    /// The number of replicas that the program asks for now.
    pub open spec fn active(self) -> nat {
        if self.removed {
            0
        } else {
            self.program.numprocs as nat
        }
    }

    /// The invariant of a group: the description is well formed, and the
    /// instance at each place is well formed and carries that place as its
    /// index and the name that goes with it.
    pub open spec fn wf(self) -> bool {
        &&& self.program.wf()
        &&& self.processes.len() <= 256
        &&& forall|i: int|
            0 <= i < self.processes.len() ==> {
                let p = #[trigger] self.processes[i];
                &&& p.wf()
                &&& p.index == i
                &&& p.name == instance_name(self.program.programname, i as nat)
            }
    }

    /// The group after a reconciliation.
    pub open spec fn reconciled_group(self, now: u64) -> GroupView {
        GroupView {
            processes: Seq::new(
                if self.processes.len() >= self.active() {
                    self.processes.len()
                } else {
                    self.active()
                },
                |i: int| self.reconciled_at(i, now).0,
            ),
            ..self
        }
    }

    /// What the driver has to do after a reconciliation, by index.
    pub open spec fn reconcile_directives(self, now: u64) -> Seq<Directive> {
        Seq::new(
            if self.processes.len() >= self.active() {
                self.processes.len()
            } else {
                self.active()
            },
            |i: int| self.reconciled_at(i, now).1,
        )
    }

    /// The group after `event` went to every supervised instance.
    pub open spec fn fanned(self, event: Event, now: u64) -> GroupView {
        GroupView {
            processes: Seq::new(self.processes.len(), |i: int| self.fanned_at(i, event, now).0),
            ..self
        }
    }

    /// What the driver has to do after `event` went to every supervised
    /// instance, by index.
    pub open spec fn fan_directives(self, event: Event, now: u64) -> Seq<Directive> {
        Seq::new(self.processes.len(), |i: int| self.fanned_at(i, event, now).1)
    }

    /// The group after the instances that are retired and at rest were
    /// dropped from the end.
    pub open spec fn reaped(self) -> GroupView {
        GroupView { processes: self.processes.take(self.kept() as int), ..self }
    }

    /// Whether nothing is left of the group: the program is gone from the
    /// configuration and so are its instances.
    pub open spec fn gone(self) -> bool {
        self.removed && self.processes.len() == 0
    }

    /// Whether the group holds exactly the replicas that the program asks
    /// for.
    pub open spec fn reconciled(self) -> bool {
        self.processes.len() == self.active()
    }

    /// The instance at place `i` after a reconciliation, and what the driver
    /// has to do for it: a supervised instance is left alone; one beyond the
    /// number of replicas is stopped; a missing one is created, and started
    /// where the program starts with the daemon.
    pub open spec fn reconciled_at(self, i: int, now: u64) -> (ProcessView, Directive) {
        if i < self.processes.len() {
            if i < self.active() {
                (self.processes[i], quiet())
            } else {
                self.processes[i].next(self.program, Event::Stop, now)
            }
        } else if self.program.autostart {
            fresh_instance(self.program, i).next(self.program, Event::AutoStart, now)
        } else {
            (fresh_instance(self.program, i), quiet())
        }
    }

    /// The instance at place `i` after `event` went to every supervised
    /// instance, and what the driver has to do for it.
    pub open spec fn fanned_at(self, i: int, event: Event, now: u64) -> (ProcessView, Directive) {
        if i < self.active() {
            self.processes[i].next(self.program, event, now)
        } else {
            (self.processes[i], quiet())
        }
    }

    /// The number of instances that stay when those that are retired and at
    /// rest are dropped from the end.
    pub open spec fn kept(self) -> nat
        decreases self.processes.len(),
    {
        if self.processes.len() > self.active() && self.processes.last().core.idle() {
            (GroupView { processes: self.processes.drop_last(), ..self }).kept()
        } else {
            self.processes.len()
        }
    }
}

/// What is kept never exceeds what is there, and never cuts into the
/// replicas that the program asks for.
pub proof fn lemma_kept_bounds(g: GroupView)
    ensures
        g.kept() <= g.processes.len(),
        g.processes.len() >= g.active() ==> g.kept() >= g.active(),
    decreases g.processes.len(),
{
    if g.processes.len() > g.active() && g.processes.last().core.idle() {
        lemma_kept_bounds(GroupView { processes: g.processes.drop_last(), ..g });
    }
}

/// The replicas of one program.
#[derive(Debug)]
pub struct ProcessGroup {
    program: Program,
    removed: bool,
    processes: Vec<Process>,
}

impl View for ProcessGroup {
    type V = GroupView;

    closed spec fn view(&self) -> GroupView {
        GroupView {
            program: self.program@,
            removed: self.removed,
            processes: process_views(self.processes@),
        }
    }
}

impl ProcessGroup {
    /// The invariant of a group.
    pub open spec fn wf(&self) -> bool {
        self@.wf()
    }

    /// The group of `program`: one stopped instance for each replica that
    /// the program asks for, named after the program and its index.
    pub fn new(program: Program) -> (r: Self)
        requires
            program@.wf(),
        ensures
            r.wf(),
            r@.program == program@,
            !r@.removed,
            r@.reconciled(),
            forall|i: int|
                0 <= i < r@.processes.len() ==> #[trigger] r@.processes[i] == fresh_instance(
                    program@,
                    i,
                ),
    {
        let mut processes: Vec<Process> = Vec::new();
        let count = program.numprocs();
        let mut i: u8 = 0;
        while i < count
            invariant
                i <= count,
                count == program@.numprocs,
                processes@.len() == i,
                forall|k: int|
                    0 <= k < i ==> #[trigger] process_views(processes@)[k] == fresh_instance(
                        program@,
                        k,
                    ),
            decreases count - i,
        {
            let p = Process::new(&program, i);
            let ghost before = process_views(processes@);
            processes.push(p);
            proof {
                assert forall|k: int| 0 <= k <= i implies #[trigger] process_views(processes@)[k]
                    == fresh_instance(program@, k) by {
                    if k < i {
                        assert(process_views(processes@)[k] == before[k]);
                    }
                }
            }
            i += 1;
        }
        let r = ProcessGroup { program, removed: false, processes };
        proof {
            assert forall|k: int| 0 <= k < r@.processes.len() implies {
                let p = #[trigger] r@.processes[k];
                &&& p.wf()
                &&& p.index == k
                &&& p.name == instance_name(r@.program.programname, k as nat)
            } by {
                assert(r@.processes[k] == fresh_instance(r@.program, k));
            }
        }
        r
    }

    /// The group of `program` before any instance is created.
    pub fn empty(program: Program) -> (r: Self)
        requires
            program@.wf(),
        ensures
            r.wf(),
            r@ == (GroupView { program: program@, removed: false, processes: Seq::empty() }),
    {
        let r = ProcessGroup { program, removed: false, processes: Vec::new() };
        proof {
            assert(r@.processes =~= Seq::<ProcessView>::empty());
        }
        r
    }

    /// The description of the program as it is now.
    pub fn program(&self) -> (r: &Program)
        ensures
            r@ == self@.program,
    {
        &self.program
    }

    /// The name of the program.
    pub fn programname(&self) -> (r: &String)
        ensures
            r@ == self@.program.programname,
    {
        self.program.programname()
    }

    /// Whether the program has left the configuration.
    pub fn is_removed(&self) -> (r: bool)
        ensures
            r == self@.removed,
    {
        self.removed
    }

    /// The instances, by index.
    pub fn processes(&self) -> (r: &Vec<Process>)
        ensures
            process_views(r@) == self@.processes,
    {
        &self.processes
    }

    /// The number of replicas that the program asks for now.
    pub fn active(&self) -> (r: usize)
        ensures
            r == self@.active(),
    {
        if self.removed {
            0
        } else {
            self.program.numprocs() as usize
        }
    }

    /// Takes the description that a reload brought. The instances stay as
    /// they are: the description governs what is spawned from now on.
    pub fn set_program(&mut self, program: Program)
        requires
            old(self).wf(),
            program@.wf(),
            program@.programname == old(self)@.program.programname,
        ensures
            final(self).wf(),
            final(self)@ == (GroupView { program: program@, removed: false, ..old(self)@ }),
    {
        self.program = program;
        self.removed = false;
        proof {
            assert(self@.processes == old(self)@.processes);
            assert forall|i: int| 0 <= i < self@.processes.len() implies {
                let p = #[trigger] self@.processes[i];
                &&& p.wf()
                &&& p.index == i
                &&& p.name == instance_name(self@.program.programname, i as nat)
            } by {
                assert(self@.processes[i] == old(self)@.processes[i]);
            }
        }
    }

    /// Marks the program as gone from the configuration.
    pub fn set_removed(&mut self)
        ensures
            final(self)@ == (GroupView { removed: true, ..old(self)@ }),
    {
        self.removed = true;
    }

    /// Hands `event` to the instance at place `i`.
    fn apply_at(&mut self, i: usize, event: Event, now: u64) -> (d: Directive)
        requires
            old(self).wf(),
            i < old(self)@.processes.len(),
        ensures
            final(self).wf(),
            final(self)@ == (GroupView {
                processes: old(self)@.processes.update(
                    i as int,
                    old(self)@.processes[i as int].next(old(self)@.program, event, now).0,
                ),
                ..old(self)@
            }),
            d == old(self)@.processes[i as int].next(old(self)@.program, event, now).1,
    {
        let ghost before = self@;
        proof {
            assert(before.processes[i as int] == self.processes@[i as int]@);
            assert(before.processes[i as int].wf());
        }
        let d = self.processes[i].step(&self.program, event, now);
        proof {
            let after = before.processes[i as int].next(before.program, event, now).0;
            assert(self@.processes =~= before.processes.update(i as int, after));
            assert forall|k: int| 0 <= k < self@.processes.len() implies {
                let p = #[trigger] self@.processes[k];
                &&& p.wf()
                &&& p.index == k
                &&& p.name == instance_name(self@.program.programname, k as nat)
            } by {
                if k != i {
                    assert(self@.processes[k] == before.processes[k]);
                }
            }
        }
        d
    }

    /// Hands `event` to the instance with the index `index`, if there is
    /// one. No other instance is touched.
    pub fn deliver(&mut self, index: u8, event: Event, now: u64) -> (r: Option<Directive>)
        requires
            old(self).wf(),
        ensures
            final(self).wf(),
            index >= old(self)@.processes.len() ==> r is None && final(self)@ == old(self)@,
            index < old(self)@.processes.len() ==> {
                let step = old(self)@.processes[index as int].next(old(self)@.program, event, now);
                &&& r == Some(step.1)
                &&& final(self)@ == (GroupView {
                    processes: old(self)@.processes.update(index as int, step.0),
                    ..old(self)@
                })
            },
    {
        if (index as usize) < self.processes.len() {
            Some(self.apply_at(index as usize, event, now))
        } else {
            None
        }
    }

    /// Hands `event` to every supervised instance.
    fn fan_out(&mut self, event: Event, now: u64) -> (ds: Vec<Directive>)
        requires
            old(self).wf(),
        ensures
            final(self).wf(),
            final(self)@.program == old(self)@.program,
            final(self)@.removed == old(self)@.removed,
            final(self)@.processes.len() == old(self)@.processes.len(),
            ds@.len() == old(self)@.processes.len(),
            forall|i: int|
                0 <= i < ds@.len() ==> (#[trigger] final(self)@.processes[i], ds@[i]) == old(
                    self,
                )@.fanned_at(i, event, now),
            final(self)@ == old(self)@.fanned(event, now),
            ds@ == old(self)@.fan_directives(event, now),
    {
        let n = self.processes.len();
        let active = self.active();
        let mut ds: Vec<Directive> = Vec::new();
        let mut i: usize = 0;
        while i < n
            invariant
                i <= n,
                n == old(self)@.processes.len(),
                active == old(self)@.active(),
                self.wf(),
                self@.program == old(self)@.program,
                self@.removed == old(self)@.removed,
                self@.processes.len() == n,
                ds@.len() == i,
                forall|k: int|
                    0 <= k < i ==> (#[trigger] self@.processes[k], ds@[k]) == old(self)@.fanned_at(
                        k,
                        event,
                        now,
                    ),
                forall|k: int| i <= k < n ==> #[trigger] self@.processes[k] == old(self)@.processes[k],
            decreases n - i,
        {
            let ghost before = self@;
            let d = if i < active {
                self.apply_at(i, event, now)
            } else {
                no_directive()
            };
            ds.push(d);
            proof {
                assert forall|k: int| 0 <= k <= i implies (#[trigger] self@.processes[k], ds@[k])
                    == old(self)@.fanned_at(k, event, now) by {
                    if k < i {
                        assert(self@.processes[k] == before.processes[k]);
                    }
                }
                assert forall|k: int| i < k < n implies #[trigger] self@.processes[k] == old(
                    self,
                )@.processes[k] by {
                    assert(self@.processes[k] == before.processes[k]);
                }
            }
            i += 1;
        }
        proof {
            assert(self@.processes =~= old(self)@.fanned(event, now).processes);
            assert forall|k: int| 0 <= k < ds@.len() implies ds@[k] == old(self)@.fanned_at(
                k,
                event,
                now,
            ).1 by {
                let p = self@.processes[k];
            }
            assert(ds@ =~= old(self)@.fan_directives(event, now));
        }
        ds
    }

    /// Starts every supervised instance, as the operator's start does. The
    /// answer holds, by index, what the driver has to do.
    pub fn start_all(&mut self, now: u64) -> (ds: Vec<Directive>)
        requires
            old(self).wf(),
        ensures
            final(self).wf(),
            final(self)@.program == old(self)@.program,
            final(self)@.removed == old(self)@.removed,
            final(self)@.processes.len() == old(self)@.processes.len(),
            ds@.len() == old(self)@.processes.len(),
            forall|i: int|
                0 <= i < ds@.len() ==> (#[trigger] final(self)@.processes[i], ds@[i]) == old(
                    self,
                )@.fanned_at(i, Event::Start, now),
            final(self)@ == old(self)@.fanned(Event::Start, now),
            ds@ == old(self)@.fan_directives(Event::Start, now),
    {
        self.fan_out(Event::Start, now)
    }

    /// Stops every supervised instance. The answer holds, by index, what
    /// the driver has to do; the stop is complete once `all_stopped` holds.
    pub fn stop_all(&mut self, now: u64) -> (ds: Vec<Directive>)
        requires
            old(self).wf(),
        ensures
            final(self).wf(),
            final(self)@.program == old(self)@.program,
            final(self)@.removed == old(self)@.removed,
            final(self)@.processes.len() == old(self)@.processes.len(),
            ds@.len() == old(self)@.processes.len(),
            forall|i: int|
                0 <= i < ds@.len() ==> (#[trigger] final(self)@.processes[i], ds@[i]) == old(
                    self,
                )@.fanned_at(i, Event::Stop, now),
            final(self)@ == old(self)@.fanned(Event::Stop, now),
            ds@ == old(self)@.fan_directives(Event::Stop, now),
    {
        self.fan_out(Event::Stop, now)
    }

    /// Restarts every supervised instance: each is stopped, and started
    /// once its stop is complete.
    pub fn restart_all(&mut self, now: u64) -> (ds: Vec<Directive>)
        requires
            old(self).wf(),
        ensures
            final(self).wf(),
            final(self)@.program == old(self)@.program,
            final(self)@.removed == old(self)@.removed,
            final(self)@.processes.len() == old(self)@.processes.len(),
            ds@.len() == old(self)@.processes.len(),
            forall|i: int|
                0 <= i < ds@.len() ==> (#[trigger] final(self)@.processes[i], ds@[i]) == old(
                    self,
                )@.fanned_at(i, Event::Restart, now),
            final(self)@ == old(self)@.fanned(Event::Restart, now),
            ds@ == old(self)@.fan_directives(Event::Restart, now),
    {
        self.fan_out(Event::Restart, now)
    }

    /// Brings the instances in line with the program's description:
    /// missing replicas are created, and started where the program starts
    /// with the daemon; instances beyond the number of replicas are stopped.
    /// Supervised instances are left alone.
    pub fn ensure_replicas(&mut self, now: u64) -> (ds: Vec<Directive>)
        requires
            old(self).wf(),
        ensures
            final(self).wf(),
            final(self)@.program == old(self)@.program,
            final(self)@.removed == old(self)@.removed,
            final(self)@.processes.len() >= old(self)@.active(),
            final(self)@.processes.len() == if old(self)@.processes.len() >= old(self)@.active() {
                old(self)@.processes.len()
            } else {
                old(self)@.active()
            },
            ds@.len() == final(self)@.processes.len(),
            forall|i: int|
                0 <= i < ds@.len() ==> (#[trigger] final(self)@.processes[i], ds@[i]) == old(
                    self,
                )@.reconciled_at(i, now),
            final(self)@ == old(self)@.reconciled_group(now),
            ds@ == old(self)@.reconcile_directives(now),
    {
        let n = self.processes.len();
        let active = self.active();
        let mut ds: Vec<Directive> = Vec::new();
        let mut i: usize = 0;
        while i < n
            invariant
                i <= n,
                n == old(self)@.processes.len(),
                active == old(self)@.active(),
                self.wf(),
                self@.program == old(self)@.program,
                self@.removed == old(self)@.removed,
                self@.processes.len() == n,
                ds@.len() == i,
                forall|k: int|
                    0 <= k < i ==> (#[trigger] self@.processes[k], ds@[k]) == old(
                        self,
                    )@.reconciled_at(k, now),
                forall|k: int| i <= k < n ==> #[trigger] self@.processes[k] == old(self)@.processes[k],
            decreases n - i,
        {
            let ghost before = self@;
            let d = if i < active {
                no_directive()
            } else {
                self.apply_at(i, Event::Stop, now)
            };
            ds.push(d);
            proof {
                assert forall|k: int| 0 <= k <= i implies (#[trigger] self@.processes[k], ds@[k])
                    == old(self)@.reconciled_at(k, now) by {
                    if k < i {
                        assert(self@.processes[k] == before.processes[k]);
                    }
                }
                assert forall|k: int| i < k < n implies #[trigger] self@.processes[k] == old(
                    self,
                )@.processes[k] by {
                    assert(self@.processes[k] == before.processes[k]);
                }
            }
            i += 1;
        }
        while i < active
            invariant
                n <= i,
                i == n || i <= active,
                active <= 255,
                n == old(self)@.processes.len(),
                active == old(self)@.active(),
                self.wf(),
                self@.program == old(self)@.program,
                self@.removed == old(self)@.removed,
                self@.processes.len() == i,
                ds@.len() == i,
                forall|k: int|
                    0 <= k < i ==> (#[trigger] self@.processes[k], ds@[k]) == old(
                        self,
                    )@.reconciled_at(k, now),
            decreases active - i,
        {
            let ghost before = self@;
            let ghost before_ds = ds@;
            let p = Process::new(&self.program, i as u8);
            self.processes.push(p);
            proof {
                assert(self@.processes =~= before.processes.push(
                    fresh_instance(before.program, i as int),
                ));
                assert forall|k: int| 0 <= k < self@.processes.len() implies {
                    let p = #[trigger] self@.processes[k];
                    &&& p.wf()
                    &&& p.index == k
                    &&& p.name == instance_name(self@.program.programname, k as nat)
                } by {
                    if k < i {
                        assert(self@.processes[k] == before.processes[k]);
                    }
                }
            }
            let ghost created = self@;
            let d = if self.program.autostart() {
                self.apply_at(i, Event::AutoStart, now)
            } else {
                no_directive()
            };
            ds.push(d);
            proof {
                assert forall|k: int| 0 <= k <= i implies (#[trigger] self@.processes[k], ds@[k])
                    == old(self)@.reconciled_at(k, now) by {
                    if k < i {
                        assert(self@.processes[k] == created.processes[k]);
                        assert(created.processes[k] == before.processes[k]);
                        assert(ds@[k] == before_ds[k]);
                    }
                }
            }
            i += 1;
        }
        proof {
            assert(self@.processes =~= old(self)@.reconciled_group(now).processes);
            assert forall|k: int| 0 <= k < ds@.len() implies ds@[k] == old(self)@.reconciled_at(
                k,
                now,
            ).1 by {
                let p = self@.processes[k];
            }
            assert(ds@ =~= old(self)@.reconcile_directives(now));
        }
        ds
    }

    /// Drops, from the end, the instances that are retired and at rest.
    pub fn reap(&mut self)
        requires
            old(self).wf(),
        ensures
            final(self).wf(),
            final(self)@ == old(self)@.reaped(),
    {
        let active = self.active();
        proof {
            assert(self@.processes.take(self@.processes.len() as int) == self@.processes);
        }
        while self.processes.len() > active && self.processes[self.processes.len() - 1].bookkeeping().is_idle()
            invariant
                active == old(self)@.active(),
                self@.program == old(self)@.program,
                self@.removed == old(self)@.removed,
                self@.processes.len() <= old(self)@.processes.len(),
                self@.processes == old(self)@.processes.take(self@.processes.len() as int),
                self@.kept() == old(self)@.kept(),
                self.wf(),
            decreases self.processes.len(),
        {
            let ghost before = self@;
            proof {
                assert(before.processes.last() == self.processes@[self.processes@.len() - 1]@);
            }
            self.processes.pop();
            proof {
                assert(self@.processes =~= before.processes.drop_last());
                assert(self@ == (GroupView { processes: before.processes.drop_last(), ..before }));
                assert(self@.processes =~= old(self)@.processes.take(self@.processes.len() as int));
                assert forall|k: int| 0 <= k < self@.processes.len() implies {
                    let p = #[trigger] self@.processes[k];
                    &&& p.wf()
                    &&& p.index == k
                    &&& p.name == instance_name(self@.program.programname, k as nat)
                } by {
                    assert(self@.processes[k] == before.processes[k]);
                }
            }
        }
        proof {
            if self@.processes.len() > 0 {
                assert(self@.processes.last() == self.processes@[self.processes@.len() - 1]@);
            }
            assert(self@.kept() == self@.processes.len());
        }
    }

    /// Whether nothing is left of the group.
    pub fn is_gone(&self) -> (r: bool)
        ensures
            r == self@.gone(),
    {
        self.removed && self.processes.len() == 0
    }

    /// Whether every instance is at rest: stopped, exited or given up.
    pub fn all_stopped(&self) -> (r: bool)
        ensures
            r == forall|i: int|
                0 <= i < self@.processes.len() ==> (#[trigger] self@.processes[i]).core.idle(),
    {
        let mut i: usize = 0;
        while i < self.processes.len()
            invariant
                i <= self.processes@.len(),
                forall|k: int| 0 <= k < i ==> (#[trigger] self@.processes[k]).core.idle(),
            decreases self.processes@.len() - i,
        {
            if !self.processes[i].bookkeeping().is_idle() {
                assert(!self@.processes[i as int].core.idle());
                return false;
            }
            i += 1;
        }
        true
    }

    /// The seconds within which a stop of the whole group is complete or
    /// reported as stuck, one instance after the other: the sum of what the
    /// stopping instances may still take.
    pub fn stop_budget(&self) -> (r: u64)
        requires
            self.wf(),
        ensures
            r == grace_sum(self@.processes),
    {
        let mut sum: u64 = 0;
        let mut i: usize = 0;
        proof {
            assert(self@.processes.take(0).len() == 0);
        }
        while i < self.processes.len()
            invariant
                i <= self.processes@.len(),
                self@.processes.len() <= 256,
                sum == grace_sum(self@.processes.take(i as int)),
                sum <= i * 0x1_0000_0002,
            decreases self.processes@.len() - i,
        {
            let core = self.processes[i].bookkeeping();
            proof {
                let longer = self@.processes.take(i + 1);
                assert(longer.drop_last() == self@.processes.take(i as int));
                assert(longer.last() == self.processes@[i as int]@);
            }
            if core.state == ProcessState::STOPPING {
                sum = sum + (core.policy.stopwaitsecs as u64 + KILL_MARGIN_SECS as u64);
            }
            i += 1;
        }
        proof {
            assert(self@.processes.take(i as int) == self@.processes);
        }
        sum
    }

    /// The seconds within which a stop of the whole group is complete or
    /// reported as stuck when the instances stop side by side: the longest
    /// that a stopping instance may still take.
    pub fn longest_grace(&self) -> (r: u64)
        ensures
            r == grace_max(self@.processes),
    {
        let mut longest: u64 = 0;
        let mut i: usize = 0;
        proof {
            assert(self@.processes.take(0).len() == 0);
        }
        while i < self.processes.len()
            invariant
                i <= self.processes@.len(),
                longest == grace_max(self@.processes.take(i as int)),
            decreases self.processes@.len() - i,
        {
            let core = self.processes[i].bookkeeping();
            proof {
                let longer = self@.processes.take(i + 1);
                assert(longer.drop_last() == self@.processes.take(i as int));
                assert(longer.last() == self.processes@[i as int]@);
            }
            if core.state == ProcessState::STOPPING {
                let grace = core.policy.stopwaitsecs as u64 + KILL_MARGIN_SECS as u64;
                if grace > longest {
                    longest = grace;
                }
            }
            i += 1;
        }
        proof {
            assert(self@.processes.take(i as int) == self@.processes);
        }
        longest
    }

    /// What is reported of each instance, by index.
    pub fn status(&self) -> (r: Vec<Status>)
        ensures
            r@.len() == self@.processes.len(),
            forall|i: int|
                0 <= i < r@.len() ==> (#[trigger] r@[i])@ == status_of(self@.processes[i]),
    {
        let mut r: Vec<Status> = Vec::new();
        let mut i: usize = 0;
        while i < self.processes.len()
            invariant
                i <= self.processes@.len(),
                r@.len() == i,
                forall|k: int| 0 <= k < i ==> (#[trigger] r@[k])@ == status_of(self@.processes[k]),
            decreases self.processes@.len() - i,
        {
            let s = self.processes[i].status();
            assert(s@ == status_of(self@.processes[i as int]));
            r.push(s);
            i += 1;
        }
        r
    }
}

} // verus!
