//! The engine: every group by the name of its program. It is the one place
//! where operator commands and process events turn into steps of instances.

use crate::config::program::{Program, ProgramView};
use crate::errors::ExecError;
use crate::exec::process::{Directive, Event, Status};
use crate::exec::process_group::{GroupView, ProcessGroup};
use crate::text::same_text;
use vstd::prelude::*;

verus! {

/// The views of a list of groups.
pub open spec fn group_views(v: Seq<ProcessGroup>) -> Seq<GroupView> {
    Seq::new(v.len(), |i: int| v[i]@)
}

/// The views of a list of program descriptions.
pub open spec fn spec_views(v: Seq<Program>) -> Seq<ProgramView> {
    Seq::new(v.len(), |i: int| v[i]@)
}

/// The views of the directives of several groups.
pub open spec fn directive_lists(v: Seq<Vec<Directive>>) -> Seq<Seq<Directive>> {
    Seq::new(v.len(), |i: int| v[i]@)
}

/// Whether the group at place `i` is the one of the program `name`.
pub open spec fn group_at(groups: Seq<GroupView>, name: Seq<char>, i: int) -> bool {
    0 <= i < groups.len() && groups[i].program.programname == name
}

/// Whether some group is the one of the program `name`.
pub open spec fn has_group(groups: Seq<GroupView>, name: Seq<char>) -> bool {
    exists|i: int| group_at(groups, name, i)
}

/// The invariant of the engine: every group is well formed, and no two
/// belong to programs of the same name.
pub open spec fn groups_wf(groups: Seq<GroupView>) -> bool {
    &&& forall|i: int| 0 <= i < groups.len() ==> (#[trigger] groups[i]).wf()
    &&& forall|i: int, j: int|
        0 <= i < j < groups.len() ==> (#[trigger] groups[i]).program.programname != (
        #[trigger] groups[j]).program.programname
}

/// The groups with every program marked as gone.
pub open spec fn retired(groups: Seq<GroupView>) -> Seq<GroupView> {
    Seq::new(groups.len(), |i: int| GroupView { removed: true, ..groups[i] })
}

/// The groups once the description `spec` is taken in: the group of that
/// name takes it and is no longer gone; where there is none, a group
/// without instances is added at the end.
pub open spec fn adopted(groups: Seq<GroupView>, spec: ProgramView) -> Seq<GroupView> {
    if has_group(groups, spec.programname) {
        let i = choose|i: int| group_at(groups, spec.programname, i);
        groups.update(i, GroupView { program: spec, removed: false, ..groups[i] })
    } else {
        groups.push(GroupView { program: spec, removed: false, processes: Seq::empty() })
    }
}

/// The groups once every description of `specs` is taken in, the last
/// first.
pub open spec fn merged(groups: Seq<GroupView>, specs: Seq<ProgramView>) -> Seq<GroupView>
    decreases specs.len(),
{
    if specs.len() == 0 {
        groups
    } else {
        merged(adopted(groups, specs.last()), specs.drop_last())
    }
}

/// The groups after a reload with the descriptions `specs`: programs that
/// are not described any more are gone, the others take their description,
/// new ones get a group, and every group is reconciled.
pub open spec fn reloaded(groups: Seq<GroupView>, specs: Seq<ProgramView>, now: u64) -> Seq<
    GroupView,
> {
    let m = merged(retired(groups), specs);
    Seq::new(m.len(), |i: int| m[i].reconciled_group(now))
}

/// What the driver has to do after a reload, by group and index.
pub open spec fn reload_directives(groups: Seq<GroupView>, specs: Seq<ProgramView>, now: u64) -> Seq<
    Seq<Directive>,
> {
    let m = merged(retired(groups), specs);
    Seq::new(m.len(), |i: int| m[i].reconcile_directives(now))
}

/// The groups after a sweep: in each, the instances that are retired and at
/// rest are dropped, and a group of which nothing is left is dropped too.
pub open spec fn swept(groups: Seq<GroupView>) -> Seq<GroupView>
    decreases groups.len(),
{
    if groups.len() == 0 {
        Seq::empty()
    } else if groups.last().reaped().gone() {
        swept(groups.drop_last())
    } else {
        swept(groups.drop_last()).push(groups.last().reaped())
    }
}

/// The longest time that a stopping instance of any group may still take.
pub open spec fn longest_grace_of(groups: Seq<GroupView>) -> nat
    decreases groups.len(),
{
    if groups.len() == 0 {
        0
    } else {
        let rest = longest_grace_of(groups.drop_last());
        let last = crate::exec::process_group::grace_max(groups.last().processes);
        if rest >= last {
            rest
        } else {
            last
        }
    }
}

/// Taking a description in keeps the invariant of the engine.
pub proof fn lemma_adopted_wf(groups: Seq<GroupView>, spec: ProgramView)
    requires
        groups_wf(groups),
        spec.wf(),
    ensures
        groups_wf(adopted(groups, spec)),
        adopted(groups, spec).len() >= groups.len(),
{
    let after = adopted(groups, spec);
    if has_group(groups, spec.programname) {
        let i = choose|i: int| group_at(groups, spec.programname, i);
        assert forall|k: int| 0 <= k < after.len() implies (#[trigger] after[k]).wf() by {
            if k != i {
                assert(after[k] == groups[k]);
            } else {
                assert(groups[i].wf());
                assert forall|m: int| 0 <= m < after[k].processes.len() implies {
                    let p = #[trigger] after[k].processes[m];
                    &&& p.wf()
                    &&& p.index == m
                    &&& p.name == crate::config::program::instance_name(
                        after[k].program.programname,
                        m as nat,
                    )
                } by {
                    assert(after[k].processes[m] == groups[i].processes[m]);
                }
            }
        }
        assert forall|a: int, b: int| 0 <= a < b < after.len() implies (
        #[trigger] after[a]).program.programname != (#[trigger] after[b]).program.programname by {
            assert(after[a].program.programname == groups[a].program.programname);
            assert(after[b].program.programname == groups[b].program.programname);
        }
    } else {
        assert forall|k: int| 0 <= k < after.len() implies (#[trigger] after[k]).wf() by {
            if k < groups.len() {
                assert(after[k] == groups[k]);
            }
        }
        assert forall|a: int, b: int| 0 <= a < b < after.len() implies (
        #[trigger] after[a]).program.programname != (#[trigger] after[b]).program.programname by {
            if b == groups.len() {
                assert(!group_at(groups, spec.programname, a));
                assert(after[a] == groups[a]);
            } else {
                assert(after[a] == groups[a]);
                assert(after[b] == groups[b]);
            }
        }
    }
}

/// The engine: every group by the name of its program.
#[derive(Debug)]
pub struct ProcessManager {
    process_groups: Vec<ProcessGroup>,
}

impl View for ProcessManager {
    type V = Seq<GroupView>;

    closed spec fn view(&self) -> Seq<GroupView> {
        group_views(self.process_groups@)
    }
}

impl ProcessManager {
    /// The invariant of the engine.
    pub open spec fn wf(&self) -> bool {
        groups_wf(self@)
    }

    /// The engine without any program.
    pub fn new() -> (r: Self)
        ensures
            r.wf(),
            r@ == Seq::<GroupView>::empty(),
    {
        let r = ProcessManager { process_groups: Vec::new() };
        proof {
            assert(r@ =~= Seq::<GroupView>::empty());
        }
        r
    }

    /// The groups, in the order in which their programs came.
    pub fn groups(&self) -> (r: &Vec<ProcessGroup>)
        ensures
            group_views(r@) == self@,
    {
        &self.process_groups
    }

    /// The place of the group of the program `name`, gone or not.
    pub fn position(&self, name: &str) -> (r: Option<usize>)
        ensures
            match r {
                Some(i) => group_at(self@, name@, i as int),
                None => !has_group(self@, name@),
            },
    {
        let mut i: usize = 0;
        while i < self.process_groups.len()
            invariant
                i <= self.process_groups@.len(),
                forall|k: int| 0 <= k < i ==> !group_at(self@, name@, k),
            decreases self.process_groups@.len() - i,
        {
            if same_text(self.process_groups[i].programname().as_str(), name) {
                assert(self@[i as int] == self.process_groups@[i as int]@);
                return Some(i);
            }
            proof {
                assert(self@[i as int] == self.process_groups@[i as int]@);
            }
            i += 1;
        }
        None
    }

    /// The place of the group of the program `name`, unless the program is
    /// gone from the configuration.
    pub fn find(&self, name: &str) -> (r: Option<usize>)
        ensures
            match r {
                Some(i) => group_at(self@, name@, i as int) && !self@[i as int].removed,
                None => forall|i: int| group_at(self@, name@, i) ==> self@[i].removed,
            },
    {
        let mut i: usize = 0;
        while i < self.process_groups.len()
            invariant
                i <= self.process_groups@.len(),
                forall|k: int| 0 <= k < i && group_at(self@, name@, k) ==> self@[k].removed,
            decreases self.process_groups@.len() - i,
        {
            proof {
                assert(self@[i as int] == self.process_groups@[i as int]@);
            }
            if !self.process_groups[i].is_removed() && same_text(
                self.process_groups[i].programname().as_str(),
                name,
            ) {
                return Some(i);
            }
            i += 1;
        }
        None
    }

    /// Hands `event` to every supervised instance of the group at place
    /// `i`.
    fn fan_at(&mut self, i: usize, event: Event, now: u64) -> (ds: Vec<Directive>)
        requires
            old(self).wf(),
            i < old(self)@.len(),
            event == Event::Start || event == Event::Stop || event == Event::Restart,
        ensures
            final(self).wf(),
            final(self)@ == old(self)@.update(i as int, old(self)@[i as int].fanned(event, now)),
            ds@ == old(self)@[i as int].fan_directives(event, now),
    {
        let ghost before = self@;
        proof {
            assert(before[i as int] == self.process_groups@[i as int]@);
            assert(before[i as int].wf());
        }
        let ds = match event {
            Event::Start => self.process_groups[i].start_all(now),
            Event::Stop => self.process_groups[i].stop_all(now),
            _ => self.process_groups[i].restart_all(now),
        };
        proof {
            let after = before[i as int].fanned(event, now);
            assert(self@ =~= before.update(i as int, after));
            lemma_update_keeps_wf(before, i as int, after);
        }
        ds
    }

    /// Starts every replica of the program `name`. The answer holds, by
    /// index, what the driver has to do. A name without a group is an error
    /// and changes nothing.
    pub fn start(&mut self, name: &str, now: u64) -> (r: Result<Vec<Directive>, ExecError>)
        requires
            old(self).wf(),
        ensures
            final(self).wf(),
            command_done(old(self)@, final(self)@, name@, Event::Start, now, r),
    {
        match self.find(name) {
            Some(i) => Ok(self.fan_at(i, Event::Start, now)),
            None => Err(ExecError::ProcessNameNotFound),
        }
    }

    /// Stops every replica of the program `name`.
    pub fn stop(&mut self, name: &str, now: u64) -> (r: Result<Vec<Directive>, ExecError>)
        requires
            old(self).wf(),
        ensures
            final(self).wf(),
            command_done(old(self)@, final(self)@, name@, Event::Stop, now, r),
    {
        match self.find(name) {
            Some(i) => Ok(self.fan_at(i, Event::Stop, now)),
            None => Err(ExecError::ProcessNameNotFound),
        }
    }

    /// Restarts every replica of the program `name`: each is stopped, and
    /// started once its stop is complete. An instance whose stop is reported
    /// as stuck is not started.
    pub fn restart(&mut self, name: &str, now: u64) -> (r: Result<Vec<Directive>, ExecError>)
        requires
            old(self).wf(),
        ensures
            final(self).wf(),
            command_done(old(self)@, final(self)@, name@, Event::Restart, now, r),
    {
        match self.find(name) {
            Some(i) => Ok(self.fan_at(i, Event::Restart, now)),
            None => Err(ExecError::ProcessNameNotFound),
        }
    }

    /// What is reported of each instance of the program `name`, by index.
    pub fn status(&self, name: &str) -> (r: Result<Vec<Status>, ExecError>)
        ensures
            match r {
                Ok(list) => exists|i: int|
                    {
                        &&& #[trigger] group_at(self@, name@, i)
                        &&& !self@[i].removed
                        &&& list@.len() == self@[i].processes.len()
                        &&& forall|k: int|
                            0 <= k < list@.len() ==> (#[trigger] list@[k])@
                                == crate::exec::process::status_of(self@[i].processes[k])
                    },
                Err(e) => e == ExecError::ProcessNameNotFound && forall|i: int|
                    group_at(self@, name@, i) ==> self@[i].removed,
            },
    {
        match self.find(name) {
            Some(i) => {
                proof {
                    assert(self@[i as int] == self.process_groups@[i as int]@);
                }
                Ok(self.process_groups[i].status())
            },
            None => Err(ExecError::ProcessNameNotFound),
        }
    }

    /// What is reported of every instance, by group and index.
    pub fn status_all(&self) -> (r: Vec<Vec<Status>>)
        ensures
            r@.len() == self@.len(),
            forall|g: int|
                0 <= g < r@.len() ==> {
                    &&& (#[trigger] r@[g])@.len() == self@[g].processes.len()
                    &&& forall|k: int|
                        0 <= k < r@[g]@.len() ==> (#[trigger] r@[g]@[k])@
                            == crate::exec::process::status_of(self@[g].processes[k])
                },
    {
        let mut r: Vec<Vec<Status>> = Vec::new();
        let mut i: usize = 0;
        while i < self.process_groups.len()
            invariant
                i <= self.process_groups@.len(),
                r@.len() == i,
                forall|g: int|
                    0 <= g < i ==> {
                        &&& (#[trigger] r@[g])@.len() == self@[g].processes.len()
                        &&& forall|k: int|
                            0 <= k < r@[g]@.len() ==> (#[trigger] r@[g]@[k])@
                                == crate::exec::process::status_of(self@[g].processes[k])
                    },
            decreases self.process_groups@.len() - i,
        {
            proof {
                assert(self@[i as int] == self.process_groups@[i as int]@);
            }
            let list = self.process_groups[i].status();
            r.push(list);
            i += 1;
        }
        r
    }

    /// Hands an event of the driver to the instance `index` of the program
    /// `name`. No other instance is touched. An instance that does not
    /// exist is an error and changes nothing.
    pub fn deliver(&mut self, name: &str, index: u8, event: Event, now: u64) -> (r: Result<
        Directive,
        ExecError,
    >)
        requires
            old(self).wf(),
        ensures
            final(self).wf(),
            match r {
                Ok(d) => exists|i: int|
                    {
                        &&& #[trigger] group_at(old(self)@, name@, i)
                        &&& index < old(self)@[i].processes.len()
                        &&& final(self)@ == old(self)@.update(
                            i,
                            GroupView {
                                processes: old(self)@[i].processes.update(
                                    index as int,
                                    old(self)@[i].processes[index as int].next(
                                        old(self)@[i].program,
                                        event,
                                        now,
                                    ).0,
                                ),
                                ..old(self)@[i]
                            },
                        )
                        &&& d == old(self)@[i].processes[index as int].next(
                            old(self)@[i].program,
                            event,
                            now,
                        ).1
                    },
                Err(e) => {
                    &&& e == ExecError::ProcessNameNotFound
                    &&& final(self)@ == old(self)@
                    &&& forall|i: int|
                        group_at(old(self)@, name@, i) ==> index >= old(self)@[i].processes.len()
                },
            },
    {
        match self.position(name) {
            Some(i) => {
                let ghost before = self@;
                proof {
                    assert(before[i as int] == self.process_groups@[i as int]@);
                    assert(before[i as int].wf());
                    assert forall|k: int| group_at(before, name@, k) implies k == i by {
                        if k < i {
                            assert(before[k].program.programname != before[i as int].program.programname);
                        } else if k > i {
                            assert(before[i as int].program.programname != before[k].program.programname);
                        }
                    }
                }
                match self.process_groups[i].deliver(index, event, now) {
                    Some(d) => {
                        proof {
                            let after = GroupView {
                                processes: before[i as int].processes.update(
                                    index as int,
                                    before[i as int].processes[index as int].next(
                                        before[i as int].program,
                                        event,
                                        now,
                                    ).0,
                                ),
                                ..before[i as int]
                            };
                            assert(self@ =~= before.update(i as int, after));
                            lemma_update_keeps_wf(before, i as int, after);
                            assert(group_at(before, name@, i as int));
                        }
                        Ok(d)
                    },
                    None => {
                        proof {
                            assert(self@ =~= before);
                        }
                        Err(ExecError::ProcessNameNotFound)
                    },
                }
            },
            None => Err(ExecError::ProcessNameNotFound),
        }
    }

    /// Takes a new set of program descriptions. Programs that are not
    /// described any more are gone: their instances are stopped. Programs
    /// that are described take their description, which governs what is
    /// spawned from now on, and are reconciled with it. New programs get a
    /// group, and are started where they start with the daemon. The answer
    /// holds, by group and index, what the driver has to do.
    pub fn reload(&mut self, specs: Vec<Program>, now: u64) -> (ds: Vec<Vec<Directive>>)
        requires
            old(self).wf(),
            forall|i: int| 0 <= i < specs@.len() ==> (#[trigger] specs@[i])@.wf(),
        ensures
            final(self).wf(),
            final(self)@ == reloaded(old(self)@, spec_views(specs@), now),
            directive_lists(ds@) == reload_directives(old(self)@, spec_views(specs@), now),
    {
        let ghost all = spec_views(specs@);
        let mut specs = specs;
        let n = self.process_groups.len();
        let mut i: usize = 0;
        while i < n
            invariant
                i <= n,
                n == old(self)@.len(),
                self@.len() == n,
                groups_wf(self@),
                forall|k: int| 0 <= k < i ==> #[trigger] self@[k] == retired(old(self)@)[k],
                forall|k: int| i <= k < n ==> #[trigger] self@[k] == old(self)@[k],
            decreases n - i,
        {
            let ghost before = self@;
            proof {
                assert(before[i as int] == self.process_groups@[i as int]@);
            }
            self.process_groups[i].set_removed();
            proof {
                let after = GroupView { removed: true, ..before[i as int] };
                assert(self@ =~= before.update(i as int, after));
                assert(before[i as int].wf());
                lemma_update_keeps_wf(before, i as int, after);
            }
            i += 1;
        }
        proof {
            assert(self@ =~= retired(old(self)@));
            assert(all.take(all.len() as int) == all);
        }
        while specs.len() > 0
            invariant
                groups_wf(self@),
                specs@.len() <= all.len(),
                spec_views(specs@) == all.take(specs@.len() as int),
                forall|k: int| 0 <= k < specs@.len() ==> (#[trigger] specs@[k])@.wf(),
                merged(retired(old(self)@), all) == merged(self@, spec_views(specs@)),
            decreases specs@.len(),
        {
            let ghost before = self@;
            let ghost rest = spec_views(specs@);
            let ghost last = specs@[specs@.len() - 1];
            let spec = specs.pop().unwrap();
            proof {
                assert(spec == last);
                assert(spec@ == rest.last());
                assert(spec_views(specs@) =~= rest.drop_last());
                assert(spec_views(specs@) =~= all.take(specs@.len() as int));
                lemma_adopted_wf(before, spec@);
            }
            match self.position(spec.programname().as_str()) {
                Some(k) => {
                    proof {
                        assert(before[k as int] == self.process_groups@[k as int]@);
                        assert(before[k as int].wf());
                        assert forall|m: int| group_at(before, spec@.programname, m) implies m
                            == k by {
                            if m < k {
                                assert(before[m].program.programname != before[k as int].program.programname);
                            } else if m > k {
                                assert(before[k as int].program.programname != before[m].program.programname);
                            }
                        }
                        assert(group_at(before, spec@.programname, k as int));
                    }
                    self.process_groups[k].set_program(spec);
                    proof {
                        assert(self@ =~= adopted(before, rest.last()));
                    }
                },
                None => {
                    let group = ProcessGroup::empty(spec);
                    self.process_groups.push(group);
                    proof {
                        assert(self@ =~= adopted(before, rest.last()));
                    }
                },
            }
        }
        let ghost m = self@;
        let count = self.process_groups.len();
        let mut ds: Vec<Vec<Directive>> = Vec::new();
        let mut g: usize = 0;
        while g < count
            invariant
                g <= count,
                count == m.len(),
                self@.len() == count,
                groups_wf(self@),
                ds@.len() == g,
                forall|k: int| 0 <= k < g ==> #[trigger] self@[k] == m[k].reconciled_group(now),
                forall|k: int| g <= k < count ==> #[trigger] self@[k] == m[k],
                forall|k: int|
                    0 <= k < g ==> (#[trigger] ds@[k])@ == m[k].reconcile_directives(now),
            decreases count - g,
        {
            let ghost before = self@;
            proof {
                assert(before[g as int] == self.process_groups@[g as int]@);
                assert(before[g as int].wf());
            }
            let list = self.process_groups[g].ensure_replicas(now);
            proof {
                let after = before[g as int].reconciled_group(now);
                assert(self@ =~= before.update(g as int, after));
                lemma_update_keeps_wf(before, g as int, after);
            }
            ds.push(list);
            g += 1;
        }
        proof {
            assert(self@ =~= reloaded(old(self)@, all, now));
            assert(directive_lists(ds@) =~= reload_directives(old(self)@, all, now));
        }
        ds
    }

    /// Stops everything before the daemon ends: every supervised instance of
    /// every group is stopped, which also drops every pending retry. The
    /// answer holds, by group and index, what the driver has to do.
    pub fn shutdown(&mut self, now: u64) -> (ds: Vec<Vec<Directive>>)
        requires
            old(self).wf(),
        ensures
            final(self).wf(),
            final(self)@.len() == old(self)@.len(),
            ds@.len() == old(self)@.len(),
            forall|g: int|
                0 <= g < ds@.len() ==> {
                    &&& #[trigger] final(self)@[g] == old(self)@[g].fanned(Event::Stop, now)
                    &&& ds@[g]@ == old(self)@[g].fan_directives(Event::Stop, now)
                },
    {
        let count = self.process_groups.len();
        let mut ds: Vec<Vec<Directive>> = Vec::new();
        let mut g: usize = 0;
        while g < count
            invariant
                g <= count,
                count == old(self)@.len(),
                self@.len() == count,
                groups_wf(self@),
                ds@.len() == g,
                forall|k: int|
                    0 <= k < g ==> {
                        &&& #[trigger] self@[k] == old(self)@[k].fanned(Event::Stop, now)
                        &&& ds@[k]@ == old(self)@[k].fan_directives(Event::Stop, now)
                    },
                forall|k: int| g <= k < count ==> #[trigger] self@[k] == old(self)@[k],
            decreases count - g,
        {
            let list = self.fan_at(g, Event::Stop, now);
            ds.push(list);
            g += 1;
        }
        ds
    }

    /// The seconds within which a shutdown is complete or every straggler is
    /// reported as stuck: the instances stop side by side, so this is the
    /// longest that any stopping instance may still take.
    pub fn shutdown_budget(&self) -> (r: u64)
        ensures
            r == longest_grace_of(self@),
    {
        let mut longest: u64 = 0;
        let mut i: usize = 0;
        proof {
            assert(self@.take(0).len() == 0);
        }
        while i < self.process_groups.len()
            invariant
                i <= self.process_groups@.len(),
                longest == longest_grace_of(self@.take(i as int)),
            decreases self.process_groups@.len() - i,
        {
            proof {
                let longer = self@.take(i + 1);
                assert(longer.drop_last() == self@.take(i as int));
                assert(longer.last() == self.process_groups@[i as int]@);
            }
            let grace = self.process_groups[i].longest_grace();
            if grace > longest {
                longest = grace;
            }
            i += 1;
        }
        proof {
            assert(self@.take(i as int) == self@);
        }
        longest
    }

    /// Whether every instance of every group is at rest.
    pub fn all_stopped(&self) -> (r: bool)
        ensures
            r == forall|g: int, i: int|
                0 <= g < self@.len() && 0 <= i < self@[g].processes.len() ==> (
                #[trigger] self@[g].processes[i]).core.idle(),
    {
        let mut g: usize = 0;
        while g < self.process_groups.len()
            invariant
                g <= self.process_groups@.len(),
                forall|k: int, i: int|
                    0 <= k < g && 0 <= i < self@[k].processes.len() ==> (
                    #[trigger] self@[k].processes[i]).core.idle(),
            decreases self.process_groups@.len() - g,
        {
            proof {
                assert(self@[g as int] == self.process_groups@[g as int]@);
            }
            if !self.process_groups[g].all_stopped() {
                proof {
                    let i = choose|i: int|
                        0 <= i < self@[g as int].processes.len() && !(
                        #[trigger] self@[g as int].processes[i]).core.idle();
                    assert(!self@[g as int].processes[i].core.idle());
                }
                return false;
            }
            g += 1;
        }
        true
    }

    /// Drops what has come to rest after being retired: in each group the
    /// instances beyond the number of replicas, from the end, and each group
    /// of which nothing is left.
    pub fn reap(&mut self)
        requires
            old(self).wf(),
        ensures
            final(self).wf(),
            final(self)@ == swept(old(self)@),
    {
        let n = self.process_groups.len();
        let mut i: usize = n;
        let ghost kept_tail: Seq<GroupView> = Seq::empty();
        proof {
            assert(old(self)@.take(n as int) == old(self)@);
            assert(self@ =~= old(self)@.take(n as int) + kept_tail);
            assert(swept(old(self)@.take(n as int)) + kept_tail =~= swept(old(self)@));
        }
        while i > 0
            invariant
                i <= n,
                n == old(self)@.len(),
                groups_wf(old(self)@),
                self@.len() == i + kept_tail.len(),
                self@ == old(self)@.take(i as int) + kept_tail,
                swept(old(self)@) == swept(old(self)@.take(i as int)) + kept_tail,
                forall|k: int| 0 <= k < kept_tail.len() ==> (#[trigger] kept_tail[k]).wf(),
                forall|k: int|
                    0 <= k < kept_tail.len() ==> exists|j: int|
                        i <= j < n && (#[trigger] kept_tail[k]).program.programname == old(
                            self,
                        )@[j].program.programname,
                forall|a: int, b: int|
                    0 <= a < b < kept_tail.len() ==> (#[trigger] kept_tail[a]).program.programname
                        != (#[trigger] kept_tail[b]).program.programname,
            decreases i,
        {
            i -= 1;
            let ghost before = self@;
            let ghost prefix = old(self)@.take(i as int);
            let ghost current = old(self)@[i as int];
            proof {
                assert(old(self)@.take(i + 1).drop_last() == prefix);
                assert(old(self)@.take(i + 1).last() == current);
                assert(before[i as int] == current);
                assert(before[i as int] == self.process_groups@[i as int]@);
                assert(current.wf());
            }
            self.process_groups[i].reap();
            let ghost reaped = current.reaped();
            proof {
                assert(self@ =~= before.update(i as int, reaped));
            }
            if self.process_groups[i].is_gone() {
                let ghost mid = self@;
                let ghost held = self.process_groups@;
                self.process_groups.remove(i);
                proof {
                    assert(self.process_groups@ == held.remove(i as int));
                    assert(self@.len() == (prefix + kept_tail).len());
                    assert forall|k: int| 0 <= k < self@.len() implies self@[k] == (prefix
                        + kept_tail)[k] by {
                        if k < i {
                            assert(self.process_groups@[k] == held[k]);
                            assert(mid[k] == held[k]@);
                        } else {
                            assert(self.process_groups@[k] == held[k + 1]);
                            assert(mid[k + 1] == held[k + 1]@);
                        }
                    }
                    assert(self@ =~= prefix + kept_tail);
                }
            } else {
                proof {
                    let longer = seq![reaped] + kept_tail;
                    assert(self@ =~= prefix + longer);
                    assert(swept(old(self)@.take(i + 1)) + kept_tail =~= swept(prefix) + longer);
                    assert forall|k: int| 0 <= k < longer.len() implies exists|j: int|
                        i <= j < n && (#[trigger] longer[k]).program.programname == old(
                            self,
                        )@[j].program.programname by {
                        if k == 0 {
                            assert(longer[0].program.programname == old(
                                self,
                            )@[i as int].program.programname);
                        } else {
                            assert(longer[k] == kept_tail[k - 1]);
                            let j = choose|j: int|
                                i + 1 <= j < n && kept_tail[k - 1].program.programname == old(
                                    self,
                                )@[j].program.programname;
                            assert(i <= j < n);
                        }
                    }
                    assert forall|a: int, b: int| 0 <= a < b < longer.len() implies (
                    #[trigger] longer[a]).program.programname != (
                    #[trigger] longer[b]).program.programname by {
                        assert(longer[b] == kept_tail[b - 1]);
                        if a == 0 {
                            let j = choose|j: int|
                                i + 1 <= j < n && kept_tail[b - 1].program.programname == old(
                                    self,
                                )@[j].program.programname;
                            assert(old(self)@[i as int].program.programname != old(
                                self,
                            )@[j].program.programname);
                        } else {
                            assert(longer[a] == kept_tail[a - 1]);
                        }
                    }
                    assert forall|k: int| 0 <= k < longer.len() implies (#[trigger] longer[k]).wf() by {
                        if k > 0 {
                            assert(longer[k] == kept_tail[k - 1]);
                        } else {
                            lemma_reaped_wf(current);
                        }
                    }
                    kept_tail = longer;
                }
            }
        }
        proof {
            assert(old(self)@.take(0) =~= Seq::<GroupView>::empty());
            assert(self@ =~= kept_tail);
            assert(swept(old(self)@) =~= kept_tail);
        }
    }
}

/// What an operator command on the program `name` does: where the program
/// has a group and is not gone, `event` goes to every supervised instance of
/// that group and to nothing else; otherwise the name is reported as not
/// found and nothing changes.
pub open spec fn command_done(
    before: Seq<GroupView>,
    after: Seq<GroupView>,
    name: Seq<char>,
    event: Event,
    now: u64,
    r: Result<Vec<Directive>, ExecError>,
) -> bool {
    match r {
        Ok(ds) => exists|i: int|
            {
                &&& #[trigger] group_at(before, name, i)
                &&& !before[i].removed
                &&& after == before.update(i, before[i].fanned(event, now))
                &&& ds@ == before[i].fan_directives(event, now)
            },
        Err(e) => {
            &&& e == ExecError::ProcessNameNotFound
            &&& after == before
            &&& forall|i: int| group_at(before, name, i) ==> before[i].removed
        },
    }
}

/// Replacing a group by a well-formed one of the same program keeps the
/// invariant of the engine.
pub proof fn lemma_update_keeps_wf(groups: Seq<GroupView>, i: int, after: GroupView)
    requires
        groups_wf(groups),
        0 <= i < groups.len(),
        after.program.programname == groups[i].program.programname,
        after.program.wf(),
        after.processes.len() <= 256,
        forall|k: int|
            0 <= k < after.processes.len() ==> {
                let p = #[trigger] after.processes[k];
                &&& p.wf()
                &&& p.index == k
                &&& p.name == crate::config::program::instance_name(
                    after.program.programname,
                    k as nat,
                )
            },
    ensures
        groups_wf(groups.update(i, after)),
{
    let updated = groups.update(i, after);
    assert forall|k: int| 0 <= k < updated.len() implies (#[trigger] updated[k]).wf() by {
        if k != i {
            assert(updated[k] == groups[k]);
        }
    }
    assert forall|a: int, b: int| 0 <= a < b < updated.len() implies (
    #[trigger] updated[a]).program.programname != (#[trigger] updated[b]).program.programname by {
        assert(updated[a].program.programname == groups[a].program.programname);
        assert(updated[b].program.programname == groups[b].program.programname);
    }
}

/// Dropping retired instances keeps a group well formed.
pub proof fn lemma_reaped_wf(g: GroupView)
    requires
        g.wf(),
    ensures
        g.reaped().wf(),
{
    crate::exec::process_group::lemma_kept_bounds(g);
    let r = g.reaped();
    assert forall|k: int| 0 <= k < r.processes.len() implies {
        let p = #[trigger] r.processes[k];
        &&& p.wf()
        &&& p.index == k
        &&& p.name == crate::config::program::instance_name(r.program.programname, k as nat)
    } by {
        assert(r.processes[k] == g.processes[k]);
    }
}

} // verus!
