//! What holds of the engine as a whole, beyond the contract of any one
//! function: each statement here is proved from the definitions of the
//! lifecycle, of the groups and of a reload.

use crate::config::program::{
    instance_name, lemma_instance_names_distinct, AutoRestart, ProgramView,
};
use crate::exec::backoff::{backoff_delay, lemma_backoff_grows};
use crate::exec::process::{
    quiet, Event, ExitStatus, ProcessState, ProcessView, Report, Signal, Timer, TimerKind,
    KILL_MARGIN_SECS,
};
use crate::exec::process_group::{fresh_instance, GroupView};
use crate::exec::process_manager::{
    adopted, group_at, groups_wf, has_group, lemma_adopted_wf, merged, reload_directives,
    reloaded, retired,
};
use vstd::prelude::*;

verus! {

/// Under the policy that restarts after every exit, a running instance
/// whose process ends, with whatever status, is started again.
pub proof fn law_always_restarts(p: ProcessView, program: ProgramView, status: ExitStatus, now: u64)
    requires
        p.wf(),
        p.core.state == ProcessState::RUNNING,
        p.core.policy.autorestart == AutoRestart::True,
    ensures
        p.next(program, Event::Exited(status), now).0.core.state == ProcessState::STARTING,
        p.next(program, Event::Exited(status), now).1.spawn,
{
}

/// An instance that is started under a program that restarts after every
/// exit, comes up and stays up long enough is `RUNNING`; when its process
/// then ends it is started again, whatever the status and whatever the
/// program's description has become. After a stop it is not: it ends
/// `STOPPED`, and no spawn is asked for.
pub proof fn law_always_restarts_unless_stopped(
    p: ProcessView,
    program: ProgramView,
    later: ProgramView,
    pid: u32,
    status: ExitStatus,
    now: u64,
)
    requires
        p.wf(),
        p.core.idle(),
        program.autorestart == AutoRestart::True,
    ensures
        ({
            let started = p.next(program, Event::Start, now).0;
            let spawned = started.next(program, Event::Spawned(pid), now).0;
            let running = spawned.next(
                program,
                Event::Timer(TimerKind::StartConfirm, spawned.core.epoch),
                now,
            ).0;
            let stopping = running.next(later, Event::Stop, now).0;
            &&& running.core.state == ProcessState::RUNNING
            &&& running.next(later, Event::Exited(status), now).0.core.state
                == ProcessState::STARTING
            &&& running.next(later, Event::Exited(status), now).1.spawn
            &&& stopping.core.state == ProcessState::STOPPING
            &&& stopping.next(later, Event::Exited(status), now).0.core.state
                == ProcessState::STOPPED
            &&& !stopping.next(later, Event::Exited(status), now).1.spawn
        }),
{
}

/// Whether a step counts as the operator's start: the event is a start or a
/// restart, or it completes the stop of a restart.
pub open spec fn by_operator(p: ProcessView, event: Event) -> bool {
    event == Event::Start || event == Event::Restart || p.core.restart_pending
}

/// The count of failed starts is forgotten on entering `RUNNING`, and by
/// nothing else that happens by itself: a step changes the count only when
/// the instance enters `RUNNING` (to zero), when a start fails (by one), or
/// when the operator starts the instance (to zero). A spawn that the
/// operator did not ask for leaves the count as it is.
pub proof fn law_retry_count_reset(p: ProcessView, program: ProgramView, event: Event, now: u64)
    requires
        p.wf(),
    ensures
        ({
            let (q, d) = p.next(program, event, now);
            let entered = q.core.state == ProcessState::RUNNING && p.core.state
                != ProcessState::RUNNING;
            &&& entered ==> q.core.retry_count == 0
            &&& q.core.retry_count != p.core.retry_count ==> {
                ||| entered
                ||| (p.core.state == ProcessState::STARTING && q.core.state
                    == ProcessState::BACKOFF && q.core.retry_count == p.core.one_more())
                ||| (by_operator(p, event) && q.core.state == ProcessState::STARTING
                    && q.core.retry_count == 0)
            }
            &&& d.spawn && !by_operator(p, event) ==> q.core.retry_count == p.core.retry_count
        }),
{
}

/// How a start fails: the spawn fails, or the process that it gave ends
/// before it counts as started.
pub enum Failure {
    Spawn,
    EarlyExit(u32, ExitStatus),
}

/// The instance after one failed start.
pub open spec fn after_failure(p: ProcessView, program: ProgramView, how: Failure, now: u64) -> ProcessView {
    match how {
        Failure::Spawn => p.next(program, Event::SpawnFailed, now).0,
        Failure::EarlyExit(pid, status) => p.next(program, Event::Spawned(pid), now).0.next(
            program,
            Event::Exited(status),
            now,
        ).0,
    }
}

/// The instance after one failed start and the delay that follows it.
pub open spec fn after_attempt(p: ProcessView, program: ProgramView, how: Failure, now: u64) -> ProcessView {
    let failed = after_failure(p, program, how, now);
    failed.next(program, Event::Timer(TimerKind::Backoff, failed.core.epoch), now).0
}

/// The instance after `n` failed starts in a row, each followed by its
/// delay.
pub open spec fn after_attempts(
    p: ProcessView,
    program: ProgramView,
    how: Failure,
    n: nat,
    now: u64,
) -> ProcessView
    decreases n,
{
    if n == 0 {
        p
    } else {
        after_attempt(after_attempts(p, program, how, (n - 1) as nat, now), program, how, now)
    }
}

/// While the failed starts are fewer than the program allows, the instance
/// is started again after each, and the count of failures is their number.
pub proof fn law_retries_counted(
    p: ProcessView,
    program: ProgramView,
    how: Failure,
    n: nat,
    now: u64,
)
    requires
        p.wf(),
        p.core.state == ProcessState::STARTING,
        p.core.pid is None,
        p.core.retry_count == 0,
        n < program.startretries,
    ensures
        ({
            let q = after_attempts(p, program, how, n, now);
            &&& q.wf()
            &&& q.core.state == ProcessState::STARTING
            &&& q.core.pid is None
            &&& q.core.retry_count == n
        }),
    decreases n,
{
    if n > 0 {
        law_retries_counted(p, program, how, (n - 1) as nat, now);
    }
}

/// An instance whose start fails as many times in a row as the program
/// allows (at least once) ends `FATAL`, and the step that takes it there
/// asks for no spawn.
pub proof fn law_retries_exhausted(p: ProcessView, program: ProgramView, how: Failure, now: u64)
    requires
        p.wf(),
        p.core.state == ProcessState::STARTING,
        p.core.pid is None,
        p.core.retry_count == 0,
    ensures
        ({
            let n: nat = if program.startretries == 0 {
                1
            } else {
                program.startretries as nat
            };
            let before = after_attempts(p, program, how, (n - 1) as nat, now);
            let failed = after_failure(before, program, how, now);
            let last = failed.next(program, Event::Timer(TimerKind::Backoff, failed.core.epoch), now);
            &&& failed.core.state == ProcessState::BACKOFF
            &&& after_attempts(p, program, how, n, now) == last.0
            &&& last.0.core.state == ProcessState::FATAL
            &&& !last.1.spawn
        }),
{
    let n: nat = if program.startretries == 0 {
        1
    } else {
        program.startretries as nat
    };
    if program.startretries > 0 {
        law_retries_counted(p, program, how, (n - 1) as nat, now);
    }
}

/// A `FATAL` instance stays as it is, and no spawn is asked for, until the
/// operator starts or restarts it.
pub proof fn law_fatal_stays(p: ProcessView, program: ProgramView, event: Event, now: u64)
    requires
        p.wf(),
        p.core.state == ProcessState::FATAL,
        event != Event::Start,
        event != Event::Restart,
    ensures
        p.next(program, event, now).0 == p,
        !p.next(program, event, now).1.spawn,
{
}

/// The delays between failed starts grow: each is at least the one before,
/// and longer while the ceiling is not reached.
pub proof fn law_backoff_increases(failures: nat)
    requires
        failures >= 1,
    ensures
        backoff_delay(failures) <= backoff_delay(failures + 1),
        backoff_delay(failures) < crate::exec::backoff::BACKOFF_CEILING_SECS ==> backoff_delay(
            failures,
        ) < backoff_delay(failures + 1),
{
    lemma_backoff_grows(failures);
}

/// A stop of an instance with a process sends the stop signal of the
/// program, and arms the grace period; nothing forceful is sent.
pub proof fn law_stop_signals_first(p: ProcessView, program: ProgramView, now: u64)
    requires
        p.wf(),
        p.core.pid is Some,
        p.core.state != ProcessState::STOPPING,
    ensures
        ({
            let (q, d) = p.next(program, Event::Stop, now);
            &&& q.core.state == ProcessState::STOPPING
            &&& d.signal == Some(
                Signal { pid: p.core.pid.unwrap(), signal: p.core.policy.stopsignal },
            )
            &&& d.timer == Some(
                Timer {
                    kind: TimerKind::StopGrace,
                    secs: p.core.policy.stopwaitsecs,
                    epoch: q.core.epoch,
                },
            )
        }),
{
}

/// The process of an instance is sent a signal in two cases only: the stop
/// signal when a stop begins, and the forceful signal when the grace period
/// of a stop has run out with the process still there.
pub proof fn law_kill_only_after_grace(p: ProcessView, program: ProgramView, event: Event, now: u64)
    requires
        p.wf(),
        p.next(program, event, now).1.signal is Some,
        !(event is Spawned),
    ensures
        ({
            let (q, d) = p.next(program, event, now);
            let sent = d.signal.unwrap();
            &&& q.core.state == ProcessState::STOPPING
            &&& q.core.pid == Some(sent.pid)
            &&& {
                ||| (p.core.state != ProcessState::STOPPING && sent.signal
                    == p.core.policy.stopsignal && q.core.armed == Some(TimerKind::StopGrace))
                ||| (p.core.state == ProcessState::STOPPING && p.core.armed == Some(
                    TimerKind::StopGrace,
                ) && event == Event::Timer(TimerKind::StopGrace, p.core.epoch) && sent.signal
                    == 9)
            }
        }),
{
}

/// The time in `STOPPING` is bounded by the grace period and the margin:
/// every timer that is armed while stopping is the grace period of the stop,
/// or the margin behind the forceful signal; and when the margin runs out
/// the instance leaves `STOPPING` and is reported as stuck.
pub proof fn law_stopping_is_bounded(p: ProcessView, program: ProgramView, event: Event, now: u64)
    requires
        p.wf(),
    ensures
        ({
            let (q, d) = p.next(program, event, now);
            &&& q.core.state == ProcessState::STOPPING && d.timer is Some ==> {
                let t = d.timer.unwrap();
                ||| (t.kind == TimerKind::StopGrace && t.secs == q.core.policy.stopwaitsecs
                    && p.core.armed != Some(TimerKind::StopGrace) && p.core.armed != Some(
                    TimerKind::KillMargin,
                ))
                ||| (t.kind == TimerKind::KillMargin && t.secs == KILL_MARGIN_SECS
                    && p.core.armed == Some(TimerKind::StopGrace))
            }
            &&& p.core.state == ProcessState::STOPPING && p.core.armed == Some(
                TimerKind::KillMargin,
            ) && event == Event::Timer(TimerKind::KillMargin, p.core.epoch) ==> q.core.state
                == ProcessState::UNKNOWN && d.report == Some(Report::Stuck)
        }),
{
}

/// A restart whose stop is stuck issues no start: when the margin behind the
/// forceful signal runs out, the instance is reported as stuck and no spawn
/// is asked for, neither then nor when the process is found gone later.
pub proof fn law_stuck_restart_starts_nothing(
    p: ProcessView,
    program: ProgramView,
    status: ExitStatus,
    now: u64,
)
    requires
        p.wf(),
        p.core.state == ProcessState::STOPPING,
        p.core.armed == Some(TimerKind::KillMargin),
        p.core.restart_pending,
    ensures
        ({
            let (q, d) = p.next(program, Event::Timer(TimerKind::KillMargin, p.core.epoch), now);
            let (r, e) = q.next(program, Event::Exited(status), now);
            &&& d.report == Some(Report::Stuck)
            &&& !d.spawn
            &&& !q.core.restart_pending
            &&& r.core.state == ProcessState::STOPPED
            &&& !e.spawn
        }),
{
}

/// A timer that fires after the instance has left the transition that
/// armed it changes nothing.
pub proof fn law_stale_timer_ignored(
    p: ProcessView,
    program: ProgramView,
    kind: TimerKind,
    epoch: u64,
    now: u64,
)
    requires
        p.core.armed != Some(kind) || p.core.epoch != epoch,
    ensures
        p.next(program, Event::Timer(kind, epoch), now) == (p, quiet()),
{
}

/// A stop while a retry is pending drops the retry: the instance is
/// `STOPPED` at once, and the timer of the retry is stale from then on.
pub proof fn law_stop_cancels_retry(p: ProcessView, program: ProgramView, now: u64)
    requires
        p.wf(),
        p.core.state == ProcessState::BACKOFF,
    ensures
        ({
            let (q, d) = p.next(program, Event::Stop, now);
            &&& q.core.state == ProcessState::STOPPED
            &&& d == quiet()
            &&& q.next(program, Event::Timer(TimerKind::Backoff, p.core.epoch), now) == (
                q,
                quiet(),
            )
        }),
{
}

/// The instances of a group carry different names.
pub proof fn law_instances_distinct(g: GroupView, i: int, j: int)
    requires
        g.wf(),
        0 <= i < g.processes.len(),
        0 <= j < g.processes.len(),
        i != j,
    ensures
        g.processes[i].name != g.processes[j].name,
{
    lemma_instance_names_distinct(g.program.programname, i as nat, j as nat);
}

/// A program that asks for `N` replicas gets exactly `N` instances when its
/// group is first reconciled, named after the program and their index.
pub proof fn law_replicas_created(program: ProgramView, now: u64)
    requires
        program.wf(),
    ensures
        ({
            let created = (GroupView { program, removed: false, processes: Seq::empty() }).reconciled_group(
                now,
            );
            &&& created.processes.len() == program.numprocs
            &&& forall|i: int|
                0 <= i < created.processes.len() ==> {
                    &&& (#[trigger] created.processes[i]).index == i
                    &&& created.processes[i].name == instance_name(program.programname, i as nat)
                }
            &&& forall|i: int, j: int|
                0 <= i < j < created.processes.len() ==> (#[trigger] created.processes[i]).name != (
                #[trigger] created.processes[j]).name
        }),
{
    let g = GroupView { program, removed: false, processes: Seq::empty() };
    let created = g.reconciled_group(now);
    assert forall|i: int| 0 <= i < created.processes.len() implies {
        &&& (#[trigger] created.processes[i]).index == i
        &&& created.processes[i].name == instance_name(program.programname, i as nat)
    } by {
        assert(created.processes[i] == g.reconciled_at(i, now).0);
        assert(fresh_instance(program, i).index == i);
    }
    assert forall|i: int, j: int| 0 <= i < j < created.processes.len() implies (
    #[trigger] created.processes[i]).name != (#[trigger] created.processes[j]).name by {
        lemma_instance_names_distinct(program.programname, i as nat, j as nat);
    }
}

/// Whether some description in `specs` carries the name `name`.
pub open spec fn described_in(specs: Seq<ProgramView>, name: Seq<char>) -> bool {
    exists|k: int| 0 <= k < specs.len() && (#[trigger] specs[k]).programname == name
}

/// Taking descriptions in keeps every group at its place with its
/// instances; a group whose program is described takes one of the
/// descriptions of its name and is not gone; any other group stays as it is.
pub proof fn lemma_merged_keeps_instances(groups: Seq<GroupView>, specs: Seq<ProgramView>, g: int)
    requires
        groups_wf(groups),
        forall|k: int| 0 <= k < specs.len() ==> (#[trigger] specs[k]).wf(),
        0 <= g < groups.len(),
    ensures
        groups_wf(merged(groups, specs)),
        merged(groups, specs).len() >= groups.len(),
        merged(groups, specs)[g].processes == groups[g].processes,
        merged(groups, specs)[g].program.programname == groups[g].program.programname,
        described_in(specs, groups[g].program.programname) ==> {
            &&& !merged(groups, specs)[g].removed
            &&& exists|k: int|
                0 <= k < specs.len() && (#[trigger] specs[k]).programname
                    == groups[g].program.programname && merged(groups, specs)[g].program
                    == specs[k]
        },
        !described_in(specs, groups[g].program.programname) ==> merged(groups, specs)[g]
            == groups[g],
    decreases specs.len(),
{
    let name = groups[g].program.programname;
    if specs.len() > 0 {
        let last = specs.last();
        let rest = specs.drop_last();
        let taken = adopted(groups, last);
        lemma_adopted_wf(groups, last);
        assert forall|k: int| 0 <= k < rest.len() implies (#[trigger] rest[k]).wf() by {
            assert(rest[k] == specs[k]);
        }
        if has_group(groups, last.programname) {
            let i = choose|i: int| group_at(groups, last.programname, i);
            if i != g {
                assert(taken[g] == groups[g]);
                if last.programname == name {
                    if i < g {
                        assert(groups[i].program.programname != groups[g].program.programname);
                    } else {
                        assert(groups[g].program.programname != groups[i].program.programname);
                    }
                }
            }
        } else {
            assert(taken[g] == groups[g]);
            assert(!group_at(groups, last.programname, g));
        }
        lemma_merged_keeps_instances(taken, rest, g);
        if described_in(rest, name) {
            let k = choose|k: int|
                0 <= k < rest.len() && (#[trigger] rest[k]).programname == name && merged(
                    taken,
                    rest,
                )[g].program == rest[k];
            assert(specs[k] == rest[k]);
            assert(described_in(specs, name));
        } else if last.programname == name {
            assert(specs[specs.len() - 1].programname == name);
            assert(described_in(specs, name));
            assert(merged(taken, rest)[g] == taken[g]);
            assert(group_at(groups, last.programname, g));
        } else {
            assert(merged(taken, rest)[g] == taken[g]);
            if described_in(specs, name) {
                let k = choose|k: int| 0 <= k < specs.len() && (#[trigger] specs[k]).programname == name;
                if k < rest.len() {
                    assert(rest[k] == specs[k]);
                }
            }
        }
    }
}

/// A reload leaves alone every instance that its program still asks for:
/// where the program of a group is described again, each of its instances
/// below the number of replicas of every description of that name is
/// exactly as before, and the driver has nothing to do for it. In particular
/// a reload with an unchanged description moves no instance of a running
/// program.
pub proof fn law_reload_keeps_instances(
    groups: Seq<GroupView>,
    specs: Seq<ProgramView>,
    now: u64,
    g: int,
    i: int,
)
    requires
        groups_wf(groups),
        forall|k: int| 0 <= k < specs.len() ==> (#[trigger] specs[k]).wf(),
        0 <= g < groups.len(),
        0 <= i < groups[g].processes.len(),
        described_in(specs, groups[g].program.programname),
        forall|k: int|
            0 <= k < specs.len() && (#[trigger] specs[k]).programname
                == groups[g].program.programname ==> i < specs[k].numprocs,
    ensures
        g < reloaded(groups, specs, now).len(),
        i < reloaded(groups, specs, now)[g].processes.len(),
        reloaded(groups, specs, now)[g].processes[i] == groups[g].processes[i],
        reload_directives(groups, specs, now)[g][i] == quiet(),
{
    let r = retired(groups);
    assert(groups_wf(r)) by {
        assert forall|k: int| 0 <= k < r.len() implies (#[trigger] r[k]).wf() by {
            assert(groups[k].wf());
            assert forall|m: int| 0 <= m < r[k].processes.len() implies {
                let p = #[trigger] r[k].processes[m];
                &&& p.wf()
                &&& p.index == m
                &&& p.name == instance_name(r[k].program.programname, m as nat)
            } by {
                assert(r[k].processes[m] == groups[k].processes[m]);
            }
        }
        assert forall|a: int, b: int| 0 <= a < b < r.len() implies (
        #[trigger] r[a]).program.programname != (#[trigger] r[b]).program.programname by {
            assert(groups[a].program.programname != groups[b].program.programname);
        }
    }
    lemma_merged_keeps_instances(r, specs, g);
    let m = merged(r, specs);
    assert(m[g].processes == groups[g].processes);
    assert(i < m[g].active());
    assert(m[g].reconciled_at(i, now) == (groups[g].processes[i], quiet()));
}

/// A reload with the description that a program has already leaves its
/// group exactly as it is, where the group holds the replicas that the
/// program asks for and nothing else.
pub proof fn law_reload_unchanged(groups: Seq<GroupView>, specs: Seq<ProgramView>, now: u64, g: int)
    requires
        groups_wf(groups),
        forall|k: int| 0 <= k < specs.len() ==> (#[trigger] specs[k]).wf(),
        0 <= g < groups.len(),
        !groups[g].removed,
        groups[g].reconciled(),
        described_in(specs, groups[g].program.programname),
        forall|k: int|
            0 <= k < specs.len() && (#[trigger] specs[k]).programname
                == groups[g].program.programname ==> specs[k] == groups[g].program,
    ensures
        g < reloaded(groups, specs, now).len(),
        reloaded(groups, specs, now)[g] == groups[g],
        forall|i: int|
            0 <= i < groups[g].processes.len() ==> #[trigger] reload_directives(
                groups,
                specs,
                now,
            )[g][i] == quiet(),
{
    let r = retired(groups);
    assert(groups_wf(r)) by {
        assert forall|k: int| 0 <= k < r.len() implies (#[trigger] r[k]).wf() by {
            assert(groups[k].wf());
            assert forall|m: int| 0 <= m < r[k].processes.len() implies {
                let p = #[trigger] r[k].processes[m];
                &&& p.wf()
                &&& p.index == m
                &&& p.name == instance_name(r[k].program.programname, m as nat)
            } by {
                assert(r[k].processes[m] == groups[k].processes[m]);
            }
        }
        assert forall|a: int, b: int| 0 <= a < b < r.len() implies (
        #[trigger] r[a]).program.programname != (#[trigger] r[b]).program.programname by {
            assert(groups[a].program.programname != groups[b].program.programname);
        }
    }
    lemma_merged_keeps_instances(r, specs, g);
    let m = merged(r, specs);
    assert(m[g].program == groups[g].program);
    assert(m[g] == groups[g]);
    assert(m[g].reconciled_group(now).processes =~= groups[g].processes);
}

} // verus!
