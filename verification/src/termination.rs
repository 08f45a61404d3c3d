//! Every run of the installer ends: a measure of the work left that each
//! step lowers, as long as each command handed out gets its outcome.

use vstd::prelude::*;

use crate::laws::{law_apt_bookkeeping_at_start, law_next_keeps_well_formed, lemma_unwind_keeps_callers};
use crate::machine::{
    current, initial_machine, next, run, unwind, well_formed, FrameView, MachineView,
};
use crate::program::{
    apt_update_program, dependency_calls, docker_program, ffmpeg_program, install_all_entry,
    install_each, install_tool_program, linux_only_program, miniconda_program,
    node_program, nvm_program, ossutil_program, package_program, pm2_program, routine_program,
    tosutil_program, HostView, InstrView, RoutineView,
};
use crate::tools::{dependencies_of, supported_tool_names, tool_named, Tool};

verus! {

/// The most steps a routine takes from its call to its end.
pub open spec fn bound(r: RoutineView) -> nat {
    match r {
        RoutineView::AptUpdate => 5,
        RoutineView::Package(_) => 20,
        RoutineView::Install(t) => match t {
            Tool::Ossutil => 15,
            Tool::Miniconda => 12,
            Tool::Nvm => 8,
            Tool::Node => 22,
            Tool::Pm2 => 58,
            Tool::Ffmpeg => 23,
            Tool::Docker => 16,
            Tool::Tosutil => 13,
        },
        RoutineView::InstallTool(_) => 127,
        RoutineView::InstallAll => 1041,
    }
}

/// The most steps an instruction takes, a call included.
pub open spec fn instr_cost(i: InstrView) -> nat {
    match i {
        InstrView::Say(_) => 1,
        InstrView::Shell { .. } => 2,
        InstrView::Exec { .. } => 2,
        InstrView::Probe { .. } => 2,
        InstrView::Call { routine, .. } => 2 + bound(routine),
        InstrView::Return(_) => 1,
        InstrView::MarkAptUpdated => 1,
    }
}

/// The most steps a routine takes from instruction `j` to its end.
pub open spec fn remaining(p: Seq<InstrView>, j: nat) -> nat
    decreases p.len() - j,
{
    if j >= p.len() {
        1
    } else {
        instr_cost(p[j as int]) + remaining(p, j + 1)
    }
}

/// Every silent check jumps forward.
pub open spec fn forward_jumps(p: Seq<InstrView>) -> bool {
    forall|j: int|
        0 <= j < p.len() && (#[trigger] p[j]) is Probe ==> p[j]->on_success > j
}

proof fn lemma_remaining_monotone(p: Seq<InstrView>, j: nat, k: nat)
    requires
        j <= k,
    ensures
        remaining(p, k) <= remaining(p, j),
    decreases k - j,
{
    if j < k {
        lemma_remaining_monotone(p, j + 1, k);
    }
}

proof fn lemma_remaining_concat(a: Seq<InstrView>, b: Seq<InstrView>, j: nat)
    requires
        j <= a.len(),
    ensures
        remaining(a + b, j) + 1 == remaining(a, j) + remaining(b, 0),
    decreases a.len() - j,
{
    if j < a.len() {
        lemma_remaining_concat(a, b, j + 1);
        assert((a + b)[j as int] == a[j as int]);
    } else {
        lemma_remaining_shift(a, b, 0);
    }
}

proof fn lemma_remaining_shift(a: Seq<InstrView>, b: Seq<InstrView>, k: nat)
    ensures
        remaining(a + b, a.len() + k) == remaining(b, k),
    decreases b.len() - k,
{
    if k < b.len() {
        lemma_remaining_shift(a, b, k + 1);
        assert((a + b)[(a.len() + k) as int] == b[k as int]);
    }
}


proof fn lemma_small_programs(refreshed: bool, p: Seq<char>, user: Seq<char>, msg: Seq<char>)
    ensures
        remaining(apt_update_program(refreshed), 0) <= 5,
        remaining(package_program(p), 0) == 20,
        remaining(linux_only_program(msg), 0) == 3,
        remaining(nvm_program(), 0) == 8,
        remaining(node_program(), 0) == 22,
        remaining(pm2_program(), 0) == 58,
        remaining(ossutil_program(), 0) == 15,
        remaining(miniconda_program(), 0) == 12,
        remaining(tosutil_program(), 0) == 13,
        remaining(ffmpeg_program(), 0) == 23,
        remaining(docker_program(user), 0) <= 16,
        forward_jumps(package_program(p)),
        forward_jumps(node_program()),
        forward_jumps(pm2_program()),
{
    reveal_with_fuel(remaining, 12);
    assert(remaining(apt_update_program(refreshed), 0) <= 5);
    assert(remaining(package_program(p), 0) == 20);
    assert(remaining(linux_only_program(msg), 0) == 3);
    assert(remaining(nvm_program(), 0) == 8);
    assert(remaining(node_program(), 0) == 22);
    assert(remaining(pm2_program(), 0) == 58);
    assert(remaining(ossutil_program(), 0) == 15);
    assert(remaining(miniconda_program(), 0) == 12);
    assert(remaining(tosutil_program(), 0) == 13);
    assert(remaining(ffmpeg_program(), 0) == 23);
    assert(remaining(docker_program(user), 0) <= 16);
}


proof fn lemma_install_each_cost(names: Seq<Seq<char>>)
    ensures
        remaining(install_each(names), 0) == 130 * names.len() + 1,
        forward_jumps(install_each(names)),
    decreases names.len(),
{
    if names.len() > 0 {
        let init = names.drop_last();
        lemma_install_each_cost(init);
        let e = install_all_entry(names.last());
        lemma_remaining_concat(install_each(init), e, 0);
        reveal_with_fuel(remaining, 3);
        assert(remaining(e, 0) == 131);
        let prog = install_each(names);
        assert forall|j: int| 0 <= j < prog.len() && (#[trigger] prog[j]) is Probe implies prog[j]->on_success > j by {
            if j < install_each(init).len() {
                assert(prog[j] == install_each(init)[j]);
            }
        }
    }
}

proof fn lemma_dependency_calls_cost(ds: Seq<Seq<char>>, j: nat)
    requires
        j <= ds.len(),
    ensures
        remaining(dependency_calls(ds), j) == 22 * (ds.len() - j) + 1,
    decreases ds.len() - j,
{
    if j < ds.len() {
        lemma_dependency_calls_cost(ds, j + 1);
    }
}

proof fn lemma_install_tool_cost(name: Seq<char>)
    ensures
        remaining(install_tool_program(name), 0) <= 127,
        forward_jumps(install_tool_program(name)),
{
    reveal_with_fuel(remaining, 4);
    match tool_named(name) {
        None => {},
        Some(t) => {
            let ds = dependencies_of(name);
            let dc = dependency_calls(ds);
            let last = seq![
                InstrView::Call { routine: RoutineView::Install(t), must_succeed: true },
            ];
            assert(install_tool_program(name) == dc + last);
            lemma_dependency_calls_cost(ds, 0);
            lemma_remaining_concat(dc, last, 0);
            assert(ds.len() <= 3);
            let prog = install_tool_program(name);
            assert forall|j: int| 0 <= j < prog.len() && (#[trigger] prog[j]) is Probe implies prog[j]->on_success > j by {
                if j < dc.len() {
                    assert(prog[j] == dc[j]);
                }
            }
        },
    }
}

/// Every routine's program stays within the routine's bound and only jumps
/// forward.
pub proof fn lemma_program_cost(r: RoutineView, refreshed: bool, host: HostView)
    ensures
        remaining(routine_program(r, refreshed, host), 0) <= bound(r),
        forward_jumps(routine_program(r, refreshed, host)),
{
    match r {
        RoutineView::InstallAll => {
            lemma_install_each_cost(supported_tool_names());
        },
        RoutineView::InstallTool(name) => {
            lemma_install_tool_cost(name);
        },
        RoutineView::Package(p) => {
            lemma_small_programs(refreshed, p, host.docker_user, crate::program::apt_only_message());
        },
        RoutineView::AptUpdate => {
            lemma_small_programs(refreshed, Seq::empty(), host.docker_user, Seq::empty());
        },
        RoutineView::Install(t) => {
            lemma_small_programs(
                refreshed,
                Seq::empty(),
                host.docker_user,
                crate::program::linux_only_message(t),
            );
            let prog = routine_program(r, refreshed, host);
            assert forall|j: int| 0 <= j < prog.len() && (#[trigger] prog[j]) is Probe implies prog[j]->on_success > j by {
                if host.linux && t is Docker {
                    assert(prog[j] is Say || prog[j] is Shell || prog[j] is Exec);
                }
            }
        },
    }
}


// ---------------------------------------------------------------------------
// the measure

/// The most steps left to the routines waiting below the running one: each
/// goes on after its call.
pub open spec fn callers_cost(fs: Seq<FrameView>) -> nat
    decreases fs.len(),
{
    if fs.len() == 0 {
        0
    } else {
        callers_cost(fs.drop_last()) + remaining(fs.last().program, fs.last().pc + 1)
    }
}

/// The most steps left to the running routine; a command handed out has
/// taken one of its two steps.
pub open spec fn top_cost(f: FrameView, awaiting: bool) -> nat {
    if awaiting {
        (remaining(f.program, f.pc) - 1) as nat
    } else {
        remaining(f.program, f.pc)
    }
}

/// The most steps left until the machine ends, when every command handed
/// out gets its outcome.
pub open spec fn work_left(m: MachineView) -> nat {
    if m.result is Some || m.frames.len() == 0 {
        0
    } else {
        callers_cost(m.frames.drop_last()) + top_cost(m.frames.last(), m.awaiting)
    }
}

/// Every routine in progress stays within its bound and only jumps forward.
pub open spec fn costed(m: MachineView) -> bool {
    &&& well_formed(m)
    &&& forall|i: int|
        0 <= i < m.frames.len() ==> remaining((#[trigger] m.frames[i]).program, 0) <= bound(
            m.frames[i].routine,
        ) && forward_jumps(m.frames[i].program)
}

/// Ending the running routine leaves at most the work of the callers.
proof fn lemma_unwind_cost(frames: Seq<FrameView>, ok: bool)
    requires
        frames.len() >= 1,
    ensures
        unwind(frames, ok).1 is None ==> callers_cost(unwind(frames, ok).0.drop_last()) + remaining(
            unwind(frames, ok).0.last().program,
            unwind(frames, ok).0.last().pc,
        ) <= callers_cost(frames.drop_last()),
    decreases frames.len(),
{
    if frames.len() > 1 {
        let rest = frames.drop_last();
        if !ok && crate::machine::aborts_on_failure(current(rest.last())) {
            lemma_unwind_cost(rest, false);
        } else {
            let res = unwind(frames, ok).0;
            assert(res.drop_last() =~= rest.drop_last());
        }
    }
}


/// A step keeps every routine within its bound, and lowers the work left
/// unless it waits for an outcome that was not given.
pub proof fn lemma_step_lowers_work(m: MachineView, o: Option<bool>)
    requires
        costed(m),
        m.result is None,
        m.awaiting ==> o is Some,
    ensures
        costed(next(m, o).0),
        work_left(next(m, o).0) < work_left(m),
{
    let m1 = next(m, o).0;
    let n = m.frames.len();
    let f = m.frames.last();
    assert(m.frames[n - 1] == f);
    law_next_keeps_well_formed(m, o);
    lemma_unwind_keeps_callers(m.frames, true);
    lemma_unwind_keeps_callers(m.frames, false);
    lemma_unwind_cost(m.frames, true);
    lemma_unwind_cost(m.frames, false);
    assert forall|pc: nat| true implies (#[trigger] crate::machine::with_top_pc(m.frames, pc)).drop_last()
        == m.frames.drop_last() by {
        assert(crate::machine::with_top_pc(m.frames, pc).drop_last() =~= m.frames.drop_last());
    }
    if f.pc < f.program.len() {
        lemma_remaining_monotone(f.program, f.pc + 1, f.pc + 1);
        assert(remaining(f.program, f.pc) == instr_cost(current(f)) + remaining(f.program, f.pc + 1));
        if let InstrView::Probe { on_success, .. } = current(f) {
            assert(f.program[f.pc as int] is Probe);
            lemma_remaining_monotone(f.program, f.pc + 1, on_success);
        }
    }
    if !m.awaiting && f.pc < f.program.len() {
        match current(f) {
            InstrView::Return(b) => {
                lemma_unwind_keeps_callers(m.frames, b);
                lemma_unwind_cost(m.frames, b);
            },
            InstrView::Call { routine, .. } => {
                lemma_program_cost(routine, m.apt_updated, m.host);
                assert(m1.frames.drop_last() =~= m.frames);
                assert(m.frames =~= m.frames.drop_last().push(f));
            },
            _ => {},
        }
    }
}


/// The outcomes handed to the machine when every step gets one.
pub open spec fn answers(results: Seq<bool>) -> Seq<Option<bool>> {
    results.map_values(|r: bool| Some(r))
}

proof fn lemma_work_positive(m: MachineView)
    requires
        costed(m),
        m.result is None,
    ensures
        work_left(m) >= 1,
{
    let f = m.frames.last();
    if m.awaiting {
        assert(remaining(f.program, f.pc) == instr_cost(current(f)) + remaining(f.program, f.pc + 1));
    }
}

proof fn lemma_run_ends(m: MachineView, results: Seq<bool>)
    requires
        costed(m),
        results.len() >= work_left(m),
    ensures
        run(m, answers(results)).0.result is Some,
    decreases results.len(),
{
    if m.result is Some {
        crate::routine_laws::lemma_finished_run(m, answers(results));
    } else {
        lemma_work_positive(m);
        let r = results[0];
        lemma_step_lowers_work(m, Some(r));
        assert(answers(results)[0] == Some(r));
        assert(answers(results).drop_first() =~= answers(results.drop_first()));
        lemma_run_ends(next(m, Some(r)).0, results.drop_first());
    }
}

/// Every run of the installer ends: when each step gets an outcome, the
/// requested routine has ended within its bound of steps, and no routine
/// takes more than 1041.
pub proof fn law_every_run_ends(root: RoutineView, host: HostView, results: Seq<bool>)
    requires
        results.len() >= bound(root),
    ensures
        run(initial_machine(root, host), answers(results)).0.result is Some,
        bound(root) <= 1041,
{
    law_apt_bookkeeping_at_start(root, host);
    lemma_program_cost(root, false, host);
    let m = initial_machine(root, host);
    assert(m.frames.drop_last() =~= Seq::<FrameView>::empty());
    assert(m.frames[0] == m.frames.last());
    lemma_run_ends(m, results);
}

} // verus!
