//! Properties of the installer that span its routines and its steps.

use vstd::prelude::*;

use crate::cli::help_text_view;
use crate::commands::{apt_install_text, presence_check_text};
use crate::machine::{
    aborts_on_failure, callers_waiting, current, initial_machine, lemma_unwind_shape, next, run,
    unwind, well_formed, with_top_pc, ActionView, FrameView, MachineView,
};
use crate::program::{
    apt_update_program, call, dependency_calls, docker_group_step, docker_program,
    install_all_program, install_each, install_tool_program,
    joins_docker_group, package_program,
    routine_program, say, HostView, InstrView, RoutineView,
};
use crate::tools::{dependencies_of, supported_tool_names, tool_named};

verus! {

/// Once the requested routine has ended, the machine stays as it is and
/// keeps reporting the same result.
pub proof fn law_finished_is_final(m: MachineView, outcome: Option<bool>)
    requires
        m.result is Some,
    ensures
        next(m, outcome) == (m, ActionView::Finished(m.result->0)),
{
}

/// The record that apt's lists were refreshed is never lost.
pub proof fn law_apt_flag_never_cleared(m: MachineView, outcome: Option<bool>)
    requires
        m.apt_updated,
    ensures
        next(m, outcome).0.apt_updated,
{
}

/// Once apt's lists have been refreshed, refreshing them again does nothing.
pub proof fn law_apt_update_at_most_once(host: HostView)
    ensures
        routine_program(RoutineView::AptUpdate, true, host) == Seq::<InstrView>::empty(),
{
}

/// A tool that is not supported needs no system packages.
pub proof fn law_unknown_tools_need_nothing(name: Seq<char>)
    requires
        tool_named(name) is None,
    ensures
        dependencies_of(name) == Seq::<Seq<char>>::empty(),
{
}

/// Installing a supported tool first makes sure of each of its system
/// packages in order, each of which must succeed, then runs the tool's own
/// installer, whose result is the result.
pub proof fn law_dependencies_first(name: Seq<char>)
    requires
        tool_named(name) is Some,
    ensures
        install_tool_program(name).len() == dependencies_of(name).len() + 1,
        forall|i: int|
            0 <= i < dependencies_of(name).len() ==> #[trigger] install_tool_program(name)[i]
                == call(RoutineView::Package(dependencies_of(name)[i]), true),
        install_tool_program(name).last() == call(
            RoutineView::Install(tool_named(name)->0),
            true,
        ),
{
}

/// `install all` announces and installs each supported tool in the fixed
/// order, and goes on whatever one of them reports.
pub proof fn law_install_all_in_order()
    ensures
        install_all_program().len() == 2 * supported_tool_names().len(),
        forall|i: int|
            0 <= i < supported_tool_names().len() ==> {
                &&& #[trigger] install_all_program()[2 * i] == say(
                    "\ninstalling "@ + supported_tool_names()[i] + "..."@,
                )
                &&& install_all_program()[2 * i + 1] == call(
                    RoutineView::InstallTool(supported_tool_names()[i]),
                    false,
                )
            },
{
    lemma_install_each(supported_tool_names());
}

proof fn lemma_install_each(names: Seq<Seq<char>>)
    ensures
        install_each(names).len() == 2 * names.len(),
        forall|i: int|
            0 <= i < names.len() ==> {
                &&& #[trigger] install_each(names)[2 * i] == say(
                    "\ninstalling "@ + names[i] + "..."@,
                )
                &&& install_each(names)[2 * i + 1] == call(RoutineView::InstallTool(names[i]), false)
            },
    decreases names.len(),
{
    if names.len() > 0 {
        let init = names.drop_last();
        lemma_install_each(init);
        assert forall|i: int| 0 <= i < names.len() implies {
            &&& #[trigger] install_each(names)[2 * i] == say("\ninstalling "@ + names[i] + "..."@)
            &&& install_each(names)[2 * i + 1] == call(RoutineView::InstallTool(names[i]), false)
        } by {
            if i < init.len() {
                assert(init[i] == names[i]);
            }
        }
    }
}


/// A step keeps the machine in the states it can be in: a result exactly when
/// no routine is left, every caller waiting at its `Call`, and a command handed
/// out only from a command instruction.
pub proof fn law_next_keeps_well_formed(m: MachineView, outcome: Option<bool>)
    requires
        well_formed(m),
    ensures
        well_formed(next(m, outcome).0),
{
    if m.result is None && m.frames.len() > 0 {
        let f = m.frames.last();
        let callers = m.frames.drop_last();
        assert forall|pc: nat| true implies #[trigger] callers_waiting(
            m.frames.update(m.frames.len() - 1, FrameView { pc, ..f }),
        ) by {
            let fr = m.frames.update(m.frames.len() - 1, FrameView { pc, ..f });
            assert forall|i: int| 0 <= i < fr.len() - 1 implies {
                &&& #[trigger] fr[i].pc < fr[i].program.len()
                &&& current(fr[i]) is Call
            } by {
                assert(fr[i] == m.frames[i]);
            }
        }
        lemma_unwind_shape(m.frames, true);
        lemma_unwind_shape(m.frames, false);
        if !m.awaiting && f.pc < f.program.len() {
            match current(f) {
                InstrView::Return(b) => {
                    lemma_unwind_shape(m.frames, b);
                },
                InstrView::Call { routine, .. } => {
                    let fr = next(m, outcome).0.frames;
                    assert forall|i: int| 0 <= i < fr.len() - 1 implies {
                        &&& #[trigger] fr[i].pc < fr[i].program.len()
                        &&& current(fr[i]) is Call
                    } by {
                        assert(fr[i] == m.frames[i]);
                    }
                },
                _ => {},
            }
        }
    }
}

/// A tool that is not supported is reported with the usage text, and its
/// installation fails, without any command being run.
pub proof fn law_unsupported_tool_reported(
    name: Seq<char>,
    host: HostView,
    outcomes: Seq<Option<bool>>,
)
    requires
        tool_named(name) is None,
        outcomes.len() == 3,
    ensures
        run(initial_machine(RoutineView::InstallTool(name), host), outcomes).1 == seq![
            ActionView::Print("unsupported tool: "@ + name),
            ActionView::Print(help_text_view()),
            ActionView::Finished(false),
        ],
        run(initial_machine(RoutineView::InstallTool(name), host), outcomes).0.result == Some(false),
{
    let m0 = initial_machine(RoutineView::InstallTool(name), host);
    let (m1, a1) = next(m0, outcomes[0]);
    let (m2, a2) = next(m1, outcomes[1]);
    let (m3, a3) = next(m2, outcomes[2]);
    let o1 = outcomes.drop_first();
    let o2 = o1.drop_first();
    let o3 = o2.drop_first();
    assert(o1[0] == outcomes[1]);
    assert(o2[0] == outcomes[2]);
    assert(o3 =~= Seq::<Option<bool>>::empty());
    assert(run(m3, o3) == (m3, Seq::<ActionView>::empty()));
    assert(run(m2, o2).1 =~= seq![a3]);
    assert(run(m1, o1).1 =~= seq![a2, a3]);
    assert(run(m0, outcomes).1 =~= seq![a1, a2, a3]);
}


/// A required step that fails makes its caller fail as well.
pub proof fn law_required_failure_propagates(frames: Seq<FrameView>)
    requires
        frames.len() >= 2,
        aborts_on_failure(current(frames[frames.len() - 2])),
    ensures
        unwind(frames, false) == unwind(frames.drop_last(), false),
{
}

/// A step whose result is ignored lets its caller go on, whatever it reports.
pub proof fn law_optional_step_ignored(frames: Seq<FrameView>, ok: bool)
    requires
        frames.len() >= 2,
        !aborts_on_failure(current(frames[frames.len() - 2])),
    ensures
        unwind(frames, ok) == (
            with_top_pc(frames.drop_last(), frames[frames.len() - 2].pc + 1),
            None::<bool>,
        ),
{
}

/// Once apt's lists have been refreshed, a call that makes sure of them
/// takes two silent steps, succeeds, and lets the caller go on.
pub proof fn law_refresh_once_then_nothing(
    m: MachineView,
    must_succeed: bool,
    o1: Option<bool>,
    o2: Option<bool>,
)
    requires
        well_formed(m),
        m.result is None,
        !m.awaiting,
        m.apt_updated,
        m.frames.last().pc < m.frames.last().program.len(),
        current(m.frames.last()) == call(RoutineView::AptUpdate, must_succeed),
    ensures
        next(m, o1).1 == ActionView::Idle,
        next(next(m, o1).0, o2).1 == ActionView::Idle,
        next(next(m, o1).0, o2).0 == (MachineView {
            frames: with_top_pc(m.frames, m.frames.last().pc + 1),
            ..m
        }),
{
    let m1 = next(m, o1).0;
    assert(m1.frames.drop_last() =~= m.frames);
}

/// Making sure of a command that is already there takes one silent check,
/// reports it, and succeeds, without touching apt.
pub proof fn law_present_package_left_alone(
    p: Seq<char>,
    docker_user: Seq<char>,
    first: Option<bool>,
)
    ensures
        ({
            let host = HostView { linux: true, docker_user };
            let r = run(
                initial_machine(RoutineView::Package(p), host),
                seq![first, Some(true), None, None],
            );
            &&& r.1 == seq![
                ActionView::Check(presence_check_text(p)),
                ActionView::Idle,
                ActionView::Print(p + " is already installed"@),
                ActionView::Finished(true),
            ]
            &&& !r.0.apt_updated
            &&& r.0.result == Some(true)
        }),
{
    let host = HostView { linux: true, docker_user };
    let outcomes = seq![first, Some(true), None, None];
    let m0 = initial_machine(RoutineView::Package(p), host);
    let (m1, a1) = next(m0, outcomes[0]);
    let (m2, a2) = next(m1, outcomes[1]);
    let (m3, a3) = next(m2, outcomes[2]);
    let (m4, a4) = next(m3, outcomes[3]);
    let o1 = outcomes.drop_first();
    let o2 = o1.drop_first();
    let o3 = o2.drop_first();
    let o4 = o3.drop_first();
    assert(o1[0] == outcomes[1]);
    assert(o2[0] == outcomes[2]);
    assert(o3[0] == outcomes[3]);
    assert(o4 =~= Seq::<Option<bool>>::empty());
    assert(run(m4, o4) == (m4, Seq::<ActionView>::empty()));
    assert(run(m3, o3).1 =~= seq![a4]);
    assert(run(m2, o2).1 =~= seq![a3, a4]);
    assert(run(m1, o1).1 =~= seq![a2, a3, a4]);
    assert(run(m0, outcomes).1 =~= seq![a1, a2, a3, a4]);
}


/// A command that fails ends the routine that ran it, with failure, so that no
/// later step of that routine runs.
pub proof fn law_failed_command_ends_routine(m: MachineView, first: Option<bool>)
    requires
        well_formed(m),
        m.result is None,
        !m.awaiting,
        m.frames.last().pc < m.frames.last().program.len(),
        current(m.frames.last()) is Shell || current(m.frames.last()) is Exec,
    ensures
        next(next(m, first).0, Some(false)).0.frames == unwind(m.frames, false).0,
        next(next(m, first).0, Some(false)).0.result == unwind(m.frames, false).1,
{
}

/// A silent check never ends a routine: when it fails the routine goes on
/// with its next instruction.
pub proof fn law_failed_check_goes_on(m: MachineView, first: Option<bool>)
    requires
        well_formed(m),
        m.result is None,
        !m.awaiting,
        m.frames.last().pc < m.frames.last().program.len(),
        current(m.frames.last()) is Probe,
    ensures
        next(next(m, first).0, Some(false)).0.frames == with_top_pc(
            m.frames,
            m.frames.last().pc + 1,
        ),
        next(next(m, first).0, Some(false)).0.result is None,
{
}

/// Only a real user other than `root` is added to the `docker` group, and
/// only such a user is told to open a new shell.
pub proof fn law_docker_group_only_for_users(user: Seq<char>)
    ensures
        joins_docker_group(user) ==> docker_program(user).len() == 9 && docker_program(user)[5]
            == docker_group_step(user),
        !joins_docker_group(user) ==> docker_program(user).len() == 7 && forall|i: int|
            0 <= i < 7 ==> !(#[trigger] docker_program(user)[i] is Exec),
        !joins_docker_group("root"@),
        !joins_docker_group(Seq::<char>::empty()),
{
}

/// `install all` holds nothing that can fail it: announcements and calls
/// whose results it ignores.
pub proof fn law_install_all_cannot_fail()
    ensures
        forall|i: int|
            0 <= i < install_all_program().len() ==> (#[trigger] install_all_program()[i] is Say
                || install_all_program()[i] == call(
                RoutineView::InstallTool(supported_tool_names()[(i / 2)]),
                false,
            )),
{
    law_install_all_in_order();
    assert forall|i: int| 0 <= i < install_all_program().len() implies (
    #[trigger] install_all_program()[i] is Say || install_all_program()[i] == call(
        RoutineView::InstallTool(supported_tool_names()[(i / 2)]),
        false,
    )) by {
        let k = i / 2;
        assert(0 <= k < supported_tool_names().len());
        assert(install_all_program()[2 * k] is Say);
        if i % 2 == 0 {
            assert(i == 2 * k);
        } else {
            assert(i == 2 * k + 1);
        }
    }
}

/// One step, then the rest.
pub(crate) proof fn lemma_run_prepend(m: MachineView, o: Option<bool>, rest: Seq<Option<bool>>)
    ensures
        run(m, seq![o] + rest) == (
            run(next(m, o).0, rest).0,
            seq![next(m, o).1] + run(next(m, o).0, rest).1,
        ),
{
    assert((seq![o] + rest).drop_first() =~= rest);
}


/// A Linux host.
pub open spec fn linux_host(user: Seq<char>) -> HostView {
    HostView { linux: true, docker_user: user }
}

/// The outcomes of a first-time installation of a missing package: it is not
/// found, apt's refresh succeeds, its installation succeeds, and then it is found.
pub open spec fn missing_package_outcomes() -> Seq<Option<bool>> {
    seq![
        None,
        Some(false),
        None,
        None,
        None,
        None,
        Some(true),
        None,
        None,
        None,
        Some(true),
        None,
        Some(true),
        None,
        None,
    ]
}

/// What the installer does for a missing package, in order.
pub open spec fn missing_package_actions(p: Seq<char>) -> Seq<ActionView> {
    seq![
        ActionView::Check(presence_check_text(p)),
        ActionView::Idle,
        ActionView::Print(p + " not found, installing "@ + p + "..."@),
        ActionView::Idle,
        ActionView::Print("running sudo apt update..."@),
        ActionView::Shell {
            command: "sudo apt update"@,
            error_message: "failed to run sudo apt update"@,
        },
        ActionView::Idle,
        ActionView::Idle,
        ActionView::Idle,
        ActionView::Shell { command: apt_install_text(p), error_message: "failed to install "@ + p },
        ActionView::Idle,
        ActionView::Check(presence_check_text(p)),
        ActionView::Idle,
        ActionView::Print(p + " installed successfully"@),
        ActionView::Finished(true),
    ]
}

/// The state in which the refresh of apt's lists has just been called.
spec fn refresh_called(p: Seq<char>, user: Seq<char>) -> MachineView {
    MachineView {
        frames: seq![
            FrameView { routine: RoutineView::Package(p), program: package_program(p), pc: 2 },
            FrameView {
                routine: RoutineView::AptUpdate,
                program: apt_update_program(false),
                pc: 0,
            },
        ],
        apt_updated: false,
        awaiting: false,
        result: None,
        host: linux_host(user),
    }
}

/// The state right after the refresh, which succeeded.
spec fn refreshed(p: Seq<char>, user: Seq<char>) -> MachineView {
    MachineView {
        frames: seq![
            FrameView { routine: RoutineView::Package(p), program: package_program(p), pc: 3 },
        ],
        apt_updated: true,
        awaiting: false,
        result: None,
        host: linux_host(user),
    }
}

/// The state once the package is installed.
spec fn package_done(user: Seq<char>) -> MachineView {
    MachineView {
        frames: Seq::empty(),
        apt_updated: true,
        awaiting: false,
        result: Some(true),
        host: linux_host(user),
    }
}

/// Steps in two runs.
proof fn lemma_run_split(m: MachineView, a: Seq<Option<bool>>, b: Seq<Option<bool>>)
    ensures
        run(m, a + b) == (run(run(m, a).0, b).0, run(m, a).1 + run(run(m, a).0, b).1),
    decreases a.len(),
{
    if a.len() == 0 {
        assert(a + b =~= b);
        assert(run(m, a).1 + run(m, b).1 =~= run(m, b).1);
    } else {
        let (m1, x) = next(m, a[0]);
        lemma_run_split(m1, a.drop_first(), b);
        assert((a + b).drop_first() =~= a.drop_first() + b);
        assert(seq![x] + (run(m1, a.drop_first()).1 + run(run(m1, a.drop_first()).0, b).1)
            =~= (seq![x] + run(m1, a.drop_first()).1) + run(run(m1, a.drop_first()).0, b).1);
    }
}

/// The check fails, the machine says so and calls apt's refresh.
proof fn lemma_missing_package_to_refresh(p: Seq<char>, user: Seq<char>)
    ensures
        run(
            initial_machine(RoutineView::Package(p), linux_host(user)),
            missing_package_outcomes().subrange(0, 4),
        ) == (
            refresh_called(p, user),
            missing_package_actions(p).subrange(0, 4),
        ),
{
    let m0 = initial_machine(RoutineView::Package(p), linux_host(user));
    let m1 = next(m0, None).0;
    assert(next(m0, None).1 == ActionView::Check(presence_check_text(p)));
    let m2 = next(m1, Some(false)).0;
    assert(next(m1, Some(false)).1 == ActionView::Idle);
    let m3 = next(m2, None).0;
    assert(next(m2, None).1 == ActionView::Print(p + " not found, installing "@ + p + "..."@));
    let m4 = next(m3, None).0;
    assert(next(m3, None).1 == ActionView::Idle);
    assert(m4.frames =~= refresh_called(p, user).frames);
    assert(m4 == refresh_called(p, user));
    let s4 = Seq::<Option<bool>>::empty();
    let s3 = seq![None] + s4;
    let s2 = seq![None] + s3;
    let s1 = seq![Some(false)] + s2;
    let s0 = seq![None] + s1;
    assert(run(m4, s4) == (m4, Seq::<ActionView>::empty()));
    lemma_run_prepend(m3, None, s4);
    lemma_run_prepend(m2, None, s3);
    lemma_run_prepend(m1, Some(false), s2);
    lemma_run_prepend(m0, None, s1);
    assert(s0 =~= missing_package_outcomes().subrange(0, 4));
    assert(run(m0, s0).1 =~= missing_package_actions(p).subrange(0, 4));
}

/// The refresh runs once, succeeds, and is recorded.
proof fn lemma_missing_package_refresh(p: Seq<char>, user: Seq<char>)
    ensures
        run(refresh_called(p, user), missing_package_outcomes().subrange(4, 9)) == (
            refreshed(p, user),
            missing_package_actions(p).subrange(4, 9),
        ),
{
    let m0 = refresh_called(p, user);
    let m1 = next(m0, None).0;
    assert(next(m0, None).1 == ActionView::Print("running sudo apt update..."@));
    let m2 = next(m1, None).0;
    assert(next(m1, None).1 == missing_package_actions(p)[5]);
    let m3 = next(m2, Some(true)).0;
    assert(next(m2, Some(true)).1 == ActionView::Idle);
    let m4 = next(m3, None).0;
    assert(next(m3, None).1 == ActionView::Idle);
    let m5 = next(m4, None).0;
    assert(next(m4, None).1 == ActionView::Idle);
    assert(m5.frames =~= refreshed(p, user).frames);
    assert(m5 == refreshed(p, user));
    let s5 = Seq::<Option<bool>>::empty();
    let s4 = seq![None] + s5;
    let s3 = seq![None] + s4;
    let s2 = seq![Some(true)] + s3;
    let s1 = seq![None] + s2;
    let s0 = seq![None] + s1;
    assert(run(m5, s5) == (m5, Seq::<ActionView>::empty()));
    lemma_run_prepend(m4, None, s5);
    lemma_run_prepend(m3, None, s4);
    lemma_run_prepend(m2, Some(true), s3);
    lemma_run_prepend(m1, None, s2);
    lemma_run_prepend(m0, None, s1);
    assert(s0 =~= missing_package_outcomes().subrange(4, 9));
    assert(run(m0, s0).1 =~= missing_package_actions(p).subrange(4, 9));
}

/// The package is installed, found, and reported.
proof fn lemma_missing_package_install(p: Seq<char>, user: Seq<char>)
    ensures
        run(refreshed(p, user), missing_package_outcomes().subrange(9, 15)) == (
            package_done(user),
            missing_package_actions(p).subrange(9, 15),
        ),
{
    let m0 = refreshed(p, user);
    let m1 = next(m0, None).0;
    assert(next(m0, None).1 == missing_package_actions(p)[9]);
    let m2 = next(m1, Some(true)).0;
    assert(next(m1, Some(true)).1 == ActionView::Idle);
    let m3 = next(m2, None).0;
    assert(next(m2, None).1 == ActionView::Check(presence_check_text(p)));
    let m4 = next(m3, Some(true)).0;
    assert(next(m3, Some(true)).1 == ActionView::Idle);
    let m5 = next(m4, None).0;
    assert(next(m4, None).1 == ActionView::Print(p + " installed successfully"@));
    let m6 = next(m5, None).0;
    assert(next(m5, None).1 == ActionView::Finished(true));
    assert(m6.frames =~= package_done(user).frames);
    assert(m6 == package_done(user));
    let s6 = Seq::<Option<bool>>::empty();
    let s5 = seq![None] + s6;
    let s4 = seq![None] + s5;
    let s3 = seq![Some(true)] + s4;
    let s2 = seq![None] + s3;
    let s1 = seq![Some(true)] + s2;
    let s0 = seq![None] + s1;
    assert(run(m6, s6) == (m6, Seq::<ActionView>::empty()));
    lemma_run_prepend(m5, None, s6);
    lemma_run_prepend(m4, None, s5);
    lemma_run_prepend(m3, Some(true), s4);
    lemma_run_prepend(m2, None, s3);
    lemma_run_prepend(m1, Some(true), s2);
    lemma_run_prepend(m0, None, s1);
    assert(s0 =~= missing_package_outcomes().subrange(9, 15));
    assert(run(m0, s0).1 =~= missing_package_actions(p).subrange(9, 15));
}

/// A command that is missing is installed by refreshing apt's lists once,
/// installing its package, and checking again, and then reported installed.
pub proof fn law_missing_package_installed(p: Seq<char>, user: Seq<char>)
    ensures
        run(
            initial_machine(RoutineView::Package(p), linux_host(user)),
            missing_package_outcomes(),
        ).1 == missing_package_actions(p),
        run(
            initial_machine(RoutineView::Package(p), linux_host(user)),
            missing_package_outcomes(),
        ).0.apt_updated,
{
    let m0 = initial_machine(RoutineView::Package(p), linux_host(user));
    let o = missing_package_outcomes();
    let a = missing_package_actions(p);
    lemma_missing_package_to_refresh(p, user);
    lemma_missing_package_refresh(p, user);
    lemma_missing_package_install(p, user);
    assert(o =~= o.subrange(0, 4) + (o.subrange(4, 9) + o.subrange(9, 15)));
    lemma_run_split(m0, o.subrange(0, 4), o.subrange(4, 9) + o.subrange(9, 15));
    lemma_run_split(refresh_called(p, user), o.subrange(4, 9), o.subrange(9, 15));
    assert(a =~= a.subrange(0, 4) + (a.subrange(4, 9) + a.subrange(9, 15)));
}


// ---------------------------------------------------------------------------
// apt's lists are refreshed successfully at most once

/// Whether a program holds the instruction that records a refresh of apt's lists.
pub open spec fn records_refresh(program: Seq<InstrView>) -> bool {
    exists|j: int| 0 <= j < program.len() && #[trigger] program[j] is MarkAptUpdated
}

/// How the machine keeps track of apt's lists: a refresh routine only ever
/// runs on top; it is either empty (the lists were refreshed when it was
/// called) or the full refresh, which is not yet recorded while it has not
/// passed the point of recording; no other routine records a refresh.
pub open spec fn apt_bookkeeping(m: MachineView) -> bool {
    forall|i: int|
        0 <= i < m.frames.len() ==> if (#[trigger] m.frames[i]).routine is AptUpdate {
            &&& i == m.frames.len() - 1
            &&& (m.frames[i].program == Seq::<InstrView>::empty() || (m.frames[i].program
                == apt_update_program(false) && (m.frames[i].pc <= 2 ==> !m.apt_updated)))
        } else {
            !records_refresh(m.frames[i].program)
        }
}

proof fn lemma_install_each_records_nothing(names: Seq<Seq<char>>)
    ensures
        !records_refresh(install_each(names)),
    decreases names.len(),
{
    if names.len() > 0 {
        lemma_install_each_records_nothing(names.drop_last());
        let prog = install_each(names);
        let init = install_each(names.drop_last());
        assert forall|j: int| 0 <= j < prog.len() implies !(
        #[trigger] prog[j] is MarkAptUpdated) by {
            if j < init.len() {
                assert(prog[j] == init[j]);
            }
        }
    }
}

/// Only the refresh routine records a refresh.
proof fn lemma_only_refresh_records(r: RoutineView, apt_updated: bool, host: HostView)
    requires
        !(r is AptUpdate),
    ensures
        !records_refresh(routine_program(r, apt_updated, host)),
{
    let prog = routine_program(r, apt_updated, host);
    match r {
        RoutineView::InstallAll => {
            lemma_install_each_records_nothing(crate::tools::supported_tool_names());
        },
        RoutineView::InstallTool(name) => {
            if let Some(t) = tool_named(name) {
                let deps = dependency_calls(dependencies_of(name));
                assert forall|j: int| 0 <= j < prog.len() implies !(
                #[trigger] prog[j] is MarkAptUpdated) by {
                    if j < deps.len() {
                        assert(prog[j] == deps[j]);
                    }
                }
            }
        },
        RoutineView::Install(t) => {
            assert forall|j: int| 0 <= j < prog.len() implies !(
            #[trigger] prog[j] is MarkAptUpdated) by {
                if host.linux && t is Docker {
                    assert(prog[j] is Say || prog[j] is Shell || prog[j] is Exec);
                }
            }
        },
        _ => {},
    }
}

/// The bookkeeping of apt's lists holds at the start.
pub proof fn law_apt_bookkeeping_at_start(root: RoutineView, host: HostView)
    ensures
        apt_bookkeeping(initial_machine(root, host)),
        well_formed(initial_machine(root, host)),
{
    if !(root is AptUpdate) {
        lemma_only_refresh_records(root, false, host);
    }
    let m = initial_machine(root, host);
    assert(callers_waiting(m.frames));
}

/// Ending routines keeps the callers below as they were, but for the position
/// of the one that goes on.
pub(crate) proof fn lemma_unwind_keeps_callers(frames: Seq<FrameView>, ok: bool)
    requires
        frames.len() >= 1,
    ensures
        unwind(frames, ok).0.len() < frames.len(),
        forall|i: int|
            0 <= i < unwind(frames, ok).0.len() ==> (#[trigger] unwind(frames, ok).0[i]).routine
                == frames[i].routine && unwind(frames, ok).0[i].program == frames[i].program,
    decreases frames.len(),
{
    if frames.len() > 1 {
        let rest = frames.drop_last();
        if !ok && aborts_on_failure(current(rest.last())) {
            lemma_unwind_keeps_callers(rest, false);
        }
    }
}

/// A step keeps the bookkeeping of apt's lists.
pub proof fn law_apt_bookkeeping_kept(m: MachineView, outcome: Option<bool>)
    requires
        well_formed(m),
        apt_bookkeeping(m),
    ensures
        apt_bookkeeping(next(m, outcome).0),
{
    if m.result is None && m.frames.len() > 0 {
        let n = m.frames.len();
        let f = m.frames.last();
        assert(m.frames[n - 1] == f);
        lemma_unwind_keeps_callers(m.frames, true);
        lemma_unwind_keeps_callers(m.frames, false);
        if !m.awaiting && f.pc < f.program.len() {
            match current(f) {
                InstrView::Return(b) => {
                    lemma_unwind_keeps_callers(m.frames, b);
                },
                InstrView::Call { routine, .. } => {
                    assert(!(f.routine is AptUpdate));
                    if !(routine is AptUpdate) {
                        lemma_only_refresh_records(routine, m.apt_updated, m.host);
                    }
                },
                InstrView::MarkAptUpdated => {
                    assert(records_refresh(f.program));
                    assert(f.routine is AptUpdate);
                    assert(f.pc == 2);
                },
                _ => {},
            }
        }
    }
}

proof fn lemma_run_keeps_bookkeeping(m: MachineView, outcomes: Seq<Option<bool>>)
    requires
        well_formed(m),
        apt_bookkeeping(m),
    ensures
        well_formed(run(m, outcomes).0),
        apt_bookkeeping(run(m, outcomes).0),
    decreases outcomes.len(),
{
    if outcomes.len() > 0 {
        law_next_keeps_well_formed(m, outcomes[0]);
        law_apt_bookkeeping_kept(m, outcomes[0]);
        lemma_run_keeps_bookkeeping(next(m, outcomes[0]).0, outcomes.drop_first());
    }
}

/// Whatever happened before, the machine hands out the refresh of apt's
/// lists only while they have not been refreshed successfully.
pub proof fn law_refresh_only_while_needed(
    root: RoutineView,
    host: HostView,
    outcomes: Seq<Option<bool>>,
    outcome: Option<bool>,
)
    ensures
        ({
            let m = run(initial_machine(root, host), outcomes).0;
            m.frames.len() > 0 && m.frames.last().routine is AptUpdate && next(m, outcome).1 is Shell
                ==> !m.apt_updated
        }),
{
    law_apt_bookkeeping_at_start(root, host);
    lemma_run_keeps_bookkeeping(initial_machine(root, host), outcomes);
    let m = run(initial_machine(root, host), outcomes).0;
    if m.frames.len() > 0 {
        assert(m.frames[m.frames.len() - 1] == m.frames.last());
    }
}

/// A refresh of apt's lists that succeeds is recorded at the next step.
pub proof fn law_refresh_success_recorded(m: MachineView, outcome: Option<bool>)
    requires
        well_formed(m),
        apt_bookkeeping(m),
        m.result is None,
        m.awaiting,
        m.frames.last().routine is AptUpdate,
    ensures
        next(next(m, Some(true)).0, outcome).0.apt_updated,
{
    assert(m.frames[m.frames.len() - 1] == m.frames.last());
}

} // verus!
