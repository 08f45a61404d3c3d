//! Laws about single routines run on their own: the refresh of apt's lists,
//! the FFmpeg installer, and a routine made of shell steps.

use vstd::prelude::*;

use crate::machine::{
    aborts_on_failure, current, initial_machine, next, run, unwind, ActionView, FrameView,
    MachineView,
};
use crate::laws::lemma_run_prepend;
use crate::program::{apt_update_program, ffmpeg_program, shell, HostView, InstrView, RoutineView};
use crate::tools::Tool;

verus! {

// ---------------------------------------------------------------------------
// the refresh of apt's lists

/// A call of the refresh of apt's lists, run on its own, with the lists
/// refreshed already (`refreshed`) or not.
pub open spec fn refresh_machine(refreshed: bool, host: HostView) -> MachineView {
    MachineView {
        frames: seq![
            FrameView {
                routine: RoutineView::AptUpdate,
                program: apt_update_program(refreshed),
                pc: 0,
            },
        ],
        apt_updated: refreshed,
        awaiting: false,
        result: None,
        host,
    }
}

/// What holds at every point of a refresh started with the lists refreshed or
/// not: once it has ended, its result equals the record afterwards, and the
/// record is the old one or the result; before, the record is set exactly once
/// the refresh has passed the point of recording.
pub open spec fn refresh_progress(m: MachineView, refreshed: bool) -> bool {
    match m.result {
        Some(v) => v == m.apt_updated && m.apt_updated == (refreshed || v) && m.frames.len() == 0,
        None => {
            &&& m.frames.len() == 1
            &&& m.frames[0].routine is AptUpdate
            &&& m.frames[0].program == apt_update_program(refreshed)
            &&& refreshed ==> m.apt_updated
            &&& !refreshed ==> (m.apt_updated <==> m.frames[0].pc >= 3)
            &&& m.awaiting ==> m.frames[0].pc == 1 && !refreshed
        },
    }
}

proof fn lemma_refresh_progress_kept(m: MachineView, refreshed: bool, outcome: Option<bool>)
    requires
        refresh_progress(m, refreshed),
    ensures
        refresh_progress(next(m, outcome).0, refreshed),
{
    if m.result is None {
        assert(m.frames.last() == m.frames[0]);
        let m1 = next(m, outcome).0;
        if m1.result is None {
            assert(m1.frames[0] == m1.frames.last());
        }
    }
}

proof fn lemma_refresh_progress_run(m: MachineView, refreshed: bool, outcomes: Seq<Option<bool>>)
    requires
        refresh_progress(m, refreshed),
    ensures
        refresh_progress(run(m, outcomes).0, refreshed),
    decreases outcomes.len(),
{
    if outcomes.len() > 0 {
        lemma_refresh_progress_kept(m, refreshed, outcomes[0]);
        lemma_refresh_progress_run(next(m, outcomes[0]).0, refreshed, outcomes.drop_first());
    }
}

/// Whatever the outcomes, a call of the refresh of apt's lists ends with a
/// result equal to the record of a refresh afterwards, and that record is set
/// exactly when it was set before or the call succeeds.
pub proof fn law_refresh_result_is_the_record(
    refreshed: bool,
    host: HostView,
    outcomes: Seq<Option<bool>>,
)
    ensures
        ({
            let m = run(refresh_machine(refreshed, host), outcomes).0;
            m.result matches Some(v) ==> v == m.apt_updated && m.apt_updated == (refreshed || v)
        }),
{
    lemma_refresh_progress_run(refresh_machine(refreshed, host), refreshed, outcomes);
}

/// A call of the refresh ends within five steps, with success exactly when the
/// lists were refreshed already or `sudo apt update` succeeds.
pub proof fn law_refresh_ends(refreshed: bool, host: HostView, ok: bool)
    ensures
        run(refresh_machine(refreshed, host), seq![None, None, Some(ok), None, None]).0.result
            == Some(refreshed || ok),
{
    let o = seq![None, None, Some(ok), None, None];
    let m0 = refresh_machine(refreshed, host);
    let m1 = next(m0, None).0;
    let m2 = next(m1, None).0;
    let m3 = next(m2, Some(ok)).0;
    let m4 = next(m3, None).0;
    let m5 = next(m4, None).0;
    assert(m0.frames.last() == m0.frames[0]);
    assert(m1.result is None ==> m1.frames.last() == m1.frames[0]);
    assert(m2.result is None ==> m2.frames.last() == m2.frames[0]);
    assert(m3.result is None ==> m3.frames.last() == m3.frames[0]);
    assert(m4.result is None ==> m4.frames.last() == m4.frames[0]);
    let s4 = seq![None::<bool>];
    let s3 = seq![None::<bool>, None];
    let s2 = seq![Some(ok), None, None];
    let s1 = seq![None, Some(ok), None, None];
    assert(s4.drop_first() =~= Seq::<Option<bool>>::empty());
    assert(s3.drop_first() =~= s4);
    assert(s2.drop_first() =~= s3);
    assert(s1.drop_first() =~= s2);
    assert(o.drop_first() =~= s1);
    assert(s4[0] == None::<bool> && s3[0] == None::<bool> && s2[0] == Some(ok));
    assert(s1[0] == None::<bool> && o[0] == None::<bool>);
    assert(run(m5, Seq::<Option<bool>>::empty()).0 == m5);
    assert(run(m4, s4).0 == m5);
    assert(run(m3, s3).0 == m5);
    assert(run(m2, s2).0 == m5);
    assert(run(m1, s1).0 == m5);
}


/// A call of the refresh of apt's lists starts exactly the refresh run on its
/// own above, with the record as it stands.
pub proof fn law_refresh_call_starts_refresh(m: MachineView, must_succeed: bool, outcome: Option<bool>)
    requires
        m.result is None,
        !m.awaiting,
        m.frames.len() > 0,
        m.frames.last().pc < m.frames.last().program.len(),
        current(m.frames.last()) == (InstrView::Call { routine: RoutineView::AptUpdate, must_succeed }),
    ensures
        next(m, outcome).0.frames.last() == refresh_machine(m.apt_updated, m.host).frames[0],
        next(m, outcome).0.apt_updated == m.apt_updated,
{
}

// ---------------------------------------------------------------------------
// the FFmpeg installer

/// The FFmpeg installer at instruction `pc`.
pub open spec fn ffmpeg_frame(pc: nat) -> FrameView {
    FrameView { routine: RoutineView::Install(Tool::Ffmpeg), program: ffmpeg_program(), pc }
}

/// A state of the `ffmpeg` package routine seen from inside the FFmpeg
/// installer that called it.
pub open spec fn under_ffmpeg(p: MachineView) -> MachineView {
    MachineView { frames: seq![ffmpeg_frame(0)] + p.frames, ..p }
}

/// How a run of the FFmpeg installer follows a run of the `ffmpeg` package
/// routine: while the package routine runs, the installer is that routine
/// under its own call; once the routine has succeeded, the installer is one
/// silent step from succeeding; otherwise both have ended alike.
pub open spec fn follows(p: MachineView, f: MachineView) -> bool {
    ||| p.result is None && p.frames.len() >= 1 && f == under_ffmpeg(p)
    ||| p.result == Some(true) && p.frames.len() == 0 && !p.awaiting && f == (MachineView {
        frames: seq![ffmpeg_frame(1)],
        result: None,
        ..p
    })
    ||| p.result is Some && f == p
}

/// Ending a routine that runs under a waiting caller: as without the caller
/// while routines are left; when none is, the caller ends with failure if the
/// call had to succeed and failed, and goes on otherwise.
proof fn lemma_unwind_under(c: FrameView, ps: Seq<FrameView>, ok: bool)
    requires
        ps.len() >= 1,
    ensures
        unwind(seq![c] + ps, ok) == (match unwind(ps, ok).1 {
            None => (seq![c] + unwind(ps, ok).0, None),
            Some(v) => if !v && aborts_on_failure(current(c)) {
                (Seq::<FrameView>::empty(), Some(false))
            } else {
                (seq![FrameView { pc: c.pc + 1, ..c }], None)
            },
        }),
    decreases ps.len(),
{
    let all = seq![c] + ps;
    assert(all.drop_last() =~= seq![c] + ps.drop_last());
    if ps.len() == 1 {
        assert(all.drop_last() =~= seq![c]);
        assert(unwind(seq![c], false) == (Seq::<FrameView>::empty(), Some(false)));
        assert(seq![c].update(0, FrameView { pc: c.pc + 1, ..c }) =~= seq![
            FrameView { pc: c.pc + 1, ..c },
        ]);
    } else {
        let rest = ps.drop_last();
        assert(all.drop_last().last() == rest.last());
        lemma_unwind_under(c, rest, false);
        let moved = rest.update(rest.len() - 1, FrameView { pc: rest.last().pc + 1, ..rest.last() });
        assert((seq![c] + rest).update(rest.len() as int, FrameView {
            pc: rest.last().pc + 1,
            ..rest.last()
        }) =~= seq![c] + moved);
    }
}

/// Ending routines gives a result only when no routine is left.
proof fn lemma_unwind_result_empties(frames: Seq<FrameView>, ok: bool)
    ensures
        unwind(frames, ok).1 is Some ==> unwind(frames, ok).0 == Seq::<FrameView>::empty(),
        unwind(frames, ok).1 is None ==> unwind(frames, ok).0.len() >= 1,
    decreases frames.len(),
{
    if frames.len() > 1 {
        lemma_unwind_result_empties(frames.drop_last(), false);
    }
}

proof fn lemma_follows_step(p: MachineView, f: MachineView, o: Option<bool>)
    requires
        follows(p, f),
    ensures
        follows(next(p, o).0, next(f, o).0),
        p.result is None && next(p, o).0.result is None ==> next(f, o).1 == next(p, o).1,
{
    if p.result is None {
        let c = ffmpeg_frame(0);
        assert(f.frames.last() == p.frames.last());
        assert(current(c) == InstrView::Call {
            routine: RoutineView::Package("ffmpeg"@),
            must_succeed: true,
        });
        lemma_unwind_under(c, p.frames, true);
        lemma_unwind_under(c, p.frames, false);
        lemma_unwind_result_empties(p.frames, true);
        lemma_unwind_result_empties(p.frames, false);
        let t = p.frames.last();
        assert forall|pc: nat| true implies #[trigger] (seq![c] + p.frames).update(
            p.frames.len() as int,
            FrameView { pc, ..t },
        ) == seq![c] + p.frames.update(p.frames.len() - 1, FrameView { pc, ..t }) by {
            assert((seq![c] + p.frames).update(p.frames.len() as int, FrameView { pc, ..t })
                =~= seq![c] + p.frames.update(p.frames.len() - 1, FrameView { pc, ..t }));
        }
        if !p.awaiting && t.pc < t.program.len() {
            match current(t) {
                InstrView::Return(b) => {
                    lemma_unwind_under(c, p.frames, b);
                    lemma_unwind_result_empties(p.frames, b);
                },
                InstrView::Call { routine, .. } => {
                    let x = FrameView {
                        routine,
                        program: crate::program::routine_program(routine, p.apt_updated, p.host),
                        pc: 0,
                    };
                    assert((seq![c] + p.frames).push(x) =~= seq![c] + p.frames.push(x));
                },
                _ => {},
            }
        }
        if next(p, o).0.result is Some && next(f, o).0.result is Some {
            assert(next(f, o).0.frames =~= next(p, o).0.frames);
        }
    } else if f != p {
        assert(f.frames.last() == ffmpeg_frame(1));
        assert(next(f, o).0.frames =~= p.frames);
    }
}

proof fn lemma_follows_run(p: MachineView, f: MachineView, o: Seq<Option<bool>>)
    requires
        follows(p, f),
    ensures
        follows(run(p, o).0, run(f, o).0),
        p.result is None && run(p, o).0.result is None ==> run(f, o).1 == run(p, o).1,
    decreases o.len(),
{
    if o.len() > 0 {
        lemma_follows_step(p, f, o[0]);
        lemma_follows_run(next(p, o[0]).0, next(f, o[0]).0, o.drop_first());
        if p.result is None && run(p, o).0.result is None {
            if next(p, o[0]).0.result is Some {
                lemma_finished_run(next(p, o[0]).0, o.drop_first());
            }
        }
    }
}

/// A machine that has ended stays as it is.
pub(crate) proof fn lemma_finished_run(m: MachineView, o: Seq<Option<bool>>)
    requires
        m.result is Some,
    ensures
        run(m, o).0 == m,
    decreases o.len(),
{
    if o.len() > 0 {
        lemma_finished_run(m, o.drop_first());
    }
}

/// Installing FFmpeg is making sure of the `ffmpeg` package: after one silent
/// step that calls it, the installer does step for step what the package
/// routine does on its own (same messages, same commands, same record of
/// apt's lists), and it ends with the package routine's result, one silent
/// step later when that result is success.
pub proof fn law_ffmpeg_is_the_ffmpeg_package(
    host: HostView,
    first: Option<bool>,
    outcomes: Seq<Option<bool>>,
    extra: Option<bool>,
)
    ensures
        next(initial_machine(RoutineView::Install(Tool::Ffmpeg), host), first).1
            == ActionView::Idle,
        ({
            let p = run(initial_machine(RoutineView::Package("ffmpeg"@), host), outcomes);
            let f = run(
                next(initial_machine(RoutineView::Install(Tool::Ffmpeg), host), first).0,
                outcomes,
            );
            &&& p.0.result is None ==> f.1 == p.1 && f.0.apt_updated == p.0.apt_updated
                && f.0.awaiting == p.0.awaiting
            &&& f.0.result is Some ==> f.0.result == p.0.result && f.0.apt_updated
                == p.0.apt_updated
            &&& p.0.result is Some ==> next(f.0, extra).0.result == p.0.result && next(
                f.0,
                extra,
            ).0.apt_updated == p.0.apt_updated
        }),
{
    let p0 = initial_machine(RoutineView::Package("ffmpeg"@), host);
    let fs = initial_machine(RoutineView::Install(Tool::Ffmpeg), host);
    let f0 = next(fs, first).0;
    assert(fs.frames.last() == ffmpeg_frame(0));
    assert(f0.frames =~= seq![ffmpeg_frame(0)] + p0.frames);
    assert(f0 == under_ffmpeg(p0));
    lemma_follows_run(p0, f0, outcomes);
    let p = run(p0, outcomes).0;
    let f = run(f0, outcomes).0;
    lemma_follows_step(p, f, extra);
}


// ---------------------------------------------------------------------------
// shell steps

/// The program of a routine made of these shell steps (command, error message).
pub open spec fn shell_steps(steps: Seq<(Seq<char>, Seq<char>)>) -> Seq<InstrView> {
    steps.map_values(|s: (Seq<char>, Seq<char>)| shell(s.0, s.1))
}

/// A routine made of shell steps, on its own, at step `pc`.
pub open spec fn shell_steps_at(
    steps: Seq<(Seq<char>, Seq<char>)>,
    pc: nat,
    routine: RoutineView,
    apt_updated: bool,
    host: HostView,
) -> MachineView {
    MachineView {
        frames: seq![FrameView { routine, program: shell_steps(steps), pc }],
        apt_updated,
        awaiting: false,
        result: None,
        host,
    }
}

/// The outcomes handed to the machine when the commands it hands out report
/// `results`, one after the other: nothing for the step that hands a command
/// out, its outcome for the next.
pub open spec fn feed(results: Seq<bool>) -> Seq<Option<bool>>
    decreases results.len(),
{
    if results.len() == 0 {
        seq![]
    } else {
        seq![None, Some(results[0])] + feed(results.drop_first())
    }
}

/// Whether every command succeeded.
pub open spec fn all_succeed(results: Seq<bool>) -> bool {
    forall|i: int| 0 <= i < results.len() ==> #[trigger] results[i]
}

/// `n` reports that the routine has ended with result `v`.
pub open spec fn ended(v: bool, n: nat) -> Seq<ActionView> {
    Seq::new(n, |i: int| ActionView::Finished(v))
}

/// What a routine of shell steps does when its commands report `results`:
/// it hands out each command in order; after the first one that fails it
/// ends with failure and runs nothing more; when all succeed it ends with
/// success.
pub open spec fn shell_trace(steps: Seq<(Seq<char>, Seq<char>)>, results: Seq<bool>) -> Seq<
    ActionView,
>
    decreases steps.len(),
{
    if steps.len() == 0 {
        seq![ActionView::Finished(true)]
    } else {
        let handed = ActionView::Shell { command: steps[0].0, error_message: steps[0].1 };
        if results[0] {
            seq![handed, ActionView::Idle] + shell_trace(steps.drop_first(), results.drop_first())
        } else {
            seq![handed, ActionView::Finished(false)] + ended(false, (2 * (steps.len() - 1) + 1) as nat)
        }
    }
}

proof fn lemma_feed_len(results: Seq<bool>)
    ensures
        feed(results).len() == 2 * results.len(),
    decreases results.len(),
{
    if results.len() > 0 {
        lemma_feed_len(results.drop_first());
    }
}

proof fn lemma_feed_concat(a: Seq<bool>, b: Seq<bool>)
    ensures
        feed(a + b) == feed(a) + feed(b),
    decreases a.len(),
{
    if a.len() == 0 {
        assert(a + b =~= b);
        assert(feed(a) + feed(b) =~= feed(b));
    } else {
        assert((a + b).drop_first() =~= a.drop_first() + b);
        assert((a + b)[0] == a[0]);
        lemma_feed_concat(a.drop_first(), b);
        assert(feed(a + b) =~= feed(a) + feed(b));
    }
}

/// A machine that has ended reports its result at every step.
proof fn lemma_ended_run(m: MachineView, o: Seq<Option<bool>>)
    requires
        m.result is Some,
    ensures
        run(m, o) == (m, ended(m.result->0, o.len())),
    decreases o.len(),
{
    if o.len() > 0 {
        lemma_ended_run(m, o.drop_first());
        assert(seq![ActionView::Finished(m.result->0)] + ended(m.result->0, (o.len() - 1) as nat)
            =~= ended(m.result->0, o.len()));
    }
}

proof fn lemma_shell_steps_from(
    steps: Seq<(Seq<char>, Seq<char>)>,
    pc: nat,
    results: Seq<bool>,
    routine: RoutineView,
    apt_updated: bool,
    host: HostView,
)
    requires
        pc <= steps.len(),
        results.len() == steps.len() - pc,
    ensures
        run(shell_steps_at(steps, pc, routine, apt_updated, host), feed(results) + seq![None]).1
            == shell_trace(steps.skip(pc as int), results),
        run(shell_steps_at(steps, pc, routine, apt_updated, host), feed(results) + seq![None]).0.result
            == Some(all_succeed(results)),
    decreases steps.len() - pc,
{
    let m = shell_steps_at(steps, pc, routine, apt_updated, host);
    let prog = shell_steps(steps);
    assert(m.frames.last().program == prog);
    if pc == steps.len() {
        assert(feed(results) =~= Seq::<Option<bool>>::empty());
        assert(feed(results) + seq![None] =~= seq![None::<bool>]);
        lemma_run_prepend(m, None, Seq::<Option<bool>>::empty());
        assert(steps.skip(pc as int) =~= Seq::<(Seq<char>, Seq<char>)>::empty());
        assert(seq![next(m, None).1] + Seq::<ActionView>::empty() =~= seq![ActionView::Finished(true)]);
    } else {
        let r = results[0];
        let rest = results.drop_first();
        let tail = feed(rest) + seq![None];
        assert(feed(results) + seq![None] =~= seq![None] + (seq![Some(r)] + tail));
        let m1 = next(m, None).0;
        let m2 = next(m1, Some(r)).0;
        lemma_run_prepend(m, None, seq![Some(r)] + tail);
        lemma_run_prepend(m1, Some(r), tail);
        assert(prog[pc as int] == shell(steps[pc as int].0, steps[pc as int].1));
        assert(steps.skip(pc as int)[0] == steps[pc as int]);
        assert(steps.skip(pc as int).drop_first() =~= steps.skip((pc + 1) as int));
        if r {
            assert(m2.frames =~= shell_steps_at(steps, pc + 1, routine, apt_updated, host).frames);
            assert(m2 == shell_steps_at(steps, pc + 1, routine, apt_updated, host));
            lemma_shell_steps_from(steps, pc + 1, rest, routine, apt_updated, host);
            assert(all_succeed(results) == all_succeed(rest)) by {
                if all_succeed(rest) {
                    assert forall|i: int| 0 <= i < results.len() implies #[trigger] results[i] by {
                        if i > 0 {
                            assert(results[i] == rest[i - 1]);
                        }
                    }
                }
            }
        } else {
            lemma_ended_run(m2, tail);
            lemma_feed_len(rest);
            assert(!all_succeed(results)) by {
                assert(!results[0]);
            }
        }
        assert(run(m, feed(results) + seq![None]).1 =~= shell_trace(steps.skip(pc as int), results));
    }
}

/// A routine made of shell steps hands out its commands in order, stops after
/// the first that fails, and ends with success exactly when every command
/// succeeded.
pub proof fn law_shell_steps(
    steps: Seq<(Seq<char>, Seq<char>)>,
    results: Seq<bool>,
    routine: RoutineView,
    apt_updated: bool,
    host: HostView,
)
    requires
        results.len() == steps.len(),
    ensures
        run(shell_steps_at(steps, 0, routine, apt_updated, host), feed(results) + seq![None]).1
            == shell_trace(steps, results),
        run(shell_steps_at(steps, 0, routine, apt_updated, host), feed(results) + seq![None]).0.result
            == Some(all_succeed(results)),
{
    lemma_shell_steps_from(steps, 0, results, routine, apt_updated, host);
    assert(steps.skip(0) =~= steps);
}

proof fn lemma_shell_trace_concat(
    a: Seq<(Seq<char>, Seq<char>)>,
    b: Seq<(Seq<char>, Seq<char>)>,
    ra: Seq<bool>,
    rb: Seq<bool>,
)
    requires
        ra.len() == a.len(),
        rb.len() == b.len(),
    ensures
        all_succeed(ra + rb) == (all_succeed(ra) && all_succeed(rb)),
        all_succeed(ra) ==> shell_trace(a + b, ra + rb) == shell_trace(a, ra).drop_last()
            + shell_trace(b, rb),
        !all_succeed(ra) ==> shell_trace(a + b, ra + rb) == shell_trace(a, ra) + ended(
            false,
            2 * b.len(),
        ),
    decreases a.len(),
{
    assert(all_succeed(ra + rb) == (all_succeed(ra) && all_succeed(rb))) by {
        if all_succeed(ra + rb) {
            assert forall|i: int| 0 <= i < ra.len() implies #[trigger] ra[i] by {
                assert((ra + rb)[i] == ra[i]);
            }
            assert forall|i: int| 0 <= i < rb.len() implies #[trigger] rb[i] by {
                assert((ra + rb)[ra.len() + i] == rb[i]);
            }
        }
    }
    if a.len() == 0 {
        assert(a + b =~= b);
        assert(ra + rb =~= rb);
        assert(shell_trace(a, ra).drop_last() =~= Seq::<ActionView>::empty());
        assert(Seq::<ActionView>::empty() + shell_trace(b, rb) =~= shell_trace(b, rb));
    } else {
        let a1 = a.drop_first();
        let ra1 = ra.drop_first();
        assert((a + b).drop_first() =~= a1 + b);
        assert((ra + rb).drop_first() =~= ra1 + rb);
        assert((a + b)[0] == a[0]);
        assert((ra + rb)[0] == ra[0]);
        lemma_shell_trace_concat(a1, b, ra1, rb);
        let handed = ActionView::Shell { command: a[0].0, error_message: a[0].1 };
        if ra[0] {
            assert(all_succeed(ra) == all_succeed(ra1)) by {
                if all_succeed(ra1) {
                    assert forall|i: int| 0 <= i < ra.len() implies #[trigger] ra[i] by {
                        if i > 0 {
                            assert(ra[i] == ra1[i - 1]);
                        }
                    }
                }
            }
            let t1 = shell_trace(a1, ra1);
            assert(t1.len() >= 1) by {
                lemma_shell_trace_nonempty(a1, ra1);
            }
            assert((seq![handed, ActionView::Idle] + t1).drop_last() =~= seq![
                handed,
                ActionView::Idle,
            ] + t1.drop_last());
            if all_succeed(ra) {
                assert(shell_trace(a + b, ra + rb) =~= shell_trace(a, ra).drop_last() + shell_trace(
                    b,
                    rb,
                ));
            } else {
                assert(shell_trace(a + b, ra + rb) =~= shell_trace(a, ra) + ended(false, 2 * b.len()));
            }
        } else {
            assert(!all_succeed(ra)) by {
                assert(!ra[0]);
            }
            assert(shell_trace(a + b, ra + rb) =~= shell_trace(a, ra) + ended(false, 2 * b.len()));
        }
    }
}

proof fn lemma_shell_trace_nonempty(steps: Seq<(Seq<char>, Seq<char>)>, results: Seq<bool>)
    ensures
        shell_trace(steps, results).len() >= 1,
    decreases steps.len(),
{
}

/// Running the shell steps `a` followed by `b` is running `a`, then `b` only
/// if every command of `a` succeeded: the result is that of `a` and then
/// that of `b`; when all of `a` succeed, the commands of `b` follow those of
/// `a`; otherwise none of `b` runs and the routine has ended with failure.
pub proof fn law_shell_steps_concatenate(
    a: Seq<(Seq<char>, Seq<char>)>,
    b: Seq<(Seq<char>, Seq<char>)>,
    ra: Seq<bool>,
    rb: Seq<bool>,
    routine: RoutineView,
    apt_updated: bool,
    host: HostView,
)
    requires
        ra.len() == a.len(),
        rb.len() == b.len(),
    ensures
        feed(ra + rb) == feed(ra) + feed(rb),
        run(shell_steps_at(a + b, 0, routine, apt_updated, host), feed(ra + rb) + seq![None]).0.result
            == Some(all_succeed(ra) && all_succeed(rb)),
        all_succeed(ra) ==> run(
            shell_steps_at(a + b, 0, routine, apt_updated, host),
            feed(ra + rb) + seq![None],
        ).1 == run(shell_steps_at(a, 0, routine, apt_updated, host), feed(ra) + seq![None]).1.drop_last()
            + run(shell_steps_at(b, 0, routine, apt_updated, host), feed(rb) + seq![None]).1,
        !all_succeed(ra) ==> run(
            shell_steps_at(a + b, 0, routine, apt_updated, host),
            feed(ra + rb) + seq![None],
        ).1 == run(shell_steps_at(a, 0, routine, apt_updated, host), feed(ra) + seq![None]).1
            + ended(false, 2 * b.len()),
{
    lemma_feed_concat(ra, rb);
    law_shell_steps(a + b, ra + rb, routine, apt_updated, host);
    law_shell_steps(a, ra, routine, apt_updated, host);
    law_shell_steps(b, rb, routine, apt_updated, host);
    lemma_shell_trace_concat(a, b, ra, rb);
}

} // verus!
