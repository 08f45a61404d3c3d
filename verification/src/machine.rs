//! The installer as a state machine: from its state and the outcome of the last
//! command to its next state and the next thing to do. The caller performs the
//! action (prints, or runs a command) and hands the outcome back.

use vstd::prelude::*;

use crate::program::{
    build_routine_program, program_view, routine_program, texts, Host, HostView, Instr, InstrView,
    Routine, RoutineView,
};

verus! {

/// A routine in progress: which routine, its program, and the index of its
/// current instruction.
pub struct Frame {
    pub routine: Routine,
    pub program: Vec<Instr>,
    pub pc: usize,
}

/// Abstract form of a routine in progress.
pub struct FrameView {
    pub routine: RoutineView,
    pub program: Seq<InstrView>,
    pub pc: nat,
}

impl View for Frame {
    type V = FrameView;

    open spec fn view(&self) -> FrameView {
        FrameView { routine: self.routine@, program: program_view(self.program@), pc: self.pc as nat }
    }
}

/// The abstract form of a stack of routines.
pub open spec fn frames_view(s: Seq<Frame>) -> Seq<FrameView> {
    s.map_values(|f: Frame| f@)
}

/// What the caller of the machine is to do next.
#[derive(Debug, PartialEq, Eq)]
pub enum Action {
    /// Print this line.
    Print(String),
    /// Run this Bash command; on failure print the error message; report whether it succeeded.
    Shell { command: String, error_message: String },
    /// Run this program with these arguments; on failure print the error
    /// message; report whether it succeeded.
    Exec { program: String, arguments: Vec<String>, error_message: String },
    /// Run this Bash command silently and report whether it succeeded.
    Check(String),
    /// Nothing to do; step again.
    Idle,
    /// The requested routine ended with this result.
    Finished(bool),
}

/// Abstract form of an action.
pub enum ActionView {
    Print(Seq<char>),
    Shell { command: Seq<char>, error_message: Seq<char> },
    Exec { program: Seq<char>, arguments: Seq<Seq<char>>, error_message: Seq<char> },
    Check(Seq<char>),
    Idle,
    Finished(bool),
}

impl View for Action {
    type V = ActionView;

    open spec fn view(&self) -> ActionView {
        match self {
            Action::Print(t) => ActionView::Print(t@),
            Action::Shell { command, error_message } => ActionView::Shell {
                command: command@,
                error_message: error_message@,
            },
            Action::Exec { program, arguments, error_message } => ActionView::Exec {
                program: program@,
                arguments: texts(arguments@),
                error_message: error_message@,
            },
            Action::Check(c) => ActionView::Check(c@),
            Action::Idle => ActionView::Idle,
            Action::Finished(b) => ActionView::Finished(*b),
        }
    }
}

/// The installer's state.
pub struct Machine {
    frames: Vec<Frame>,
    apt_updated: bool,
    awaiting: bool,
    result: Option<bool>,
    host: Host,
}

/// Abstract form of the installer's state: the routines in progress (the
/// last one runs), whether apt's lists were refreshed, whether the machine
/// waits for the outcome of the command it handed out, the result once the
/// requested routine has ended, and the host.
pub struct MachineView {
    pub frames: Seq<FrameView>,
    pub apt_updated: bool,
    pub awaiting: bool,
    pub result: Option<bool>,
    pub host: HostView,
}

impl View for Machine {
    type V = MachineView;

    closed spec fn view(&self) -> MachineView {
        MachineView {
            frames: frames_view(self.frames@),
            apt_updated: self.apt_updated,
            awaiting: self.awaiting,
            result: self.result,
            host: self.host@,
        }
    }
}

/// The instruction a routine is at.
pub open spec fn current(f: FrameView) -> InstrView {
    f.program[f.pc as int]
}

/// Whether an instruction hands a command out and waits for its outcome.
pub open spec fn is_command(i: InstrView) -> bool {
    i is Shell || i is Exec || i is Probe
}

/// Every routine below the running one waits at the `Call` that started the
/// routine above it.
pub open spec fn callers_waiting(frames: Seq<FrameView>) -> bool {
    forall|i: int|
        0 <= i < frames.len() - 1 ==> {
            &&& #[trigger] frames[i].pc < frames[i].program.len()
            &&& current(frames[i]) is Call
        }
}

/// The states the machine can be in.
pub open spec fn well_formed(m: MachineView) -> bool {
    &&& (m.result is Some <==> m.frames.len() == 0)
    &&& callers_waiting(m.frames)
    &&& m.awaiting ==> {
        &&& m.frames.len() > 0
        &&& m.frames.last().pc < m.frames.last().program.len()
        &&& is_command(current(m.frames.last()))
    }
}

/// The machine at the start: the requested routine about to run, apt's lists
/// not refreshed yet.
pub open spec fn initial_machine(root: RoutineView, host: HostView) -> MachineView {
    MachineView {
        frames: seq![FrameView { routine: root, program: routine_program(root, false, host), pc: 0 }],
        apt_updated: false,
        awaiting: false,
        result: None,
        host,
    }
}

/// The stack with the running routine moved to instruction `pc`.
pub open spec fn with_top_pc(frames: Seq<FrameView>, pc: nat) -> Seq<FrameView> {
    frames.update(frames.len() - 1, FrameView { pc, ..frames.last() })
}

/// Whether a failing callee ends the caller waiting at this instruction.
pub open spec fn aborts_on_failure(i: InstrView) -> bool {
    match i {
        InstrView::Call { must_succeed, .. } => must_succeed,
        _ => false,
    }
}

/// Ending the running routine with result `ok`: its caller goes on after the
/// `Call`, unless the call had to succeed and did not, in which case the caller
/// ends with failure too; when the requested routine itself ends, its result
/// is the machine's.
pub open spec fn unwind(frames: Seq<FrameView>, ok: bool) -> (Seq<FrameView>, Option<bool>)
    decreases frames.len(),
{
    if frames.len() <= 1 {
        (seq![], Some(ok))
    } else {
        let rest = frames.drop_last();
        if !ok && aborts_on_failure(current(rest.last())) {
            unwind(rest, false)
        } else {
            (with_top_pc(rest, rest.last().pc + 1), None)
        }
    }
}

/// The machine after the running routine ends with result `ok`, and the action
/// that reports it when the requested routine has ended.
pub open spec fn finish_routine(m: MachineView, ok: bool) -> (MachineView, ActionView) {
    let (frames, result) = unwind(m.frames, ok);
    (
        MachineView { frames, result, awaiting: false, ..m },
        match result {
            Some(v) => ActionView::Finished(v),
            None => ActionView::Idle,
        },
    )
}

/// The machine with the running routine moved on to its next instruction.
pub open spec fn advanced(m: MachineView) -> MachineView {
    MachineView { frames: with_top_pc(m.frames, m.frames.last().pc + 1), ..m }
}

/// Taking the outcome of the command the machine waits for: a probe that
/// succeeds jumps to its target, one that fails goes on; a command that
/// succeeds goes on, one that fails ends its routine with failure.
pub open spec fn resolve(m: MachineView, ok: bool) -> (MachineView, ActionView) {
    let m0 = MachineView { awaiting: false, ..m };
    match current(m.frames.last()) {
        InstrView::Probe { on_success, .. } => if ok {
            (MachineView { frames: with_top_pc(m0.frames, on_success), ..m0 }, ActionView::Idle)
        } else {
            (advanced(m0), ActionView::Idle)
        },
        _ => if ok {
            (advanced(m0), ActionView::Idle)
        } else {
            finish_routine(m0, false)
        },
    }
}

/// One step of the machine, given the outcome of the command it handed out last
/// (if any).
pub open spec fn next(m: MachineView, outcome: Option<bool>) -> (MachineView, ActionView) {
    match m.result {
        Some(v) => (m, ActionView::Finished(v)),
        None => if m.frames.len() == 0 {
            (m, ActionView::Idle)
        } else if m.awaiting {
            match outcome {
                None => (m, ActionView::Idle),
                Some(ok) => resolve(m, ok),
            }
        } else {
            let f = m.frames.last();
            if f.pc >= f.program.len() {
                finish_routine(m, true)
            } else {
                match current(f) {
                    InstrView::Say(t) => (advanced(m), ActionView::Print(t)),
                    InstrView::Shell { command, error_message } => (
                        MachineView { awaiting: true, ..m },
                        ActionView::Shell { command, error_message },
                    ),
                    InstrView::Exec { program, arguments, error_message } => (
                        MachineView { awaiting: true, ..m },
                        ActionView::Exec { program, arguments, error_message },
                    ),
                    InstrView::Probe { command, .. } => (
                        MachineView { awaiting: true, ..m },
                        ActionView::Check(command),
                    ),
                    InstrView::Call { routine, .. } => (
                        MachineView {
                            frames: m.frames.push(
                                FrameView {
                                    routine,
                                    program: routine_program(routine, m.apt_updated, m.host),
                                    pc: 0,
                                },
                            ),
                            ..m
                        },
                        ActionView::Idle,
                    ),
                    InstrView::Return(b) => finish_routine(m, b),
                    InstrView::MarkAptUpdated => (
                        MachineView { apt_updated: true, ..advanced(m) },
                        ActionView::Idle,
                    ),
                }
            }
        }
    }
}


/// Several steps in a row, fed these outcomes: the final state and the actions.
pub open spec fn run(m: MachineView, outcomes: Seq<Option<bool>>) -> (MachineView, Seq<ActionView>)
    decreases outcomes.len(),
{
    if outcomes.len() == 0 {
        (m, seq![])
    } else {
        let (m1, a) = next(m, outcomes[0]);
        let (m2, rest) = run(m1, outcomes.drop_first());
        (m2, seq![a] + rest)
    }
}

/// Ending a routine leaves the machine in a state it can be in: a result
/// exactly when no routine is left, and the callers below still waiting.
pub proof fn lemma_unwind_shape(frames: Seq<FrameView>, ok: bool)
    requires
        frames.len() >= 1,
        callers_waiting(frames),
    ensures
        (unwind(frames, ok).1 is Some <==> unwind(frames, ok).0.len() == 0),
        callers_waiting(unwind(frames, ok).0),
        unwind(frames, ok).0.len() < frames.len(),
    decreases frames.len(),
{
    if frames.len() > 1 {
        let rest = frames.drop_last();
        assert(callers_waiting(rest)) by {
            assert forall|i: int| 0 <= i < rest.len() - 1 implies {
                &&& #[trigger] rest[i].pc < rest[i].program.len()
                &&& current(rest[i]) is Call
            } by {
                assert(rest[i] == frames[i]);
            }
        }
        if !ok && aborts_on_failure(current(rest.last())) {
            lemma_unwind_shape(rest, false);
        } else {
            let fr = with_top_pc(rest, rest.last().pc + 1);
            assert forall|i: int| 0 <= i < fr.len() - 1 implies {
                &&& #[trigger] fr[i].pc < fr[i].program.len()
                &&& current(fr[i]) is Call
            } by {
                assert(fr[i] == frames[i]);
            }
        }
    }
}

/// The stack with the running routine moved to instruction `pc`.
fn set_top_pc(frames: Vec<Frame>, pc: usize) -> (res: Vec<Frame>)
    requires
        frames@.len() > 0,
    ensures
        frames_view(res@) == with_top_pc(frames_view(frames@), pc as nat),
        res@.len() == frames@.len(),
{
    let mut frames = frames;
    let ghost before = frames@;
    let mut f = frames.pop().unwrap();
    f.pc = pc;
    frames.push(f);
    assert(frames_view(frames@) =~= with_top_pc(frames_view(before), pc as nat));
    frames
}

/// Ends the running routine with result `ok`, as `unwind` says.
fn unwind_frames(frames: Vec<Frame>, ok: bool) -> (res: (Vec<Frame>, Option<bool>))
    requires
        frames@.len() >= 1,
        callers_waiting(frames_view(frames@)),
    ensures
        (frames_view(res.0@), res.1) == unwind(frames_view(frames@), ok),
    decreases frames@.len(),
{
    let ghost fv = frames_view(frames@);
    if frames.len() <= 1 {
        return (Vec::new(), Some(ok));
    }
    let mut frames = frames;
    let ghost before = frames@;
    frames.pop();
    let ghost rest = fv.drop_last();
    assert(frames_view(frames@) =~= rest);
    let n = frames.len();
    assert(rest[n - 1] == fv[n - 1]);
    let pc = frames[n - 1].pc;
    assert(frames[n - 1]@ == rest.last());
    assert(fv[n - 1].pc < fv[n - 1].program.len());
    assert(frames@[n - 1]@ == fv[n - 1]);
    assert(program_view(frames@[n - 1].program@).len() == frames@[n - 1].program@.len());
    let plen = frames[n - 1].program.len();
    assert(pc < plen);
    let aborts = match &frames[n - 1].program[pc] {
        Instr::Call { must_succeed, .. } => *must_succeed,
        _ => false,
    };
    assert(aborts == aborts_on_failure(current(rest.last())));
    if !ok && aborts {
        assert(callers_waiting(rest)) by {
            assert forall|i: int| 0 <= i < rest.len() - 1 implies {
                &&& #[trigger] rest[i].pc < rest[i].program.len()
                &&& current(rest[i]) is Call
            } by {
                assert(rest[i] == fv[i]);
            }
        }
        unwind_frames(frames, false)
    } else {
        let frames = set_top_pc(frames, pc + 1);
        (frames, None)
    }
}

/// Copies a list of strings.
fn copy_texts(v: &Vec<String>) -> (res: Vec<String>)
    ensures
        texts(res@) == texts(v@),
{
    let mut out: Vec<String> = Vec::new();
    let mut i: usize = 0;
    while i < v.len()
        invariant
            i <= v@.len(),
            texts(out@) == texts(v@.take(i as int)),
        decreases v@.len() - i,
    {
        let ghost before = out@;
        let s = v[i].clone();
        out.push(s);
        assert(texts(out@) =~= texts(before).push(s@));
        assert(v@.take(i + 1) =~= v@.take(i as int).push(v@[i as int]));
        assert(texts(v@.take(i + 1)) =~= texts(v@.take(i as int)).push(v@[i as int]@));
        i = i + 1;
    }
    assert(v@.take(i as int) =~= v@);
    out
}

impl Machine {
    #[verifier::type_invariant]
    spec fn inv(self) -> bool {
        well_formed(self@)
    }

    /// A machine about to run the requested routine on this host.
    pub fn new(root: Routine, host: Host) -> (res: Machine)
        ensures
            res@ == initial_machine(root@, host@),
    {
        let program = build_routine_program(&root, false, &host);
        let mut frames: Vec<Frame> = Vec::new();
        let ghost pv = program_view(program@);
        let ghost rv = root@;
        frames.push(Frame { routine: root, program, pc: 0 });
        assert(frames_view(frames@) =~= seq![FrameView { routine: rv, program: pv, pc: 0 }]);
        let m = Machine { frames, apt_updated: false, awaiting: false, result: None, host };
        assert(m@ =~= initial_machine(rv, host@));
        m
    }

    /// One step: the next state and what to do, given the outcome of the
    /// command handed out last (ignored when the machine waits for none).
    pub fn step(self, outcome: Option<bool>) -> (res: (Machine, Action))
        ensures
            (res.0@, res.1@) == next(self@, outcome),
    {
        proof {
            use_type_invariant(&self);
        }
        let ghost m = self@;
        let Machine { frames, apt_updated, awaiting, result, host } = self;
        if let Some(v) = result {
            return (Machine { frames, apt_updated, awaiting, result, host }, Action::Finished(v));
        }
        let n = frames.len();
        let ghost fv = frames_view(frames@);
        assert(fv.last() == frames@[n - 1]@);
        let pc = frames[n - 1].pc;
        let len = frames[n - 1].program.len();
        if awaiting {
            match outcome {
                None => {
                    return (
                        Machine { frames, apt_updated, awaiting, result, host },
                        Action::Idle,
                    );
                },
                Some(ok) => {
                    assert(current(fv.last()) == frames@[n - 1].program@[pc as int]@);
                    let target = match &frames[n - 1].program[pc] {
                        Instr::Probe { on_success, .. } => Some(*on_success),
                        _ => None,
                    };
                    match target {
                        Some(t) => {
                            let next_pc = if ok { t } else { pc + 1 };
                            let frames = set_top_pc(frames, next_pc);
                            let m2 = Machine { frames, apt_updated, awaiting: false, result, host };
                            assert(m2@ =~= next(m, outcome).0);
                            return (m2, Action::Idle);
                        },
                        None => {
                            if ok {
                                let frames = set_top_pc(frames, pc + 1);
                                let m2 = Machine { frames, apt_updated, awaiting: false, result, host };
                                assert(m2@ =~= next(m, outcome).0);
                                return (m2, Action::Idle);
                            } else {
                                return Self::finish(frames, false, apt_updated, host);
                            }
                        },
                    }
                },
            }
        }
        if pc >= len {
            return Self::finish(frames, true, apt_updated, host);
        }
        assert(current(fv.last()) == frames@[n - 1].program@[pc as int]@);
        let action: Action;
        let mut frames = frames;
        let mut awaiting_now = false;
        let mut apt = apt_updated;
        match &frames[n - 1].program[pc] {
            Instr::Say(t) => {
                action = Action::Print(t.clone());
                frames = set_top_pc(frames, pc + 1);
            },
            Instr::Shell { command, error_message } => {
                action = Action::Shell { command: command.clone(), error_message: error_message.clone() };
                awaiting_now = true;
            },
            Instr::Exec { program, arguments, error_message } => {
                action = Action::Exec {
                    program: program.clone(),
                    arguments: copy_texts(arguments),
                    error_message: error_message.clone(),
                };
                awaiting_now = true;
            },
            Instr::Probe { command, .. } => {
                action = Action::Check(command.clone());
                awaiting_now = true;
            },
            Instr::Call { routine, .. } => {
                let r = routine.duplicate();
                let program = build_routine_program(&r, apt_updated, &host);
                let ghost before = frames@;
                frames.push(Frame { routine: r, program, pc: 0 });
                assert(frames_view(frames@) =~= frames_view(before).push(frames@.last()@));
                action = Action::Idle;
            },
            Instr::Return(b) => {
                let b = *b;
                return Self::finish(frames, b, apt_updated, host);
            },
            Instr::MarkAptUpdated => {
                apt = true;
                frames = set_top_pc(frames, pc + 1);
                action = Action::Idle;
            },
        }
        let m2 = Machine { frames, apt_updated: apt, awaiting: awaiting_now, result, host };
        assert(m2@ =~= next(m, outcome).0);
        (m2, action)
    }

    /// Ends the running routine with result `ok`.
    fn finish(frames: Vec<Frame>, ok: bool, apt_updated: bool, host: Host) -> (res: (Machine, Action))
        requires
            frames@.len() >= 1,
            callers_waiting(frames_view(frames@)),
        ensures
            (res.0@, res.1@) == finish_routine(
                MachineView {
                    frames: frames_view(frames@),
                    apt_updated,
                    awaiting: false,
                    result: None,
                    host: host@,
                },
                ok,
            ),
    {
        proof {
            lemma_unwind_shape(frames_view(frames@), ok);
        }
        let (frames, result) = unwind_frames(frames, ok);
        let action = match result {
            Some(v) => Action::Finished(v),
            None => Action::Idle,
        };
        (Machine { frames, apt_updated, awaiting: false, result, host }, action)
    }
}

} // verus!
