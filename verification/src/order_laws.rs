//! The order in which the installers do their work: what must have happened
//! before a step can succeed.

use vstd::prelude::*;

use crate::commands::{
    apt_install_text, node_install_text, node_verify_text, npm_check_text, nvm_check_text,
    pm2_install_text, pm2_verify_text, presence_check_text,
};
use crate::laws::lemma_run_prepend;
use crate::machine::{initial_machine, next, run, ActionView, MachineView};
use crate::program::{routine_program, HostView, InstrView, RoutineView};
use crate::tools::Tool;

verus! {

/// Whether the instruction runs this Bash command as a step that must succeed.
pub open spec fn runs(i: InstrView, command: Seq<char>) -> bool {
    i is Shell && i->Shell_command == command
}

/// Whether the instructions from `from` up to (not including) `to` neither
/// jump nor end the routine, so that the routine reaches `to` from `from`
/// unless it ends with failure on the way.
pub open spec fn straight(p: Seq<InstrView>, from: int, to: int) -> bool {
    forall|k: int| from <= k < to ==> !(#[trigger] p[k] is Probe) && !(p[k] is Return)
}

/// Whether, in the program, a step running `first` comes before a step running
/// `second`, with nothing between them that jumps or ends the routine: the
/// second runs only after the first has succeeded.
pub open spec fn runs_before(p: Seq<InstrView>, first: Seq<char>, second: Seq<char>) -> bool {
    exists|a: int, b: int|
        0 <= a < b < p.len() && #[trigger] runs(p[a], first) && #[trigger] runs(p[b], second)
            && straight(p, a, b)
}

/// Installing Node.js installs it whichever way the check for nvm goes: a
/// successful check goes straight to `nvm install node`, a failed one reaches
/// it too after installing nvm, and Node.js is checked only after it has been
/// installed.
pub proof fn law_node_installs_node_either_way(refreshed: bool, host: HostView)
    requires
        host.linux,
    ensures
        ({
            let p = routine_program(RoutineView::Install(Tool::Node), refreshed, host);
            &&& exists|j: int|
                0 <= j < p.len() && #[trigger] p[j] is Probe && p[j]->Probe_command
                    == nvm_check_text()
            &&& forall|j: int|
                0 <= j < p.len() && #[trigger] p[j] is Probe && p[j]->Probe_command
                    == nvm_check_text() ==> {
                    &&& j < p[j]->on_success < p.len()
                    &&& runs(p[p[j]->on_success as int], node_install_text())
                    &&& straight(p, j + 1, p[j]->on_success as int)
                }
            &&& runs_before(p, node_install_text(), node_verify_text())
            &&& forall|j: int|
                0 <= j < p.len() && #[trigger] p[j] is Call ==> p[j]->routine == RoutineView::Install(
                    Tool::Nvm,
                ) && !p[j]->must_succeed
            &&& exists|a: int, b: int|
                0 <= a < b < p.len() && #[trigger] p[a] is Call && #[trigger] runs(
                    p[b],
                    nvm_check_text(),
                ) && straight(p, a, b) && runs_before(p, nvm_check_text(), node_install_text())
        }),
{
    let p = routine_program(RoutineView::Install(Tool::Node), refreshed, host);
    assert(p[1] is Probe);
    assert(p[3] is Call && runs(p[4], nvm_check_text()) && straight(p, 3, 4));
    assert(runs(p[5], node_install_text()) && straight(p, 4, 5));
    assert(runs(p[5], node_install_text()) && runs(p[6], node_verify_text()));
    assert(straight(p, 5, 6));
}

/// When npm is missing, installing PM2 makes sure of curl, and must succeed
/// at it, before it installs Node.js (whose installer fetches nvm with curl);
/// PM2 itself is installed only after npm is found.
pub proof fn law_pm2_needs_curl_before_node(refreshed: bool, host: HostView)
    requires
        host.linux,
    ensures
        ({
            let p = routine_program(RoutineView::Install(Tool::Pm2), refreshed, host);
            &&& exists|j: int, a: int, b: int|
                0 <= j < a < b < p[j]->on_success && p[j]->on_success < p.len() && #[trigger] p[j] is Probe
                    && p[j]->Probe_command == npm_check_text() && #[trigger] p[a] == InstrView::Call {
                    routine: RoutineView::Package("curl"@),
                    must_succeed: true,
                } && #[trigger] p[b] is Call && p[b]->routine == RoutineView::Install(Tool::Node)
                    && straight(p, j + 1, p[j]->on_success as int)
            &&& runs_before(p, npm_check_text(), pm2_install_text())
            &&& runs_before(p, pm2_install_text(), pm2_verify_text())
            &&& forall|j: int|
                0 <= j < p.len() && #[trigger] p[j] is Call && p[j]->routine == RoutineView::Install(
                    Tool::Node,
                ) ==> !p[j]->must_succeed
            &&& exists|b: int, k: int|
                0 <= b < k < p.len() && #[trigger] p[b] is Call && p[b]->routine
                    == RoutineView::Install(Tool::Node) && #[trigger] runs(p[k], npm_check_text())
                    && straight(p, b, k)
        }),
{
    let p = routine_program(RoutineView::Install(Tool::Pm2), refreshed, host);
    assert(runs(p[7], pm2_verify_text()) && straight(p, 6, 7));
    assert(straight(p, 4, 5));
    assert(p[1] is Probe && p[3] is Call && p[4] is Call);
    assert(runs(p[5], npm_check_text()) && runs(p[6], pm2_install_text()));
    assert(straight(p, 5, 6));
}

/// The command that installs Docker's signing key.
pub open spec fn docker_key_text() -> Seq<char> {
    "curl -fsSL https://download.docker.com/linux/ubuntu/gpg | sudo gpg --dearmor --yes -o /usr/share/keyrings/docker-archive-keyring.gpg"@
}

/// The command that adds Docker's apt repository.
pub open spec fn docker_repository_text() -> Seq<char> {
    "echo \"deb [arch=$(dpkg --print-architecture) signed-by=/usr/share/keyrings/docker-archive-keyring.gpg] https://download.docker.com/linux/ubuntu $(lsb_release -cs) stable\" | sudo tee /etc/apt/sources.list.d/docker.list > /dev/null"@
}

/// Installing Docker adds its apt repository, then refreshes apt's lists, then
/// installs Docker from them, then checks that `docker` runs; each step only
/// after the one before has succeeded.
pub proof fn law_docker_repository_before_install(refreshed: bool, host: HostView)
    requires
        host.linux,
    ensures
        ({
            let p = routine_program(RoutineView::Install(Tool::Docker), refreshed, host);
            &&& runs_before(p, docker_key_text(), docker_repository_text())
            &&& runs_before(p, docker_repository_text(), "sudo apt update"@)
            &&& runs_before(
                p,
                "sudo apt update"@,
                "sudo apt install -y docker-ce docker-ce-cli containerd.io"@,
            )
            &&& runs_before(
                p,
                "sudo apt install -y docker-ce docker-ce-cli containerd.io"@,
                "docker --version >/dev/null 2>&1"@,
            )
            &&& straight(p, 0, p.len() as int)
        }),
{
    let p = routine_program(RoutineView::Install(Tool::Docker), refreshed, host);
    assert(runs(p[1], docker_key_text()) && straight(p, 1, 2));
    assert(runs(p[2], docker_repository_text()) && runs(p[3], "sudo apt update"@));
    assert(straight(p, 2, 3));
    assert(runs(p[4], "sudo apt install -y docker-ce docker-ce-cli containerd.io"@));
    assert(straight(p, 3, 4));
    if crate::program::joins_docker_group(host.docker_user) {
        assert(runs(p[6], "docker --version >/dev/null 2>&1"@));
        assert(straight(p, 4, 6));
    } else {
        assert(runs(p[5], "docker --version >/dev/null 2>&1"@));
        assert(straight(p, 4, 5));
    }
}

/// Installing tosutil downloads it, makes it executable, then moves it into
/// `/usr/local/bin`, links it, and checks that it is found; each step only
/// after the one before has succeeded.
pub proof fn law_tosutil_steps_in_order(refreshed: bool, host: HostView)
    requires
        host.linux,
    ensures
        ({
            let p = routine_program(RoutineView::Install(Tool::Tosutil), refreshed, host);
            &&& runs_before(
                p,
                "wget https://m645b3e1bb36e-mrap.mrap.accesspoint.tos-global.volces.com/linux/amd64/tosutil -O tosutil"@,
                "chmod a+x tosutil"@,
            )
            &&& runs_before(p, "chmod a+x tosutil"@, "sudo mv tosutil /usr/local/bin/tosutil"@)
            &&& runs_before(
                p,
                "sudo mv tosutil /usr/local/bin/tosutil"@,
                "sudo ln -sf /usr/local/bin/tosutil /usr/bin/tosutil"@,
            )
            &&& runs_before(
                p,
                "sudo ln -sf /usr/local/bin/tosutil /usr/bin/tosutil"@,
                "command -v tosutil >/dev/null 2>&1"@,
            )
            &&& straight(p, 0, p.len() as int)
        }),
{
    let p = routine_program(RoutineView::Install(Tool::Tosutil), refreshed, host);
    assert(runs(p[1], "wget https://m645b3e1bb36e-mrap.mrap.accesspoint.tos-global.volces.com/linux/amd64/tosutil -O tosutil"@));
    assert(runs(p[2], "chmod a+x tosutil"@));
    assert(runs(p[3], "sudo mv tosutil /usr/local/bin/tosutil"@));
    assert(runs(p[4], "sudo ln -sf /usr/local/bin/tosutil /usr/bin/tosutil"@));
    assert(runs(p[5], "command -v tosutil >/dev/null 2>&1"@));
    assert(straight(p, 1, 2) && straight(p, 2, 3) && straight(p, 3, 4) && straight(p, 4, 5));
}


/// Making sure of a package refreshes apt's lists before it installs the
/// package, and the refresh must succeed: a failed refresh fails the routine.
pub proof fn law_package_refresh_must_succeed(pkg: Seq<char>, refreshed: bool, host: HostView)
    requires
        host.linux,
    ensures
        ({
            let p = routine_program(RoutineView::Package(pkg), refreshed, host);
            &&& forall|j: int|
                0 <= j < p.len() && #[trigger] p[j] is Call && p[j]->routine
                    == RoutineView::AptUpdate ==> p[j]->must_succeed
            &&& exists|j: int, k: int|
                0 <= j < k < p.len() && #[trigger] p[j] is Call && p[j]->routine
                    == RoutineView::AptUpdate && #[trigger] runs(p[k], apt_install_text(pkg))
                    && straight(p, j, k)
        }),
{
    let p = routine_program(RoutineView::Package(pkg), refreshed, host);
    assert(p[2] is Call && runs(p[3], apt_install_text(pkg)));
    assert(straight(p, 2, 3));
}

/// The outcomes when a command is missing and refreshing apt's lists fails.
pub open spec fn refresh_fails_outcomes() -> Seq<Option<bool>> {
    seq![None, Some(false), None, None, None, None, Some(false)]
}

/// When a command is missing and refreshing apt's lists fails, making sure of
/// it fails at once: it reports the command missing, tries the refresh, and
/// ends with failure without handing out any `sudo apt install`.
#[verifier::rlimit(60)]
#[verifier::spinoff_prover]
pub proof fn law_failed_refresh_fails_package(pkg: Seq<char>, user: Seq<char>)
    ensures
        ({
            let r = run(
                initial_machine(RoutineView::Package(pkg), (HostView { linux: true, docker_user: user })),
                refresh_fails_outcomes(),
            );
            &&& r.0.result == Some(false)
            &&& !r.0.apt_updated
            &&& forall|i: int|
                0 <= i < r.1.len() ==> !(#[trigger] r.1[i] is Shell && r.1[i]->Shell_command
                    == apt_install_text(pkg))
            &&& r.1.last() == ActionView::Finished(false)
        }),
{
    let o = refresh_fails_outcomes();
    assert(o[0] == None::<bool> && o[1] == Some(false) && o[2] == None::<bool>);
    assert(o[3] == None::<bool> && o[4] == None::<bool> && o[5] == None::<bool>);
    assert(o[6] == Some(false));
    let m0 = initial_machine(RoutineView::Package(pkg), (HostView { linux: true, docker_user: user }));
    let m1 = next(m0, o[0]).0;
    let m2 = next(m1, o[1]).0;
    let m3 = next(m2, o[2]).0;
    let m4 = next(m3, o[3]).0;
    let m5 = next(m4, o[4]).0;
    let m6 = next(m5, o[5]).0;
    let m7 = next(m6, o[6]).0;
    let s7 = Seq::<Option<bool>>::empty();
    let s6 = seq![o[6]] + s7;
    let s5 = seq![o[5]] + s6;
    let s4 = seq![o[4]] + s5;
    let s3 = seq![o[3]] + s4;
    let s2 = seq![o[2]] + s3;
    let s1 = seq![o[1]] + s2;
    let s0 = seq![o[0]] + s1;
    assert(s0 =~= o);
    assert(run(m7, s7) == (m7, Seq::<ActionView>::empty()));
    lemma_run_prepend(m6, o[6], s7);
    lemma_run_prepend(m5, o[5], s6);
    lemma_run_prepend(m4, o[4], s5);
    lemma_run_prepend(m3, o[3], s4);
    lemma_run_prepend(m2, o[2], s3);
    lemma_run_prepend(m1, o[1], s2);
    lemma_run_prepend(m0, o[0], s1);
    let acts = run(m0, o).1;
    assert(acts =~= seq![
        next(m0, o[0]).1,
        next(m1, o[1]).1,
        next(m2, o[2]).1,
        next(m3, o[3]).1,
        next(m4, o[4]).1,
        next(m5, o[5]).1,
        next(m6, o[6]).1,
    ]);
    assert(m0.frames.last() == m0.frames[0]);
    assert(m1.awaiting && m1.frames.last() == m1.frames[0]);
    assert(m2.frames.last().pc == 1 && m2.frames.last() == m2.frames[0]);
    assert(m3.frames.last().pc == 2 && m3.frames.last() == m3.frames[0]);
    assert(m4.frames.len() == 2 && m4.frames.last() == m4.frames[1]);
    assert(m4.frames.last().pc == 0 && !m4.apt_updated);
    assert(m5.frames.last().pc == 1 && m5.frames.last() == m5.frames[1]);
    assert(m6.awaiting && m6.frames.len() == 2 && m6.frames.last() == m6.frames[1]);
    assert(m6.frames.drop_last().last() == m6.frames[0]);
    assert(m6.frames[0].pc == 2);
    assert(crate::machine::aborts_on_failure(crate::machine::current(m6.frames[0])));
    assert(crate::machine::current(m6.frames[1]) is Shell);
    let rest = m6.frames.drop_last();
    assert(rest.len() == 1);
    assert(crate::machine::unwind(rest, false).1 == Some(false));
    assert(crate::machine::unwind(m6.frames, false).1 == Some(false));
    assert(m7.result == Some(false));
    assert(!(next(m5, o[5]).1 is Shell && next(m5, o[5]).1->Shell_command == apt_install_text(pkg))) by {
        reveal_strlit("sudo apt update");
        reveal_strlit("sudo apt install -y ");
        assert("sudo apt update"@[9] != apt_install_text(pkg)[9]);
    }
}


/// Installing ossutil downloads the archive, unpacks it, makes the binary
/// executable, moves it into `/usr/local/bin`, links it, and checks that it is
/// found; each step only after the one before has succeeded.
pub proof fn law_ossutil_steps_in_order(refreshed: bool, host: HostView)
    requires
        host.linux,
    ensures
        ({
            let p = routine_program(RoutineView::Install(Tool::Ossutil), refreshed, host);
            &&& runs_before(
                p,
                "curl -L -o ossutil-2.2.2-linux-amd64.zip https://gosspublic.alicdn.com/ossutil/v2/2.2.2/ossutil-2.2.2-linux-amd64.zip"@,
                "unzip -o ossutil-2.2.2-linux-amd64.zip"@,
            )
            &&& runs_before(
                p,
                "unzip -o ossutil-2.2.2-linux-amd64.zip"@,
                "chmod 755 ossutil-2.2.2-linux-amd64/ossutil"@,
            )
            &&& runs_before(
                p,
                "chmod 755 ossutil-2.2.2-linux-amd64/ossutil"@,
                "sudo mv ossutil-2.2.2-linux-amd64/ossutil /usr/local/bin/ossutil"@,
            )
            &&& runs_before(
                p,
                "sudo mv ossutil-2.2.2-linux-amd64/ossutil /usr/local/bin/ossutil"@,
                "sudo ln -sf /usr/local/bin/ossutil /usr/bin/ossutil"@,
            )
            &&& runs_before(
                p,
                "sudo ln -sf /usr/local/bin/ossutil /usr/bin/ossutil"@,
                "command -v ossutil >/dev/null 2>&1"@,
            )
            &&& straight(p, 0, p.len() as int)
        }),
{
    let p = routine_program(RoutineView::Install(Tool::Ossutil), refreshed, host);
    assert(runs(p[1], "curl -L -o ossutil-2.2.2-linux-amd64.zip https://gosspublic.alicdn.com/ossutil/v2/2.2.2/ossutil-2.2.2-linux-amd64.zip"@));
    assert(runs(p[2], "unzip -o ossutil-2.2.2-linux-amd64.zip"@));
    assert(runs(p[3], "chmod 755 ossutil-2.2.2-linux-amd64/ossutil"@));
    assert(runs(p[4], "sudo mv ossutil-2.2.2-linux-amd64/ossutil /usr/local/bin/ossutil"@));
    assert(runs(p[5], "sudo ln -sf /usr/local/bin/ossutil /usr/bin/ossutil"@));
    assert(runs(p[6], "command -v ossutil >/dev/null 2>&1"@));
    assert(straight(p, 1, 2) && straight(p, 2, 3) && straight(p, 3, 4));
    assert(straight(p, 4, 5) && straight(p, 5, 6));
}

/// Installing Miniconda downloads the installer, runs it, initialises Bash,
/// and checks that `conda` runs; each step only after the one before has
/// succeeded.
pub proof fn law_miniconda_steps_in_order(refreshed: bool, host: HostView)
    requires
        host.linux,
    ensures
        ({
            let p = routine_program(RoutineView::Install(Tool::Miniconda), refreshed, host);
            &&& runs_before(
                p,
                "wget https://repo.anaconda.com/miniconda/Miniconda3-latest-Linux-x86_64.sh -O /tmp/miniconda.sh"@,
                "bash /tmp/miniconda.sh -b -p $HOME/miniconda3"@,
            )
            &&& runs_before(
                p,
                "bash /tmp/miniconda.sh -b -p $HOME/miniconda3"@,
                "$HOME/miniconda3/bin/conda init bash"@,
            )
            &&& runs_before(
                p,
                "$HOME/miniconda3/bin/conda init bash"@,
                "$HOME/miniconda3/bin/conda --version >/dev/null 2>&1"@,
            )
            &&& straight(p, 0, p.len() as int)
        }),
{
    let p = routine_program(RoutineView::Install(Tool::Miniconda), refreshed, host);
    assert(runs(p[1], "wget https://repo.anaconda.com/miniconda/Miniconda3-latest-Linux-x86_64.sh -O /tmp/miniconda.sh"@));
    assert(runs(p[2], "bash /tmp/miniconda.sh -b -p $HOME/miniconda3"@));
    assert(runs(p[3], "$HOME/miniconda3/bin/conda init bash"@));
    assert(runs(p[4], "$HOME/miniconda3/bin/conda --version >/dev/null 2>&1"@));
    assert(straight(p, 1, 2) && straight(p, 2, 3) && straight(p, 3, 4));
}

/// Installing nvm runs its install script, then checks that nvm loads.
pub proof fn law_nvm_steps_in_order(refreshed: bool, host: HostView)
    requires
        host.linux,
    ensures
        ({
            let p = routine_program(RoutineView::Install(Tool::Nvm), refreshed, host);
            &&& runs_before(
                p,
                "curl -o- https://raw.githubusercontent.com/nvm-sh/nvm/v0.40.6/install.sh | bash"@,
                nvm_check_text(),
            )
            &&& straight(p, 0, p.len() as int)
        }),
{
    let p = routine_program(RoutineView::Install(Tool::Nvm), refreshed, host);
    assert(runs(p[1], "curl -o- https://raw.githubusercontent.com/nvm-sh/nvm/v0.40.6/install.sh | bash"@));
    assert(runs(p[2], nvm_check_text()) && straight(p, 1, 2));
}

/// Making sure of a command: a command found at once is reported present and
/// the routine succeeds; otherwise it is installed and checked again, and the
/// routine succeeds exactly when that second check finds it.
pub proof fn law_package_checks_around_install(pkg: Seq<char>, refreshed: bool, host: HostView)
    requires
        host.linux,
    ensures
        ({
            let p = routine_program(RoutineView::Package(pkg), refreshed, host);
            &&& forall|j: int|
                0 <= j < p.len() && #[trigger] p[j] is Probe ==> p[j]->Probe_command
                    == presence_check_text(pkg) && j < p[j]->on_success < p.len()
            &&& exists|j: int, k: int, c: int|
                0 <= j < k < c < p.len() && #[trigger] p[j] is Probe && #[trigger] runs(
                    p[k],
                    apt_install_text(pkg),
                ) && #[trigger] p[c] is Probe && straight(p, j + 1, c) && p[c + 1] is Say
                    && p[c + 2] == InstrView::Return(false) && p[p[c]->on_success as int] is Say
                    && p[(p[c]->on_success + 1) as int] == InstrView::Return(true)
                    && p[p[j]->on_success as int] == InstrView::Say(pkg + " is already installed"@)
                    && p[j]->on_success == p.len() - 1
        }),
{
    let p = routine_program(RoutineView::Package(pkg), refreshed, host);
    assert(p[0] is Probe && runs(p[3], apt_install_text(pkg)) && p[4] is Probe);
    assert(straight(p, 1, 4));
}

} // verus!
