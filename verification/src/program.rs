//! The installer's routines, written as short programs of instructions that the
//! machine in `machine.rs` runs one step at a time.

use vstd::prelude::*;

use crate::cli::{help_text, help_text_view};
use crate::commands::{
    apt_install_command, apt_install_text, node_install_command, node_install_text,
    node_verify_command, node_verify_text, npm_check_command, npm_check_text, nvm_check_command,
    nvm_check_text, pm2_install_command, pm2_install_text, pm2_verify_command, pm2_verify_text,
    presence_check_command, presence_check_text,
};
use crate::text::{cat, cat3, owned, str_eq};
use crate::tools::{
    dependencies_of, supported_tool_names, tool_dependencies, tool_named, Tool, SUPPORTED_TOOLS,
};

verus! {

/// A routine of the installer: the unit that a `Call` instruction runs and that
/// reports success or failure to its caller.
#[derive(Debug, PartialEq, Eq)]
pub enum Routine {
    /// Refresh the apt package lists, at most once per run.
    AptUpdate,
    /// Make sure the command of this name is available, installing it with apt.
    Package(String),
    /// Install a tool requested by name, with its system dependencies.
    InstallTool(String),
    /// Run the installer proper of a supported tool.
    Install(Tool),
    /// Install every supported tool in the fixed order.
    InstallAll,
}

/// Abstract form of a routine.
pub enum RoutineView {
    AptUpdate,
    Package(Seq<char>),
    InstallTool(Seq<char>),
    Install(Tool),
    InstallAll,
}

impl View for Routine {
    type V = RoutineView;

    open spec fn view(&self) -> RoutineView {
        match self {
            Routine::AptUpdate => RoutineView::AptUpdate,
            Routine::Package(p) => RoutineView::Package(p@),
            Routine::InstallTool(n) => RoutineView::InstallTool(n@),
            Routine::Install(t) => RoutineView::Install(*t),
            Routine::InstallAll => RoutineView::InstallAll,
        }
    }
}

impl Routine {
    /// A copy of the routine.
    pub fn duplicate(&self) -> (res: Routine)
        ensures
            res@ == self@,
    {
        match self {
            Routine::AptUpdate => Routine::AptUpdate,
            Routine::Package(p) => Routine::Package(p.clone()),
            Routine::InstallTool(n) => Routine::InstallTool(n.clone()),
            Routine::Install(t) => Routine::Install(*t),
            Routine::InstallAll => Routine::InstallAll,
        }
    }
}

/// One instruction of a routine's program.
#[derive(Debug, PartialEq, Eq)]
pub enum Instr {
    /// Print a line.
    Say(String),
    /// Run a Bash command; when it fails, the routine ends with failure.
    Shell { command: String, error_message: String },
    /// Run a program with arguments, without a shell; when it fails, the routine
    /// ends with failure.
    Exec { program: String, arguments: Vec<String>, error_message: String },
    /// Run a Bash command silently; when it succeeds, continue at `on_success`,
    /// else with the next instruction.
    Probe { command: String, on_success: usize },
    /// Run another routine; when it fails and `must_succeed` holds, this routine
    /// ends with failure too.
    Call { routine: Routine, must_succeed: bool },
    /// End the routine with this result.
    Return(bool),
    /// Record that the apt package lists have been refreshed.
    MarkAptUpdated,
}

/// Abstract form of an instruction.
pub enum InstrView {
    Say(Seq<char>),
    Shell { command: Seq<char>, error_message: Seq<char> },
    Exec { program: Seq<char>, arguments: Seq<Seq<char>>, error_message: Seq<char> },
    Probe { command: Seq<char>, on_success: nat },
    Call { routine: RoutineView, must_succeed: bool },
    Return(bool),
    MarkAptUpdated,
}

/// The abstract texts of a list of strings.
pub open spec fn texts(v: Seq<String>) -> Seq<Seq<char>> {
    v.map_values(|s: String| s@)
}

impl View for Instr {
    type V = InstrView;

    open spec fn view(&self) -> InstrView {
        match self {
            Instr::Say(t) => InstrView::Say(t@),
            Instr::Shell { command, error_message } => InstrView::Shell {
                command: command@,
                error_message: error_message@,
            },
            Instr::Exec { program, arguments, error_message } => InstrView::Exec {
                program: program@,
                arguments: texts(arguments@),
                error_message: error_message@,
            },
            Instr::Probe { command, on_success } => InstrView::Probe {
                command: command@,
                on_success: *on_success as nat,
            },
            Instr::Call { routine, must_succeed } => InstrView::Call {
                routine: routine@,
                must_succeed: *must_succeed,
            },
            Instr::Return(b) => InstrView::Return(*b),
            Instr::MarkAptUpdated => InstrView::MarkAptUpdated,
        }
    }
}

/// The abstract form of a program.
pub open spec fn program_view(v: Seq<Instr>) -> Seq<InstrView> {
    v.map_values(|i: Instr| i@)
}

/// What the installer knows of the machine it runs on.
pub struct Host {
    /// Whether this is a Linux system; elsewhere the installers only report
    /// that they are not supported.
    pub linux: bool,
    /// The user to add to the `docker` group (`SUDO_USER`, else `USER`).
    pub docker_user: String,
}

/// Abstract form of the host.
pub struct HostView {
    pub linux: bool,
    pub docker_user: Seq<char>,
}

impl View for Host {
    type V = HostView;

    open spec fn view(&self) -> HostView {
        HostView { linux: self.linux, docker_user: self.docker_user@ }
    }
}

/// Printing a line.
pub open spec fn say(t: Seq<char>) -> InstrView {
    InstrView::Say(t)
}

/// Running a Bash command that must succeed.
pub open spec fn shell(command: Seq<char>, error_message: Seq<char>) -> InstrView {
    InstrView::Shell { command, error_message }
}

/// Running another routine.
pub open spec fn call(routine: RoutineView, must_succeed: bool) -> InstrView {
    InstrView::Call { routine, must_succeed }
}

/// The instruction that prints this text.
fn say_text(t: &str) -> (res: Instr)
    ensures
        res@ == say(t@),
{
    Instr::Say(owned(t))
}

/// The instruction that runs this command.
fn shell_step(command: &str, error_message: &str) -> (res: Instr)
    ensures
        res@ == shell(command@, error_message@),
{
    Instr::Shell { command: owned(command), error_message: owned(error_message) }
}

/// The instruction that runs this command.
fn shell_owned(command: String, error_message: &str) -> (res: Instr)
    ensures
        res@ == shell(command@, error_message@),
{
    Instr::Shell { command, error_message: owned(error_message) }
}

// ---------------------------------------------------------------------------
// apt

/// Refreshing the apt lists: nothing once done, else print, `sudo apt update`,
/// and record success.
pub open spec fn apt_update_program(apt_updated: bool) -> Seq<InstrView> {
    if apt_updated {
        seq![]
    } else {
        seq![
            say("running sudo apt update..."@),
            shell("sudo apt update"@, "failed to run sudo apt update"@),
            InstrView::MarkAptUpdated,
        ]
    }
}

/// Builds the routine that refreshes the apt package lists once per run.
pub fn build_apt_update_program(apt_updated: bool) -> (res: Vec<Instr>)
    ensures
        program_view(res@) == apt_update_program(apt_updated),
{
    let mut v: Vec<Instr> = Vec::new();
    if !apt_updated {
        v.push(say_text("running sudo apt update..."));
        v.push(shell_step("sudo apt update", "failed to run sudo apt update"));
        v.push(Instr::MarkAptUpdated);
    }
    assert(program_view(v@) =~= apt_update_program(apt_updated));
    v
}

/// Making sure a command is available: if the silent check finds it, report so
/// (from instruction 9 on); else refresh apt, install its package, and check again.
pub open spec fn package_program(p: Seq<char>) -> Seq<InstrView> {
    seq![
        InstrView::Probe { command: presence_check_text(p), on_success: 9 },
        say(p + " not found, installing "@ + p + "..."@),
        call(RoutineView::AptUpdate, true),
        shell(apt_install_text(p), "failed to install "@ + p),
        InstrView::Probe { command: presence_check_text(p), on_success: 7 },
        say(p + " install finished but command is still unavailable"@),
        InstrView::Return(false),
        say(p + " installed successfully"@),
        InstrView::Return(true),
        say(p + " is already installed"@),
    ]
}

/// Builds the routine that makes sure a command is available through apt.
pub fn build_package_program(package_name: &str) -> (res: Vec<Instr>)
    ensures
        program_view(res@) == package_program(package_name@),
{
    let p = package_name;
    let mut v: Vec<Instr> = Vec::new();
    v.push(Instr::Probe { command: presence_check_command(p), on_success: 9 });
    let not_found = cat3(p, " not found, installing ", p);
    v.push(Instr::Say(cat(not_found.as_str(), "...")));
    v.push(Instr::Call { routine: Routine::AptUpdate, must_succeed: true });
    v.push(shell_owned(apt_install_command(p), cat("failed to install ", p).as_str()));
    v.push(Instr::Probe { command: presence_check_command(p), on_success: 7 });
    v.push(Instr::Say(cat(p, " install finished but command is still unavailable")));
    v.push(Instr::Return(false));
    v.push(Instr::Say(cat(p, " installed successfully")));
    v.push(Instr::Return(true));
    v.push(Instr::Say(cat(p, " is already installed")));
    assert(program_view(v@) =~= package_program(p@));
    v
}


// ---------------------------------------------------------------------------
// tools

/// Installing ossutil: download, unpack, install into `/usr/local/bin`, link,
/// and check that the command is found.
pub open spec fn ossutil_program() -> Seq<InstrView> {
    seq![
        say("Installing ossutil..."@),
        shell(
            "curl -L -o ossutil-2.2.2-linux-amd64.zip https://gosspublic.alicdn.com/ossutil/v2/2.2.2/ossutil-2.2.2-linux-amd64.zip"@,
            "failed to download ossutil"@,
        ),
        shell("unzip -o ossutil-2.2.2-linux-amd64.zip"@, "failed to unzip ossutil package"@),
        shell(
            "chmod 755 ossutil-2.2.2-linux-amd64/ossutil"@,
            "failed to update ossutil permissions"@,
        ),
        shell(
            "sudo mv ossutil-2.2.2-linux-amd64/ossutil /usr/local/bin/ossutil"@,
            "failed to move ossutil into /usr/local/bin"@,
        ),
        shell(
            "sudo ln -sf /usr/local/bin/ossutil /usr/bin/ossutil"@,
            "failed to create ossutil symlink"@,
        ),
        shell(
            "command -v ossutil >/dev/null 2>&1"@,
            "ossutil install finished but command is still unavailable"@,
        ),
        say("ossutil installed successfully"@),
    ]
}

/// Builds the ossutil installer.
pub fn build_ossutil_program() -> (res: Vec<Instr>)
    ensures
        program_view(res@) == ossutil_program(),
{
    let mut v: Vec<Instr> = Vec::new();
    v.push(say_text("Installing ossutil..."));
    v.push(
        shell_step(
            "curl -L -o ossutil-2.2.2-linux-amd64.zip https://gosspublic.alicdn.com/ossutil/v2/2.2.2/ossutil-2.2.2-linux-amd64.zip",
            "failed to download ossutil",
        ),
    );
    v.push(shell_step("unzip -o ossutil-2.2.2-linux-amd64.zip", "failed to unzip ossutil package"));
    v.push(
        shell_step(
            "chmod 755 ossutil-2.2.2-linux-amd64/ossutil",
            "failed to update ossutil permissions",
        ),
    );
    v.push(
        shell_step(
            "sudo mv ossutil-2.2.2-linux-amd64/ossutil /usr/local/bin/ossutil",
            "failed to move ossutil into /usr/local/bin",
        ),
    );
    v.push(
        shell_step(
            "sudo ln -sf /usr/local/bin/ossutil /usr/bin/ossutil",
            "failed to create ossutil symlink",
        ),
    );
    v.push(
        shell_step(
            "command -v ossutil >/dev/null 2>&1",
            "ossutil install finished but command is still unavailable",
        ),
    );
    v.push(say_text("ossutil installed successfully"));
    assert(program_view(v@) =~= ossutil_program());
    v
}

/// Installing Miniconda: download the installer, run it into `$HOME/miniconda3`,
/// initialise Bash, and check that `conda` runs.
pub open spec fn miniconda_program() -> Seq<InstrView> {
    seq![
        say("Installing Miniconda..."@),
        shell(
            "wget https://repo.anaconda.com/miniconda/Miniconda3-latest-Linux-x86_64.sh -O /tmp/miniconda.sh"@,
            "failed to download Miniconda installer"@,
        ),
        shell("bash /tmp/miniconda.sh -b -p $HOME/miniconda3"@, "failed to install Miniconda"@),
        shell("$HOME/miniconda3/bin/conda init bash"@, "failed to run conda init bash"@),
        shell(
            "$HOME/miniconda3/bin/conda --version >/dev/null 2>&1"@,
            "Miniconda install finished but conda is still unavailable"@,
        ),
        say("Miniconda installed successfully."@),
        say("open a new shell or run: source ~/.bashrc"@),
    ]
}

/// Builds the Miniconda installer.
pub fn build_miniconda_program() -> (res: Vec<Instr>)
    ensures
        program_view(res@) == miniconda_program(),
{
    let mut v: Vec<Instr> = Vec::new();
    v.push(say_text("Installing Miniconda..."));
    v.push(
        shell_step(
            "wget https://repo.anaconda.com/miniconda/Miniconda3-latest-Linux-x86_64.sh -O /tmp/miniconda.sh",
            "failed to download Miniconda installer",
        ),
    );
    v.push(shell_step("bash /tmp/miniconda.sh -b -p $HOME/miniconda3", "failed to install Miniconda"));
    v.push(shell_step("$HOME/miniconda3/bin/conda init bash", "failed to run conda init bash"));
    v.push(
        shell_step(
            "$HOME/miniconda3/bin/conda --version >/dev/null 2>&1",
            "Miniconda install finished but conda is still unavailable",
        ),
    );
    v.push(say_text("Miniconda installed successfully."));
    v.push(say_text("open a new shell or run: source ~/.bashrc"));
    assert(program_view(v@) =~= miniconda_program());
    v
}

/// Installing nvm: run its install script, then check that nvm loads.
pub open spec fn nvm_program() -> Seq<InstrView> {
    seq![
        say("Installing nvm..."@),
        shell(
            "curl -o- https://raw.githubusercontent.com/nvm-sh/nvm/v0.40.6/install.sh | bash"@,
            "failed to install nvm"@,
        ),
        shell(nvm_check_text(), "nvm install finished but nvm is unavailable"@),
        say("nvm installed successfully."@),
        say("open a new shell to start using nvm"@),
    ]
}

/// Builds the nvm installer.
pub fn build_nvm_program() -> (res: Vec<Instr>)
    ensures
        program_view(res@) == nvm_program(),
{
    let mut v: Vec<Instr> = Vec::new();
    v.push(say_text("Installing nvm..."));
    v.push(
        shell_step(
            "curl -o- https://raw.githubusercontent.com/nvm-sh/nvm/v0.40.6/install.sh | bash",
            "failed to install nvm",
        ),
    );
    v.push(shell_owned(nvm_check_command(), "nvm install finished but nvm is unavailable"));
    v.push(say_text("nvm installed successfully."));
    v.push(say_text("open a new shell to start using nvm"));
    assert(program_view(v@) =~= nvm_program());
    v
}

/// Installing Node.js: when nvm does not load, install nvm (whatever that
/// reports) and require that it loads now; then install and check Node.js.
pub open spec fn node_program() -> Seq<InstrView> {
    seq![
        say("Installing Node.js..."@),
        InstrView::Probe { command: nvm_check_text(), on_success: 5 },
        say("nvm not found, installing nvm..."@),
        call(RoutineView::Install(Tool::Nvm), false),
        shell(nvm_check_text(), "nvm is unavailable after installation"@),
        shell(node_install_text(), "failed to install Node.js with nvm"@),
        shell(node_verify_text(), "Node.js install finished but node is unavailable"@),
        say("Node.js installed successfully."@),
    ]
}

/// Builds the Node.js installer.
pub fn build_node_program() -> (res: Vec<Instr>)
    ensures
        program_view(res@) == node_program(),
{
    let mut v: Vec<Instr> = Vec::new();
    v.push(say_text("Installing Node.js..."));
    v.push(Instr::Probe { command: nvm_check_command(), on_success: 5 });
    v.push(say_text("nvm not found, installing nvm..."));
    v.push(Instr::Call { routine: Routine::Install(Tool::Nvm), must_succeed: false });
    v.push(shell_owned(nvm_check_command(), "nvm is unavailable after installation"));
    v.push(shell_owned(node_install_command(), "failed to install Node.js with nvm"));
    v.push(shell_owned(node_verify_command(), "Node.js install finished but node is unavailable"));
    v.push(say_text("Node.js installed successfully."));
    assert(program_view(v@) =~= node_program());
    v
}

/// Installing PM2: when npm is missing, require curl, install Node.js (whatever
/// that reports) and require npm now; then install PM2 globally and check it.
pub open spec fn pm2_program() -> Seq<InstrView> {
    seq![
        say("Installing PM2..."@),
        InstrView::Probe { command: npm_check_text(), on_success: 6 },
        say("npm not found, installing Node.js..."@),
        call(RoutineView::Package("curl"@), true),
        call(RoutineView::Install(Tool::Node), false),
        shell(npm_check_text(), "npm is unavailable after Node.js installation"@),
        shell(pm2_install_text(), "failed to install PM2 with npm"@),
        shell(pm2_verify_text(), "PM2 install finished but pm2 is unavailable"@),
        say("PM2 installed successfully."@),
    ]
}

/// Builds the PM2 installer.
pub fn build_pm2_program() -> (res: Vec<Instr>)
    ensures
        program_view(res@) == pm2_program(),
{
    let mut v: Vec<Instr> = Vec::new();
    v.push(say_text("Installing PM2..."));
    v.push(Instr::Probe { command: npm_check_command(), on_success: 6 });
    v.push(say_text("npm not found, installing Node.js..."));
    v.push(Instr::Call { routine: Routine::Package(owned("curl")), must_succeed: true });
    v.push(Instr::Call { routine: Routine::Install(Tool::Node), must_succeed: false });
    v.push(shell_owned(npm_check_command(), "npm is unavailable after Node.js installation"));
    v.push(shell_owned(pm2_install_command(), "failed to install PM2 with npm"));
    v.push(shell_owned(pm2_verify_command(), "PM2 install finished but pm2 is unavailable"));
    v.push(say_text("PM2 installed successfully."));
    assert(program_view(v@) =~= pm2_program());
    v
}

/// Installing FFmpeg: make sure the `ffmpeg` command is available through apt.
pub open spec fn ffmpeg_program() -> Seq<InstrView> {
    seq![call(RoutineView::Package("ffmpeg"@), true)]
}

/// Builds the FFmpeg installer.
pub fn build_ffmpeg_program() -> (res: Vec<Instr>)
    ensures
        program_view(res@) == ffmpeg_program(),
{
    let mut v: Vec<Instr> = Vec::new();
    v.push(Instr::Call { routine: Routine::Package(owned("ffmpeg")), must_succeed: true });
    assert(program_view(v@) =~= ffmpeg_program());
    v
}

/// Whether the Docker installer adds this user to the `docker` group: any user
/// but `root` and the empty name.
pub open spec fn joins_docker_group(user: Seq<char>) -> bool {
    user.len() > 0 && user != "root"@
}

/// Whether the Docker installer adds this user to the `docker` group.
pub fn docker_group_wanted(user: &str) -> (res: bool)
    ensures
        res == joins_docker_group(user@),
{
    user.unicode_len() > 0 && !str_eq(user, "root")
}

/// The user that the Docker installer adds to the `docker` group: `SUDO_USER`
/// when it is set and not empty, else `USER`, else the empty name.
pub open spec fn docker_user_of(sudo_user: Option<Seq<char>>, user: Option<Seq<char>>) -> Seq<char> {
    match sudo_user {
        Some(s) if s.len() > 0 => s,
        _ => match user {
            Some(u) => u,
            None => Seq::empty(),
        },
    }
}

/// Chooses the user for the `docker` group from the values of `SUDO_USER` and `USER`.
pub fn docker_user_name(sudo_user: Option<String>, user: Option<String>) -> (res: String)
    ensures
        res@ == docker_user_of(
            match sudo_user { Some(s) => Some(s@), None => None },
            match user { Some(u) => Some(u@), None => None },
        ),
{
    match sudo_user {
        Some(s) if s.as_str().unicode_len() > 0 => s,
        _ => match user {
            Some(u) => u,
            None => String::new(),
        },
    }
}

/// The four steps that add Docker's apt repository and install Docker.
pub open spec fn docker_setup_steps() -> Seq<InstrView> {
    seq![
        shell(
            "curl -fsSL https://download.docker.com/linux/ubuntu/gpg | sudo gpg --dearmor --yes -o /usr/share/keyrings/docker-archive-keyring.gpg"@,
            "failed to install Docker GPG key"@,
        ),
        shell(
            "echo \"deb [arch=$(dpkg --print-architecture) signed-by=/usr/share/keyrings/docker-archive-keyring.gpg] https://download.docker.com/linux/ubuntu $(lsb_release -cs) stable\" | sudo tee /etc/apt/sources.list.d/docker.list > /dev/null"@,
            "failed to add Docker apt repository"@,
        ),
        shell("sudo apt update"@, "failed to run sudo apt update for Docker repository"@),
        shell(
            "sudo apt install -y docker-ce docker-ce-cli containerd.io"@,
            "failed to install Docker"@,
        ),
    ]
}

/// Adding a user to the `docker` group with `sudo usermod -aG docker <user>`.
pub open spec fn docker_group_step(user: Seq<char>) -> InstrView {
    InstrView::Exec {
        program: "sudo"@,
        arguments: seq!["usermod"@, "-aG"@, "docker"@, user],
        error_message: "failed to add user to docker group"@,
    }
}

/// Installing Docker: set up the repository and install; add the user to the
/// `docker` group unless it is `root` or unknown; check that `docker` runs.
pub open spec fn docker_program(user: Seq<char>) -> Seq<InstrView> {
    let joins = joins_docker_group(user);
    seq![say("Installing Docker..."@)] + docker_setup_steps() + (if joins {
        seq![docker_group_step(user)]
    } else {
        seq![]
    }) + seq![
        shell(
            "docker --version >/dev/null 2>&1"@,
            "Docker install finished but docker is still unavailable"@,
        ),
        say("Docker installed successfully."@),
    ] + (if joins {
        seq![say("open a new shell or run: newgrp docker"@)]
    } else {
        seq![]
    })
}

/// Builds the Docker installer for the given user.
pub fn build_docker_program(user: &str) -> (res: Vec<Instr>)
    ensures
        program_view(res@) == docker_program(user@),
{
    let joins = docker_group_wanted(user);
    let mut v: Vec<Instr> = Vec::new();
    v.push(say_text("Installing Docker..."));
    v.push(
        shell_step(
            "curl -fsSL https://download.docker.com/linux/ubuntu/gpg | sudo gpg --dearmor --yes -o /usr/share/keyrings/docker-archive-keyring.gpg",
            "failed to install Docker GPG key",
        ),
    );
    v.push(
        shell_step(
            "echo \"deb [arch=$(dpkg --print-architecture) signed-by=/usr/share/keyrings/docker-archive-keyring.gpg] https://download.docker.com/linux/ubuntu $(lsb_release -cs) stable\" | sudo tee /etc/apt/sources.list.d/docker.list > /dev/null",
            "failed to add Docker apt repository",
        ),
    );
    v.push(shell_step("sudo apt update", "failed to run sudo apt update for Docker repository"));
    v.push(
        shell_step("sudo apt install -y docker-ce docker-ce-cli containerd.io", "failed to install Docker"),
    );
    if joins {
        let mut arguments: Vec<String> = Vec::new();
        arguments.push(owned("usermod"));
        arguments.push(owned("-aG"));
        arguments.push(owned("docker"));
        arguments.push(owned(user));
        assert(texts(arguments@) =~= seq!["usermod"@, "-aG"@, "docker"@, user@]);
        v.push(
            Instr::Exec {
                program: owned("sudo"),
                arguments,
                error_message: owned("failed to add user to docker group"),
            },
        );
    }
    v.push(
        shell_step(
            "docker --version >/dev/null 2>&1",
            "Docker install finished but docker is still unavailable",
        ),
    );
    v.push(say_text("Docker installed successfully."));
    if joins {
        v.push(say_text("open a new shell or run: newgrp docker"));
    }
    assert(program_view(v@) =~= docker_program(user@));
    v
}

/// Installing tosutil: download, make executable, install into `/usr/local/bin`,
/// link, and check that the command is found.
pub open spec fn tosutil_program() -> Seq<InstrView> {
    seq![
        say("Installing tosutil..."@),
        shell(
            "wget https://m645b3e1bb36e-mrap.mrap.accesspoint.tos-global.volces.com/linux/amd64/tosutil -O tosutil"@,
            "failed to download tosutil"@,
        ),
        shell("chmod a+x tosutil"@, "failed to update tosutil permissions"@),
        shell("sudo mv tosutil /usr/local/bin/tosutil"@, "failed to move tosutil into /usr/local/bin"@),
        shell(
            "sudo ln -sf /usr/local/bin/tosutil /usr/bin/tosutil"@,
            "failed to create tosutil symlink"@,
        ),
        shell(
            "command -v tosutil >/dev/null 2>&1"@,
            "tosutil install finished but command is unavailable"@,
        ),
        say("tosutil installed successfully."@),
    ]
}

/// Builds the tosutil installer.
pub fn build_tosutil_program() -> (res: Vec<Instr>)
    ensures
        program_view(res@) == tosutil_program(),
{
    let mut v: Vec<Instr> = Vec::new();
    v.push(say_text("Installing tosutil..."));
    v.push(
        shell_step(
            "wget https://m645b3e1bb36e-mrap.mrap.accesspoint.tos-global.volces.com/linux/amd64/tosutil -O tosutil",
            "failed to download tosutil",
        ),
    );
    v.push(shell_step("chmod a+x tosutil", "failed to update tosutil permissions"));
    v.push(shell_step("sudo mv tosutil /usr/local/bin/tosutil", "failed to move tosutil into /usr/local/bin"));
    v.push(
        shell_step(
            "sudo ln -sf /usr/local/bin/tosutil /usr/bin/tosutil",
            "failed to create tosutil symlink",
        ),
    );
    v.push(
        shell_step(
            "command -v tosutil >/dev/null 2>&1",
            "tosutil install finished but command is unavailable",
        ),
    );
    v.push(say_text("tosutil installed successfully."));
    assert(program_view(v@) =~= tosutil_program());
    v
}


// ---------------------------------------------------------------------------
// systems other than Linux

/// What an installer says on a system other than Linux, where it does nothing.
pub open spec fn linux_only_message(tool: Tool) -> Seq<char> {
    match tool {
        Tool::Ossutil => "ossutil install only supports Linux apt environments"@,
        Tool::Miniconda => "Miniconda install only supports Linux environments"@,
        Tool::Nvm => "nvm install only supports Linux environments"@,
        Tool::Node => "Node.js install only supports Linux environments"@,
        Tool::Pm2 => "PM2 install only supports Linux environments"@,
        Tool::Ffmpeg => apt_only_message(),
        Tool::Docker => "Docker install only supports Linux apt environments"@,
        Tool::Tosutil => "tosutil install only supports Linux environments"@,
    }
}

/// What making sure of a system package says on a system other than Linux.
pub open spec fn apt_only_message() -> Seq<char> {
    "auto install only supports Linux apt environments"@
}

/// A routine that only reports that it needs Linux, and fails.
pub open spec fn linux_only_program(message: Seq<char>) -> Seq<InstrView> {
    seq![say(message), InstrView::Return(false)]
}

/// Builds a routine that only reports that it needs Linux.
fn build_linux_only_program(message: &str) -> (res: Vec<Instr>)
    ensures
        program_view(res@) == linux_only_program(message@),
{
    let mut v: Vec<Instr> = Vec::new();
    v.push(say_text(message));
    v.push(Instr::Return(false));
    assert(program_view(v@) =~= linux_only_program(message@));
    v
}

/// What an installer says on a system other than Linux.
fn linux_only_text(tool: Tool) -> (res: &'static str)
    ensures
        res@ == linux_only_message(tool),
{
    match tool {
        Tool::Ossutil => "ossutil install only supports Linux apt environments",
        Tool::Miniconda => "Miniconda install only supports Linux environments",
        Tool::Nvm => "nvm install only supports Linux environments",
        Tool::Node => "Node.js install only supports Linux environments",
        Tool::Pm2 => "PM2 install only supports Linux environments",
        Tool::Ffmpeg => "auto install only supports Linux apt environments",
        Tool::Docker => "Docker install only supports Linux apt environments",
        Tool::Tosutil => "tosutil install only supports Linux environments",
    }
}

// ---------------------------------------------------------------------------
// routines

/// The installer proper of a tool on the given host.
pub open spec fn installer_program(tool: Tool, host: HostView) -> Seq<InstrView> {
    if !host.linux && tool != Tool::Ffmpeg {
        linux_only_program(linux_only_message(tool))
    } else {
        match tool {
            Tool::Ossutil => ossutil_program(),
            Tool::Miniconda => miniconda_program(),
            Tool::Nvm => nvm_program(),
            Tool::Node => node_program(),
            Tool::Pm2 => pm2_program(),
            Tool::Ffmpeg => ffmpeg_program(),
            Tool::Docker => docker_program(host.docker_user),
            Tool::Tosutil => tosutil_program(),
        }
    }
}

/// Builds the installer proper of a tool.
pub fn build_installer_program(tool: Tool, host: &Host) -> (res: Vec<Instr>)
    ensures
        program_view(res@) == installer_program(tool, host@),
{
    if !host.linux && tool != Tool::Ffmpeg {
        return build_linux_only_program(linux_only_text(tool));
    }
    match tool {
        Tool::Ossutil => build_ossutil_program(),
        Tool::Miniconda => build_miniconda_program(),
        Tool::Nvm => build_nvm_program(),
        Tool::Node => build_node_program(),
        Tool::Pm2 => build_pm2_program(),
        Tool::Ffmpeg => build_ffmpeg_program(),
        Tool::Docker => build_docker_program(host.docker_user.as_str()),
        Tool::Tosutil => build_tosutil_program(),
    }
}

/// Calls that make sure each of these commands is available, in order, each
/// required to succeed.
pub open spec fn dependency_calls(packages: Seq<Seq<char>>) -> Seq<InstrView> {
    packages.map_values(|p: Seq<char>| call(RoutineView::Package(p), true))
}

/// Installing a tool by name: an unknown name is reported with the usage text
/// and fails; a supported tool first gets its system dependencies, each of
/// which must succeed, then runs its installer, whose result is the result.
pub open spec fn install_tool_program(name: Seq<char>) -> Seq<InstrView> {
    match tool_named(name) {
        None => seq![
            say("unsupported tool: "@ + name),
            say(help_text_view()),
            InstrView::Return(false),
        ],
        Some(tool) => dependency_calls(dependencies_of(name)) + seq![
            call(RoutineView::Install(tool), true),
        ],
    }
}

/// Builds the routine that installs a tool requested by name.
pub fn build_install_tool_program(name: &str) -> (res: Vec<Instr>)
    ensures
        program_view(res@) == install_tool_program(name@),
{
    let mut v: Vec<Instr> = Vec::new();
    match Tool::from_name(name) {
        None => {
            v.push(Instr::Say(cat("unsupported tool: ", name)));
            v.push(say_text(help_text()));
            v.push(Instr::Return(false));
            assert(program_view(v@) =~= install_tool_program(name@));
        },
        Some(tool) => {
            let deps = tool_dependencies(name);
            let ghost packages = dependencies_of(name@);
            let mut i: usize = 0;
            while i < deps.len()
                invariant
                    i <= deps@.len(),
                    deps@.map_values(|p: &str| p@) == packages,
                    program_view(v@) == dependency_calls(packages.take(i as int)),
                decreases deps@.len() - i,
            {
                let p: &str = deps[i];
                let ghost before = v@;
                let instr = Instr::Call { routine: Routine::Package(owned(p)), must_succeed: true };
                v.push(instr);
                assert(packages[i as int] == p@);
                assert(packages.take(i + 1) =~= packages.take(i as int).push(p@));
                assert(v@ == before.push(instr));
                assert(program_view(v@) =~= program_view(before).push(instr@));
                assert(dependency_calls(packages.take(i + 1)) =~= dependency_calls(
                    packages.take(i as int),
                ).push(call(RoutineView::Package(p@), true)));
                i = i + 1;
            }
            assert(packages.take(i as int) =~= packages);
            v.push(Instr::Call { routine: Routine::Install(tool), must_succeed: true });
            assert(program_view(v@) =~= install_tool_program(name@));
        },
    }
    v
}

/// The two instructions that install one tool during `install all`: announce
/// it, then install it by name, whatever that reports.
pub open spec fn install_all_entry(name: Seq<char>) -> Seq<InstrView> {
    seq![say("\ninstalling "@ + name + "..."@), call(RoutineView::InstallTool(name), false)]
}

/// `install all` over these names, in order.
pub open spec fn install_each(names: Seq<Seq<char>>) -> Seq<InstrView>
    decreases names.len(),
{
    if names.len() == 0 {
        seq![]
    } else {
        install_each(names.drop_last()) + install_all_entry(names.last())
    }
}

/// Installing every supported tool in the fixed order; a failure does not stop
/// the others, and the routine itself succeeds.
pub open spec fn install_all_program() -> Seq<InstrView> {
    install_each(supported_tool_names())
}

/// Builds the routine that installs every supported tool.
pub fn build_install_all_program() -> (res: Vec<Instr>)
    ensures
        program_view(res@) == install_all_program(),
{
    let mut v: Vec<Instr> = Vec::new();
    let ghost names = supported_tool_names();
    let mut i: usize = 0;
    while i < SUPPORTED_TOOLS.len()
        invariant
            i <= 8,
            program_view(v@) == install_each(names.take(i as int)),
            names == supported_tool_names(),
        decreases 8 - i,
    {
        let name: &str = SUPPORTED_TOOLS[i];
        assert(names[i as int] == name@);
        v.push(Instr::Say(cat3("\ninstalling ", name, "...")));
        v.push(Instr::Call { routine: Routine::InstallTool(owned(name)), must_succeed: false });
        assert(names.take(i + 1).drop_last() =~= names.take(i as int));
        assert(names.take(i + 1).last() == name@);
        assert(program_view(v@) =~= install_each(names.take(i + 1)));
        i = i + 1;
    }
    assert(names.take(8) =~= names);
    v
}

/// The program that a routine runs when it is called on this host, with apt's
/// lists refreshed already or not.
pub open spec fn routine_program(routine: RoutineView, apt_updated: bool, host: HostView) -> Seq<InstrView> {
    match routine {
        RoutineView::AptUpdate => apt_update_program(apt_updated),
        RoutineView::Package(p) => if host.linux {
            package_program(p)
        } else {
            linux_only_program(apt_only_message())
        },
        RoutineView::InstallTool(name) => install_tool_program(name),
        RoutineView::Install(tool) => installer_program(tool, host),
        RoutineView::InstallAll => install_all_program(),
    }
}

/// Builds the program that a routine runs when it is called.
pub fn build_routine_program(routine: &Routine, apt_updated: bool, host: &Host) -> (res: Vec<Instr>)
    ensures
        program_view(res@) == routine_program(routine@, apt_updated, host@),
{
    match routine {
        Routine::AptUpdate => build_apt_update_program(apt_updated),
        Routine::Package(p) => if host.linux {
            build_package_program(p.as_str())
        } else {
            build_linux_only_program("auto install only supports Linux apt environments")
        },
        Routine::InstallTool(name) => build_install_tool_program(name.as_str()),
        Routine::Install(tool) => build_installer_program(*tool, host),
        Routine::InstallAll => build_install_all_program(),
    }
}

} // verus!
