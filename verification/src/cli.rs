use vstd::prelude::*;

use crate::program::{texts, Routine, RoutineView};
use crate::text::{cat, owned, str_eq};

verus! {

/// The usage text printed for `--help` and after a malformed command line.
pub open spec fn help_text_view() -> Seq<char> {
    "Usage:
  autoinstall install <tool|all>
  autoinstall --help

Supported tools:
  ossutil
  miniconda
  nvm
  node
  pm2
  ffmpeg
  docker
  tosutil
  all (install all supported tools)

Examples:
  autoinstall install node
  autoinstall install pm2
  autoinstall install ffmpeg
  autoinstall install docker
  autoinstall install all"@
}

/// The usage text printed for `--help` and after a malformed command line.
pub fn help_text() -> (res: &'static str)
    ensures
        res@ == help_text_view(),
{
    "Usage:
  autoinstall install <tool|all>
  autoinstall --help

Supported tools:
  ossutil
  miniconda
  nvm
  node
  pm2
  ffmpeg
  docker
  tosutil
  all (install all supported tools)

Examples:
  autoinstall install node
  autoinstall install pm2
  autoinstall install ffmpeg
  autoinstall install docker
  autoinstall install all"
}


/// What a command line asks for.
#[derive(Debug, PartialEq, Eq)]
pub enum Invocation {
    /// `--help`: print the usage text.
    Help,
    /// `install <tool>` or `install all`: run this routine.
    Install(Routine),
    /// `install` with no tool or more than one.
    InvalidInstall,
    /// An action other than `install` or a lone `--help`.
    UnsupportedAction(String),
    /// No arguments at all.
    MissingAction,
}

/// Abstract form of an invocation.
pub enum InvocationView {
    Help,
    Install(RoutineView),
    InvalidInstall,
    UnsupportedAction(Seq<char>),
    MissingAction,
}

impl View for Invocation {
    type V = InvocationView;

    open spec fn view(&self) -> InvocationView {
        match self {
            Invocation::Help => InvocationView::Help,
            Invocation::Install(r) => InvocationView::Install(r@),
            Invocation::InvalidInstall => InvocationView::InvalidInstall,
            Invocation::UnsupportedAction(a) => InvocationView::UnsupportedAction(a@),
            Invocation::MissingAction => InvocationView::MissingAction,
        }
    }
}

/// The meaning of the arguments after the program name: exactly `--help` asks
/// for help; `install` takes exactly one more argument, `all` or a tool name
/// (known or not: the installer reports unknown names); anything else is an
/// unsupported action, and nothing at all is a missing action.
pub open spec fn invocation_of(args: Seq<Seq<char>>) -> InvocationView {
    if args == seq!["--help"@] {
        InvocationView::Help
    } else if args.len() > 0 && args[0] == "install"@ {
        if args.len() != 2 {
            InvocationView::InvalidInstall
        } else if args[1] == "all"@ {
            InvocationView::Install(RoutineView::InstallAll)
        } else {
            InvocationView::Install(RoutineView::InstallTool(args[1]))
        }
    } else if args.len() > 0 {
        InvocationView::UnsupportedAction(args[0])
    } else {
        InvocationView::MissingAction
    }
}

/// Reads the arguments that follow the program name.
pub fn parse_arguments(arguments: &[String]) -> (res: Invocation)
    ensures
        res@ == invocation_of(texts(arguments@)),
{
    let ghost args = texts(arguments@);
    if arguments.len() == 1 && str_eq(arguments[0].as_str(), "--help") {
        assert(args =~= seq!["--help"@]);
        return Invocation::Help;
    }
    assert(args == seq!["--help"@] ==> args.len() == 1 && args[0] == "--help"@);
    if arguments.len() > 0 && str_eq(arguments[0].as_str(), "install") {
        if arguments.len() != 2 {
            return Invocation::InvalidInstall;
        }
        if str_eq(arguments[1].as_str(), "all") {
            return Invocation::Install(Routine::InstallAll);
        }
        return Invocation::Install(Routine::InstallTool(arguments[1].clone()));
    }
    if arguments.len() > 0 {
        return Invocation::UnsupportedAction(arguments[0].clone());
    }
    Invocation::MissingAction
}

/// The lines printed for an invocation before anything is installed: the
/// usage text for help, a complaint and the usage text for a malformed
/// command line, nothing for an installation.
pub open spec fn messages_of(inv: InvocationView) -> Seq<Seq<char>> {
    match inv {
        InvocationView::Help => seq![help_text_view()],
        InvocationView::Install(_) => seq![],
        InvocationView::InvalidInstall => seq!["invalid install command"@, help_text_view()],
        InvocationView::UnsupportedAction(a) => seq![
            "unsupported action: "@ + a,
            help_text_view(),
        ],
        InvocationView::MissingAction => seq!["command is required"@, help_text_view()],
    }
}

/// Whether the program exits successfully: for help and for any installation,
/// whatever the installation reports; not for a malformed command line.
pub open spec fn exit_success_of(inv: InvocationView) -> bool {
    inv is Help || inv is Install
}

impl Invocation {
    /// The lines to print before anything is installed.
    pub fn messages(&self) -> (res: Vec<String>)
        ensures
            texts(res@) == messages_of(self@),
    {
        let mut v: Vec<String> = Vec::new();
        match self {
            Invocation::Help => {
                v.push(owned(help_text()));
            },
            Invocation::Install(_) => {},
            Invocation::InvalidInstall => {
                v.push(owned("invalid install command"));
                v.push(owned(help_text()));
            },
            Invocation::UnsupportedAction(a) => {
                v.push(cat("unsupported action: ", a.as_str()));
                v.push(owned(help_text()));
            },
            Invocation::MissingAction => {
                v.push(owned("command is required"));
                v.push(owned(help_text()));
            },
        }
        assert(texts(v@) =~= messages_of(self@));
        v
    }

    /// Whether the program exits successfully.
    pub fn exit_succeeds(&self) -> (res: bool)
        ensures
            res == exit_success_of(self@),
    {
        match self {
            Invocation::Help => true,
            Invocation::Install(_) => true,
            _ => false,
        }
    }
}

} // verus!
