use lib::cli::help_text;
use lib::machine::{Action, Machine};
use lib::program::{docker_user_name, docker_group_wanted, Host, Routine};
use lib::tools::Tool;

fn linux(user: &str) -> Host {
    Host { linux: true, docker_user: user.to_string() }
}

/// Runs the machine to the end; `answer` gives the outcome of each command.
/// Returns every action but `Idle`.
fn drive(root: Routine, host: Host, mut answer: impl FnMut(&Action) -> bool) -> Vec<Action> {
    let mut m = Machine::new(root, host);
    let mut outcome = None;
    let mut actions = Vec::new();
    for _ in 0..100_000 {
        let (next, action) = m.step(outcome);
        m = next;
        outcome = match &action {
            Action::Shell { .. } | Action::Exec { .. } | Action::Check(_) => Some(answer(&action)),
            _ => None,
        };
        let done = matches!(action, Action::Finished(_));
        if action != Action::Idle {
            actions.push(action);
        }
        if done {
            return actions;
        }
    }
    panic!("the installer did not finish");
}

fn print(s: &str) -> Action {
    Action::Print(s.to_string())
}

fn shell(c: &str, e: &str) -> Action {
    Action::Shell { command: c.to_string(), error_message: e.to_string() }
}

fn check(c: &str) -> Action {
    Action::Check(c.to_string())
}

fn commands(actions: &[Action]) -> Vec<String> {
    actions
        .iter()
        .filter_map(|a| match a {
            Action::Shell { command, .. } => Some(command.clone()),
            Action::Check(c) => Some(c.clone()),
            Action::Exec { program, arguments, .. } => Some(format!("{} {}", program, arguments.join(" "))),
            _ => None,
        })
        .collect()
}

#[test]
fn unsupported_tool_is_reported_without_commands() {
    let actions = drive(Routine::InstallTool("python".to_string()), linux("alice"), |_| true);
    assert_eq!(
        actions,
        vec![print("unsupported tool: python"), print(help_text()), Action::Finished(false)]
    );
}

#[test]
fn present_package_is_left_alone() {
    let actions = drive(Routine::InstallTool("ffmpeg".to_string()), linux("alice"), |_| true);
    assert_eq!(
        actions,
        vec![
            check("command -v ffmpeg >/dev/null 2>&1"),
            print("ffmpeg is already installed"),
            Action::Finished(true),
        ]
    );
}

#[test]
fn missing_package_is_installed_after_one_refresh() {
    let mut installed = false;
    let actions = drive(Routine::Package("ffmpeg".to_string()), linux("alice"), |a| match a {
        Action::Check(_) => installed,
        Action::Shell { command, .. } if command == "sudo apt install -y ffmpeg" => {
            installed = true;
            true
        },
        _ => true,
    });
    assert_eq!(
        actions,
        vec![
            check("command -v ffmpeg >/dev/null 2>&1"),
            print("ffmpeg not found, installing ffmpeg..."),
            print("running sudo apt update..."),
            shell("sudo apt update", "failed to run sudo apt update"),
            shell("sudo apt install -y ffmpeg", "failed to install ffmpeg"),
            check("command -v ffmpeg >/dev/null 2>&1"),
            print("ffmpeg installed successfully"),
            Action::Finished(true),
        ]
    );
}

#[test]
fn package_still_missing_after_install_fails() {
    let actions = drive(Routine::Package("gpg".to_string()), linux("alice"), |a| !matches!(a, Action::Check(_)));
    assert_eq!(
        &actions[actions.len() - 3..],
        &[
            check("command -v gpg >/dev/null 2>&1"),
            print("gpg install finished but command is still unavailable"),
            Action::Finished(false),
        ]
    );
}

#[test]
fn apt_lists_are_refreshed_once_for_all_dependencies() {
    let mut installed: Vec<String> = Vec::new();
    let actions = drive(Routine::InstallTool("docker".to_string()), linux("alice"), |a| match a {
        Action::Check(c) => installed.iter().any(|p| c == &format!("command -v {p} >/dev/null 2>&1")),
        Action::Shell { command, .. } => {
            if let Some(p) = command.strip_prefix("sudo apt install -y ") {
                installed.push(p.replace('-', "_"));
            }
            true
        },
        _ => true,
    });
    let refreshes = actions
        .iter()
        .filter(|a| **a == shell("sudo apt update", "failed to run sudo apt update"))
        .count();
    assert_eq!(refreshes, 1);
    let cmds = commands(&actions);
    assert!(cmds.contains(&"sudo apt install -y curl".to_string()));
    assert!(cmds.contains(&"sudo apt install -y gpg".to_string()));
    assert!(cmds.contains(&"sudo apt install -y lsb-release".to_string()));
    // The Docker installer's own refresh of its new repository still runs.
    assert!(actions.contains(&shell("sudo apt update", "failed to run sudo apt update for Docker repository")));
}

#[test]
fn failed_refresh_is_tried_again_for_the_next_package() {
    let mut refresh_attempts = 0;
    let actions = drive(Routine::InstallAll, linux("alice"), |a| match a {
        Action::Check(_) => false,
        Action::Shell { command, error_message } if command == "sudo apt update" && error_message == "failed to run sudo apt update" => {
            refresh_attempts += 1;
            false
        },
        _ => true,
    });
    // curl for ossutil, wget for miniconda, curl for nvm, node and pm2, ffmpeg,
    // curl for docker, wget for tosutil
    assert_eq!(refresh_attempts, 8);
    assert_eq!(actions.last(), Some(&Action::Finished(true)));
}

#[test]
fn failed_dependency_stops_the_tool() {
    let actions = drive(Routine::InstallTool("ossutil".to_string()), linux("alice"), |a| match a {
        Action::Check(_) => false,
        Action::Shell { command, .. } => command != "sudo apt install -y curl",
        _ => true,
    });
    assert_eq!(
        &actions[actions.len() - 2..],
        &[shell("sudo apt install -y curl", "failed to install curl"), Action::Finished(false)]
    );
    assert!(!commands(&actions).iter().any(|c| c.contains("unzip")));
}

#[test]
fn failed_step_stops_the_installer() {
    let actions = drive(Routine::Install(Tool::Ossutil), linux("alice"), |a| match a {
        Action::Shell { command, .. } => !command.starts_with("chmod"),
        _ => true,
    });
    assert_eq!(
        actions,
        vec![
            print("Installing ossutil..."),
            shell(
                "curl -L -o ossutil-2.2.2-linux-amd64.zip https://gosspublic.alicdn.com/ossutil/v2/2.2.2/ossutil-2.2.2-linux-amd64.zip",
                "failed to download ossutil",
            ),
            shell("unzip -o ossutil-2.2.2-linux-amd64.zip", "failed to unzip ossutil package"),
            shell("chmod 755 ossutil-2.2.2-linux-amd64/ossutil", "failed to update ossutil permissions"),
            Action::Finished(false),
        ]
    );
}

#[test]
fn ossutil_succeeds_when_every_step_does() {
    let actions = drive(Routine::Install(Tool::Ossutil), linux("alice"), |_| true);
    assert_eq!(actions.len(), 9);
    assert_eq!(actions[7], print("ossutil installed successfully"));
    assert_eq!(actions[8], Action::Finished(true));
}

#[test]
fn miniconda_tells_how_to_load_it() {
    let actions = drive(Routine::Install(Tool::Miniconda), linux("alice"), |_| true);
    let n = actions.len();
    assert_eq!(actions[n - 3], print("Miniconda installed successfully."));
    assert_eq!(actions[n - 2], print("open a new shell or run: source ~/.bashrc"));
    assert_eq!(commands(&actions).len(), 4);
}

#[test]
fn node_installs_nvm_when_missing_and_goes_on_whatever_it_reports() {
    let mut nvm_checks = 0;
    let actions = drive(Routine::Install(Tool::Node), linux("alice"), |a| match a {
        Action::Check(c) if c.ends_with("command -v nvm >/dev/null 2>&1") => {
            nvm_checks += 1;
            false
        },
        Action::Shell { command, .. } if command.starts_with("curl -o-") => false,
        _ => true,
    });
    assert_eq!(nvm_checks, 1);
    assert!(actions.contains(&print("nvm not found, installing nvm...")));
    assert!(actions.contains(&shell(
        "curl -o- https://raw.githubusercontent.com/nvm-sh/nvm/v0.40.6/install.sh | bash",
        "failed to install nvm",
    )));
    assert!(actions.contains(&print("Node.js installed successfully.")));
    assert_eq!(actions.last(), Some(&Action::Finished(true)));
}

#[test]
fn node_fails_when_nvm_stays_unavailable() {
    let actions = drive(Routine::Install(Tool::Node), linux("alice"), |a| match a {
        Action::Check(_) => false,
        Action::Shell { error_message, .. } => error_message != "nvm is unavailable after installation",
        _ => true,
    });
    assert_eq!(actions.last(), Some(&Action::Finished(false)));
    assert!(!actions.iter().any(|a| matches!(a, Action::Shell { error_message, .. } if error_message == "failed to install Node.js with nvm")));
}

#[test]
fn pm2_with_npm_present() {
    let actions = drive(Routine::InstallTool("pm2".to_string()), linux("alice"), |_| true);
    assert_eq!(actions[0], print("Installing PM2..."));
    assert!(matches!(&actions[1], Action::Check(c) if c.ends_with("&& command -v npm >/dev/null 2>&1")));
    assert!(matches!(&actions[2], Action::Shell { error_message, .. } if error_message == "failed to install PM2 with npm"));
    assert_eq!(actions.last(), Some(&Action::Finished(true)));
    assert_eq!(actions.len(), 6);
}

#[test]
fn pm2_needs_curl_when_npm_is_missing() {
    let actions = drive(Routine::Install(Tool::Pm2), linux("alice"), |a| match a {
        Action::Check(_) => false,
        Action::Shell { command, .. } => command != "sudo apt install -y curl",
        _ => true,
    });
    assert!(actions.contains(&print("npm not found, installing Node.js...")));
    assert_eq!(actions.last(), Some(&Action::Finished(false)));
}

#[test]
fn docker_adds_a_real_user_to_its_group() {
    let actions = drive(Routine::Install(Tool::Docker), linux("alice"), |_| true);
    assert!(actions.contains(&Action::Exec {
        program: "sudo".to_string(),
        arguments: vec!["usermod".to_string(), "-aG".to_string(), "docker".to_string(), "alice".to_string()],
        error_message: "failed to add user to docker group".to_string(),
    }));
    let n = actions.len();
    assert_eq!(actions[n - 3], print("Docker installed successfully."));
    assert_eq!(actions[n - 2], print("open a new shell or run: newgrp docker"));
}

#[test]
fn docker_leaves_root_alone() {
    for user in ["root", ""] {
        let actions = drive(Routine::Install(Tool::Docker), linux(user), |_| true);
        assert!(!actions.iter().any(|a| matches!(a, Action::Exec { .. })));
        assert!(!actions.contains(&print("open a new shell or run: newgrp docker")));
        assert_eq!(actions.last(), Some(&Action::Finished(true)));
    }
}

#[test]
fn docker_group_failure_fails_the_install() {
    let actions = drive(Routine::Install(Tool::Docker), linux("bob"), |a| !matches!(a, Action::Exec { .. }));
    assert_eq!(actions.last(), Some(&Action::Finished(false)));
    assert!(!actions.contains(&print("Docker installed successfully.")));
}

#[test]
fn docker_user_choice() {
    assert_eq!(docker_user_name(Some("alice".into()), Some("root".into())), "alice");
    assert_eq!(docker_user_name(Some(String::new()), Some("bob".into())), "bob");
    assert_eq!(docker_user_name(None, Some("bob".into())), "bob");
    assert_eq!(docker_user_name(None, None), "");
    assert!(docker_group_wanted("alice"));
    assert!(!docker_group_wanted("root"));
    assert!(!docker_group_wanted(""));
}

#[test]
fn install_all_goes_through_every_tool_in_order() {
    let actions = drive(Routine::InstallAll, linux("alice"), |_| true);
    let headers: Vec<&Action> = actions
        .iter()
        .filter(|a| matches!(a, Action::Print(t) if t.starts_with("\ninstalling ")))
        .collect();
    let expected: Vec<Action> = lib::SUPPORTED_TOOLS
        .iter()
        .map(|t| print(&format!("\ninstalling {t}...")))
        .collect();
    assert_eq!(headers, expected.iter().collect::<Vec<_>>());
    assert_eq!(actions.last(), Some(&Action::Finished(true)));
}

#[test]
fn install_all_goes_on_after_failures() {
    let actions = drive(Routine::InstallAll, linux("alice"), |_| false);
    let headers = actions
        .iter()
        .filter(|a| matches!(a, Action::Print(t) if t.starts_with("\ninstalling ")))
        .count();
    assert_eq!(headers, 8);
    assert_eq!(actions.last(), Some(&Action::Finished(true)));
}

#[test]
fn other_systems_only_report() {
    let host = Host { linux: false, docker_user: "alice".to_string() };
    let actions = drive(Routine::InstallTool("pm2".to_string()), host, |_| true);
    assert_eq!(
        actions,
        vec![print("PM2 install only supports Linux environments"), Action::Finished(false)]
    );
    let host = Host { linux: false, docker_user: "alice".to_string() };
    let actions = drive(Routine::InstallTool("ossutil".to_string()), host, |_| true);
    assert_eq!(
        actions,
        vec![print("auto install only supports Linux apt environments"), Action::Finished(false)]
    );
}

#[test]
fn waiting_machine_ignores_a_missing_outcome_and_finished_machine_stays() {
    let m = Machine::new(Routine::Package("curl".to_string()), linux("alice"));
    let (m, a) = m.step(None);
    assert_eq!(a, check("command -v curl >/dev/null 2>&1"));
    let (m, a) = m.step(None);
    assert_eq!(a, Action::Idle);
    let (m, a) = m.step(Some(true));
    assert_eq!(a, Action::Idle);
    let (m, a) = m.step(None);
    assert_eq!(a, print("curl is already installed"));
    let (m, a) = m.step(None);
    assert_eq!(a, Action::Finished(true));
    let (_, a) = m.step(Some(false));
    assert_eq!(a, Action::Finished(true));
}

#[test]
fn refresh_result_is_the_record() {
    for ok in [true, false] {
        let actions = drive(Routine::AptUpdate, linux("alice"), |_| ok);
        assert_eq!(
            actions,
            if ok {
                vec![
                    print("running sudo apt update..."),
                    shell("sudo apt update", "failed to run sudo apt update"),
                    Action::Finished(true),
                ]
            } else {
                vec![
                    print("running sudo apt update..."),
                    shell("sudo apt update", "failed to run sudo apt update"),
                    Action::Finished(false),
                ]
            }
        );
    }
}

#[test]
fn ffmpeg_installer_is_the_ffmpeg_package() {
    for present in [true, false] {
        for install_ok in [true, false] {
            let answer = |a: &Action| match a {
                Action::Check(_) => present,
                Action::Shell { command, .. } if command.starts_with("sudo apt install") => install_ok,
                _ => true,
            };
            let by_tool = drive(Routine::Install(Tool::Ffmpeg), linux("alice"), answer);
            let by_package = drive(Routine::Package("ffmpeg".to_string()), linux("alice"), answer);
            assert_eq!(by_tool, by_package);
        }
    }
}

#[test]
fn every_run_ends_within_its_bound() {
    let mut routines = vec![Routine::InstallAll, Routine::AptUpdate, Routine::Package("curl".to_string())];
    for name in lib::SUPPORTED_TOOLS.iter().chain(["python"].iter()) {
        routines.push(Routine::InstallTool(name.to_string()));
    }
    for routine in routines {
        for pattern in 0..4u32 {
            let mut m = Machine::new(routine.duplicate(), linux("alice"));
            let mut finished = false;
            for step in 0..1041u32 {
                let outcome = match pattern {
                    0 => true,
                    1 => false,
                    2 => step % 2 == 0,
                    _ => step % 3 != 0,
                };
                let (next, action) = m.step(Some(outcome));
                m = next;
                if matches!(action, Action::Finished(_)) {
                    finished = true;
                    break;
                }
            }
            assert!(finished);
        }
    }
}
