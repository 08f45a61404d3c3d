use lib::commands::{
    apt_install_command, apt_package_name, node_install_command, npm_check_command,
    nvm_check_command, nvm_load_command, presence_check_command,
};
use lib::tools::{tool_dependencies, Tool};
use lib::{is_tool_supported, str_eq, SUPPORTED_TOOLS};

#[test]
fn recognizes_supported_tools() {
    for tool_name in SUPPORTED_TOOLS {
        assert!(is_tool_supported(tool_name));
    }
    assert!(!is_tool_supported("unknown"));
}

#[test]
fn supported_tools_keep_their_order() {
    assert_eq!(
        SUPPORTED_TOOLS,
        ["ossutil", "miniconda", "nvm", "node", "pm2", "ffmpeg", "docker", "tosutil"]
    );
}

#[test]
fn unsupported_names_are_rejected() {
    assert!(!is_tool_supported(""));
    assert!(!is_tool_supported("all"));
    assert!(!is_tool_supported("Node"));
    assert!(!is_tool_supported("node "));
    assert!(!is_tool_supported("nodejs"));
}

#[test]
fn tools_are_found_by_name() {
    for tool_name in SUPPORTED_TOOLS {
        let tool = Tool::from_name(tool_name).expect("supported tool");
        assert_eq!(tool.name(), tool_name);
    }
    assert_eq!(Tool::from_name("pm2"), Some(Tool::Pm2));
    assert_eq!(Tool::from_name("python"), None);
}

#[test]
fn dependencies_of_each_tool() {
    assert_eq!(tool_dependencies("ossutil"), &["curl", "unzip"]);
    assert_eq!(tool_dependencies("miniconda"), &["wget"]);
    assert_eq!(tool_dependencies("tosutil"), &["wget"]);
    assert_eq!(tool_dependencies("nvm"), &["curl"]);
    assert_eq!(tool_dependencies("node"), &["curl"]);
    assert_eq!(tool_dependencies("docker"), &["curl", "gpg", "lsb_release"]);
    assert!(tool_dependencies("pm2").is_empty());
    assert!(tool_dependencies("ffmpeg").is_empty());
    assert!(tool_dependencies("unknown").is_empty());
}

#[test]
fn text_equality() {
    assert!(str_eq("abc", "abc"));
    assert!(!str_eq("abc", "abd"));
    assert!(!str_eq("abc", "ab"));
    assert!(str_eq("", ""));
}

#[test]
fn apt_package_names() {
    assert_eq!(apt_package_name("lsb_release"), "lsb-release");
    assert_eq!(apt_package_name("curl"), "curl");
    assert_eq!(apt_install_command("lsb_release"), "sudo apt install -y lsb-release");
    assert_eq!(apt_install_command("gpg"), "sudo apt install -y gpg");
}

#[test]
fn presence_checks() {
    assert_eq!(presence_check_command("curl"), "command -v curl >/dev/null 2>&1");
    assert_eq!(
        presence_check_command("lsb_release"),
        "command -v lsb_release >/dev/null 2>&1"
    );
}

#[test]
fn nvm_commands() {
    let load = nvm_load_command();
    assert!(load.starts_with("if [ -z \"${NVM_DIR-}\" ]; then if [ -z \"${XDG_CONFIG_HOME-}\" ]"));
    assert!(load.ends_with("[ -s \"$NVM_DIR/nvm.sh\" ] && . \"$NVM_DIR/nvm.sh\""));
    assert_eq!(nvm_check_command(), format!("{load} && command -v nvm >/dev/null 2>&1"));
    assert_eq!(node_install_command(), format!("{load} && nvm install node"));
    assert_eq!(
        npm_check_command(),
        format!("if ! command -v npm >/dev/null 2>&1; then {load}; fi && command -v npm >/dev/null 2>&1")
    );
}
