use vstd::prelude::*;

use crate::text::{cat, cat3, str_eq};

verus! {

/// Shell snippet that locates nvm's directory and loads nvm into the shell.
pub open spec fn nvm_load_text() -> Seq<char> {
    "if [ -z \"${NVM_DIR-}\" ]; then \
     if [ -z \"${XDG_CONFIG_HOME-}\" ]; then NVM_DIR=\"${HOME}/.nvm\"; \
     else NVM_DIR=\"${XDG_CONFIG_HOME}/nvm\"; fi; fi; \
     export NVM_DIR; \
     [ -s \"$NVM_DIR/nvm.sh\" ] && . \"$NVM_DIR/nvm.sh\""@
}

/// The command that loads nvm into a Bash shell, setting `NVM_DIR` when it is unset.
pub fn nvm_load_command() -> (res: &'static str)
    ensures
        res@ == nvm_load_text(),
{
    "if [ -z \"${NVM_DIR-}\" ]; then \
     if [ -z \"${XDG_CONFIG_HOME-}\" ]; then NVM_DIR=\"${HOME}/.nvm\"; \
     else NVM_DIR=\"${XDG_CONFIG_HOME}/nvm\"; fi; fi; \
     export NVM_DIR; \
     [ -s \"$NVM_DIR/nvm.sh\" ] && . \"$NVM_DIR/nvm.sh\""
}

/// The apt package that provides a command: `lsb_release` comes from `lsb-release`,
/// every other command from the package of its own name.
pub open spec fn apt_package_of(package_name: Seq<char>) -> Seq<char> {
    if package_name == "lsb_release"@ {
        "lsb-release"@
    } else {
        package_name
    }
}

/// The apt package to install for a command.
pub fn apt_package_name(package_name: &str) -> (res: &str)
    ensures
        res@ == apt_package_of(package_name@),
{
    if str_eq(package_name, "lsb_release") {
        "lsb-release"
    } else {
        package_name
    }
}

/// Silent shell test that succeeds when a command is on the `PATH`.
pub open spec fn presence_check_text(package_name: Seq<char>) -> Seq<char> {
    "command -v "@ + package_name + " >/dev/null 2>&1"@
}

/// The silent check of whether a command is available.
pub fn presence_check_command(package_name: &str) -> (res: String)
    ensures
        res@ == presence_check_text(package_name@),
{
    cat3("command -v ", package_name, " >/dev/null 2>&1")
}

/// The apt command that installs the package providing a command.
pub open spec fn apt_install_text(package_name: Seq<char>) -> Seq<char> {
    "sudo apt install -y "@ + apt_package_of(package_name)
}

/// The apt command that installs the package providing a command.
pub fn apt_install_command(package_name: &str) -> (res: String)
    ensures
        res@ == apt_install_text(package_name@),
{
    cat("sudo apt install -y ", apt_package_name(package_name))
}

/// Loads nvm, then tests that the `nvm` function is defined.
pub open spec fn nvm_check_text() -> Seq<char> {
    nvm_load_text() + " && command -v nvm >/dev/null 2>&1"@
}

/// Loads nvm, then tests that the `nvm` function is defined.
pub fn nvm_check_command() -> (res: String)
    ensures
        res@ == nvm_check_text(),
{
    cat(nvm_load_command(), " && command -v nvm >/dev/null 2>&1")
}

/// Loads nvm and installs the latest Node.js with it.
pub open spec fn node_install_text() -> Seq<char> {
    nvm_load_text() + " && nvm install node"@
}

/// Loads nvm and installs the latest Node.js with it.
pub fn node_install_command() -> (res: String)
    ensures
        res@ == node_install_text(),
{
    cat(nvm_load_command(), " && nvm install node")
}

/// Loads nvm, selects the latest Node.js and tests that `node` runs.
pub open spec fn node_verify_text() -> Seq<char> {
    nvm_load_text() + " && nvm use node >/dev/null && node --version >/dev/null 2>&1"@
}

/// Loads nvm, selects the latest Node.js and tests that `node` runs.
pub fn node_verify_command() -> (res: String)
    ensures
        res@ == node_verify_text(),
{
    cat(nvm_load_command(), " && nvm use node >/dev/null && node --version >/dev/null 2>&1")
}

/// Loads nvm only when `npm` is not already on the `PATH`.
pub open spec fn npm_load_text() -> Seq<char> {
    "if ! command -v npm >/dev/null 2>&1; then "@ + nvm_load_text() + "; fi"@
}

/// Loads nvm only when `npm` is not already on the `PATH`.
pub fn npm_load_command() -> (res: String)
    ensures
        res@ == npm_load_text(),
{
    cat3("if ! command -v npm >/dev/null 2>&1; then ", nvm_load_command(), "; fi")
}

/// Tests that `npm` is available, loading nvm first when needed.
pub open spec fn npm_check_text() -> Seq<char> {
    npm_load_text() + " && command -v npm >/dev/null 2>&1"@
}

/// Tests that `npm` is available, loading nvm first when needed.
pub fn npm_check_command() -> (res: String)
    ensures
        res@ == npm_check_text(),
{
    let load = npm_load_command();
    cat(load.as_str(), " && command -v npm >/dev/null 2>&1")
}

/// Installs PM2 globally with npm.
pub open spec fn pm2_install_text() -> Seq<char> {
    npm_load_text() + " && npm install -g pm2"@
}

/// Installs PM2 globally with npm.
pub fn pm2_install_command() -> (res: String)
    ensures
        res@ == pm2_install_text(),
{
    let load = npm_load_command();
    cat(load.as_str(), " && npm install -g pm2")
}

/// Tests that `pm2` is on the `PATH` and runs.
pub open spec fn pm2_verify_text() -> Seq<char> {
    npm_load_text() + " && command -v pm2 >/dev/null 2>&1 && pm2 --version >/dev/null 2>&1"@
}

/// Tests that `pm2` is on the `PATH` and runs.
pub fn pm2_verify_command() -> (res: String)
    ensures
        res@ == pm2_verify_text(),
{
    let load = npm_load_command();
    cat(load.as_str(), " && command -v pm2 >/dev/null 2>&1 && pm2 --version >/dev/null 2>&1")
}

} // verus!
