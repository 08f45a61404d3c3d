use vstd::prelude::*;

use crate::text::str_eq;

verus! {

/// The supported tools, in the fixed order in which `install all` installs them.
pub const SUPPORTED_TOOLS: [&'static str; 8] = [
    "ossutil",
    "miniconda",
    "nvm",
    "node",
    "pm2",
    "ffmpeg",
    "docker",
    "tosutil",
];

/// Names of the supported tools, in installation order.
pub open spec fn supported_tool_names() -> Seq<Seq<char>> {
    seq![
        "ossutil"@,
        "miniconda"@,
        "nvm"@,
        "node"@,
        "pm2"@,
        "ffmpeg"@,
        "docker"@,
        "tosutil"@,
    ]
}

/// Whether the tool is in the supported list.
pub fn is_tool_supported(tool_name: &str) -> (res: bool)
    ensures
        res == supported_tool_names().contains(tool_name@),
{
    let mut i: usize = 0;
    while i < SUPPORTED_TOOLS.len()
        invariant
            0 <= i <= 8,
            forall|j: int| 0 <= j < i ==> supported_tool_names()[j] != tool_name@,
        decreases 8 - i,
    {
        if str_eq(SUPPORTED_TOOLS[i], tool_name) {
            assert(supported_tool_names()[i as int] == tool_name@);
            return true;
        }
        i = i + 1;
    }
    false
}


/// System packages (apt command names) that a tool needs before it is installed.
pub open spec fn dependencies_of(tool_name: Seq<char>) -> Seq<Seq<char>> {
    if tool_name == "ossutil"@ {
        seq!["curl"@, "unzip"@]
    } else if tool_name == "miniconda"@ || tool_name == "tosutil"@ {
        seq!["wget"@]
    } else if tool_name == "nvm"@ || tool_name == "node"@ {
        seq!["curl"@]
    } else if tool_name == "docker"@ {
        seq!["curl"@, "gpg"@, "lsb_release"@]
    } else {
        seq![]
    }
}

/// The system dependencies of a tool; empty for a tool that needs none or is unknown.
pub fn tool_dependencies(tool_name: &str) -> (res: &'static [&'static str])
    ensures
        res@.map_values(|p: &str| p@) == dependencies_of(tool_name@),
{
    let r: &'static [&'static str];
    if str_eq(tool_name, "ossutil") {
        r = &["curl", "unzip"];
        assert(r@.map_values(|p: &str| p@) =~= seq!["curl"@, "unzip"@]);
    } else if str_eq(tool_name, "miniconda") || str_eq(tool_name, "tosutil") {
        r = &["wget"];
        assert(r@.map_values(|p: &str| p@) =~= seq!["wget"@]);
    } else if str_eq(tool_name, "nvm") || str_eq(tool_name, "node") {
        r = &["curl"];
        assert(r@.map_values(|p: &str| p@) =~= seq!["curl"@]);
    } else if str_eq(tool_name, "docker") {
        r = &["curl", "gpg", "lsb_release"];
        assert(r@.map_values(|p: &str| p@) =~= seq!["curl"@, "gpg"@, "lsb_release"@]);
    } else {
        r = &[];
        assert(r@.map_values(|p: &str| p@) =~= Seq::<Seq<char>>::empty());
    }
    r
}

/// A supported tool.
#[derive(Clone, Copy, PartialEq, Eq, Structural, Debug)]
pub enum Tool {
    Ossutil,
    Miniconda,
    Nvm,
    Node,
    Pm2,
    Ffmpeg,
    Docker,
    Tosutil,
}

/// The name under which a tool is requested on the command line.
pub open spec fn tool_name_of(tool: Tool) -> Seq<char> {
    match tool {
        Tool::Ossutil => "ossutil"@,
        Tool::Miniconda => "miniconda"@,
        Tool::Nvm => "nvm"@,
        Tool::Node => "node"@,
        Tool::Pm2 => "pm2"@,
        Tool::Ffmpeg => "ffmpeg"@,
        Tool::Docker => "docker"@,
        Tool::Tosutil => "tosutil"@,
    }
}

/// The tool of a given name, if it is supported.
pub open spec fn tool_named(name: Seq<char>) -> Option<Tool> {
    if name == "ossutil"@ {
        Some(Tool::Ossutil)
    } else if name == "miniconda"@ {
        Some(Tool::Miniconda)
    } else if name == "nvm"@ {
        Some(Tool::Nvm)
    } else if name == "node"@ {
        Some(Tool::Node)
    } else if name == "pm2"@ {
        Some(Tool::Pm2)
    } else if name == "ffmpeg"@ {
        Some(Tool::Ffmpeg)
    } else if name == "docker"@ {
        Some(Tool::Docker)
    } else if name == "tosutil"@ {
        Some(Tool::Tosutil)
    } else {
        None
    }
}

impl Tool {
    /// The tool's command-line name.
    pub fn name(&self) -> (res: &'static str)
        ensures
            res@ == tool_name_of(*self),
    {
        match self {
            Tool::Ossutil => "ossutil",
            Tool::Miniconda => "miniconda",
            Tool::Nvm => "nvm",
            Tool::Node => "node",
            Tool::Pm2 => "pm2",
            Tool::Ffmpeg => "ffmpeg",
            Tool::Docker => "docker",
            Tool::Tosutil => "tosutil",
        }
    }

    /// Looks a tool up by its command-line name.
    pub fn from_name(name: &str) -> (res: Option<Tool>)
        ensures
            res == tool_named(name@),
    {
        if str_eq(name, "ossutil") {
            Some(Tool::Ossutil)
        } else if str_eq(name, "miniconda") {
            Some(Tool::Miniconda)
        } else if str_eq(name, "nvm") {
            Some(Tool::Nvm)
        } else if str_eq(name, "node") {
            Some(Tool::Node)
        } else if str_eq(name, "pm2") {
            Some(Tool::Pm2)
        } else if str_eq(name, "ffmpeg") {
            Some(Tool::Ffmpeg)
        } else if str_eq(name, "docker") {
            Some(Tool::Docker)
        } else if str_eq(name, "tosutil") {
            Some(Tool::Tosutil)
        } else {
            None
        }
    }
}


/// A name is supported exactly when it names a tool.
pub proof fn law_supported_iff_named(name: Seq<char>)
    ensures
        supported_tool_names().contains(name) <==> tool_named(name) is Some,
{
    if tool_named(name) is Some {
        let i: int = choose|i: int| 0 <= i < 8 && supported_tool_names()[i] == name;
        assert(supported_tool_names()[i] == name);
    }
}

/// Every tool is found again under its own name, and the supported list holds
/// each tool's name once, in the fixed installation order.
pub proof fn law_tool_names_round_trip(tool: Tool)
    ensures
        tool_named(tool_name_of(tool)) == Some(tool),
        supported_tool_names().contains(tool_name_of(tool)),
{
    reveal_strlit("ossutil");
    reveal_strlit("miniconda");
    reveal_strlit("nvm");
    reveal_strlit("node");
    reveal_strlit("pm2");
    reveal_strlit("ffmpeg");
    reveal_strlit("docker");
    reveal_strlit("tosutil");
    assert("nvm"@[0] != "pm2"@[0]);
    assert("docker"@[0] != "ffmpeg"@[0]);
    assert("ossutil"@[0] != "tosutil"@[0]);
    assert("nvm"@ != "pm2"@);
    assert("docker"@ != "ffmpeg"@);
    assert("ossutil"@ != "tosutil"@);
    assert("ossutil"@.len() == 7 && "miniconda"@.len() == 9 && "nvm"@.len() == 3);
    assert("node"@.len() == 4 && "pm2"@.len() == 3 && "ffmpeg"@.len() == 6);
    assert("docker"@.len() == 6 && "tosutil"@.len() == 7);
    law_supported_iff_named(tool_name_of(tool));
}

} // verus!
