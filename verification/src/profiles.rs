//! Profile data: a named synchronization task and the configuration set
//! that holds them. Loading the configuration file is the collaborator's
//! job; the core only reads these fields.

use vstd::prelude::*;

verus! {

/// One synchronization task: where from, where to, how, and optional extra
/// flags for the external tool.
pub struct Profile {
    pub name: String,
    pub from: String,
    pub to: String,
    pub mode: String,
    pub flags: Option<String>,
}

/// The loaded configuration: the list of profiles, in file order.
pub struct Config {
    pub sync: Vec<Profile>,
}

/// The content of a freshly initialized, blank configuration file.
pub open spec fn spec_config_template() -> Seq<char> {
    "
# lazycloud config

# [[sync]]
# name = \"\" # name of the profile
# from = \"\" # has to be full path
# to = \"\" # example gdrive:projects
# mode = \"replace\" # or \"mirror\", \"copy\", \"move\"
# flags = \"--progress\" # any flags that are normally supported in rclone
"@
}

/// The blank configuration written by the init command when none exists.
pub fn config_template() -> (r: &'static str)
    ensures
        r@ == spec_config_template(),
{
    "
# lazycloud config

# [[sync]]
# name = \"\" # name of the profile
# from = \"\" # has to be full path
# to = \"\" # example gdrive:projects
# mode = \"replace\" # or \"mirror\", \"copy\", \"move\"
# flags = \"--progress\" # any flags that are normally supported in rclone
"
}

} // verus!
