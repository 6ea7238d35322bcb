use vstd::prelude::*;

verus! {

/// Settings of one patch run, once the command line has been read.
#[derive(Default, Clone, Debug)]
pub struct PatcherConfig {
    pub builtins_path: Option<String>,
    pub builtins_map_path: Option<String>,
    pub builtins_map_original_names: bool,
    pub builtins_additional: Vec<String>,
}

/// Paths of the module to read and of the module to write, with the patch settings.
#[derive(Default, Clone, Debug)]
pub struct Config {
    pub input_path: String,
    pub output_path: String,
    pub patcher_config: PatcherConfig,
}

} // verus!
