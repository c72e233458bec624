//! The `lg0` command line: its subcommands as parsed, and the action that
//! each one asks for.

use vstd::prelude::*;
use vstd::string::*;

verus! {

/// `lg0 config ...`: read or edit `config.toml`.
pub enum ConfigCmd {
    /// Print all parameters as JSON.
    Get,
    /// Change one parameter (`<KEY> <VALUE>`) or, with `--batch`, the
    /// key/value pairs of a JSON object read from stdin.
    Assign { key: Option<String>, value: Option<String>, batch: bool },
    /// Restore the default parameters.
    Reset,
}

/// `lg0 shader ...`: read or edit the WGSL sources.
pub enum ShaderCmd {
    /// List the shader names.
    List,
    /// Print a shader's source.
    Read { name: String },
    /// Replace a shader's source with stdin, without rebuilding pipelines.
    Write { name: String },
    /// Rebuild the pipeline of a shader from its file.
    Flush { name: String },
}

/// The subcommands of `lg0`.
#[allow(inconsistent_fields)]
pub enum Commands {
    /// Read or edit `config.toml`.
    Config { cmd: ConfigCmd },
    /// Read or edit shaders.
    Shader { cmd: ShaderCmd },
    /// Render a frame and capture a texture as PNG.
    Capture { width: u32, height: u32, kind: String, output: Option<String> },
}

/// What the tool goes on to do.
pub enum Action {
    ConfigGet,
    ConfigSet { key: String, value: String },
    ConfigSetBatch,
    ConfigReset,
    ShaderList,
    ShaderRead { name: String },
    ShaderWrite { name: String },
    ShaderFlush { name: String },
    Capture { width: u32, height: u32, kind: String, output: Option<String> },
}

/// The action that a command asks for: `config set` takes `--batch` first,
/// then needs both a key and a value.
pub open spec fn action_of(c: Commands) -> Option<Action> {
    match c {
        Commands::Config { cmd } => match cmd {
            ConfigCmd::Get => Some(Action::ConfigGet),
            ConfigCmd::Assign { key, value, batch } => if batch {
                Some(Action::ConfigSetBatch)
            } else {
                match (key, value) {
                    (Some(k), Some(v)) => Some(Action::ConfigSet { key: k, value: v }),
                    _ => None,
                }
            },
            ConfigCmd::Reset => Some(Action::ConfigReset),
        },
        Commands::Shader { cmd } => match cmd {
            ShaderCmd::List => Some(Action::ShaderList),
            ShaderCmd::Read { name } => Some(Action::ShaderRead { name }),
            ShaderCmd::Write { name } => Some(Action::ShaderWrite { name }),
            ShaderCmd::Flush { name } => Some(Action::ShaderFlush { name }),
        },
        Commands::Capture { width, height, kind, output } => Some(
            Action::Capture { width, height, kind, output },
        ),
    }
}

/// Dispatches a parsed command to the action it asks for; `config set`
/// without `--batch` and without both a key and a value is refused with
/// `需要 <KEY> <VALUE> 或 --batch`.
pub fn run(command: Commands) -> (r: Result<Action, String>)
    ensures
        match r {
            Ok(a) => action_of(command) == Some(a),
            Err(m) => action_of(command) is None && m@ == "需要 <KEY> <VALUE> 或 --batch"@,
        },
        command matches Commands::Capture { width, height, kind, output } ==> r matches Ok(
            Action::Capture { width: w, height: h, kind: k, output: o },
        ) && w == width && h == height && k == kind && o == output,
        command matches Commands::Shader { cmd: ShaderCmd::Read { name } } ==> r matches Ok(
            Action::ShaderRead { name: n },
        ) && n == name,
        command matches Commands::Shader { cmd: ShaderCmd::Write { name } } ==> r matches Ok(
            Action::ShaderWrite { name: n },
        ) && n == name,
        command matches Commands::Shader { cmd: ShaderCmd::Flush { name } } ==> r matches Ok(
            Action::ShaderFlush { name: n },
        ) && n == name,
        command matches Commands::Config { cmd: ConfigCmd::Assign { key: Some(k), value: Some(v), batch: false } }
            ==> r matches Ok(Action::ConfigSet { key: k2, value: v2 }) && k2 == k && v2 == v,
        command matches Commands::Config { cmd: ConfigCmd::Assign { batch: true, .. } } ==> r matches Ok(
            Action::ConfigSetBatch,
        ),
{
    match command {
        Commands::Config { cmd } => match cmd {
            ConfigCmd::Get => Ok(Action::ConfigGet),
            ConfigCmd::Assign { key, value, batch } => {
                if batch {
                    Ok(Action::ConfigSetBatch)
                } else {
                    match (key, value) {
                        (Some(k), Some(v)) => Ok(Action::ConfigSet { key: k, value: v }),
                        _ => Err(String::from_str("需要 <KEY> <VALUE> 或 --batch")),
                    }
                }
            },
            ConfigCmd::Reset => Ok(Action::ConfigReset),
        },
        Commands::Shader { cmd } => match cmd {
            ShaderCmd::List => Ok(Action::ShaderList),
            ShaderCmd::Read { name } => Ok(Action::ShaderRead { name }),
            ShaderCmd::Write { name } => Ok(Action::ShaderWrite { name }),
            ShaderCmd::Flush { name } => Ok(Action::ShaderFlush { name }),
        },
        Commands::Capture { width, height, kind, output } => Ok(
            Action::Capture { width, height, kind, output },
        ),
    }
}

} // verus!
