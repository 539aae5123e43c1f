use vstd::prelude::*;

verus! {

/// How chatty the tool is.
pub enum Verbosity {
    Off,
    Error,
    Warn,
    Info,
    Debug,
}

/// Whether output is colored.
pub enum Color {
    Auto,
    On,
    Off,
}

/// How prompts are answered.
pub enum Prompt {
    Ask,
    Yes,
    No,
}

/// The tool's global switches. Parsing them from the command line and
/// dispatching the chosen utility is the calling program's step.
pub struct Cli {
    /// Show debug logs.
    pub verbose: bool,
    /// Verbosity level.
    pub verbosity: Verbosity,
    /// Suppress output.
    pub quiet: bool,
    /// Colored output setting.
    pub color: Color,
    /// Disable color output.
    pub no_color: bool,
    /// Simulate execution.
    pub dry_run: bool,
    /// Prompt behavior mode.
    pub prompt: Prompt,
    /// Answer "yes" to all prompts.
    pub yes: bool,
    /// Answer "no" to all prompts.
    pub no: bool,
}

/// A timestamped backup request.
pub struct BackupArgs {
    /// Source element to be backed up.
    pub source: String,
    /// Destination for the backup; the working directory's parent when absent.
    pub target: Option<String>,
    /// Only report actions, without performing them.
    pub dry: bool,
}

/// A restore-from-backup request.
pub struct RestoreArgs {
    /// Source element to be restored.
    pub source: String,
    /// Destination for the restored element; the working directory's parent when absent.
    pub target: Option<String>,
    /// Only report actions, without performing them.
    pub dry: bool,
}

/// A file-name cleaning request.
pub struct ClnArgs {
    /// Paths to be cleaned.
    pub paths: Vec<String>,
    /// Only report actions, without performing them.
    pub dry: bool,
    /// Clean directories recursively.
    pub recursive: bool,
    /// Recurse depth.
    pub depth: Option<usize>,
    /// Overwrite behavior: "y", "n" or "auto".
    pub force: String,
}

/// A copy-to-clipboard request; it carries no options.
pub struct CopyArgs {}

/// A disk-usage report request.
pub struct HogArgs {
    /// Directory to analyze.
    pub dir: String,
    /// Human readable sizes.
    pub human_readable: bool,
    /// Number of items to show.
    pub limit: usize,
}

/// A paste-from-clipboard request; it carries no options.
pub struct PasteArgs {}

/// A timestamped backup request, in the older shape without a dry switch.
pub struct Backup {
    /// Source element to be backed up.
    pub source: String,
    /// Destination for the backup; the working directory's parent when absent.
    pub target: Option<String>,
}

/// A restore request, in the older shape without a dry switch.
pub struct Restore {
    /// Source element to be restored.
    pub source: String,
    /// Destination for the restored element; the working directory's parent when absent.
    pub target: Option<String>,
}

/// A copy-to-clipboard request, in the older shape.
pub struct Copy {}

/// A paste-from-clipboard request, in the older shape.
pub struct Paste {}

/// A disk-usage report request, in the older shape.
pub struct Hog {
    /// Directory to analyze.
    pub dir: String,
    /// Human readable sizes.
    pub human_readable: bool,
    /// Number of items to show.
    pub limit: usize,
}

} // verus!
