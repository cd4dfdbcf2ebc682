//! Error taxonomy of the engine.
//!
//! Every operation aborts the current configuration's work with one of
//! these; the surrounding binary turns them into user-facing messages.

use vstd::prelude::*;
use vstd::string::*;

verus! {

/// Which exclude list a glob pattern was drawn from.
#[derive(Debug, Clone, Copy, PartialEq, Eq, Structural)]
pub enum PatternOrigin {
    /// The configuration-level exclude list.
    Config,
    /// The target- or pull-level exclude list.
    Target,
}

/// A failure of the engine, scoped to one configuration's operation.
#[derive(Debug, Clone, PartialEq, Eq)]
pub enum SyncError {
    /// The repository's structure is invalid or missing.
    Configuration,
    /// No configuration of this name exists.
    UnknownConfig { name: String },
    /// A configuration of this name already exists.
    DuplicateConfig { name: String },
    /// A malformed exclude glob, with the offending pattern and the list
    /// it came from.
    GlobSyntax { pattern: String, origin: PatternOrigin },
    /// Every exclude glob parsed, but compiling their combined set
    /// failed (globset caps the compiled size).
    GlobCompile,
    /// A filesystem read, write or list failed.
    Filesystem,
    /// The target had to be absent or empty and was not.
    NonEmptyTarget,
    /// A pull candidate would overwrite the protected per-configuration
    /// metadata file.
    ProtectedOverwrite,
    /// The running operating system, by name, is outside the recognized
    /// set.
    UnsupportedPlatform { os: String },
}

/// The name of the list an exclude pattern came from.
pub open spec fn origin_name(o: PatternOrigin) -> Seq<char> {
    match o {
        PatternOrigin::Config => "configuration"@,
        PatternOrigin::Target => "target"@,
    }
}

/// The user-facing description of each failure. A malformed glob is
/// reported with the offending pattern and the list it came from; a
/// missing or duplicate configuration and an unsupported operating
/// system are reported by name.
pub open spec fn message_spec(e: SyncError) -> Seq<char> {
    match e {
        SyncError::Configuration => "Structure of the dotfiles repository is invalid."@,
        SyncError::UnknownConfig { name } => "Config '"@ + name@ + "' does not exist."@,
        SyncError::DuplicateConfig { name } => "There already exists a config with the name '"@
            + name@ + "'."@,
        SyncError::GlobSyntax { pattern, origin } => "The exclude glob pattern '"@ + pattern@
            + "' from the "@ + origin_name(origin) + "-level excludes is malformed."@,
        SyncError::GlobCompile => "The exclude globs could not be compiled into a match set."@,
        SyncError::Filesystem => "A filesystem operation failed."@,
        SyncError::NonEmptyTarget => "The target directory is not empty."@,
        SyncError::ProtectedOverwrite => "Trying to overwrite the protected configuration file. Please add it to your excludes in the pull configuration."@,
        SyncError::UnsupportedPlatform { os } => "Operating system '"@ + os@
            + "' is not supported."@,
    }
}

impl SyncError {
    /// A user-facing description of the failure.
    pub fn message(&self) -> (r: String)
        ensures
            r@ == message_spec(*self),
            r@.len() > 0,
    {
        match self {
            SyncError::UnknownConfig { name } => {
                let mut m = String::from_str("Config '");
                m.append(name.as_str());
                m.append("' does not exist.");
                proof {
                    reveal_strlit("Config '");
                }
                m
            },
            SyncError::DuplicateConfig { name } => {
                let mut m = String::from_str("There already exists a config with the name '");
                m.append(name.as_str());
                m.append("'.");
                proof {
                    reveal_strlit("There already exists a config with the name '");
                }
                m
            },
            SyncError::GlobSyntax { pattern, origin } => {
                let mut m = String::from_str("The exclude glob pattern '");
                m.append(pattern.as_str());
                m.append("' from the ");
                match origin {
                    PatternOrigin::Config => m.append("configuration"),
                    PatternOrigin::Target => m.append("target"),
                }
                m.append("-level excludes is malformed.");
                proof {
                    reveal_strlit("The exclude glob pattern '");
                }
                m
            },
            SyncError::UnsupportedPlatform { os } => {
                let mut m = String::from_str("Operating system '");
                m.append(os.as_str());
                m.append("' is not supported.");
                proof {
                    reveal_strlit("Operating system '");
                }
                m
            },
            SyncError::Configuration => {
                proof {
                    reveal_strlit("Structure of the dotfiles repository is invalid.");
                }
                String::from_str("Structure of the dotfiles repository is invalid.")
            },
            SyncError::GlobCompile => {
                proof {
                    reveal_strlit("The exclude globs could not be compiled into a match set.");
                }
                String::from_str("The exclude globs could not be compiled into a match set.")
            },
            SyncError::Filesystem => {
                proof {
                    reveal_strlit("A filesystem operation failed.");
                }
                String::from_str("A filesystem operation failed.")
            },
            SyncError::NonEmptyTarget => {
                proof {
                    reveal_strlit("The target directory is not empty.");
                }
                String::from_str("The target directory is not empty.")
            },
            SyncError::ProtectedOverwrite => {
                proof {
                    reveal_strlit(
                        "Trying to overwrite the protected configuration file. Please add it to your excludes in the pull configuration.",
                    );
                }
                String::from_str(
                    "Trying to overwrite the protected configuration file. Please add it to your excludes in the pull configuration.",
                )
            },
        }
    }
}

} // verus!
