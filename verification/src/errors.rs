//! Error taxonomy: the plugin subsystem's own errors, the domain errors,
//! and the unified application error.

use vstd::prelude::*;
use crate::strutil::concat2;

verus! {

/// Errors of the plugin subsystem.
#[derive(Debug)]
pub enum PluginError {
    /// No plugin of that identity is installed.
    NotFound(String),
    /// A plugin of that identity is already installed.
    AlreadyExists(String),
    /// The candidate declares a capability-interface version other than
    /// the host's.
    ApiVersionMismatch,
    /// The security gate rejected the candidate library.
    SecurityViolation(String),
    /// The native library could not be loaded: missing file, missing
    /// factory symbol, or identity mismatch.
    LoadFailed(String),
    /// The archive could not be fetched from its origin.
    DownloadFailed(String),
    /// The archive, manifest or file layout was unusable.
    InstallationFailed(String),
    /// The advisory file lock could not be acquired in time.
    LockTimeout(String),
    /// A disk operation failed.
    IoFailure(String),
}

/// Errors of the domain services.
#[derive(Debug)]
pub enum DomainError {
    /// No profile of that name exists.
    ProfileNotFound(String),
    /// A profile of that name already exists.
    ProfileAlreadyExists(String),
    /// No alias of that name exists.
    AliasNotFound(String),
    /// An alias of that name already exists.
    AliasAlreadyExists(String),
    /// An SSH operation failed.
    SshError(String),
    /// A disk operation failed.
    IoError(String),
    /// The configuration was unusable.
    ConfigError(String),
}

/// Unified error type for the application.
#[derive(Debug)]
pub enum ShellBeError {
    /// Profile error.
    Profile(String),
    /// Connection error.
    Connection(String),
    /// SSH error.
    Ssh(String),
    /// Configuration error.
    Config(String),
    /// Plugin error.
    Plugin(String),
    /// Security error.
    Security(String),
    /// IO error.
    Io(String),
    /// File lock error.
    FileLock(String),
    /// Update error.
    Update(String),
    /// System requirement error.
    SystemRequirement(String),
    /// Not found.
    NotFound(String),
    /// Already exists.
    AlreadyExists(String),
}

impl ShellBeError {
    /// What `message` returns for each variant.
    pub open spec fn spec_message(&self) -> Seq<char> {
        match self {
            ShellBeError::Profile(m) => "Profile error: "@ + m@,
            ShellBeError::Connection(m) => "Connection error: "@ + m@,
            ShellBeError::Ssh(m) => "SSH error: "@ + m@,
            ShellBeError::Config(m) => "Configuration error: "@ + m@,
            ShellBeError::Plugin(m) => "Plugin error: "@ + m@,
            ShellBeError::Security(m) => "Security error: "@ + m@,
            ShellBeError::Io(m) => "IO error: "@ + m@,
            ShellBeError::FileLock(m) => "File lock error: "@ + m@,
            ShellBeError::Update(m) => "Update error: "@ + m@,
            ShellBeError::SystemRequirement(m) => "System requirement error: "@ + m@,
            ShellBeError::NotFound(m) => "Not found: "@ + m@,
            ShellBeError::AlreadyExists(m) => "Already exists: "@ + m@,
        }
    }

    /// Human-readable rendering of the error.
    pub fn message(&self) -> (r: String)
        ensures
            r@ == self.spec_message(),
    {
        match self {
            ShellBeError::Profile(m) => concat2("Profile error: ", m.as_str()),
            ShellBeError::Connection(m) => concat2("Connection error: ", m.as_str()),
            ShellBeError::Ssh(m) => concat2("SSH error: ", m.as_str()),
            ShellBeError::Config(m) => concat2("Configuration error: ", m.as_str()),
            ShellBeError::Plugin(m) => concat2("Plugin error: ", m.as_str()),
            ShellBeError::Security(m) => concat2("Security error: ", m.as_str()),
            ShellBeError::Io(m) => concat2("IO error: ", m.as_str()),
            ShellBeError::FileLock(m) => concat2("File lock error: ", m.as_str()),
            ShellBeError::Update(m) => concat2("Update error: ", m.as_str()),
            ShellBeError::SystemRequirement(m) => concat2("System requirement error: ", m.as_str()),
            ShellBeError::NotFound(m) => concat2("Not found: ", m.as_str()),
            ShellBeError::AlreadyExists(m) => concat2("Already exists: ", m.as_str()),
        }
    }
}

/// Surface a plugin error as the unified application error.
pub fn plugin_error_to_shellbe(e: PluginError) -> (r: ShellBeError)
    ensures
        match e {
            PluginError::NotFound(m) => r == ShellBeError::NotFound(m),
            PluginError::AlreadyExists(m) => r == ShellBeError::AlreadyExists(m),
            PluginError::ApiVersionMismatch => r is Plugin && r->Plugin_0@
                == "Plugin API version mismatch"@,
            PluginError::SecurityViolation(m) => r == ShellBeError::Security(m),
            PluginError::LoadFailed(m) => r == ShellBeError::Plugin(m),
            PluginError::DownloadFailed(m) => r == ShellBeError::Update(m),
            PluginError::InstallationFailed(m) => r == ShellBeError::Plugin(m),
            PluginError::LockTimeout(m) => r == ShellBeError::FileLock(m),
            PluginError::IoFailure(m) => r == ShellBeError::Io(m),
        },
{
    match e {
        PluginError::NotFound(m) => ShellBeError::NotFound(m),
        PluginError::AlreadyExists(m) => ShellBeError::AlreadyExists(m),
        PluginError::ApiVersionMismatch => ShellBeError::Plugin(
            "Plugin API version mismatch".to_owned(),
        ),
        PluginError::SecurityViolation(m) => ShellBeError::Security(m),
        PluginError::LoadFailed(m) => ShellBeError::Plugin(m),
        PluginError::DownloadFailed(m) => ShellBeError::Update(m),
        PluginError::InstallationFailed(m) => ShellBeError::Plugin(m),
        PluginError::LockTimeout(m) => ShellBeError::FileLock(m),
        PluginError::IoFailure(m) => ShellBeError::Io(m),
    }
}


/// `r` is `e` with its message prefixed by `ctx` and a separator, the
/// variant kept.
pub open spec fn decorated(e: &ShellBeError, r: &ShellBeError, ctx: Seq<char>) -> bool {
    match (e, r) {
        (ShellBeError::Profile(m), ShellBeError::Profile(m2)) => m2@ == ctx + ": "@ + m@,
        (ShellBeError::Connection(m), ShellBeError::Connection(m2)) => m2@ == ctx + ": "@ + m@,
        (ShellBeError::Ssh(m), ShellBeError::Ssh(m2)) => m2@ == ctx + ": "@ + m@,
        (ShellBeError::Config(m), ShellBeError::Config(m2)) => m2@ == ctx + ": "@ + m@,
        (ShellBeError::Plugin(m), ShellBeError::Plugin(m2)) => m2@ == ctx + ": "@ + m@,
        (ShellBeError::Security(m), ShellBeError::Security(m2)) => m2@ == ctx + ": "@ + m@,
        (ShellBeError::Io(m), ShellBeError::Io(m2)) => m2@ == ctx + ": "@ + m@,
        (ShellBeError::FileLock(m), ShellBeError::FileLock(m2)) => m2@ == ctx + ": "@ + m@,
        (ShellBeError::Update(m), ShellBeError::Update(m2)) => m2@ == ctx + ": "@ + m@,
        (
            ShellBeError::SystemRequirement(m),
            ShellBeError::SystemRequirement(m2),
        ) => m2@ == ctx + ": "@ + m@,
        (ShellBeError::NotFound(m), ShellBeError::NotFound(m2)) => m2@ == ctx + ": "@ + m@,
        (
            ShellBeError::AlreadyExists(m),
            ShellBeError::AlreadyExists(m2),
        ) => m2@ == ctx + ": "@ + m@,
        _ => false,
    }
}

/// Prefix an error's message with a context, keeping the variant.
pub fn add_context(ctx: &str, e: ShellBeError) -> (r: ShellBeError)
    ensures
        decorated(&e, &r, ctx@),
{
    match e {
        ShellBeError::Profile(m) => ShellBeError::Profile(prefix_msg(ctx, m)),
        ShellBeError::Connection(m) => ShellBeError::Connection(prefix_msg(ctx, m)),
        ShellBeError::Ssh(m) => ShellBeError::Ssh(prefix_msg(ctx, m)),
        ShellBeError::Config(m) => ShellBeError::Config(prefix_msg(ctx, m)),
        ShellBeError::Plugin(m) => ShellBeError::Plugin(prefix_msg(ctx, m)),
        ShellBeError::Security(m) => ShellBeError::Security(prefix_msg(ctx, m)),
        ShellBeError::Io(m) => ShellBeError::Io(prefix_msg(ctx, m)),
        ShellBeError::FileLock(m) => ShellBeError::FileLock(prefix_msg(ctx, m)),
        ShellBeError::Update(m) => ShellBeError::Update(prefix_msg(ctx, m)),
        ShellBeError::SystemRequirement(m) => ShellBeError::SystemRequirement(prefix_msg(ctx, m)),
        ShellBeError::NotFound(m) => ShellBeError::NotFound(prefix_msg(ctx, m)),
        ShellBeError::AlreadyExists(m) => ShellBeError::AlreadyExists(prefix_msg(ctx, m)),
    }
}

/// `{ctx}: {msg}`.
fn prefix_msg(ctx: &str, msg: String) -> (r: String)
    ensures
        r@ == ctx@ + ": "@ + msg@,
{
    let head = concat2(ctx, ": ");
    head.concat(msg.as_str())
}

/// Decorate the error of a failed operation with a lazily rendered
/// context.
pub trait ErrorContext<T>: Sized {
    /// On failure, run `context` and prefix the error's message with
    /// its output; success passes through untouched.
    fn with_context<C: FnOnce() -> String>(self, context: C) -> (r: Result<T, ShellBeError>)
        requires
            context.requires(()),
        ensures
            true,
    ;
}

impl<T> ErrorContext<T> for Result<T, ShellBeError> {
    fn with_context<C: FnOnce() -> String>(self, context: C) -> (r: Result<T, ShellBeError>)
        ensures
            self is Ok ==> r is Ok && r->Ok_0 == self->Ok_0,
            self is Err ==> r is Err && exists|c: String|
                #[trigger] context.ensures((), c) && decorated(&self->Err_0, &r->Err_0, c@),
    {
        match self {
            Ok(v) => Ok(v),
            Err(e) => {
                let ctx = context();
                Err(add_context(ctx.as_str(), e))
            },
        }
    }
}

} // verus!
