//! Configuration: the settings read from the configuration file, the settings
//! the client and the server run with, and the configurations of the sync
//! server and of the sync daemon. Paths are held as strings.

use vstd::prelude::*;
use crate::error::{HyperTaskError, HyperTaskErrorAction, HyperTaskErrorDomain, HyperTaskResult};
use crate::sync::{generate_sync_secret, is_generated_secret};

verus! {

/// Expands a leading `~` of `path` to the home directory, through shellexpand's
/// `tilde`. Its source leaves a path unchanged unless it is `~` alone or starts
/// with `~/` (or `~\` on Windows); such a path becomes the home directory's
/// text followed by the rest after the `~`, or stays unchanged when no home
/// directory is known. Which of the two happens, and the home directory, depend
/// on the environment and are left unsaid.
#[verifier::external_body]
fn expand_tilde(path: &str) -> (r: String)
    ensures
        !expandable(path@) ==> r@ == path@,
        expandable(path@) ==> r@ == path@ || exists|home: Seq<char>| r@ == home + path@.drop_first(),
{
    shellexpand::tilde(path).into_owned()
}

/// The path starts with a `~` that tilde expansion replaces.
pub open spec fn expandable(p: Seq<char>) -> bool {
    &&& p.len() > 0
    &&& p[0] == '~'
    &&& p.len() == 1 || p[1] == '/' || p[1] == '\\'
}

/// What a path may become by tilde expansion.
pub open spec fn tilde_expanded(before: Seq<char>, after: Seq<char>) -> bool {
    if expandable(before) {
        after == before || exists|home: Seq<char>| after == home + before.drop_first()
    } else {
        after == before
    }
}

/// A configuration whose paths can be tilde-expanded.
pub trait ShellExpand {
    /// Expands a leading `~` of the paths of this configuration.
    fn shell_expand(&mut self);
}

/// A configuration that names the directory the tasks are stored in.
pub trait ProvidesDataDir {
    /// The directory the tasks are stored in.
    fn get_task_state_dir(&self) -> &String;
}

/// Shell commands run around a change of the tasks.
#[derive(Debug, Clone, PartialEq, Eq)]
pub struct HooksConfig {
    pub after: Option<String>,
    pub on_edit: Option<String>,
    pub before: Option<String>,
}

/// The client's part of the configuration file.
#[derive(Debug, Clone, PartialEq, Eq)]
pub struct ClientConfig {
    pub hooks: Option<HooksConfig>,
}

/// The server's part of the configuration file.
#[derive(Debug, Clone, PartialEq, Eq)]
pub struct ServerConfig {
    pub hooks: HooksConfig,
    pub port: u16,
    pub address: Option<String>,
}

/// The configuration file.
#[derive(Debug, Clone, PartialEq, Eq)]
pub struct ConfigFile {
    pub data_dir: String,
    pub client: Option<ClientConfig>,
    pub server: Option<ServerConfig>,
}

impl ConfigFile {
    /// The server's part of the configuration, if there is one.
    pub fn get_server_config(&self) -> (r: &Option<ServerConfig>)
        ensures
            *r == self.server,
    {
        &self.server
    }
}

/// The settings the client or the server runs with.
#[derive(Debug, Clone, PartialEq, Eq)]
pub struct ConfigForUse {
    pub data_dir: String,
    pub hook_after: Option<String>,
    pub hook_before: Option<String>,
    pub server_port: Option<u16>,
    pub server_address: Option<String>,
}

/// The message of the error for a configuration without a server part.
pub open spec fn missing_server_message() -> Seq<char> {
    "missing [server] section from config.toml"@
}

impl ConfigForUse {
    /// The client's settings: the data directory and the client's hooks, if
    /// any, with no server settings.
    pub fn new_for_client(config: ConfigFile) -> (r: HyperTaskResult<Self>)
        ensures
            r matches Ok(c) && c.data_dir == config.data_dir && c.server_port is None
                && c.server_address is None && match config.client {
                Some(ClientConfig { hooks: Some(h) }) => c.hook_after == h.after && c.hook_before
                    == h.before,
                _ => c.hook_after is None && c.hook_before is None,
            },
    {
        let mut hook_after = None;
        let mut hook_before = None;
        match config.client {
            Some(ClientConfig { hooks: Some(h) }) => {
                hook_after = h.after;
                hook_before = h.before;
            },
            _ => {},
        }
        Ok(
            ConfigForUse {
                data_dir: config.data_dir,
                server_port: None,
                server_address: None,
                hook_after,
                hook_before,
            },
        )
    }

    /// The server's settings: the data directory, the server's port, address
    /// and hooks; a `Config` error while reading when the configuration has no
    /// server part.
    pub fn new_for_server(config: ConfigFile) -> (r: HyperTaskResult<Self>)
        ensures
            match config.server {
                None => r matches Err(e) && e.domain == HyperTaskErrorDomain::Config && e.action
                    == HyperTaskErrorAction::Read && (e.meta matches Some(m) && m@
                    == missing_server_message()) && e.source is None,
                Some(s) => r matches Ok(c) && c.data_dir == config.data_dir && c.server_port == Some(
                    s.port,
                ) && c.server_address == s.address && c.hook_after == s.hooks.after && c.hook_before
                    == s.hooks.before,
            },
    {
        match config.server {
            None => Err(
                HyperTaskError::new(HyperTaskErrorDomain::Config, HyperTaskErrorAction::Read).msg(
                    "missing [server] section from config.toml",
                ),
            ),
            Some(s) => Ok(
                ConfigForUse {
                    data_dir: config.data_dir,
                    server_port: Some(s.port),
                    server_address: s.address,
                    hook_after: s.hooks.after,
                    hook_before: s.hooks.before,
                },
            ),
        }
    }
}

/// The configuration of the sync server.
#[derive(Debug, Clone, PartialEq, Eq)]
pub struct SyncServerConfig {
    pub task_state_dir: String,
    pub sync_secret: String,
    pub hostname: String,
    pub port: u16,
}

impl SyncServerConfig {
    /// The default configuration with the tasks in `task_state_dir`: a freshly
    /// generated secret, host `localhost` and port 1234.
    pub fn default_in(task_state_dir: String) -> (r: Self)
        ensures
            r.task_state_dir == task_state_dir,
            is_generated_secret(r.sync_secret@),
            r.hostname@ == "localhost"@,
            r.port == 1234,
    {
        SyncServerConfig {
            task_state_dir,
            sync_secret: generate_sync_secret(),
            hostname: String::from_str("localhost"),
            port: 1234,
        }
    }
}

impl ProvidesDataDir for SyncServerConfig {
    fn get_task_state_dir(&self) -> (r: &String)
        ensures
            *r == self.task_state_dir,
    {
        &self.task_state_dir
    }
}

impl ShellExpand for SyncServerConfig {
    fn shell_expand(&mut self)
        ensures
            tilde_expanded(old(self).task_state_dir@, final(self).task_state_dir@),
            final(self).sync_secret == old(self).sync_secret,
            final(self).hostname == old(self).hostname,
            final(self).port == old(self).port,
    {
        let expanded = expand_tilde(self.task_state_dir.as_str());
        self.task_state_dir = expanded;
    }
}

/// Where the sync daemon finds the sync secret: in an environment variable or
/// in a file.
#[derive(Debug, Clone, PartialEq, Eq)]
pub enum SyncSecretSource {
    EnvVar { var_name: String },
    FilePath { path: String },
}

/// The configuration of the sync daemon.
#[derive(Debug, Clone, PartialEq, Eq)]
pub struct SyncCliDaemonConfig {
    pub data_dir: String,
    pub sync_secret: SyncSecretSource,
    pub server_url: String,
}

impl SyncCliDaemonConfig {
    /// The default configuration with the tasks in `data_dir`: the secret in
    /// the variable `HYPERTASK_DAEMON_SYNC_SECRET` and the public sync server.
    pub fn default_in(data_dir: String) -> (r: Self)
        ensures
            r.data_dir == data_dir,
            r.sync_secret matches SyncSecretSource::EnvVar { var_name } && var_name@
                == "HYPERTASK_DAEMON_SYNC_SECRET"@,
            r.server_url@ == "https://hypertask-sync-server.horse:1234"@,
    {
        SyncCliDaemonConfig {
            data_dir,
            sync_secret: SyncSecretSource::EnvVar {
                var_name: String::from_str("HYPERTASK_DAEMON_SYNC_SECRET"),
            },
            server_url: String::from_str("https://hypertask-sync-server.horse:1234"),
        }
    }
}

impl ProvidesDataDir for SyncCliDaemonConfig {
    fn get_task_state_dir(&self) -> (r: &String)
        ensures
            *r == self.data_dir,
    {
        &self.data_dir
    }
}

impl ShellExpand for SyncCliDaemonConfig {
    fn shell_expand(&mut self)
        ensures
            tilde_expanded(old(self).data_dir@, final(self).data_dir@),
            final(self).sync_secret == old(self).sync_secret,
            final(self).server_url == old(self).server_url,
    {
        let expanded = expand_tilde(self.data_dir.as_str());
        self.data_dir = expanded;
    }
}

} // verus!
