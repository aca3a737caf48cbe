//! Core domain values: SSH profiles, aliases and connection history.
//! Timestamps are plain milliseconds since the Unix epoch, obtained from
//! the host clock through `now_ms`.

use vstd::prelude::*;
use crate::strutil::concat2;
use crate::strutil::spec_dec;
use crate::strutil::u64_to_string;

verus! {

/// Default SSH port.
pub fn default_port() -> (p: u16)
    ensures
        p == 22u16,
{
    22
}

/// Relies on chrono::Utc::now and chrono::DateTime::timestamp_millis for
/// the current wall-clock time in milliseconds since the Unix epoch.
/// Nothing can be promised of the value.
#[verifier::external_body]
pub fn now_ms() -> u64 {
    chrono::Utc::now().timestamp_millis() as u64
}

/// An SSH connection profile.
pub struct Profile {
    /// Unique name/identifier for the profile.
    pub name: String,
    /// Hostname or IP address.
    pub hostname: String,
    /// Username for SSH login.
    pub username: String,
    /// SSH port, defaults to 22.
    pub port: u16,
    /// Path to identity file (private key).
    pub identity_file: Option<String>,
    /// Additional SSH options as key/value pairs.
    pub options: Vec<(String, String)>,
    /// When the profile was created, in milliseconds since the epoch.
    pub created_at: Option<u64>,
    /// When the profile was last modified.
    pub updated_at: Option<u64>,
    /// When the profile was last used for a connection.
    pub last_used: Option<u64>,
}

impl Profile {
    /// Create a new profile with default port and empty options; the
    /// creation and modification stamps are set to the same instant.
    pub fn new(name: &str, hostname: &str, username: &str) -> (r: Self)
        ensures
            r.name@ == name@,
            r.hostname@ == hostname@,
            r.username@ == username@,
            r.port == 22u16,
            r.identity_file is None,
            r.options@.len() == 0,
            r.created_at is Some,
            r.created_at == r.updated_at,
            r.last_used is None,
    {
        let now = now_ms();
        Profile {
            name: name.to_owned(),
            hostname: hostname.to_owned(),
            username: username.to_owned(),
            port: default_port(),
            identity_file: None,
            options: Vec::new(),
            created_at: Some(now),
            updated_at: Some(now),
            last_used: None,
        }
    }

    /// Stamp the profile as just used.
    pub fn mark_as_used(&mut self)
        ensures
            final (self).last_used is Some,
            final (self).name == old(self).name,
            final (self).hostname == old(self).hostname,
            final (self).username == old(self).username,
            final (self).port == old(self).port,
            final (self).identity_file == old(self).identity_file,
            final (self).options == old(self).options,
            final (self).created_at == old(self).created_at,
            final (self).updated_at == old(self).updated_at,
    {
        self.last_used = Some(now_ms());
    }

    /// Stamp the profile as just modified.
    pub fn mark_as_updated(&mut self)
        ensures
            final (self).updated_at is Some,
            final (self).name == old(self).name,
            final (self).hostname == old(self).hostname,
            final (self).username == old(self).username,
            final (self).port == old(self).port,
            final (self).identity_file == old(self).identity_file,
            final (self).options == old(self).options,
            final (self).created_at == old(self).created_at,
            final (self).last_used == old(self).last_used,
    {
        self.updated_at = Some(now_ms());
    }

    /// The `username@hostname` connection string.
    pub fn connection_string(&self) -> (r: String)
        ensures
            r@ == self.username@ + "@"@ + self.hostname@,
    {
        let s = concat2(self.username.as_str(), "@");
        s.concat(self.hostname.as_str())
    }

    /// The flags for the profile's extra options, in order.
    pub open spec fn spec_options_part(options: Seq<(String, String)>) -> Seq<char>
        decreases options.len(),
    {
        if options.len() == 0 {
            Seq::empty()
        } else {
            Self::spec_options_part(options.drop_last()) + " -"@ + options.last().0@ + " "@
                + options.last().1@
        }
    }

    /// The full SSH command line for this profile: `ssh`, the port
    /// when it is not the default, the identity file when one is set,
    /// each extra option as a flag, and the connection string.
    pub open spec fn spec_ssh_command(&self) -> Seq<char> {
        "ssh"@ + (if self.port != 22 {
            " -p "@ + spec_dec(self.port as nat)
        } else {
            Seq::<char>::empty()
        }) + (if self.identity_file is Some {
            " -i "@ + self.identity_file->0@
        } else {
            Seq::<char>::empty()
        }) + Self::spec_options_part(self.options@) + " "@ + self.username@ + "@"@
            + self.hostname@
    }

    /// Build the SSH command string with all options.
    pub fn ssh_command(&self) -> (r: String)
        ensures
            r@ == self.spec_ssh_command(),
    {
        let mut cmd: String = "ssh".to_owned();
        if self.port != 22 {
            cmd.append(" -p ");
            let p = u64_to_string(self.port as u64);
            cmd.append(p.as_str());
        }
        match &self.identity_file {
            Some(identity) => {
                cmd.append(" -i ");
                cmd.append(identity.as_str());
            },
            None => (),
        }
        let ghost head = cmd@;
        proof {
            assert(self.options@.subrange(0, 0) =~= Seq::<(String, String)>::empty());
        }
        let mut i: usize = 0;
        while i < self.options.len()
            invariant
                i <= self.options@.len(),
                cmd@ == head + Self::spec_options_part(self.options@.subrange(0, i as int)),
            decreases self.options@.len() - i,
        {
            cmd.append(" -");
            cmd.append(self.options[i].0.as_str());
            cmd.append(" ");
            cmd.append(self.options[i].1.as_str());
            proof {
                assert(self.options@.subrange(0, i + 1).drop_last() =~= self.options@.subrange(
                    0,
                    i as int,
                ));
                assert(self.options@.subrange(0, i + 1).last() == self.options@[i as int]);
                assert(cmd@ =~= head + Self::spec_options_part(self.options@.subrange(0, i + 1)));
            }
            i += 1;
        }
        proof {
            assert(self.options@.subrange(0, self.options@.len() as int) =~= self.options@);
        }
        cmd.append(" ");
        cmd.append(self.username.as_str());
        cmd.append("@");
        cmd.append(self.hostname.as_str());
        proof {
            assert(cmd@ =~= self.spec_ssh_command());
        }
        cmd
    }
}

/// An alias points at a profile by name.
pub struct Alias {
    /// Alias name.
    pub name: String,
    /// Target profile name.
    pub target: String,
}

impl Alias {
    /// Create a new alias.
    pub fn new(name: &str, target: &str) -> (r: Self)
        ensures
            r.name@ == name@,
            r.target@ == target@,
    {
        Alias { name: name.to_owned(), target: target.to_owned() }
    }
}

/// One entry of the connection history.
pub struct HistoryEntry {
    /// When the connection was made, in milliseconds since the epoch.
    pub timestamp: u64,
    /// Profile name used.
    pub profile_name: String,
    /// Host connected to.
    pub hostname: String,
    /// Exit code of the connection, once it ended.
    pub exit_code: Option<i32>,
    /// Duration of the connection in milliseconds, once it ended.
    pub duration_ms: Option<u64>,
}

impl HistoryEntry {
    /// A fresh entry for a connection that just started.
    pub fn new(profile_name: &str, hostname: &str) -> (r: Self)
        ensures
            r.profile_name@ == profile_name@,
            r.hostname@ == hostname@,
            r.exit_code is None,
            r.duration_ms is None,
    {
        HistoryEntry {
            timestamp: now_ms(),
            profile_name: profile_name.to_owned(),
            hostname: hostname.to_owned(),
            exit_code: None,
            duration_ms: None,
        }
    }

    /// The same entry completed with the connection's outcome.
    pub fn with_result(self, exit_code: i32, duration_ms: u64) -> (r: Self)
        ensures
            r.timestamp == self.timestamp,
            r.profile_name == self.profile_name,
            r.hostname == self.hostname,
            r.exit_code == Some(exit_code),
            r.duration_ms == Some(duration_ms),
    {
        HistoryEntry {
            exit_code: Some(exit_code),
            duration_ms: Some(duration_ms),
            ..self
        }
    }
}

/// Aggregate connection statistics for one profile.
pub struct ConnectionStats {
    /// Profile name.
    pub profile_name: String,
    /// Number of connections.
    pub connection_count: usize,
    /// Total connection time in milliseconds.
    pub total_duration_ms: u64,
    /// Average connection time in milliseconds.
    pub average_duration_ms: u64,
    /// Timestamp of the last connection.
    pub last_connection: u64,
}

} // verus!
