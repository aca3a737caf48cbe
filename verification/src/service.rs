//! Lifecycle manager: installs, enables, disables, removes and updates
//! extensions, driving the metadata store and the live registry.
//!
//! Every step that touches the outside world — downloading, unpacking,
//! copying, scanning, opening a native library — is the runner's; the
//! runner hands the outcome in as plain values, and every decision and
//! every state change is made here. The laws at the bottom of the
//! module tie the steps together: enable-then-disable restores the
//! store, a second install of one identity is rejected unchanged, and
//! a failed update is a no-op but for the update stamp.

use vstd::prelude::*;
use crate::errors::PluginError;
use crate::events::Event;
use crate::events::EventBus;
use crate::events::EventListener;
use crate::plugin::Hook;
use crate::plugin::Plugin;
use crate::plugin::PluginMetadata;
use crate::plugin::PluginStatus;
use crate::plugin::PluginInfo;
use crate::registry::LiveEntry;
use crate::registry::LiveRegistry;
use crate::registry::has_entry;
use crate::registry::spec_entry;
use crate::security::PluginSecurityValidator;
use crate::store::PluginStore;
use crate::store::contains_name;
use crate::store::spec_get;
use crate::strutil::concat2;
use crate::strutil::str_eq;
use crate::requirements::SystemRequirements;

verus! {

/// Sandbox settings for extensions.
pub struct PluginSandboxSettings {
    /// Whether to allow file system access.
    pub allow_fs_access: bool,
    /// Whether to allow network access.
    pub allow_network_access: bool,
    /// Maximum memory usage in bytes, if capped.
    pub max_memory_bytes: Option<usize>,
    /// Allowed executable paths.
    pub allowed_executables: Vec<String>,
    /// Allowed environment variables.
    pub allowed_env_vars: Vec<String>,
}

impl Default for PluginSandboxSettings {
    /// Defaults: file system access but no network, a 50-megabyte
    /// memory cap, no executables, and the basic environment.
    fn default() -> (r: Self)
        ensures
            r.allow_fs_access,
            !r.allow_network_access,
            r.max_memory_bytes == Some(52428800usize),
            r.allowed_executables@.len() == 0,
            crate::strutil::views_of(r.allowed_env_vars@) =~= seq![
                "HOME"@,
                "PATH"@,
                "USER"@,
                "SHELL"@,
            ],
    {
        let mut allowed_env_vars: Vec<String> = Vec::new();
        allowed_env_vars.push("HOME".to_owned());
        allowed_env_vars.push("PATH".to_owned());
        allowed_env_vars.push("USER".to_owned());
        allowed_env_vars.push("SHELL".to_owned());
        PluginSandboxSettings {
            allow_fs_access: true,
            allow_network_access: false,
            max_memory_bytes: Some(52428800),
            allowed_executables: Vec::new(),
            allowed_env_vars,
        }
    }
}

/// What `update_begin` remembers for the rollback of a failed update.
pub struct UpdateTicket {
    /// The record as it stood before the update began.
    pub snapshot: PluginMetadata,
    /// Whether the extension was enabled before the update began.
    pub was_enabled: bool,
}

/// The extension lifecycle manager. `P` is the loaded-extension handle
/// type the runner produces; it must tie the extension handle to its
/// owning native library so that destruction never outlives the
/// library.
pub struct PluginService<P, L> {
    store: PluginStore,
    registry: LiveRegistry<P>,
    event_bus: EventBus<L>,
    plugins_dir: String,
    sandbox_settings: PluginSandboxSettings,
    security_validator: PluginSecurityValidator,
    system_requirements: SystemRequirements,
}

impl<P, L> PluginService<P, L> {
    /// The records of the metadata store.
    pub closed spec fn records(&self) -> Seq<PluginMetadata> {
        self.store@
    }

    /// The entries of the live registry.
    pub closed spec fn live(&self) -> Seq<LiveEntry<P>> {
        self.registry@
    }

    /// The event bus domain events are published on.
    pub closed spec fn bus(&self) -> EventBus<L> {
        self.event_bus
    }

    /// The configuration: plugins directory, security validator,
    /// sandbox settings and system requirements.
    pub closed spec fn config(&self) -> (
        Seq<char>,
        PluginSecurityValidator,
        PluginSandboxSettings,
        SystemRequirements,
    ) {
        (self.plugins_dir@, self.security_validator, self.sandbox_settings,
        self.system_requirements)
    }

    /// The invariant: unique identities on both sides, and nothing
    /// live without an Enabled record.
    pub open spec fn wf(&self) -> bool {
        &&& crate::store::names_unique(self.records())
        &&& crate::registry::entry_names_unique(self.live())
        &&& forall|n: Seq<char>|
            #[trigger] has_entry(self.live(), n) ==> spec_get(self.records(), n) is Some
                && spec_get(self.records(), n)->Some_0.status is Enabled
    }

    /// A manager over an already-loaded store, publishing its domain
    /// events on the given bus, with nothing live yet and the default
    /// security posture.
    pub fn new(store: PluginStore, event_bus: EventBus<L>, plugins_dir: &str) -> (r: Self)
        requires
            store.wf(),
        ensures
            r.wf(),
            r.records() == store@,
            r.live().len() == 0,
            r.bus() == event_bus,
            r.config().0 == plugins_dir@,
    {
        let r = PluginService {
            store,
            registry: LiveRegistry::new(),
            event_bus,
            plugins_dir: plugins_dir.to_owned(),
            sandbox_settings: PluginSandboxSettings::default(),
            security_validator: PluginSecurityValidator::default(),
            system_requirements: SystemRequirements::default(),
        };
        proof {
            assert forall|n: Seq<char>| #[trigger] has_entry(r.live(), n) implies spec_get(
                r.records(),
                n,
            ) is Some && spec_get(r.records(), n)->Some_0.status is Enabled by {
                crate::registry::lemma_spec_entry_absent(r.live(), n);
            }
        }
        r
    }

    /// The directory extensions install into.
    pub fn plugins_dir(&self) -> (r: &str)
        ensures
            r@ == self.config().0,
    {
        self.plugins_dir.as_str()
    }

    /// Replace the sandbox settings.
    pub fn set_sandbox_settings(&mut self, settings: PluginSandboxSettings)
        ensures
            final (self).records() == old(self).records(),
            final (self).live() == old(self).live(),
            final (self).config().2 == settings,
            final (self).bus() == old(self).bus(),
            final (self).wf() == old(self).wf(),
    {
        self.sandbox_settings = settings;
    }

    /// Replace the security validator.
    pub fn set_security_validator(&mut self, validator: PluginSecurityValidator)
        ensures
            final (self).records() == old(self).records(),
            final (self).live() == old(self).live(),
            final (self).config().1 == validator,
            final (self).bus() == old(self).bus(),
            final (self).wf() == old(self).wf(),
    {
        self.security_validator = validator;
    }

    /// Replace the system requirements.
    pub fn set_system_requirements(&mut self, requirements: SystemRequirements)
        ensures
            final (self).records() == old(self).records(),
            final (self).live() == old(self).live(),
            final (self).config().3 == requirements,
            final (self).bus() == old(self).bus(),
            final (self).wf() == old(self).wf(),
    {
        self.system_requirements = requirements;
    }

    /// The security validator, for the runner's scans.
    pub fn security_validator(&self) -> (r: &PluginSecurityValidator)
        ensures
            *r == self.config().1,
    {
        &self.security_validator
    }

    /// The system requirements, for the runner's probes.
    pub fn system_requirements(&self) -> (r: &SystemRequirements)
        ensures
            *r == self.config().3,
    {
        &self.system_requirements
    }

    /// All installed extensions' records.
    pub fn list_plugins(&self) -> (r: Vec<PluginMetadata>)
        ensures
            r@ == self.records(),
    {
        self.store.list()
    }

    /// The record of one installed extension; `NotFound` when the
    /// identity is unknown.
    pub fn get_plugin(&self, name: &str) -> (r: Result<PluginMetadata, PluginError>)
        ensures
            r is Ok <==> contains_name(self.records(), name@),
            r is Ok ==> Some(r->Ok_0) == spec_get(self.records(), name@),
            r is Err ==> r->Err_0 is NotFound,
    {
        match self.store.get(name) {
            Some(m) => Ok(m),
            None => Err(PluginError::NotFound(concat2("Plugin not found: ", name))),
        }
    }

    /// The records of the extensions that should be live: those the
    /// store holds as Enabled. Loaded at start-up by the runner.
    pub fn enabled_plugins(&self) -> (r: Vec<PluginMetadata>)
        requires
            self.wf(),
        ensures
            forall|i: int|
                0 <= i < r@.len() ==> (#[trigger] r@[i]).status is Enabled && spec_get(
                    self.records(),
                    r@[i].info.name@,
                ) == Some(r@[i]),
            forall|j: int|
                0 <= j < self.records().len() && (#[trigger] self.records()[j]).status is Enabled
                    ==> exists|i: int| 0 <= i < r@.len() && r@[i] == self.records()[j],
    {
        let all = self.store.list();
        let mut out: Vec<PluginMetadata> = Vec::new();
        let mut i: usize = 0;
        while i < all.len()
            invariant
                i <= all@.len(),
                all@ == self.records(),
                self.wf(),
                forall|k: int|
                    0 <= k < out@.len() ==> (#[trigger] out@[k]).status is Enabled && spec_get(
                        self.records(),
                        out@[k].info.name@,
                    ) == Some(out@[k]),
                forall|j: int|
                    0 <= j < i && (#[trigger] all@[j]).status is Enabled ==> exists|k: int|
                        0 <= k < out@.len() && out@[k] == all@[j],
            decreases all@.len() - i,
        {
            let ghost pre_out = out@;
            if all[i].status == PluginStatus::Enabled {
                proof {
                    crate::store::lemma_spec_get_some(self.records(), i as int);
                    let m = spec_get(self.records(), all@[i as int].info.name@)->Some_0;
                    if m != all@[i as int] {
                        crate::store::lemma_spec_get_at(
                            self.records(),
                            all@[i as int].info.name@,
                            i as int,
                        );
                    }
                }
                out.push(all[i].clone());
                proof {
                    assert(out@[out@.len() - 1] == all@[i as int]);
                    assert forall|j: int|
                        0 <= j < i + 1 && (#[trigger] all@[j]).status is Enabled implies exists|
                        k: int,
                    | 0 <= k < out@.len() && out@[k] == all@[j] by {
                        if j < i {
                            let k = choose|k: int| 0 <= k < pre_out.len() && pre_out[k] == all@[j];
                            assert(out@[k] == all@[j]);
                        } else {
                            assert(out@[out@.len() - 1] == all@[j]);
                        }
                    }
                }
            }
            i += 1;
        }
        out
    }

    /// Record a freshly installed extension: rejected with
    /// `AlreadyExists`, everything unchanged, exactly when the
    /// identity is already installed; otherwise the record is created
    /// with status Disabled, the install path and the given install
    /// stamp, and nothing else changes.
    pub fn install_commit(&mut self, info: PluginInfo, path: String, now_ms: u64) -> (r: Result<
        PluginMetadata,
        PluginError,
    >)
        requires
            old(self).wf(),
        ensures
            final (self).wf(),
            final (self).live() == old(self).live(),
            final (self).config() == old(self).config(),
            final (self).bus() == old(self).bus(),
            r is Err <==> contains_name(old(self).records(), info.name@),
            r is Err ==> final (self).records() == old(self).records() && (
            r->Err_0 is AlreadyExists),
            r is Ok ==> r->Ok_0 == (PluginMetadata {
                info,
                status: PluginStatus::Disabled,
                path,
                installed_at: now_ms,
                updated_at: None,
            }),
            r is Ok ==> spec_get(final (self).records(), info.name@) == Some(r->Ok_0),
            forall|n: Seq<char>|
                n != info.name@ ==> spec_get(final (self).records(), n) == spec_get(
                    old(self).records(),
                    n,
                ),
    {
        if self.store.contains(info.name.as_str()) {
            return Err(
                PluginError::AlreadyExists(concat2("Plugin already exists: ", info.name.as_str())),
            );
        }
        let record = PluginMetadata {
            info,
            status: PluginStatus::Disabled,
            path,
            installed_at: now_ms,
            updated_at: None,
        };
        let returned = record.clone();
        self.store.save(record);
        proof {
            self.lemma_wf_after_store_change(old(self));
        }
        Ok(returned)
    }

    /// The registry is untouched and nothing was live for a name whose
    /// store record changed or vanished, so the invariant carries
    /// over.
    proof fn lemma_wf_after_store_change(&self, pre: &Self)
        requires
            pre.wf(),
            self.live() == pre.live(),
            forall|n: Seq<char>|
                #[trigger] has_entry(pre.live(), n) ==> spec_get(self.records(), n) == spec_get(
                    pre.records(),
                    n,
                ),
            crate::store::names_unique(self.records()),
        ensures
            self.wf(),
    {
    }
}

impl<P: Plugin, L: EventListener> PluginService<P, L> {
    /// Enable an installed extension with the handle the loader
    /// produced. Unknown identities are rejected with `NotFound`; an
    /// already-enabled extension is left alone; a handle whose
    /// self-reported identity differs from `name` is rejected with
    /// `LoadFailed` (the handle never enters the registry). On
    /// success the record's status becomes Enabled, the handle goes
    /// live under the identity, the extension's `on_enable` and its
    /// enabled-hook run best-effort, a plugin-enabled domain event is
    /// published, and nothing else changes.
    pub fn enable_commit(&mut self, name: &str, handle: P) -> (r: Result<(), PluginError>)
        requires
            old(self).wf(),
        ensures
            final (self).wf(),
            final (self).config() == old(self).config(),
            final (self).bus() == old(self).bus(),
            !contains_name(old(self).records(), name@) <==> r is Err && r->Err_0 is NotFound,
            r is Err ==> final (self).records() == old(self).records() && final (self).live()
                == old(self).live() && (r->Err_0 is NotFound || r->Err_0 is LoadFailed),
            contains_name(old(self).records(), name@) && spec_get(
                old(self).records(),
                name@,
            )->Some_0.status is Enabled ==> r is Ok && final (self).records() == old(self).records() && final (self).live()
                == old(self).live(),
            r is Ok && spec_get(old(self).records(), name@)->Some_0.status is Disabled ==> {
                &&& spec_get(final (self).records(), name@) == Some(
                    PluginMetadata {
                        status: PluginStatus::Enabled,
                        ..spec_get(old(self).records(), name@)->Some_0
                    },
                )
                &&& spec_entry(final (self).live(), name@) is Some
                &&& spec_entry(final (self).live(), name@)->Some_0.plugin == handle
            },
            forall|n: Seq<char>|
                n != name@ ==> spec_get(final (self).records(), n) == spec_get(
                    old(self).records(),
                    n,
                ),
            forall|n: Seq<char>|
                n != name@ ==> spec_entry(final (self).live(), n) == spec_entry(
                    old(self).live(),
                    n,
                ),
    {
        let current = match self.store.get(name) {
            Some(m) => m,
            None => {
                return Err(PluginError::NotFound(concat2("Plugin not found: ", name)));
            },
        };
        if current.status == PluginStatus::Enabled {
            return Ok(());
        }
        let reported = handle.info();
        if !str_eq(reported.name.as_str(), name) {
            return Err(
                PluginError::LoadFailed(concat2("Plugin name mismatch for: ", name)),
            );
        }
        proof {
            if has_entry(self.live(), name@) {
                assert(spec_get(self.records(), name@)->Some_0.status is Enabled);
            }
        }
        let inserted = self.registry.insert(name, handle);
        match inserted {
            Err(e) => {
                proof {
                    assert(false);
                }
                return Err(e);
            },
            Ok(_) => (),
        }
        let updated = self.store.update_status(name, PluginStatus::Enabled);
        match updated {
            Err(e) => {
                proof {
                    assert(false);
                }
                return Err(e);
            },
            Ok(_) => (),
        }
        proof {
            assert forall|n: Seq<char>| #[trigger] has_entry(self.live(), n) implies spec_get(
                self.records(),
                n,
            ) is Some && spec_get(self.records(), n)->Some_0.status is Enabled by {
                if n != name@ {
                    assert(has_entry(old(self).live(), n));
                }
            }
        }
        if let Some(p) = self.registry.get(name) {
            let enabled_outcome = p.on_enable();
            match enabled_outcome {
                Ok(_) => (),
                Err(_) => (),
            }
            let hook_outcome = p.execute_hook(Hook::PluginEnabled, None);
            match hook_outcome {
                Ok(_) => (),
                Err(_) => (),
            }
        }
        self.event_bus.publish(&Event::PluginEnabled(name.to_owned()));
        Ok(())
    }

    /// Attach a handle for an extension whose record is already
    /// Enabled: at start-up, and when re-enabling after a rolled-back
    /// update. An already-live identity is left alone; a disabled or
    /// unknown record, or a handle reporting the wrong identity, is
    /// rejected unchanged.
    pub fn attach_loaded(&mut self, name: &str, handle: P) -> (r: Result<(), PluginError>)
        requires
            old(self).wf(),
        ensures
            final (self).wf(),
            final (self).config() == old(self).config(),
            final (self).bus() == old(self).bus(),
            final (self).records() == old(self).records(),
            !contains_name(old(self).records(), name@) <==> r is Err && r->Err_0 is NotFound,
            r is Err ==> final (self).live() == old(self).live() && (r->Err_0 is NotFound
                || r->Err_0 is LoadFailed),
            contains_name(old(self).records(), name@) && spec_get(
                old(self).records(),
                name@,
            )->Some_0.status is Disabled ==> r is Err && r->Err_0 is LoadFailed,
            has_entry(old(self).live(), name@) ==> r is Ok && final (self).live() == old(
                self).live(),
            r is Ok && !has_entry(old(self).live(), name@) ==> spec_entry(
                final (self).live(),
                name@,
            ) is Some && spec_entry(final (self).live(), name@)->Some_0.plugin == handle,
            forall|n: Seq<char>|
                n != name@ ==> spec_entry(final (self).live(), n) == spec_entry(
                    old(self).live(),
                    n,
                ),
    {
        let current = match self.store.get(name) {
            Some(m) => m,
            None => {
                return Err(PluginError::NotFound(concat2("Plugin not found: ", name)));
            },
        };
        if self.registry.contains(name) {
            return Ok(());
        }
        if current.status == PluginStatus::Disabled {
            return Err(
                PluginError::LoadFailed(concat2("Plugin is not enabled: ", name)),
            );
        }
        let reported = handle.info();
        if !str_eq(reported.name.as_str(), name) {
            return Err(
                PluginError::LoadFailed(concat2("Plugin name mismatch for: ", name)),
            );
        }
        let inserted = self.registry.insert(name, handle);
        match inserted {
            Err(e) => {
                proof {
                    assert(false);
                }
                return Err(e);
            },
            Ok(_) => (),
        }
        proof {
            assert forall|n: Seq<char>| #[trigger] has_entry(self.live(), n) implies spec_get(
                self.records(),
                n,
            ) is Some && spec_get(self.records(), n)->Some_0.status is Enabled by {
                if n != name@ {
                    assert(has_entry(old(self).live(), n));
                }
            }
        }
        Ok(())
    }

    /// Disable an installed extension. Unknown identities are rejected
    /// with `NotFound`; an already-disabled extension is left alone.
    /// Otherwise the extension's `on_disable` and its disabled-hook
    /// run best-effort while it is still live, the record's status
    /// becomes Disabled, the entry leaves the registry — its handle is
    /// destroyed before the method returns — and a plugin-disabled
    /// domain event is published.
    pub fn disable_plugin(&mut self, name: &str) -> (r: Result<(), PluginError>)
        requires
            old(self).wf(),
        ensures
            final (self).wf(),
            final (self).config() == old(self).config(),
            final (self).bus() == old(self).bus(),
            r is Err <==> !contains_name(old(self).records(), name@),
            r is Err ==> final (self).records() == old(self).records() && final (self).live()
                == old(self).live() && r->Err_0 is NotFound,
            r is Ok && spec_get(old(self).records(), name@)->Some_0.status is Disabled ==> final (self).records() == old(self).records() && final (self).live() == old(self).live(),
            r is Ok && spec_get(old(self).records(), name@)->Some_0.status is Enabled ==> {
                &&& spec_get(final (self).records(), name@) == Some(
                    PluginMetadata {
                        status: PluginStatus::Disabled,
                        ..spec_get(old(self).records(), name@)->Some_0
                    },
                )
            },
            r is Ok ==> spec_entry(final (self).live(), name@) is None,
            forall|n: Seq<char>|
                n != name@ ==> spec_get(final (self).records(), n) == spec_get(
                    old(self).records(),
                    n,
                ),
            forall|n: Seq<char>|
                n != name@ ==> spec_entry(final (self).live(), n) == spec_entry(
                    old(self).live(),
                    n,
                ),
    {
        let current = match self.store.get(name) {
            Some(m) => m,
            None => {
                return Err(PluginError::NotFound(concat2("Plugin not found: ", name)));
            },
        };
        if current.status == PluginStatus::Disabled {
            proof {
                if spec_entry(self.live(), name@) is Some {
                    assert(has_entry(self.live(), name@));
                    assert(spec_get(self.records(), name@)->Some_0.status is Enabled);
                }
            }
            return Ok(());
        }
        if let Some(p) = self.registry.get(name) {
            let disable_outcome = p.on_disable();
            match disable_outcome {
                Ok(_) => (),
                Err(_) => (),
            }
            let hook_outcome = p.execute_hook(Hook::PluginDisabled, None);
            match hook_outcome {
                Ok(_) => (),
                Err(_) => (),
            }
        }
        let updated = self.store.update_status(name, PluginStatus::Disabled);
        match updated {
            Err(e) => {
                proof {
                    assert(false);
                }
                return Err(e);
            },
            Ok(_) => (),
        }
        let removed = self.registry.remove(name);
        match removed {
            Some(_) => (),
            None => (),
        }
        proof {
            assert forall|n: Seq<char>| #[trigger] has_entry(self.live(), n) implies spec_get(
                self.records(),
                n,
            ) is Some && spec_get(self.records(), n)->Some_0.status is Enabled by {
                assert(has_entry(old(self).live(), n));
                assert(n != name@);
            }
        }
        self.event_bus.publish(&Event::PluginDisabled(name.to_owned()));
        Ok(())
    }

    /// Remove an installed extension: disable it if it is enabled,
    /// delete its record, and hand the install path back for the
    /// runner to delete the directory. Unknown identities are
    /// rejected with `NotFound`, everything unchanged.
    pub fn remove_plugin(&mut self, name: &str) -> (r: Result<String, PluginError>)
        requires
            old(self).wf(),
        ensures
            final (self).wf(),
            final (self).config() == old(self).config(),
            final (self).bus() == old(self).bus(),
            r is Err <==> !contains_name(old(self).records(), name@),
            r is Err ==> final (self).records() == old(self).records() && final (self).live()
                == old(self).live() && r->Err_0 is NotFound,
            r is Ok ==> spec_get(final (self).records(), name@) is None && spec_entry(
                final (self).live(),
                name@,
            ) is None,
            r is Ok ==> r->Ok_0 == spec_get(old(self).records(), name@)->Some_0.path,
            forall|n: Seq<char>|
                n != name@ ==> spec_get(final (self).records(), n) == spec_get(
                    old(self).records(),
                    n,
                ),
            forall|n: Seq<char>|
                n != name@ ==> spec_entry(final (self).live(), n) == spec_entry(
                    old(self).live(),
                    n,
                ),
    {
        let current = match self.store.get(name) {
            Some(m) => m,
            None => {
                return Err(PluginError::NotFound(concat2("Plugin not found: ", name)));
            },
        };
        if current.status == PluginStatus::Enabled {
            let disabled = self.disable_plugin(name);
            match disabled {
                Err(e) => {
                    proof {
                        assert(false);
                    }
                    return Err(e);
                },
                Ok(_) => (),
            }
        } else {
            proof {
                if spec_entry(self.live(), name@) is Some {
                    assert(has_entry(self.live(), name@));
                    assert(spec_get(self.records(), name@)->Some_0.status is Enabled);
                }
            }
        }
        let removed = self.store.remove(name);
        match removed {
            Err(e) => {
                proof {
                    assert(false);
                }
                return Err(e);
            },
            Ok(_) => (),
        }
        proof {
            self.lemma_wf_after_store_change_generic(old(self), name@);
        }
        Ok(current.path)
    }

    /// Begin an update: remember the record and whether the extension
    /// was enabled, disable it if so, and take the record out of the
    /// store while the runner re-installs from the recorded origin.
    /// Unknown identities are rejected with `NotFound`; a record with
    /// no origin URL is rejected with `InstallationFailed`; either way
    /// nothing changes.
    pub fn update_begin(&mut self, name: &str) -> (r: Result<UpdateTicket, PluginError>)
        requires
            old(self).wf(),
        ensures
            final (self).wf(),
            final (self).config() == old(self).config(),
            final (self).bus() == old(self).bus(),
            !contains_name(old(self).records(), name@) <==> r is Err && r->Err_0 is NotFound,
            r is Err ==> final (self).records() == old(self).records() && final (self).live()
                == old(self).live() && (r->Err_0 is NotFound || r->Err_0 is InstallationFailed),
            contains_name(old(self).records(), name@) && spec_get(
                old(self).records(),
                name@,
            )->Some_0.info.source_url is None <==> r is Err && r->Err_0 is InstallationFailed,
            r is Ok ==> {
                &&& r->Ok_0.snapshot == spec_get(old(self).records(), name@)->Some_0
                &&& r->Ok_0.snapshot.info.name@ == name@
                &&& r->Ok_0.was_enabled == (spec_get(
                    old(self).records(),
                    name@,
                )->Some_0.status is Enabled)
                &&& r->Ok_0.snapshot.info.source_url is Some
                &&& spec_get(final (self).records(), name@) is None
                &&& spec_entry(final (self).live(), name@) is None
            },
            forall|n: Seq<char>|
                n != name@ ==> spec_get(final (self).records(), n) == spec_get(
                    old(self).records(),
                    n,
                ),
            forall|n: Seq<char>|
                n != name@ ==> spec_entry(final (self).live(), n) == spec_entry(
                    old(self).live(),
                    n,
                ),
    {
        let current = match self.store.get(name) {
            Some(m) => m,
            None => {
                return Err(PluginError::NotFound(concat2("Plugin not found: ", name)));
            },
        };
        match &current.info.source_url {
            Some(_) => (),
            None => {
                return Err(
                    PluginError::InstallationFailed(
                        "No source URL available for update".to_owned(),
                    ),
                );
            },
        }
        let was_enabled = current.status == PluginStatus::Enabled;
        if was_enabled {
            let disabled = self.disable_plugin(name);
            match disabled {
                Err(e) => {
                    proof {
                        assert(false);
                    }
                    return Err(e);
                },
                Ok(_) => (),
            }
        } else {
            proof {
                if spec_entry(self.live(), name@) is Some {
                    assert(has_entry(self.live(), name@));
                    assert(spec_get(self.records(), name@)->Some_0.status is Enabled);
                }
            }
        }
        let removed = self.store.remove(name);
        match removed {
            Err(e) => {
                proof {
                    assert(false);
                }
                return Err(e);
            },
            Ok(_) => (),
        }
        proof {
            self.lemma_wf_after_store_change_generic(old(self), name@);
            crate::store::lemma_spec_get_name(old(self).records(), name@);
        }
        Ok(UpdateTicket { snapshot: current, was_enabled })
    }

    /// Roll a failed update back: re-persist the record as it stood
    /// before the update — descriptor, status, path and install stamp
    /// untouched — with the update stamp set to now. The registry is
    /// untouched; re-enabling a previously enabled extension is the
    /// runner's next step, through `attach_loaded`.
    pub fn update_rollback(&mut self, ticket: UpdateTicket, now_ms: u64) -> (r: PluginMetadata)
        requires
            old(self).wf(),
            !has_entry(old(self).live(), ticket.snapshot.info.name@),
        ensures
            final (self).wf(),
            final (self).config() == old(self).config(),
            final (self).bus() == old(self).bus(),
            final (self).live() == old(self).live(),
            r == (PluginMetadata { updated_at: Some(now_ms), ..ticket.snapshot }),
            spec_get(final (self).records(), ticket.snapshot.info.name@) == Some(r),
            forall|n: Seq<char>|
                n != ticket.snapshot.info.name@ ==> spec_get(final (self).records(), n)
                    == spec_get(old(self).records(), n),
    {
        let restored = PluginMetadata {
            info: ticket.snapshot.info,
            status: ticket.snapshot.status,
            path: ticket.snapshot.path,
            installed_at: ticket.snapshot.installed_at,
            updated_at: Some(now_ms),
        };
        let returned = restored.clone();
        self.store.save(restored);
        proof {
            assert forall|n: Seq<char>| #[trigger] has_entry(self.live(), n) implies spec_get(
                self.records(),
                n,
            ) is Some && spec_get(self.records(), n)->Some_0.status is Enabled by {
                assert(has_entry(old(self).live(), n));
                assert(n != returned.info.name@);
            }
        }
        returned
    }

    /// The store changed only at `name`, which is not live, so the
    /// invariant carries over.
    proof fn lemma_wf_after_store_change_generic(&self, pre: &Self, name: Seq<char>)
        requires
            pre.wf(),
            crate::store::names_unique(self.records()),
            crate::registry::entry_names_unique(self.live()),
            spec_entry(self.live(), name) is None,
            forall|n: Seq<char>|
                n != name ==> spec_entry(self.live(), n) == spec_entry(pre.live(), n),
            forall|n: Seq<char>|
                n != name ==> spec_get(self.records(), n) == spec_get(pre.records(), n),
        ensures
            self.wf(),
    {
        assert forall|n: Seq<char>| #[trigger] has_entry(self.live(), n) implies spec_get(
            self.records(),
            n,
        ) is Some && spec_get(self.records(), n)->Some_0.status is Enabled by {
            assert(n != name);
            assert(has_entry(pre.live(), n));
        }
    }

    /// Run one of a live extension's custom commands. An identity that
    /// is not live is rejected with `NotFound`; so is a command absent
    /// from the list the extension reported, decided by the verified
    /// `command_known`. A failure the extension itself reports is
    /// isolated: it neither propagates nor changes anything.
    pub fn execute_command(&self, plugin_name: &str, command: &str, args: &[String]) -> (r: Result<
        (),
        PluginError,
    >)
        ensures
            r is Ok ==> has_entry(self.live(), plugin_name@),
            !has_entry(self.live(), plugin_name@) ==> r is Err,
            r is Err ==> r->Err_0 is NotFound,
    {
        let plugin = match self.registry.get(plugin_name) {
            Some(p) => p,
            None => {
                return Err(PluginError::NotFound(concat2("Plugin not loaded: ", plugin_name)));
            },
        };
        let commands = plugin.commands();
        if !crate::plugin::command_known(&commands, command) {
            return Err(PluginError::NotFound(concat2("Command not found: ", command)));
        }
        let outcome = plugin.execute_command(command, args);
        match outcome {
            Ok(_) => (),
            Err(_) => (),
        }
        Ok(())
    }

    /// Notify every live extension of a hook; extension failures are
    /// isolated per call.
    pub fn execute_hook(&self, hook: Hook, profile: Option<&crate::models::Profile>) {
        self.registry.dispatch_hook(hook, profile);
    }

    /// The identities of the live extensions, in registry order.
    pub fn loaded_plugins(&self) -> (r: Vec<String>)
        ensures
            r@.len() == self.live().len(),
            forall|i: int| 0 <= i < r@.len() ==> r@[i]@ == self.live()[i].name@,
    {
        self.registry.names()
    }
}

/// Law: enabling an extension that stood Disabled and then disabling
/// it leaves every record of the store exactly as before either call,
/// and leaves the registry without an entry for the identity. (An
/// identity that already stood Enabled is out: disabling it afterwards
/// records Disabled, not its original status.)
pub proof fn lemma_enable_then_disable<P>(
    s0: Seq<PluginMetadata>,
    l0: Seq<LiveEntry<P>>,
    s1: Seq<PluginMetadata>,
    l1: Seq<LiveEntry<P>>,
    s2: Seq<PluginMetadata>,
    l2: Seq<LiveEntry<P>>,
    name: Seq<char>,
)
    requires
        spec_get(s0, name) is Some,
        spec_get(s0, name)->Some_0.status is Disabled,
        spec_get(s1, name) == Some(
            PluginMetadata { status: PluginStatus::Enabled, ..spec_get(s0, name)->Some_0 },
        ),
        forall|n: Seq<char>| n != name ==> spec_get(s1, n) == spec_get(s0, n),
        forall|n: Seq<char>| n != name ==> spec_entry(l1, n) == spec_entry(l0, n),
        spec_get(s2, name) == Some(
            PluginMetadata { status: PluginStatus::Disabled, ..spec_get(s1, name)->Some_0 },
        ),
        forall|n: Seq<char>| n != name ==> spec_get(s2, n) == spec_get(s1, n),
        spec_entry(l2, name) is None,
        forall|n: Seq<char>| n != name ==> spec_entry(l2, n) == spec_entry(l1, n),
    ensures
        forall|n: Seq<char>| spec_get(s2, n) == spec_get(s0, n),
        spec_entry(l2, name) is None,
        forall|n: Seq<char>| n != name ==> spec_entry(l2, n) == spec_entry(l0, n),
{
    assert(spec_get(s2, name) == spec_get(s0, name));
}

/// Law: of two installs of one identity, serialized in either order by
/// the advisory lock, exactly one succeeds when the identity starts
/// absent; the loser is rejected with the identity already present and
/// changes nothing. The premises are `install_commit`'s contract for
/// each call in turn.
pub proof fn lemma_second_install_rejected(
    s0: Seq<PluginMetadata>,
    s1: Seq<PluginMetadata>,
    s2: Seq<PluginMetadata>,
    name: Seq<char>,
    ok1: bool,
    ok2: bool,
)
    requires
        ok1 <==> !contains_name(s0, name),
        ok1 ==> spec_get(s1, name) is Some,
        !ok1 ==> s1 == s0,
        ok2 <==> !contains_name(s1, name),
        ok2 ==> spec_get(s2, name) is Some,
        !ok2 ==> s2 == s1,
    ensures
        !(ok1 && ok2),
        !contains_name(s0, name) ==> ok1 && !ok2 && s2 == s1,
{
}

/// Law: a failed update is, to every observer of the store, a no-op
/// but for the update stamp: after `update_begin`, an installation
/// failure that changes nothing, and `update_rollback`, every other
/// record is as before, and the identity's descriptor, status, path
/// and install stamp are those of the pre-update snapshot, with only
/// `updated_at` freshly set.
pub proof fn lemma_failed_update_restores(
    s0: Seq<PluginMetadata>,
    s1: Seq<PluginMetadata>,
    s2: Seq<PluginMetadata>,
    s3: Seq<PluginMetadata>,
    snap: PluginMetadata,
    name: Seq<char>,
    now_ms: u64,
)
    requires
        snap.info.name@ == name,
        spec_get(s0, name) == Some(snap),
        spec_get(s1, name) is None,
        forall|n: Seq<char>| n != name ==> spec_get(s1, n) == spec_get(s0, n),
        s2 == s1,
        spec_get(s3, name) == Some(PluginMetadata { updated_at: Some(now_ms), ..snap }),
        forall|n: Seq<char>| n != name ==> spec_get(s3, n) == spec_get(s2, n),
    ensures
        forall|n: Seq<char>| n != name ==> spec_get(s3, n) == spec_get(s0, n),
        spec_get(s3, name) is Some,
        spec_get(s3, name)->Some_0.info == snap.info,
        spec_get(s3, name)->Some_0.status == snap.status,
        spec_get(s3, name)->Some_0.path == snap.path,
        spec_get(s3, name)->Some_0.installed_at == snap.installed_at,
        spec_get(s3, name)->Some_0.updated_at == Some(now_ms),
{
}

} // verus!
