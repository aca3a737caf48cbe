use shellbe::Alias;
use shellbe::Event;
use shellbe::EventBus;
use shellbe::EventListener;
use shellbe::HistoryEntry;
use shellbe::PluginError;
use shellbe::PluginInfo;
use shellbe::PluginMetadata;
use shellbe::PluginSecurityValidator;
use shellbe::PluginStatus;
use shellbe::PluginStore;
use shellbe::Profile;
use shellbe::ShellBeError;
use shellbe::SystemObservations;
use shellbe::SystemRequirements;
use shellbe::ErrorContext;
use shellbe::default_port;
use shellbe::errors::plugin_error_to_shellbe;
use shellbe::install::archive_root;
use shellbe::install::download_url;
use shellbe::install::find_plugin_library;
use shellbe::install::install_dir;
use shellbe::install::parse_github_url;
use shellbe::lock::LOCK_POLL_MS;
use shellbe::lock::LockObservation;
use shellbe::lock::LockStep;
use shellbe::lock::STALE_LOCK_MS;
use shellbe::lock::acquire_step;
use shellbe::lock::lock_marker_path;
use shellbe::manifest::evaluate_manifest;
use shellbe::manifest::manifest_lookup;
use shellbe::strutil::split_lines;
use std::cell::Cell;
use std::rc::Rc;

fn strings(v: &[&str]) -> Vec<String> {
    v.iter().map(|s| s.to_string()).collect()
}

#[test]
fn default_port_is_22() {
    assert_eq!(default_port(), 22);
}

#[test]
fn profile_and_alias_and_history_basics() {
    let profile = Profile::new("web", "example.com", "deploy");
    assert_eq!(profile.name, "web");
    assert_eq!(profile.hostname, "example.com");
    assert_eq!(profile.username, "deploy");
    assert_eq!(profile.port, 22);
    assert!(profile.identity_file.is_none());
    assert!(profile.options.is_empty());
    assert_eq!(profile.created_at, profile.updated_at);
    assert!(profile.last_used.is_none());
    assert_eq!(profile.connection_string(), "deploy@example.com");

    let alias = Alias::new("w", "web");
    assert_eq!(alias.name, "w");
    assert_eq!(alias.target, "web");

    let entry = HistoryEntry::new("web", "example.com").with_result(0, 1500);
    assert_eq!(entry.profile_name, "web");
    assert_eq!(entry.exit_code, Some(0));
    assert_eq!(entry.duration_ms, Some(1500));
}

#[test]
fn store_from_records_keeps_first_of_duplicate_identities() {
    let mk = |name: &str, version: &str| PluginMetadata {
        info: PluginInfo {
            name: name.to_string(),
            version: version.to_string(),
            description: "d".to_string(),
            author: "a".to_string(),
            source_url: None,
        },
        status: PluginStatus::Disabled,
        path: "p".to_string(),
        installed_at: 0,
        updated_at: None,
    };
    let records = vec![mk("a", "1.0.0"), mk("b", "1.0.0"), mk("a", "9.9.9")];
    let store = PluginStore::from_records(records);
    assert_eq!(store.len(), 2);
    assert_eq!(store.get("a").unwrap().info.version, "1.0.0");
    assert_eq!(store.get("b").unwrap().info.version, "1.0.0");
}

#[test]
fn lock_constants_and_marker_path() {
    assert_eq!(STALE_LOCK_MS, 30000);
    assert_eq!(LOCK_POLL_MS, 100);
    assert_eq!(lock_marker_path("plugins/stats"), "plugins/stats.lock");
}

#[test]
fn stale_marker_is_reclaimed_without_release() {
    // A marker older than the staleness threshold is reclaimed even
    // after the timeout would otherwise have expired.
    let step = acquire_step(
        LockObservation::Held { age_ms: Some(STALE_LOCK_MS + 1) },
        99_999,
        10,
    );
    assert!(matches!(step, LockStep::Reclaim));
}

#[test]
fn lock_steps_for_fresh_markers_and_errors() {
    assert!(matches!(
        acquire_step(LockObservation::Created, 0, 10_000),
        LockStep::Acquired
    ));
    assert!(matches!(
        acquire_step(LockObservation::Held { age_ms: Some(5) }, 50, 10_000),
        LockStep::Backoff
    ));
    assert!(matches!(
        acquire_step(LockObservation::Held { age_ms: Some(5) }, 10_001, 10_000),
        LockStep::TimedOut
    ));
    assert!(matches!(
        acquire_step(LockObservation::Held { age_ms: None }, 10_001, 10_000),
        LockStep::TimedOut
    ));
    assert!(matches!(
        acquire_step(LockObservation::Failed("denied".to_string()), 0, 10_000),
        LockStep::Fail(_)
    ));
}

#[test]
fn security_gate_rejects_oversize_and_unsafe_markers() {
    let validator = PluginSecurityValidator::default();

    let oversize = validator.validate(11 * 1024 * 1024, &strings(&[]), &strings(&[]));
    assert!(matches!(oversize, Err(PluginError::SecurityViolation(_))));

    let unsafe_lines = strings(&["something unsafe { dangerous }"]);
    let fatal = validator.validate(1024, &unsafe_lines, &strings(&[]));
    assert!(matches!(fatal, Err(PluginError::SecurityViolation(_))));

    let warning_lines = strings(&["TcpStream::connect(remote)", "harmless text"]);
    let findings = validator.validate(1024, &warning_lines, &strings(&[])).unwrap();
    assert_eq!(findings.len(), 1);
    assert!(!findings[0].fatal);
    assert_eq!(findings[0].detail, "TcpStream::connect(remote)");

    let clean = validator.validate(1024, &strings(&["harmless"]), &strings(&[])).unwrap();
    assert!(clean.is_empty());
}

#[test]
fn security_gate_flags_suspicious_imports() {
    let validator = PluginSecurityValidator::default();
    let symbols = strings(&["_private_symbol", "std_alloc_thing", "evil_backdoor"]);
    let findings = validator.validate(1024, &strings(&[]), &symbols).unwrap();
    assert_eq!(findings.len(), 1);
    assert_eq!(findings[0].detail, "evil_backdoor");
    assert!(!findings[0].fatal);
}

#[test]
fn security_gate_disabled_passes_everything() {
    let mut validator = PluginSecurityValidator::default();
    validator.set_enabled(false);
    let findings = validator
        .validate(999 * 1024 * 1024, &strings(&["unsafe { }"]), &strings(&["evil"]))
        .unwrap();
    assert!(findings.is_empty());
}

#[test]
fn security_gate_custom_ceiling_and_imports() {
    let mut validator = PluginSecurityValidator::new(100, Vec::new(), true);
    assert!(matches!(
        validator.validate(101, &strings(&[]), &strings(&[])),
        Err(PluginError::SecurityViolation(_))
    ));
    validator.set_max_file_size(200);
    assert!(validator.validate(101, &strings(&[]), &strings(&[])).is_ok());

    validator.add_allowed_import("mylib");
    let findings = validator.validate(50, &strings(&[]), &strings(&["mylib_entry"])).unwrap();
    assert!(findings.is_empty());
}

#[test]
fn split_lines_matches_line_semantics() {
    let lines = split_lines("a\nb\r\nc");
    assert_eq!(lines, vec!["a".to_string(), "b".to_string(), "c".to_string()]);
    let trailing = split_lines("a\n");
    assert_eq!(trailing, vec!["a".to_string()]);
    let empty = split_lines("");
    assert!(empty.is_empty());
}

#[test]
fn manifest_defaults_and_last_occurrence() {
    let lines = split_lines("NAME=one\nNAME=two\n");
    assert_eq!(manifest_lookup(&lines, "NAME="), Some("two".to_string()));
    assert_eq!(manifest_lookup(&lines, "VERSION="), None);

    let info = evaluate_manifest("", "owner", "repo", "https://github.com/owner/repo").unwrap();
    assert_eq!(info.name, "repo");
    assert_eq!(info.version, "0.1.0");
    assert_eq!(info.description, "No description");
    assert_eq!(info.author, "owner");
    assert_eq!(info.source_url, Some("https://github.com/owner/repo".to_string()));
}

#[test]
fn manifest_full_fields() {
    let text = "NAME=stats\r\nVERSION=1.0.0\r\nDESCRIPTION=Collects statistics\r\nAUTHOR=Someone\r\nAPI_VERSION=2.0.0\r\n";
    let info = evaluate_manifest(text, "owner", "repo", "url").unwrap();
    assert_eq!(info.name, "stats");
    assert_eq!(info.version, "1.0.0");
    assert_eq!(info.description, "Collects statistics");
    assert_eq!(info.author, "Someone");
}

#[test]
fn api_version_mismatch_is_rejected() {
    let text = "NAME=stats\nAPI_VERSION=1.0.0\n";
    let outcome = evaluate_manifest(text, "owner", "repo", "url");
    assert!(matches!(outcome, Err(PluginError::ApiVersionMismatch)));
}

#[test]
fn github_urls_parse_to_owner_and_repo() {
    assert_eq!(
        parse_github_url("https://github.com/owner/repo").unwrap(),
        ("owner".to_string(), "repo".to_string())
    );
    assert_eq!(
        parse_github_url("https://github.com/owner/repo.git").unwrap(),
        ("owner".to_string(), "repo".to_string())
    );
    assert_eq!(
        parse_github_url("git@github.com:owner/repo.git").unwrap(),
        ("owner".to_string(), "repo".to_string())
    );
    assert_eq!(
        parse_github_url("https://github.com/owner/repo/tree/main").unwrap(),
        ("owner".to_string(), "repo".to_string())
    );
    assert!(matches!(
        parse_github_url("https://example.com/owner/repo"),
        Err(PluginError::DownloadFailed(_))
    ));
    assert!(matches!(
        parse_github_url("https://github.com/owneronly"),
        Err(PluginError::DownloadFailed(_))
    ));
}

#[test]
fn install_paths_are_derived_from_the_plan() {
    assert_eq!(
        download_url("owner", "repo"),
        "https://github.com/owner/repo/archive/main.zip"
    );
    assert_eq!(install_dir("plugins", "repo"), "plugins/repo");
    assert_eq!(archive_root("repo"), "repo-main");
}

#[test]
fn plugin_library_is_located_by_extension() {
    let names = strings(&["README.md", "libstats.so", "plugin.info"]);
    assert_eq!(find_plugin_library(&names, "so").unwrap(), "libstats.so");
    assert_eq!(
        find_plugin_library(&strings(&["libstats.dylib"]), "dylib").unwrap(),
        "libstats.dylib"
    );
    // Zero candidates and more than one both fail.
    assert!(matches!(
        find_plugin_library(&strings(&["README.md"]), "so"),
        Err(PluginError::LoadFailed(_))
    ));
    assert!(matches!(
        find_plugin_library(&strings(&["libstats.so", "other.so"]), "so"),
        Err(PluginError::LoadFailed(_))
    ));
}

#[test]
fn error_messages_carry_their_prefix() {
    assert_eq!(
        ShellBeError::NotFound("thing".to_string()).message(),
        "Not found: thing"
    );
    assert_eq!(
        ShellBeError::Security("bad".to_string()).message(),
        "Security error: bad"
    );
    let converted = plugin_error_to_shellbe(PluginError::ApiVersionMismatch);
    assert_eq!(converted.message(), "Plugin error: Plugin API version mismatch");
    let lock = plugin_error_to_shellbe(PluginError::LockTimeout("stats".to_string()));
    assert!(matches!(lock, ShellBeError::FileLock(_)));
    let io = plugin_error_to_shellbe(PluginError::IoFailure("disk".to_string()));
    assert!(matches!(io, ShellBeError::Io(_)));
}

#[test]
fn with_context_prefixes_failures_and_passes_successes() {
    let ok: Result<u32, ShellBeError> = Ok(7);
    assert_eq!(ok.with_context(|| "loading".to_string()).unwrap(), 7);

    let err: Result<u32, ShellBeError> = Err(ShellBeError::Io("disk full".to_string()));
    let decorated = err.with_context(|| "saving plugins".to_string());
    match decorated {
        Err(ShellBeError::Io(msg)) => assert_eq!(msg, "saving plugins: disk full"),
        _ => panic!("expected decorated Io error"),
    }
}

#[test]
fn system_requirements_decide_from_observations() {
    let reqs = SystemRequirements::default();
    let good = SystemObservations {
        available_commands: strings(&["ssh", "ssh-keygen", "ssh-copy-id", "git"]),
        available_libraries: Vec::new(),
        writable_directories: Vec::new(),
        home_disk_space_mb: Some(1000),
    };
    assert!(reqs.all_requirements_met(&good).is_ok());

    let missing_git = SystemObservations {
        available_commands: strings(&["ssh", "ssh-keygen", "ssh-copy-id"]),
        available_libraries: Vec::new(),
        writable_directories: Vec::new(),
        home_disk_space_mb: Some(1000),
    };
    match reqs.all_requirements_met(&missing_git) {
        Err(ShellBeError::SystemRequirement(msg)) => {
            // The message names every failed requirement.
            assert_eq!(msg, "System requirements not met:\ncommand:git");
        }
        other => panic!("expected a system-requirement failure, got {:?}", other),
    }

    let low_disk = SystemObservations {
        available_commands: strings(&["ssh", "ssh-keygen", "ssh-copy-id", "git"]),
        available_libraries: Vec::new(),
        writable_directories: Vec::new(),
        home_disk_space_mb: Some(5),
    };
    assert!(reqs.all_requirements_met(&low_disk).is_err());

    let mut custom = SystemRequirements::new(Vec::new(), Vec::new(), Vec::new(), 1);
    custom.add_required_command("zsh");
    custom.add_required_library("libssl");
    custom.add_required_directory("/tmp");
    custom.set_min_disk_space_mb(2);
    let obs = SystemObservations {
        available_commands: strings(&["zsh"]),
        available_libraries: strings(&["libssl"]),
        writable_directories: strings(&["/tmp"]),
        home_disk_space_mb: Some(2),
    };
    assert!(custom.all_requirements_met(&obs).is_ok());
    let checks = custom.check_all(&obs);
    assert_eq!(checks.len(), 4);
    assert!(checks.iter().all(|c| c.ok));
}

struct CountingListener {
    plugin_events: Rc<Cell<usize>>,
}

impl EventListener for CountingListener {
    fn on_event(&self, event: &Event) {
        if matches!(event, Event::PluginEnabled(_) | Event::PluginDisabled(_)) {
            self.plugin_events.set(self.plugin_events.get() + 1);
        }
    }
}

#[test]
fn event_bus_fans_out_to_listeners() {
    let count = Rc::new(Cell::new(0));
    let mut bus: EventBus<CountingListener> = EventBus::new();
    bus.register(CountingListener { plugin_events: count.clone() });
    bus.register(CountingListener { plugin_events: count.clone() });
    bus.publish(&Event::PluginEnabled("stats".to_string()));
    bus.publish(&Event::ProfileRemoved("web".to_string()));
    assert_eq!(count.get(), 2);
}

#[test]
fn aliases_resolve_through_chains() {
    let aliases = vec![
        Alias::new("w", "web"),
        Alias::new("prod", "w"),
    ];
    let profiles = strings(&["web", "db"]);

    assert_eq!(
        shellbe::alias::resolve_alias(&aliases, &profiles, "prod").unwrap(),
        "web"
    );
    assert_eq!(
        shellbe::alias::resolve_alias(&aliases, &profiles, "db").unwrap(),
        "db"
    );
    assert!(shellbe::alias::is_alias(&aliases, "w"));
    assert!(!shellbe::alias::is_alias(&aliases, "web"));

    let missing = shellbe::alias::resolve_alias(&aliases, &profiles, "ghost");
    assert!(matches!(missing, Err(shellbe::DomainError::ProfileNotFound(_))));
}

#[test]
fn cyclic_alias_chains_are_detected() {
    let aliases = vec![
        Alias::new("a", "b"),
        Alias::new("b", "a"),
    ];
    let profiles = strings(&["web"]);
    let outcome = shellbe::alias::resolve_alias(&aliases, &profiles, "a");
    assert!(matches!(outcome, Err(shellbe::DomainError::ConfigError(_))));
}

#[test]
fn creating_aliases_checks_profiles_cycles_and_collisions() {
    let aliases = vec![Alias::new("w", "web")];
    let profiles = strings(&["web"]);

    let created = shellbe::alias::create_alias(&aliases, &profiles, "prod", "web").unwrap();
    assert_eq!(created.name, "prod");
    assert_eq!(created.target, "web");

    assert!(matches!(
        shellbe::alias::create_alias(&aliases, &profiles, "x", "ghost"),
        Err(shellbe::DomainError::ProfileNotFound(_))
    ));
    assert!(matches!(
        shellbe::alias::create_alias(&aliases, &profiles, "w", "web"),
        Err(shellbe::DomainError::AliasAlreadyExists(_))
    ));

    // web -> w would close the cycle w -> web -> w.
    let chained = vec![Alias::new("w", "web")];
    let with_alias_profile = strings(&["web", "w"]);
    assert!(matches!(
        shellbe::alias::create_alias(&chained, &with_alias_profile, "web", "w"),
        Err(shellbe::DomainError::ConfigError(_))
    ));

    let listed = shellbe::alias::aliases_for_profile(&aliases, "web");
    assert_eq!(listed.len(), 1);
    assert_eq!(listed[0].name, "w");

    assert!(shellbe::alias::remove_alias(&aliases, "w").is_ok());
    assert!(matches!(
        shellbe::alias::remove_alias(&aliases, "nope"),
        Err(shellbe::DomainError::AliasNotFound(_))
    ));
}

#[test]
fn ssh_command_includes_port_identity_and_options() {
    let mut profile = Profile::new("web", "example.com", "deploy");
    assert_eq!(profile.ssh_command(), "ssh deploy@example.com");

    profile.port = 2222;
    profile.identity_file = Some("/keys/id_ed25519".to_string());
    profile.options.push(("o".to_string(), "StrictHostKeyChecking=no".to_string()));
    assert_eq!(
        profile.ssh_command(),
        "ssh -p 2222 -i /keys/id_ed25519 -o StrictHostKeyChecking=no deploy@example.com"
    );

    profile.mark_as_used();
    assert!(profile.last_used.is_some());
    profile.mark_as_updated();
    assert!(profile.updated_at.is_some());
}
