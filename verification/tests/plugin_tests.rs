use shellbe::Event;
use shellbe::EventBus;
use shellbe::EventListener;
use shellbe::Hook;
use shellbe::Plugin;
use shellbe::PluginCommand;
use shellbe::PluginError;
use shellbe::PluginInfo;
use shellbe::PluginMetadata;
use shellbe::PluginService;
use shellbe::PluginStatus;
use shellbe::PluginStore;
use shellbe::Profile;
use std::cell::Cell;
use std::cell::RefCell;
use std::rc::Rc;

struct MockPlugin {
    name: String,
    on_enable_calls: Rc<Cell<usize>>,
    on_disable_calls: Rc<Cell<usize>>,
    hooks_seen: Rc<RefCell<Vec<Hook>>>,
    commands_run: Rc<Cell<usize>>,
}

impl MockPlugin {
    fn new(name: &str) -> (Self, Rc<Cell<usize>>, Rc<Cell<usize>>, Rc<RefCell<Vec<Hook>>>) {
        let enables = Rc::new(Cell::new(0));
        let disables = Rc::new(Cell::new(0));
        let hooks = Rc::new(RefCell::new(Vec::new()));
        let plugin = MockPlugin {
            name: name.to_string(),
            on_enable_calls: enables.clone(),
            on_disable_calls: disables.clone(),
            hooks_seen: hooks.clone(),
            commands_run: Rc::new(Cell::new(0)),
        };
        (plugin, enables, disables, hooks)
    }
}

impl Plugin for MockPlugin {
    fn info(&self) -> PluginInfo {
        PluginInfo {
            name: self.name.clone(),
            version: "1.0.0".to_string(),
            description: "Mock plugin for testing".to_string(),
            author: "Test Author".to_string(),
            source_url: None,
        }
    }

    fn commands(&self) -> Vec<PluginCommand> {
        vec![PluginCommand {
            name: "test".to_string(),
            description: "Test command".to_string(),
            usage: "test".to_string(),
        }]
    }

    fn execute_hook(&self, hook: Hook, _profile: Option<&Profile>) -> Result<(), String> {
        self.hooks_seen.borrow_mut().push(hook);
        Ok(())
    }

    fn execute_command(&self, _command: &str, _args: &[String]) -> Result<(), String> {
        self.commands_run.set(self.commands_run.get() + 1);
        Ok(())
    }

    fn on_enable(&self) -> Result<(), String> {
        self.on_enable_calls.set(self.on_enable_calls.get() + 1);
        Ok(())
    }

    fn on_disable(&self) -> Result<(), String> {
        self.on_disable_calls.set(self.on_disable_calls.get() + 1);
        Ok(())
    }

    fn on_install(&self, _plugin_dir: &str) -> Result<(), String> {
        Ok(())
    }

    fn on_update(&self, _plugin_dir: &str) -> Result<(), String> {
        Ok(())
    }
}

struct NullListener;

impl EventListener for NullListener {
    fn on_event(&self, _event: &Event) {}
}

struct RecordingListener {
    events: Rc<RefCell<Vec<String>>>,
}

impl EventListener for RecordingListener {
    fn on_event(&self, event: &Event) {
        let tag = match event {
            Event::PluginEnabled(name) => format!("enabled:{}", name),
            Event::PluginDisabled(name) => format!("disabled:{}", name),
            _ => "other".to_string(),
        };
        self.events.borrow_mut().push(tag);
    }
}

fn metadata(name: &str, status: PluginStatus, source_url: Option<&str>) -> PluginMetadata {
    PluginMetadata {
        info: PluginInfo {
            name: name.to_string(),
            version: "1.0.0".to_string(),
            description: "Test plugin".to_string(),
            author: "Test Author".to_string(),
            source_url: source_url.map(|s| s.to_string()),
        },
        status,
        path: format!("plugins/{}", name),
        installed_at: 1000,
        updated_at: None,
    }
}

#[test]
fn test_plugin_repository() {
    let mut store = PluginStore::new();

    let m = metadata("test-plugin", PluginStatus::Enabled, None);
    store.save(m);

    let retrieved = store.get("test-plugin").unwrap();
    assert_eq!(retrieved.info.name, "test-plugin");
    assert_eq!(retrieved.info.version, "1.0.0");
    assert_eq!(retrieved.status, PluginStatus::Enabled);

    store.update_status("test-plugin", PluginStatus::Disabled).unwrap();

    let updated = store.get("test-plugin").unwrap();
    assert_eq!(updated.status, PluginStatus::Disabled);

    let plugins = store.list();
    assert_eq!(plugins.len(), 1);

    store.remove("test-plugin").unwrap();

    let removed = store.get("test-plugin");
    assert!(removed.is_none());
}

#[test]
fn test_plugin_service() {
    let store = PluginStore::new();
    let mut service: PluginService<MockPlugin, NullListener> =
        PluginService::new(store, EventBus::new(), "plugins");

    let plugins = service.list_plugins();
    assert_eq!(plugins.len(), 0);

    let info = PluginInfo {
        name: "test-plugin".to_string(),
        version: "1.0.0".to_string(),
        description: "Test plugin".to_string(),
        author: "Test Author".to_string(),
        source_url: None,
    };
    service
        .install_commit(info, "plugins/test-plugin".to_string(), 1000)
        .unwrap();

    let plugin = service.get_plugin("test-plugin").unwrap();
    assert_eq!(plugin.info.name, "test-plugin");
    assert_eq!(plugin.status, PluginStatus::Disabled);

    let (mock, _, _, _) = MockPlugin::new("test-plugin");
    service.enable_commit("test-plugin", mock).unwrap();
    let updated = service.get_plugin("test-plugin").unwrap();
    assert_eq!(updated.status, PluginStatus::Enabled);
}

#[test]
fn install_twice_fails_with_already_exists_and_changes_nothing() {
    let store = PluginStore::new();
    let mut service: PluginService<MockPlugin, NullListener> =
        PluginService::new(store, EventBus::new(), "plugins");

    let info = PluginInfo {
        name: "stats".to_string(),
        version: "1.0.0".to_string(),
        description: "d".to_string(),
        author: "a".to_string(),
        source_url: Some("https://github.com/owner/stats".to_string()),
    };
    let first = service.install_commit(info.clone_for_test(), "plugins/stats".to_string(), 5);
    assert!(first.is_ok());
    let before: Vec<PluginMetadata> = service.list_plugins();

    let second = service.install_commit(info, "plugins/stats".to_string(), 6);
    match second {
        Err(PluginError::AlreadyExists(_)) => (),
        Err(other) => panic!("expected AlreadyExists, got {:?}", other),
        Ok(_) => panic!("expected AlreadyExists, got success"),
    }
    let after = service.list_plugins();
    assert_eq!(after.len(), before.len());
    assert_eq!(after[0].info.name, before[0].info.name);
    assert_eq!(after[0].info.version, before[0].info.version);
    assert_eq!(after[0].status, before[0].status);
    assert_eq!(after[0].path, before[0].path);
    assert_eq!(after[0].installed_at, before[0].installed_at);
}

trait CloneForTest {
    fn clone_for_test(&self) -> Self;
}

impl CloneForTest for PluginInfo {
    fn clone_for_test(&self) -> PluginInfo {
        PluginInfo {
            name: self.name.clone(),
            version: self.version.clone(),
            description: self.description.clone(),
            author: self.author.clone(),
            source_url: self.source_url.clone(),
        }
    }
}

#[test]
fn enable_then_disable_restores_status_and_empties_registry() {
    let mut store = PluginStore::new();
    store.save(metadata("stats", PluginStatus::Disabled, None));
    let mut service: PluginService<MockPlugin, NullListener> =
        PluginService::new(store, EventBus::new(), "plugins");

    assert_eq!(service.get_plugin("stats").unwrap().status, PluginStatus::Disabled);

    let (mock, enables, disables, _) = MockPlugin::new("stats");
    service.enable_commit("stats", mock).unwrap();
    assert_eq!(service.get_plugin("stats").unwrap().status, PluginStatus::Enabled);
    assert_eq!(service.loaded_plugins().len(), 1);
    assert_eq!(enables.get(), 1);

    service.disable_plugin("stats").unwrap();
    assert_eq!(service.get_plugin("stats").unwrap().status, PluginStatus::Disabled);
    assert_eq!(service.loaded_plugins().len(), 0);
    assert_eq!(disables.get(), 1);
}

#[test]
fn full_lifecycle_scenario() {
    // Install from a well-formed manifest, enable, dispatch one hook,
    // run a command, disable, remove.
    let manifest_text = "NAME=stats\nVERSION=1.0.0\nDESCRIPTION=Statistics\nAUTHOR=Author\nAPI_VERSION=2.0.0\n";
    let info = shellbe::manifest::evaluate_manifest(manifest_text, "owner", "stats", "https://github.com/owner/stats").unwrap();
    assert_eq!(info.name, "stats");
    assert_eq!(info.version, "1.0.0");

    let store = PluginStore::new();
    let mut service: PluginService<MockPlugin, NullListener> =
        PluginService::new(store, EventBus::new(), "plugins");
    service.install_commit(info, "plugins/stats".to_string(), 42).unwrap();
    assert_eq!(service.get_plugin("stats").unwrap().status, PluginStatus::Disabled);

    let (mock, enables, _, hooks) = MockPlugin::new("stats");
    service.enable_commit("stats", mock).unwrap();
    assert_eq!(service.loaded_plugins().len(), 1);
    assert_eq!(enables.get(), 1);

    let profile = Profile::new("test", "example.com", "user");
    service.execute_hook(Hook::PreConnect, Some(&profile));
    let pre_connect_calls = hooks
        .borrow()
        .iter()
        .filter(|h| matches!(h, Hook::PreConnect))
        .count();
    assert_eq!(pre_connect_calls, 1);

    service.execute_command("stats", "test", &[]).unwrap();
    let unknown = service.execute_command("stats", "missing", &[]);
    assert!(matches!(unknown, Err(PluginError::NotFound(_))));

    service.disable_plugin("stats").unwrap();
    assert_eq!(service.loaded_plugins().len(), 0);
    assert_eq!(service.get_plugin("stats").unwrap().status, PluginStatus::Disabled);

    let path = service.remove_plugin("stats").unwrap();
    assert_eq!(path, "plugins/stats");
    assert!(matches!(service.get_plugin("stats"), Err(PluginError::NotFound(_))));
}

#[test]
fn identity_mismatch_is_rejected_and_nothing_is_loaded() {
    let mut store = PluginStore::new();
    store.save(metadata("stats", PluginStatus::Disabled, None));
    let mut service: PluginService<MockPlugin, NullListener> =
        PluginService::new(store, EventBus::new(), "plugins");

    let (mock, _, _, _) = MockPlugin::new("other-name");
    let outcome = service.enable_commit("stats", mock);
    assert!(matches!(outcome, Err(PluginError::LoadFailed(_))));
    assert_eq!(service.loaded_plugins().len(), 0);
    assert_eq!(service.get_plugin("stats").unwrap().status, PluginStatus::Disabled);
}

#[test]
fn failed_update_rolls_back_to_pre_update_state() {
    let mut store = PluginStore::new();
    store.save(metadata("stats", PluginStatus::Disabled, Some("https://github.com/owner/stats")));
    let mut service: PluginService<MockPlugin, NullListener> =
        PluginService::new(store, EventBus::new(), "plugins");

    let snapshot = service.get_plugin("stats").unwrap();

    let ticket = service.update_begin("stats").unwrap();
    assert!(!ticket.was_enabled);
    assert!(matches!(service.get_plugin("stats"), Err(PluginError::NotFound(_))));

    // The re-install from the origin fails; nothing was committed.
    // Roll back.
    let restored = service.update_rollback(ticket, 7777);

    let after = service.get_plugin("stats").unwrap();
    assert_eq!(after.info.name, snapshot.info.name);
    assert_eq!(after.info.version, snapshot.info.version);
    assert_eq!(after.info.description, snapshot.info.description);
    assert_eq!(after.info.author, snapshot.info.author);
    assert_eq!(after.info.source_url, snapshot.info.source_url);
    assert_eq!(after.status, snapshot.status);
    assert_eq!(after.path, snapshot.path);
    assert_eq!(after.installed_at, snapshot.installed_at);
    assert_eq!(after.updated_at, Some(7777));
    assert_eq!(restored.updated_at, Some(7777));
}

#[test]
fn update_without_origin_is_rejected() {
    let mut store = PluginStore::new();
    store.save(metadata("stats", PluginStatus::Disabled, None));
    let mut service: PluginService<MockPlugin, NullListener> =
        PluginService::new(store, EventBus::new(), "plugins");

    let outcome = service.update_begin("stats");
    assert!(matches!(outcome, Err(PluginError::InstallationFailed(_))));
    assert!(service.get_plugin("stats").is_ok());
}

#[test]
fn attach_loaded_requires_enabled_record() {
    let mut store = PluginStore::new();
    store.save(metadata("stats", PluginStatus::Enabled, None));
    store.save(metadata("other", PluginStatus::Disabled, None));
    let mut service: PluginService<MockPlugin, NullListener> =
        PluginService::new(store, EventBus::new(), "plugins");

    let enabled = service.enabled_plugins();
    assert_eq!(enabled.len(), 1);
    assert_eq!(enabled[0].info.name, "stats");

    let (mock, _, _, _) = MockPlugin::new("stats");
    service.attach_loaded("stats", mock).unwrap();
    assert_eq!(service.loaded_plugins().len(), 1);

    let (wrong, _, _, _) = MockPlugin::new("other");
    let outcome = service.attach_loaded("other", wrong);
    assert!(matches!(outcome, Err(PluginError::LoadFailed(_))));
    assert_eq!(service.loaded_plugins().len(), 1);
}

#[test]
fn lifecycle_publishes_domain_events() {
    let mut store = PluginStore::new();
    store.save(metadata("stats", PluginStatus::Disabled, None));
    let events = Rc::new(RefCell::new(Vec::new()));
    let mut bus: EventBus<RecordingListener> = EventBus::new();
    bus.register(RecordingListener { events: events.clone() });
    let mut service: PluginService<MockPlugin, RecordingListener> =
        PluginService::new(store, bus, "plugins");

    let (mock, _, _, _) = MockPlugin::new("stats");
    service.enable_commit("stats", mock).unwrap();
    service.disable_plugin("stats").unwrap();
    // A second disable is a no-op and publishes nothing.
    service.disable_plugin("stats").unwrap();
    assert_eq!(
        *events.borrow(),
        vec!["enabled:stats".to_string(), "disabled:stats".to_string()]
    );
}
