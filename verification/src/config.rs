use vstd::prelude::*;

use crate::AppError;

verus! {

/// The operating systems the dispatcher knows; selection happens once at
/// startup.
#[derive(Clone, Copy, Debug, PartialEq, Eq, Structural)]
pub enum OsKind {
    Linux,
    Windows,
}

/// How an abstract platform action is executed.
#[derive(Clone, Copy, Debug, PartialEq, Eq, Structural)]
pub enum ProgramMode {
    /// Probe a fixed, OS-specific candidate list and launch the first that
    /// spawns.
    Auto,
    /// Use the OS default handler, falling back to the probe list.
    Default,
    /// Launch a user-specified executable with user-specified arguments.
    Custom,
    /// Substitute and run a user-specified script through the OS shell.
    Script,
}

/// Per-action launch configuration.
#[derive(Debug, PartialEq)]
pub struct ProgramConfig {
    pub mode: ProgramMode,
    /// Executable path, for `Custom` mode.
    pub custom_path: Option<String>,
    /// Arguments, for `Custom` mode; `{name}` tokens are substituted.
    pub custom_args: Vec<String>,
    /// Script body, for `Script` mode.
    pub custom_script: Option<String>,
}

/// Per-OS launch configuration for the four abstract actions, plus custom
/// environment entries, kept as a list of unique keys in insertion order.
#[derive(Debug, PartialEq)]
pub struct PlatformConfig {
    pub terminal: ProgramConfig,
    pub browser: ProgramConfig,
    pub file_manager: ProgramConfig,
    pub text_editor: ProgramConfig,
    pub environment: Vec<(String, String)>,
}

#[derive(Debug, PartialEq)]
pub struct BackupConfig {
    pub default_path: Option<String>,
    pub auto_backup_enabled: bool,
    /// Interval between automatic backups, in days.
    pub auto_backup_interval: u32,
    pub cleanup_old_backups: bool,
    /// How long old backups are kept, in days.
    pub retention_days: u32,
}

#[derive(Clone, Copy, Debug, PartialEq, Eq, Structural)]
pub enum ThemeMode {
    Auto,
    Light,
    Dark,
}

#[derive(Debug, PartialEq)]
pub struct UiConfig {
    pub theme: ThemeMode,
    pub language: String,
    pub confirm_delete: bool,
    pub show_welcome: bool,
}

#[derive(Clone, Copy, Debug, PartialEq, Eq, Structural)]
pub enum LogLevel {
    Error,
    Warn,
    Info,
    Debug,
}

#[derive(Debug, PartialEq)]
pub struct AdvancedConfig {
    pub log_level: LogLevel,
    pub enable_analytics: bool,
    pub database_path: Option<String>,
    pub enable_auto_update: bool,
}

/// The whole configuration document, persisted as one file and replaced
/// wholesale on every update.
#[derive(Debug, PartialEq)]
pub struct AppConfig {
    /// Schema version of the document.
    pub version: String,
    pub platform: PlatformConfig,
    pub backup: BackupConfig,
    pub ui: UiConfig,
    pub advanced: AdvancedConfig,
    /// The keyboard shortcut table, when one has been configured.
    pub shortcuts: Option<ShortcutsConfig>,
}

/// One key binding of the keyboard shortcut table.
#[derive(Debug, PartialEq)]
pub struct ShortcutBinding {
    pub key: String,
    pub enabled: bool,
    pub description: Option<String>,
}

/// The keyboard shortcut table: action name to binding.
#[derive(Debug, PartialEq)]
pub struct ShortcutsConfig {
    pub enabled: bool,
    pub shortcuts: Vec<(String, ShortcutBinding)>,
}

/// A program found on the system.
#[derive(Debug, PartialEq)]
pub struct DetectedProgram {
    pub name: String,
    pub path: String,
    pub version: Option<String>,
    pub is_default: bool,
}

/// The outcome of probing the system for known programs.
#[derive(Debug, PartialEq)]
pub struct DetectedPrograms {
    pub terminals: Vec<DetectedProgram>,
    pub browsers: Vec<DetectedProgram>,
    pub file_managers: Vec<DetectedProgram>,
    pub text_editors: Vec<DetectedProgram>,
}

/// The outcome of validating a user-supplied script.
#[derive(Debug, PartialEq)]
pub struct ValidationResult {
    pub valid: bool,
    pub error: Option<String>,
    pub warning: Option<String>,
}

// ---------------------------------------------------------------------------
// View-level equality: contents compared field for field, strings by their
// characters.
// ---------------------------------------------------------------------------
pub open spec fn opt_str_eq(a: Option<String>, b: Option<String>) -> bool {
    match (a, b) {
        (Option::None, Option::None) => true,
        (Option::Some(x), Option::Some(y)) => x@ == y@,
        _ => false,
    }
}

pub open spec fn str_seq_eq(a: Seq<String>, b: Seq<String>) -> bool {
    a.len() == b.len() && forall|i: int| 0 <= i < a.len() ==> #[trigger] a[i]@ == b[i]@
}

pub open spec fn env_eq(a: Seq<(String, String)>, b: Seq<(String, String)>) -> bool {
    a.len() == b.len() && forall|i: int|
        0 <= i < a.len() ==> (#[trigger] a[i]).0@ == b[i].0@ && a[i].1@ == b[i].1@
}

pub open spec fn pc_eq(a: ProgramConfig, b: ProgramConfig) -> bool {
    &&& a.mode == b.mode
    &&& opt_str_eq(a.custom_path, b.custom_path)
    &&& str_seq_eq(a.custom_args@, b.custom_args@)
    &&& opt_str_eq(a.custom_script, b.custom_script)
}

pub open spec fn platform_eq(a: PlatformConfig, b: PlatformConfig) -> bool {
    &&& pc_eq(a.terminal, b.terminal)
    &&& pc_eq(a.browser, b.browser)
    &&& pc_eq(a.file_manager, b.file_manager)
    &&& pc_eq(a.text_editor, b.text_editor)
    &&& env_eq(a.environment@, b.environment@)
}

pub open spec fn backup_eq(a: BackupConfig, b: BackupConfig) -> bool {
    &&& opt_str_eq(a.default_path, b.default_path)
    &&& a.auto_backup_enabled == b.auto_backup_enabled
    &&& a.auto_backup_interval == b.auto_backup_interval
    &&& a.cleanup_old_backups == b.cleanup_old_backups
    &&& a.retention_days == b.retention_days
}

pub open spec fn ui_eq(a: UiConfig, b: UiConfig) -> bool {
    &&& a.theme == b.theme
    &&& a.language@ == b.language@
    &&& a.confirm_delete == b.confirm_delete
    &&& a.show_welcome == b.show_welcome
}

pub open spec fn advanced_eq(a: AdvancedConfig, b: AdvancedConfig) -> bool {
    &&& a.log_level == b.log_level
    &&& a.enable_analytics == b.enable_analytics
    &&& opt_str_eq(a.database_path, b.database_path)
    &&& a.enable_auto_update == b.enable_auto_update
}

pub open spec fn binding_eq(a: ShortcutBinding, b: ShortcutBinding) -> bool {
    &&& a.key@ == b.key@
    &&& a.enabled == b.enabled
    &&& opt_str_eq(a.description, b.description)
}

pub open spec fn sc_entries_eq(
    a: Seq<(String, ShortcutBinding)>,
    b: Seq<(String, ShortcutBinding)>,
) -> bool {
    a.len() == b.len() && forall|i: int|
        0 <= i < a.len() ==> (#[trigger] a[i]).0@ == b[i].0@ && binding_eq(a[i].1, b[i].1)
}

pub open spec fn shortcuts_eq(a: ShortcutsConfig, b: ShortcutsConfig) -> bool {
    a.enabled == b.enabled && sc_entries_eq(a.shortcuts@, b.shortcuts@)
}

pub open spec fn opt_shortcuts_eq(a: Option<ShortcutsConfig>, b: Option<ShortcutsConfig>) -> bool {
    match (a, b) {
        (Option::None, Option::None) => true,
        (Option::Some(x), Option::Some(y)) => shortcuts_eq(x, y),
        _ => false,
    }
}

/// The two configuration documents hold the same contents.
pub open spec fn config_eq(a: AppConfig, b: AppConfig) -> bool {
    &&& a.version@ == b.version@
    &&& platform_eq(a.platform, b.platform)
    &&& backup_eq(a.backup, b.backup)
    &&& ui_eq(a.ui, b.ui)
    &&& advanced_eq(a.advanced, b.advanced)
    &&& opt_shortcuts_eq(a.shortcuts, b.shortcuts)
}

// ---------------------------------------------------------------------------
// OS defaults
// ---------------------------------------------------------------------------
/// The default launch configuration: automatic detection, nothing custom.
fn default_program_config() -> (r: ProgramConfig)
    ensures
        r.mode == ProgramMode::Auto,
        r.custom_path is None,
        r.custom_args@.len() == 0,
        r.custom_script is None,
{
    ProgramConfig {
        mode: ProgramMode::Auto,
        custom_path: Option::None,
        custom_args: Vec::new(),
        custom_script: Option::None,
    }
}

/// The configuration a first run writes: automatic program detection, weekly
/// backups disabled, system theme, and the home directory of the user
/// recorded under the OS's usual variable name.
pub fn get_os_defaults(os: OsKind, home: String) -> (r: AppConfig)
    ensures
        r.version@ == "0.3.0"@,
        r.platform.terminal.mode == ProgramMode::Auto,
        r.platform.browser.mode == ProgramMode::Auto,
        r.platform.file_manager.mode == ProgramMode::Auto,
        r.platform.text_editor.mode == ProgramMode::Auto,
        r.platform.terminal.custom_path is None && r.platform.terminal.custom_script is None,
        r.platform.terminal.custom_args@.len() == 0,
        r.platform.browser.custom_path is None && r.platform.browser.custom_script is None,
        r.platform.browser.custom_args@.len() == 0,
        r.platform.file_manager.custom_path is None && r.platform.file_manager.custom_script
            is None,
        r.platform.file_manager.custom_args@.len() == 0,
        r.platform.text_editor.custom_path is None && r.platform.text_editor.custom_script is None,
        r.platform.text_editor.custom_args@.len() == 0,
        r.platform.environment@.len() == 1,
        os == OsKind::Linux ==> r.platform.environment@[0].0@ == "HOME"@,
        os == OsKind::Windows ==> r.platform.environment@[0].0@ == "USERPROFILE"@,
        r.platform.environment@[0].1 == home,
        r.backup.default_path is None,
        !r.backup.auto_backup_enabled,
        r.backup.auto_backup_interval == 7,
        !r.backup.cleanup_old_backups,
        r.backup.retention_days == 30,
        r.ui.theme == ThemeMode::Auto,
        r.ui.language@ == "es"@,
        r.ui.confirm_delete,
        r.ui.show_welcome,
        r.advanced.log_level == LogLevel::Info,
        r.advanced.enable_analytics,
        r.advanced.database_path is None,
        r.advanced.enable_auto_update,
        r.shortcuts matches Some(sc) && sc.enabled && sc.shortcuts@.len() == 6,
{
    let key = match os {
        OsKind::Linux => "HOME".to_owned(),
        OsKind::Windows => "USERPROFILE".to_owned(),
    };
    let mut environment: Vec<(String, String)> = Vec::new();
    environment.push((key, home));
    let r = AppConfig {
        version: "0.3.0".to_owned(),
        platform: PlatformConfig {
            terminal: default_program_config(),
            browser: default_program_config(),
            file_manager: default_program_config(),
            text_editor: default_program_config(),
            environment,
        },
        backup: BackupConfig {
            default_path: Option::None,
            auto_backup_enabled: false,
            auto_backup_interval: 7,
            cleanup_old_backups: false,
            retention_days: 30,
        },
        ui: UiConfig {
            theme: ThemeMode::Auto,
            language: "es".to_owned(),
            confirm_delete: true,
            show_welcome: true,
        },
        advanced: AdvancedConfig {
            log_level: LogLevel::Info,
            enable_analytics: true,
            database_path: Option::None,
            enable_auto_update: true,
        },
        shortcuts: Option::Some(default_shortcuts()),
    };
    r
}

/// The default keyboard shortcut table: the six standard bindings, all
/// enabled, using the control key as the modifier.
pub fn default_shortcuts() -> (r: ShortcutsConfig)
    ensures
        r.enabled,
        r.shortcuts@.len() == 6,
        r.shortcuts@[0].0@ == "new_project"@ && r.shortcuts@[0].1.key@ == "Ctrl+N"@,
        r.shortcuts@[1].0@ == "search"@ && r.shortcuts@[1].1.key@ == "Ctrl+F"@,
        r.shortcuts@[2].0@ == "settings"@ && r.shortcuts@[2].1.key@ == "Ctrl+Comma"@,
        r.shortcuts@[3].0@ == "analytics"@ && r.shortcuts@[3].1.key@ == "Ctrl+Shift+A"@,
        r.shortcuts@[4].0@ == "refresh"@ && r.shortcuts@[4].1.key@ == "Ctrl+R"@,
        r.shortcuts@[5].0@ == "close_modal"@ && r.shortcuts@[5].1.key@ == "Escape"@,
        forall|i: int|
            0 <= i < r.shortcuts@.len() ==> (#[trigger] r.shortcuts@[i]).1.enabled
                && r.shortcuts@[i].1.description is Some,
{
    let mut shortcuts: Vec<(String, ShortcutBinding)> = Vec::new();
    shortcuts.push(
        (
            "new_project".to_owned(),
            ShortcutBinding {
                key: "Ctrl+N".to_owned(),
                enabled: true,
                description: Option::Some("Create a new project".to_owned()),
            },
        ),
    );
    shortcuts.push(
        (
            "search".to_owned(),
            ShortcutBinding {
                key: "Ctrl+F".to_owned(),
                enabled: true,
                description: Option::Some("Search projects".to_owned()),
            },
        ),
    );
    shortcuts.push(
        (
            "settings".to_owned(),
            ShortcutBinding {
                key: "Ctrl+Comma".to_owned(),
                enabled: true,
                description: Option::Some("Open the settings".to_owned()),
            },
        ),
    );
    shortcuts.push(
        (
            "analytics".to_owned(),
            ShortcutBinding {
                key: "Ctrl+Shift+A".to_owned(),
                enabled: true,
                description: Option::Some("Open the statistics".to_owned()),
            },
        ),
    );
    shortcuts.push(
        (
            "refresh".to_owned(),
            ShortcutBinding {
                key: "Ctrl+R".to_owned(),
                enabled: true,
                description: Option::Some("Reload the project list".to_owned()),
            },
        ),
    );
    shortcuts.push(
        (
            "close_modal".to_owned(),
            ShortcutBinding {
                key: "Escape".to_owned(),
                enabled: true,
                description: Option::Some("Close the active dialog".to_owned()),
            },
        ),
    );
    ShortcutsConfig { enabled: true, shortcuts }
}

// ---------------------------------------------------------------------------
// The configuration manager
// ---------------------------------------------------------------------------
/// The filesystem facts that configuration validation depends on; the caller
/// checks the disk and reports them.
#[derive(Clone, Copy, Debug, PartialEq, Eq, Structural)]
pub struct PathChecks {
    /// The configured custom terminal path exists on disk.
    pub terminal_path_exists: bool,
    /// The configured backup path exists or could be created.
    pub backup_path_available: bool,
}

/// A configuration update is rejected when a configured custom terminal is
/// missing on disk or when a configured backup path is unavailable.
pub open spec fn update_rejected(c: AppConfig, checks: PathChecks) -> bool {
    ||| (c.platform.terminal.mode == ProgramMode::Custom && c.platform.terminal.custom_path is Some
        && !checks.terminal_path_exists)
    ||| (c.backup.default_path is Some && !checks.backup_path_available)
}

/// The single source of truth for the configuration document: it is loaded
/// once, read as copies, and replaced only through validated updates.
#[derive(Debug)]
pub struct ConfigManager {
    pub config: AppConfig,
}

impl ConfigManager {
    /// Loads the manager: from the stored document when one exists, from the
    /// given defaults on a first run. A document that encodes a configuration
    /// is recovered with equal contents; any other document is rejected.
    #[verifier::rlimit(100)]
    #[verifier::spinoff_prover]
    pub fn new(existing: Option<&str>, defaults: AppConfig) -> (r: Result<ConfigManager, AppError>)
        ensures
            existing is None ==> (r matches Ok(m) && m.config == defaults),
            (forall|c: AppConfig|
                (existing matches Some(doc) && doc@ == #[trigger] crate::codec::config_r(c)) ==> (
                r matches Ok(m) && config_eq(m.config, c))),
    {
        match existing {
            Option::None => Ok(ConfigManager { config: defaults }),
            Option::Some(doc) => {
                match crate::codec::parse_config(doc) {
                    Option::None => Err(AppError::ConfigError),
                    Option::Some(cfg) => Ok(ConfigManager { config: cfg }),
                }
            },
        }
    }

    /// A view of the current configuration.
    pub fn get_config(&self) -> (r: &AppConfig)
        ensures
            r == &self.config,
    {
        &self.config
    }

    /// The rendered document to persist.
    pub fn document(&self) -> (r: String)
        ensures
            r@ == crate::codec::config_r(self.config),
    {
        crate::codec::render_config(&self.config)
    }

    /// Validates and installs a whole replacement document. A rejected
    /// update leaves the previous state untouched.
    pub fn update_config(&mut self, new_config: AppConfig, checks: &PathChecks) -> (r: Result<
        (),
        AppError,
    >)
        ensures
            update_rejected(new_config, *checks) ==> (r matches Err(e) && e == AppError::ConfigError
                && final(self).config == old(self).config),
            !update_rejected(new_config, *checks) ==> (r is Ok && final(self).config
                == new_config),
    {
        let custom_terminal_missing = match (
            &new_config.platform.terminal.mode,
            &new_config.platform.terminal.custom_path,
        ) {
            (ProgramMode::Custom, Option::Some(_)) => !checks.terminal_path_exists,
            _ => false,
        };
        if custom_terminal_missing {
            return Err(AppError::ConfigError);
        }
        let backup_missing = match &new_config.backup.default_path {
            Option::Some(_) => !checks.backup_path_available,
            Option::None => false,
        };
        if backup_missing {
            return Err(AppError::ConfigError);
        }
        self.config = new_config;
        Ok(())
    }

    /// Replaces the configuration with the given defaults, through the same
    /// validation as any other update.
    pub fn reset_config(&mut self, defaults: AppConfig, checks: &PathChecks) -> (r: Result<
        (),
        AppError,
    >)
        ensures
            update_rejected(defaults, *checks) ==> (r matches Err(e) && e == AppError::ConfigError
                && final(self).config == old(self).config),
            !update_rejected(defaults, *checks) ==> (r is Ok && final(self).config == defaults),
    {
        self.update_config(defaults, checks)
    }

    /// Whether the held document is at the current schema version; a caller
    /// may warn on older documents before deciding to reset.
    pub fn migrate_if_needed(&self) -> (r: bool)
        ensures
            r == (self.config.version@ == "0.3.0"@),
    {
        let current = "0.3.0".to_owned();
        self.config.version.eq(&current)
    }
}

} // verus!
