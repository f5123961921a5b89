use gestor_proyectos::config::{AppConfig, OsKind, ProgramMode, get_os_defaults};
use gestor_proyectos::dispatch::{
    LinuxPlatform, PlatformOperations, SystemPlatform, WindowsPlatform, get_platform,
    replace_all, replace_variables, select_first_success,
};
use gestor_proyectos::AppError;

fn linux_config() -> AppConfig {
    get_os_defaults(OsKind::Linux, "/home/user".to_string())
}

#[test]
fn substitution_is_literal_and_in_place() {
    assert_eq!(replace_all("abc", "b", "X"), "aXc");
    assert_eq!(replace_all("aaa", "aa", "b"), "ba");
    assert_eq!(replace_all("abc", "z", "X"), "abc");
    let vars = vec![("path".to_string(), "/tmp/proj".to_string())];
    assert_eq!(replace_variables("--workdir={path}", &vars), "--workdir=/tmp/proj");
    // no escaping: spaces pass through verbatim
    let spaced = vec![("path".to_string(), "/tmp/my proj".to_string())];
    assert_eq!(replace_variables("{path}", &spaced), "/tmp/my proj");
    // unknown names stay as written
    assert_eq!(replace_variables("{other}", &vars), "{other}");
}

#[test]
fn custom_mode_substitutes_the_configured_arguments() {
    let mut cfg = linux_config();
    cfg.platform.terminal.mode = ProgramMode::Custom;
    cfg.platform.terminal.custom_path = Some("/usr/bin/myterm".to_string());
    cfg.platform.terminal.custom_args = vec!["--workdir".to_string(), "{path}".to_string()];
    let plan = LinuxPlatform::new().open_terminal("/tmp/proj", &cfg).unwrap();
    assert!(!plan.probe);
    assert_eq!(plan.attempts.len(), 1);
    assert_eq!(plan.attempts[0].program, "/usr/bin/myterm");
    assert_eq!(plan.attempts[0].args, vec!["--workdir".to_string(), "/tmp/proj".to_string()]);
}

#[test]
fn custom_mode_without_a_path_is_a_configuration_error() {
    let mut cfg = linux_config();
    cfg.platform.terminal.mode = ProgramMode::Custom;
    cfg.platform.terminal.custom_path = None;
    let r = LinuxPlatform::new().open_terminal("/tmp/proj", &cfg);
    assert_eq!(r.unwrap_err(), AppError::ConfigError);
    let mut wcfg = get_os_defaults(OsKind::Windows, "C:/Users/u".to_string());
    wcfg.platform.text_editor.mode = ProgramMode::Script;
    wcfg.platform.text_editor.custom_script = None;
    let r2 = WindowsPlatform::new().open_text_editor("C:/f.txt", &wcfg);
    assert_eq!(r2.unwrap_err(), AppError::ConfigError);
}

#[test]
fn auto_probe_selects_the_first_spawnable_candidate() {
    let cfg = linux_config();
    let plan = LinuxPlatform::new().open_terminal("/tmp/proj", &cfg).unwrap();
    assert!(plan.probe);
    assert_eq!(plan.attempts.len(), 7);
    assert_eq!(plan.attempts[0].program, "konsole");
    assert_eq!(plan.attempts[1].program, "gnome-terminal");
    assert_eq!(plan.attempts[2].program, "alacritty");
    // only the third candidate is available: exactly it is invoked
    let outcomes = vec![false, false, true, true, false, false, false];
    let chosen = select_first_success(&outcomes).unwrap();
    assert_eq!(chosen, 2);
    assert_eq!(plan.attempts[chosen].program, "alacritty");
    assert_eq!(
        plan.attempts[chosen].args,
        vec!["--working-directory".to_string(), "/tmp/proj".to_string()]
    );
    // nothing available: the probe reports no candidate
    assert_eq!(select_first_success(&vec![false; 7]), None);
}

#[test]
fn script_mode_runs_the_substituted_body_through_the_shell() {
    let mut cfg = linux_config();
    cfg.platform.terminal.mode = ProgramMode::Script;
    cfg.platform.terminal.custom_script = Some("cd {path} && mycmd".to_string());
    let plan = LinuxPlatform::new().open_terminal("/tmp/x", &cfg).unwrap();
    assert_eq!(plan.attempts.len(), 1);
    assert_eq!(plan.attempts[0].program, "bash");
    assert_eq!(plan.attempts[0].args, vec!["-c".to_string(), "cd /tmp/x && mycmd".to_string()]);
}

#[test]
fn default_handlers_per_os() {
    let lcfg = linux_config();
    let linux = get_platform(OsKind::Linux);
    let url_plan = linux.open_url("https://example.test", &lcfg).unwrap();
    assert_eq!(url_plan.attempts[0].program, "xdg-open");
    assert_eq!(url_plan.attempts[0].args, vec!["https://example.test".to_string()]);
    let fm = linux.open_file_manager("/somewhere", &lcfg).unwrap();
    assert_eq!(fm.attempts[0].program, "xdg-open");
    let wcfg = get_os_defaults(OsKind::Windows, "C:/Users/u".to_string());
    let windows = get_platform(OsKind::Windows);
    let wurl = windows.open_url("https://example.test", &wcfg).unwrap();
    assert_eq!(wurl.attempts[0].program, "cmd");
    assert_eq!(
        wurl.attempts[0].args,
        vec!["/c".to_string(), "start".to_string(), "https://example.test".to_string()]
    );
    let ed = windows.open_text_editor("C:/f.txt", &wcfg).unwrap();
    assert_eq!(ed.attempts[0].program, "notepad");
    match windows {
        SystemPlatform::Windows(_) => {}
        SystemPlatform::Linux(_) => panic!("wrong platform selected"),
    }
}

#[test]
fn windows_terminal_probe_order() {
    let p = WindowsPlatform::new().try_terminal_fallback("C:/proj");
    assert!(p.probe);
    let programs: Vec<&str> = p.attempts.iter().map(|a| a.program.as_str()).collect();
    assert_eq!(programs, vec!["wt", "powershell", "cmd"]);
    assert_eq!(p.attempts[0].args, vec!["-d".to_string(), "C:/proj".to_string()]);
    assert_eq!(p.attempts[2].args, vec!["/K".to_string(), "cd /d \"C:/proj\"".to_string()]);
}

#[test]
fn windows_default_terminal_falls_back_to_the_probe_list() {
    let cfg = {
        let mut c = get_os_defaults(OsKind::Windows, "C:/Users/u".to_string());
        c.platform.terminal.mode = ProgramMode::Default;
        c
    };
    let plan = WindowsPlatform::new().open_terminal("C:/proj", &cfg).unwrap();
    assert!(plan.probe);
    let programs: Vec<&str> = plan.attempts.iter().map(|a| a.program.as_str()).collect();
    // the default handler first, then the automatic candidates
    assert_eq!(programs, vec!["cmd", "wt", "powershell", "cmd"]);
    assert_eq!(plan.attempts[0].args, vec!["/K".to_string(), "cd /d \"C:/proj\"".to_string()]);
}
