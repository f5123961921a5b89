use vstd::prelude::*;

use crate::config::{AppConfig, OsKind, ProgramConfig, ProgramMode};
use crate::strutil::{match_at_exec, push_char};
use crate::AppError;

verus! {

// ---------------------------------------------------------------------------
// Literal, non-recursive variable substitution
// ---------------------------------------------------------------------------
/// One left-to-right pass replacing every occurrence of `pat` by `to`; no
/// escaping, and replacements are not rescanned for further occurrences of
/// text produced by earlier replacements at the same position.
pub open spec fn spec_replace(h: Seq<char>, pat: Seq<char>, to: Seq<char>) -> Seq<char>
    decreases h.len(),
{
    if pat.len() == 0 || h.len() < pat.len() {
        h
    } else if h.take(pat.len() as int) == pat {
        to + spec_replace(h.skip(pat.len() as int), pat, to)
    } else {
        seq![h[0]] + spec_replace(h.skip(1), pat, to)
    }
}

/// The replacement pattern of a named variable: the name in braces.
pub open spec fn brace_pat(name: Seq<char>) -> Seq<char> {
    seq!['{'] + name + seq!['}']
}

/// Variables applied one after the other, in list order.
pub open spec fn subst_vars(t: Seq<char>, vars: Seq<(Seq<char>, Seq<char>)>) -> Seq<char>
    decreases vars.len(),
{
    if vars.len() == 0 {
        t
    } else {
        subst_vars(spec_replace(t, brace_pat(vars[0].0), vars[0].1), vars.drop_first())
    }
}

/// The view of an executable variable list.
pub open spec fn var_views(vars: Seq<(String, String)>) -> Seq<(Seq<char>, Seq<char>)> {
    Seq::new(vars.len(), |i: int| (vars[i].0@, vars[i].1@))
}

/// The single `path` variable of the path-taking actions.
pub open spec fn path_vars(path: Seq<char>) -> Seq<(Seq<char>, Seq<char>)> {
    seq![("path"@, path)]
}

/// The single `url` variable of the browser action.
pub open spec fn url_vars(url: Seq<char>) -> Seq<(Seq<char>, Seq<char>)> {
    seq![("url"@, url)]
}

/// Replaces every occurrence of `pat` in `text` by `to`, left to right.
pub fn replace_all(text: &str, pat: &str, to: &str) -> (r: String)
    ensures
        r@ == spec_replace(text@, pat@, to@),
{
    let n = text.unicode_len();
    let m = pat.unicode_len();
    if m == 0 {
        return text.to_owned();
    }
    let mut out = String::new();
    let mut i: usize = 0;
    proof {
        assert(text@.skip(0) =~= text@);
        assert(Seq::<char>::empty() + spec_replace(text@, pat@, to@) =~= spec_replace(
            text@,
            pat@,
            to@,
        ));
    }
    while i < n
        invariant
            i <= n,
            n == text@.len(),
            m == pat@.len(),
            m >= 1,
            spec_replace(text@, pat@, to@) == out@ + spec_replace(text@.skip(i as int), pat@, to@),
        decreases n - i,
    {
        let ghost tail = text@.skip(i as int);
        if m <= n - i && match_at_exec(text, i, pat) {
            out.append(to);
            proof {
                assert(tail.take(m as int) =~= text@.subrange(i as int, i + m));
                assert(tail.skip(m as int) =~= text@.skip(i + m));
                assert(spec_replace(tail, pat@, to@) == to@ + spec_replace(
                    text@.skip(i + m),
                    pat@,
                    to@,
                ));
            }
            i = i + m;
        } else {
            let c = text.get_char(i);
            push_char(&mut out, c);
            proof {
                assert(tail[0] == c);
                assert(tail.skip(1) =~= text@.skip(i + 1));
                if tail.len() < m {
                    assert(spec_replace(tail, pat@, to@) == tail);
                    assert(text@.skip(i + 1) == tail.skip(1));
                    assert(spec_replace(text@.skip(i + 1), pat@, to@) == text@.skip(i + 1)) by {
                        assert(text@.skip(i + 1).len() < m);
                    }
                    assert(tail =~= seq![c] + tail.skip(1));
                } else {
                    assert(tail.take(m as int) =~= text@.subrange(i as int, i + m));
                    assert(tail.take(m as int) != pat@);
                    assert(spec_replace(tail, pat@, to@) == seq![tail[0]] + spec_replace(
                        tail.skip(1),
                        pat@,
                        to@,
                    ));
                }
            }
            i = i + 1;
        }
    }
    proof {
        assert(text@.skip(n as int) =~= Seq::<char>::empty());
        assert(spec_replace(Seq::<char>::empty(), pat@, to@) =~= Seq::<char>::empty());
        assert(out@ =~= out@ + Seq::<char>::empty());
    }
    out
}

/// Substitutes `{name}` tokens for each variable of the list, in order: the
/// literal, non-recursive, non-escaping replacement of the dispatcher.
pub fn replace_variables(text: &str, vars: &Vec<(String, String)>) -> (r: String)
    ensures
        r@ == subst_vars(text@, var_views(vars@)),
{
    let mut cur = text.to_owned();
    let mut k: usize = 0;
    proof {
        assert(var_views(vars@).skip(0) =~= var_views(vars@));
    }
    while k < vars.len()
        invariant
            k <= vars@.len(),
            subst_vars(text@, var_views(vars@)) == subst_vars(
                cur@,
                var_views(vars@).skip(k as int),
            ),
        decreases vars@.len() - k,
    {
        let ghost vv = var_views(vars@).skip(k as int);
        let mut pat = "{".to_owned();
        pat.append(vars[k].0.as_str());
        pat.append("}");
        let next = replace_all(cur.as_str(), pat.as_str(), vars[k].1.as_str());
        proof {
            reveal_strlit("{");
            reveal_strlit("}");
            assert(pat@ =~= brace_pat(vars@[k as int].0@));
            assert(vv[0] == (vars@[k as int].0@, vars@[k as int].1@));
            assert(vv.drop_first() =~= var_views(vars@).skip(k + 1));
            assert(subst_vars(cur@, vv) == subst_vars(next@, vv.drop_first()));
        }
        cur = next;
        k = k + 1;
    }
    proof {
        assert(var_views(vars@).skip(vars@.len() as int) =~= Seq::<(Seq<char>, Seq<char>)>::empty());
    }
    cur
}

// ---------------------------------------------------------------------------
// Dispatch plans
// ---------------------------------------------------------------------------
/// One process launch: a program and its arguments, ready to spawn.
#[derive(Debug, PartialEq)]
pub struct Invocation {
    pub program: String,
    pub args: Vec<String>,
}

/// What the dispatcher decided: the launches to attempt, in order. The
/// runner spawns each attempt until one launch succeeds; spawning is
/// fire-and-forget, so a successful spawn is success. When every attempt of
/// a probing plan fails to spawn, the action fails with `ProgramNotFound`.
#[derive(Debug, PartialEq)]
pub struct DispatchPlan {
    /// The launches to try, in order.
    pub attempts: Vec<Invocation>,
    /// A probing plan tries many candidates; a non-probing plan carries one
    /// configured launch whose spawn failure is reported directly.
    pub probe: bool,
}

/// The invocation launches `prog` with exactly the arguments `args`.
pub open spec fn inv_matches(inv: Invocation, prog: Seq<char>, args: Seq<Seq<char>>) -> bool {
    inv.program@ == prog && inv.args@.len() == args.len() && forall|j: int|
        0 <= j < args.len() ==> (#[trigger] inv.args@[j])@ == args[j]
}

/// The plan attempts exactly the given launches, in order.
pub open spec fn plan_matches(
    p: DispatchPlan,
    probe: bool,
    list: Seq<(Seq<char>, Seq<Seq<char>>)>,
) -> bool {
    p.probe == probe && p.attempts@.len() == list.len() && forall|k: int|
        0 <= k < list.len() ==> inv_matches(#[trigger] p.attempts@[k], list[k].0, list[k].1)
}

/// A successful single-launch plan.
pub open spec fn single_plan(
    r: Result<DispatchPlan, AppError>,
    prog: Seq<char>,
    args: Seq<Seq<char>>,
) -> bool {
    r matches Ok(p) && plan_matches(p, false, seq![(prog, args)])
}

/// The configured arguments with the per-call variables substituted.
pub open spec fn subst_args(args: Seq<String>, vars: Seq<(Seq<char>, Seq<char>)>) -> Seq<
    Seq<char>,
> {
    Seq::new(args.len(), |j: int| subst_vars(args[j]@, vars))
}

// ---------------------------------------------------------------------------
// OS-specific candidate tables
// ---------------------------------------------------------------------------
/// The terminals probed on Linux, in preference order, each with the
/// arguments that open it in the given directory.
pub open spec fn linux_terminal_list(path: Seq<char>) -> Seq<(Seq<char>, Seq<Seq<char>>)> {
    seq![
        ("konsole"@, seq!["--workdir"@, path]),
        ("gnome-terminal"@, seq!["--working-directory"@, path]),
        ("alacritty"@, seq!["--working-directory"@, path]),
        ("kitty"@, seq!["--directory"@, path]),
        ("xfce4-terminal"@, seq!["--working-directory"@, path]),
        ("tilix"@, seq!["-w"@, path]),
        ("xterm"@, seq!["-e"@, "cd '"@ + path + "' && exec $SHELL"@]),
    ]
}

/// The terminals probed on Windows, in preference order.
pub open spec fn windows_terminal_list(path: Seq<char>) -> Seq<(Seq<char>, Seq<Seq<char>>)> {
    seq![
        ("wt"@, seq!["-d"@, path]),
        ("powershell"@, seq!["-NoExit"@, "-Command"@, "Set-Location '"@ + path + "'"@]),
        ("cmd"@, seq!["/K"@, "cd /d \""@ + path + "\""@]),
    ]
}

/// Builds an invocation from a program literal and a fixed argument pair.
fn inv2(program: &str, a0: &str, a1: String) -> (r: Invocation)
    ensures
        r.program@ == program@,
        r.args@.len() == 2,
        r.args@[0]@ == a0@,
        r.args@[1]@ == a1@,
{
    let mut args: Vec<String> = Vec::new();
    args.push(a0.to_owned());
    args.push(a1);
    Invocation { program: program.to_owned(), args }
}

/// Builds a single-argument invocation.
fn inv1(program: &str, a0: String) -> (r: Invocation)
    ensures
        r.program@ == program@,
        r.args@.len() == 1,
        r.args@[0]@ == a0@,
{
    let mut args: Vec<String> = Vec::new();
    args.push(a0);
    Invocation { program: program.to_owned(), args }
}

/// The probe attempts a Linux terminal launch walks through.
pub fn linux_terminal_candidates(path: &str) -> (r: Vec<Invocation>)
    ensures
        r@.len() == linux_terminal_list(path@).len(),
        forall|k: int|
            0 <= k < r@.len() ==> inv_matches(
                #[trigger] r@[k],
                linux_terminal_list(path@)[k].0,
                linux_terminal_list(path@)[k].1,
            ),
{
    let mut r: Vec<Invocation> = Vec::new();
    r.push(inv2("konsole", "--workdir", path.to_owned()));
    r.push(inv2("gnome-terminal", "--working-directory", path.to_owned()));
    r.push(inv2("alacritty", "--working-directory", path.to_owned()));
    r.push(inv2("kitty", "--directory", path.to_owned()));
    r.push(inv2("xfce4-terminal", "--working-directory", path.to_owned()));
    r.push(inv2("tilix", "-w", path.to_owned()));
    let mut sh = "cd '".to_owned();
    sh.append(path);
    sh.append("' && exec $SHELL");
    r.push(inv2("xterm", "-e", sh));
    proof {
        assert forall|k: int| 0 <= k < r@.len() implies inv_matches(
            #[trigger] r@[k],
            linux_terminal_list(path@)[k].0,
            linux_terminal_list(path@)[k].1,
        ) by {
            assert(linux_terminal_list(path@)[k] == linux_terminal_list(path@)[k]);
        }
    }
    r
}

/// The probe attempts a Windows terminal launch walks through.
pub fn windows_terminal_candidates(path: &str) -> (r: Vec<Invocation>)
    ensures
        r@.len() == windows_terminal_list(path@).len(),
        forall|k: int|
            0 <= k < r@.len() ==> inv_matches(
                #[trigger] r@[k],
                windows_terminal_list(path@)[k].0,
                windows_terminal_list(path@)[k].1,
            ),
{
    let mut r: Vec<Invocation> = Vec::new();
    r.push(inv2("wt", "-d", path.to_owned()));
    let mut loc = "Set-Location '".to_owned();
    loc.append(path);
    loc.append("'");
    let mut psargs: Vec<String> = Vec::new();
    psargs.push("-NoExit".to_owned());
    psargs.push("-Command".to_owned());
    psargs.push(loc);
    r.push(Invocation { program: "powershell".to_owned(), args: psargs });
    let mut cd = "cd /d \"".to_owned();
    cd.append(path);
    cd.append("\"");
    r.push(inv2("cmd", "/K", cd));
    proof {
        reveal_strlit("Set-Location '");
        assert forall|k: int| 0 <= k < r@.len() implies inv_matches(
            #[trigger] r@[k],
            windows_terminal_list(path@)[k].0,
            windows_terminal_list(path@)[k].1,
        ) by {
            assert(windows_terminal_list(path@)[k] == windows_terminal_list(path@)[k]);
        }
    }
    r
}

/// Substitutes the per-call variables into each configured argument.
fn substitute_args(args: &Vec<String>, vars: &Vec<(String, String)>) -> (r: Vec<String>)
    ensures
        r@.len() == args@.len(),
        forall|j: int|
            0 <= j < args@.len() ==> (#[trigger] r@[j])@ == subst_vars(
                args@[j]@,
                var_views(vars@),
            ),
{
    let mut r: Vec<String> = Vec::new();
    let mut j: usize = 0;
    while j < args.len()
        invariant
            j <= args@.len(),
            r@.len() == j,
            forall|t: int|
                0 <= t < j ==> (#[trigger] r@[t])@ == subst_vars(args@[t]@, var_views(vars@)),
        decreases args@.len() - j,
    {
        r.push(replace_variables(args[j].as_str(), vars));
        j = j + 1;
    }
    r
}

/// The one per-call variable of a path-taking action.
fn path_var_list(path: &str) -> (r: Vec<(String, String)>)
    ensures
        var_views(r@) =~= path_vars(path@),
{
    let mut r: Vec<(String, String)> = Vec::new();
    r.push(("path".to_owned(), path.to_owned()));
    r
}

/// The one per-call variable of the browser action.
fn url_var_list(url: &str) -> (r: Vec<(String, String)>)
    ensures
        var_views(r@) =~= url_vars(url@),
{
    let mut r: Vec<(String, String)> = Vec::new();
    r.push(("url".to_owned(), url.to_owned()));
    r
}

// ---------------------------------------------------------------------------
// Strategy selection: what each mode plans for each action
// ---------------------------------------------------------------------------
/// A custom launch: the configured program with its substituted arguments;
/// nothing can be planned without a configured path.
pub open spec fn custom_plan_ok(
    r: Result<DispatchPlan, AppError>,
    pc: ProgramConfig,
    vars: Seq<(Seq<char>, Seq<char>)>,
) -> bool {
    match pc.custom_path {
        Option::None => r matches Err(e) && e == AppError::ConfigError,
        Option::Some(cp) => single_plan(r, cp@, subst_args(pc.custom_args@, vars)),
    }
}

/// A script launch: the configured script body, substituted, handed to the
/// OS shell; nothing can be planned without a configured script.
pub open spec fn script_plan_ok(
    r: Result<DispatchPlan, AppError>,
    os: OsKind,
    pc: ProgramConfig,
    vars: Seq<(Seq<char>, Seq<char>)>,
) -> bool {
    match pc.custom_script {
        Option::None => r matches Err(e) && e == AppError::ConfigError,
        Option::Some(sc) => {
            let body = subst_vars(sc@, vars);
            match os {
                OsKind::Linux => single_plan(r, "bash"@, seq!["-c"@, body]),
                OsKind::Windows => single_plan(
                    r,
                    "powershell"@,
                    seq!["-NoProfile"@, "-Command"@, body],
                ),
            }
        },
    }
}

/// What opening a terminal at a path must plan, per OS and mode.
pub open spec fn terminal_plan_ok(
    r: Result<DispatchPlan, AppError>,
    os: OsKind,
    cfg: AppConfig,
    path: Seq<char>,
) -> bool {
    let pc = cfg.platform.terminal;
    match pc.mode {
        ProgramMode::Auto => r matches Ok(p) && plan_matches(
            p,
            true,
            match os {
                OsKind::Linux => linux_terminal_list(path),
                OsKind::Windows => windows_terminal_list(path),
            },
        ),
        ProgramMode::Default => r matches Ok(p) && plan_matches(
            p,
            true,
            match os {
                OsKind::Linux => seq![("x-terminal-emulator"@, seq!["--working-directory"@, path])]
                    + linux_terminal_list(path),
                OsKind::Windows => seq![("cmd"@, seq!["/K"@, "cd /d \""@ + path + "\""@])]
                    + windows_terminal_list(path),
            },
        ),
        ProgramMode::Custom => custom_plan_ok(r, pc, path_vars(path)),
        ProgramMode::Script => script_plan_ok(r, os, pc, path_vars(path)),
    }
}

/// What opening a URL must plan, per OS and mode. In automatic and default
/// modes the OS opener is used; a custom browser receives the URL as its one
/// argument, unsubstituted, as the launcher always has.
pub open spec fn url_plan_ok(
    r: Result<DispatchPlan, AppError>,
    os: OsKind,
    cfg: AppConfig,
    url: Seq<char>,
) -> bool {
    let pc = cfg.platform.browser;
    match pc.mode {
        ProgramMode::Auto | ProgramMode::Default => match os {
            OsKind::Linux => single_plan(r, "xdg-open"@, seq![url]),
            OsKind::Windows => single_plan(r, "cmd"@, seq!["/c"@, "start"@, url]),
        },
        ProgramMode::Custom => match pc.custom_path {
            Option::None => r matches Err(e) && e == AppError::ConfigError,
            Option::Some(cp) => single_plan(r, cp@, seq![url]),
        },
        ProgramMode::Script => script_plan_ok(r, os, pc, url_vars(url)),
    }
}

/// What opening the file manager at a path must plan: the OS opener,
/// whatever the configuration says.
pub open spec fn file_manager_plan_ok(
    r: Result<DispatchPlan, AppError>,
    os: OsKind,
    path: Seq<char>,
) -> bool {
    match os {
        OsKind::Linux => single_plan(r, "xdg-open"@, seq![path]),
        OsKind::Windows => single_plan(r, "explorer"@, seq![path]),
    }
}

/// What opening a text editor on a path must plan, per OS and mode.
pub open spec fn editor_plan_ok(
    r: Result<DispatchPlan, AppError>,
    os: OsKind,
    cfg: AppConfig,
    path: Seq<char>,
) -> bool {
    let pc = cfg.platform.text_editor;
    match pc.mode {
        ProgramMode::Auto | ProgramMode::Default => match os {
            OsKind::Linux => single_plan(r, "xdg-open"@, seq![path]),
            OsKind::Windows => single_plan(r, "notepad"@, seq![path]),
        },
        ProgramMode::Custom => match pc.custom_path {
            Option::None => r matches Err(e) && e == AppError::ConfigError,
            Option::Some(cp) => single_plan(r, cp@, seq![path]),
        },
        ProgramMode::Script => script_plan_ok(r, os, pc, path_vars(path)),
    }
}

/// What running a substituted script through the OS shell must plan.
pub open spec fn exec_script_plan_ok(
    r: Result<DispatchPlan, AppError>,
    os: OsKind,
    script: Seq<char>,
    vars: Seq<(Seq<char>, Seq<char>)>,
) -> bool {
    let body = subst_vars(script, vars);
    match os {
        OsKind::Linux => single_plan(r, "bash"@, seq!["-c"@, body]),
        OsKind::Windows => single_plan(r, "powershell"@, seq!["-NoProfile"@, "-Command"@, body]),
    }
}

// ---------------------------------------------------------------------------
// Shared plan builders
// ---------------------------------------------------------------------------
fn single(inv: Invocation) -> (r: DispatchPlan)
    ensures
        !r.probe,
        r.attempts@.len() == 1,
        r.attempts@[0] == inv,
{
    let mut attempts: Vec<Invocation> = Vec::new();
    attempts.push(inv);
    DispatchPlan { attempts, probe: false }
}

/// Plans the configured custom launch of one action.
fn plan_custom(pc: &ProgramConfig, vars: &Vec<(String, String)>) -> (r: Result<
    DispatchPlan,
    AppError,
>)
    ensures
        custom_plan_ok(r, *pc, var_views(vars@)),
{
    match &pc.custom_path {
        Option::None => Err(AppError::ConfigError),
        Option::Some(cp) => {
            let args = substitute_args(&pc.custom_args, vars);
            let inv = Invocation { program: cp.clone(), args };
            Ok(single(inv))
        },
    }
}

/// Plans the configured script of one action through the OS shell.
fn plan_script(os: OsKind, pc: &ProgramConfig, vars: &Vec<(String, String)>) -> (r: Result<
    DispatchPlan,
    AppError,
>)
    ensures
        script_plan_ok(r, os, *pc, var_views(vars@)),
{
    match &pc.custom_script {
        Option::None => Err(AppError::ConfigError),
        Option::Some(sc) => {
            let body = replace_variables(sc.as_str(), vars);
            match os {
                OsKind::Linux => Ok(single(inv2("bash", "-c", body))),
                OsKind::Windows => {
                    let mut args: Vec<String> = Vec::new();
                    args.push("-NoProfile".to_owned());
                    args.push("-Command".to_owned());
                    args.push(body);
                    Ok(single(Invocation { program: "powershell".to_owned(), args }))
                },
            }
        },
    }
}

// ---------------------------------------------------------------------------
// The platform implementations
// ---------------------------------------------------------------------------
/// Per-OS planning of the four abstract actions. Exactly one implementation
/// is active per process, selected once at startup.
pub trait PlatformOperations: Sized {
    spec fn os(&self) -> OsKind;

    /// Plans opening a terminal in the given directory.
    fn open_terminal(&self, path: &str, config: &AppConfig) -> (r: Result<DispatchPlan, AppError>)
        ensures
            terminal_plan_ok(r, self.os(), *config, path@),
    ;

    /// Plans opening a URL.
    fn open_url(&self, url: &str, config: &AppConfig) -> (r: Result<DispatchPlan, AppError>)
        ensures
            url_plan_ok(r, self.os(), *config, url@),
    ;

    /// Plans opening the file manager at the given path.
    fn open_file_manager(&self, path: &str, config: &AppConfig) -> (r: Result<
        DispatchPlan,
        AppError,
    >)
        ensures
            file_manager_plan_ok(r, self.os(), path@),
    ;

    /// Plans opening a text editor on the given path.
    fn open_text_editor(&self, path: &str, config: &AppConfig) -> (r: Result<
        DispatchPlan,
        AppError,
    >)
        ensures
            editor_plan_ok(r, self.os(), *config, path@),
    ;

    /// Plans running a substituted script through the OS shell.
    fn execute_script(&self, script: &str, vars: &Vec<(String, String)>) -> (r: Result<
        DispatchPlan,
        AppError,
    >)
        ensures
            exec_script_plan_ok(r, self.os(), script@, var_views(vars@)),
    ;
}

pub struct LinuxPlatform;

impl LinuxPlatform {
    pub fn new() -> (r: LinuxPlatform)
        ensures
            r.os() == OsKind::Linux,
    {
        LinuxPlatform
    }

    /// The probing plan over the known Linux terminals.
    pub fn try_terminal_fallback(&self, path: &str) -> (r: DispatchPlan)
        ensures
            plan_matches(r, true, linux_terminal_list(path@)),
    {
        DispatchPlan { attempts: linux_terminal_candidates(path), probe: true }
    }
}

impl PlatformOperations for LinuxPlatform {
    open spec fn os(&self) -> OsKind {
        OsKind::Linux
    }

    fn open_terminal(&self, path: &str, config: &AppConfig) -> (r: Result<DispatchPlan, AppError>) {
        match config.platform.terminal.mode {
            ProgramMode::Auto => Ok(self.try_terminal_fallback(path)),
            ProgramMode::Default => {
                let mut attempts: Vec<Invocation> = Vec::new();
                attempts.push(inv2("x-terminal-emulator", "--working-directory", path.to_owned()));
                let mut rest = linux_terminal_candidates(path);
                attempts.append(&mut rest);
                let p = DispatchPlan { attempts, probe: true };
                proof {
                    let ghost list = seq![
                        ("x-terminal-emulator"@, seq!["--working-directory"@, path@]),
                    ] + linux_terminal_list(path@);
                    assert forall|k: int| 0 <= k < list.len() implies inv_matches(
                        #[trigger] p.attempts@[k],
                        list[k].0,
                        list[k].1,
                    ) by {
                        if k > 0 {
                            assert(list[k] == linux_terminal_list(path@)[k - 1]);
                        }
                    }
                }
                Ok(p)
            },
            ProgramMode::Custom => plan_custom(&config.platform.terminal, &path_var_list(path)),
            ProgramMode::Script => plan_script(
                OsKind::Linux,
                &config.platform.terminal,
                &path_var_list(path),
            ),
        }
    }

    fn open_url(&self, url: &str, config: &AppConfig) -> (r: Result<DispatchPlan, AppError>) {
        match config.platform.browser.mode {
            ProgramMode::Auto | ProgramMode::Default => Ok(single(inv1("xdg-open", url.to_owned()))),
            ProgramMode::Custom => {
                match &config.platform.browser.custom_path {
                    Option::None => Err(AppError::ConfigError),
                    Option::Some(cp) => Ok(single(inv1_program(cp.clone(), url.to_owned()))),
                }
            },
            ProgramMode::Script => plan_script(
                OsKind::Linux,
                &config.platform.browser,
                &url_var_list(url),
            ),
        }
    }

    fn open_file_manager(&self, path: &str, config: &AppConfig) -> (r: Result<
        DispatchPlan,
        AppError,
    >) {
        Ok(single(inv1("xdg-open", path.to_owned())))
    }

    fn open_text_editor(&self, path: &str, config: &AppConfig) -> (r: Result<
        DispatchPlan,
        AppError,
    >) {
        match config.platform.text_editor.mode {
            ProgramMode::Auto | ProgramMode::Default => Ok(
                single(inv1("xdg-open", path.to_owned())),
            ),
            ProgramMode::Custom => {
                match &config.platform.text_editor.custom_path {
                    Option::None => Err(AppError::ConfigError),
                    Option::Some(cp) => Ok(single(inv1_program(cp.clone(), path.to_owned()))),
                }
            },
            ProgramMode::Script => plan_script(
                OsKind::Linux,
                &config.platform.text_editor,
                &path_var_list(path),
            ),
        }
    }

    fn execute_script(&self, script: &str, vars: &Vec<(String, String)>) -> (r: Result<
        DispatchPlan,
        AppError,
    >) {
        let body = replace_variables(script, vars);
        Ok(single(inv2("bash", "-c", body)))
    }
}

/// A single-argument invocation of an already-owned program path.
fn inv1_program(program: String, a0: String) -> (r: Invocation)
    ensures
        r.program@ == program@,
        r.args@.len() == 1,
        r.args@[0]@ == a0@,
{
    let mut args: Vec<String> = Vec::new();
    args.push(a0);
    Invocation { program, args }
}

pub struct WindowsPlatform;

impl WindowsPlatform {
    pub fn new() -> (r: WindowsPlatform)
        ensures
            r.os() == OsKind::Windows,
    {
        WindowsPlatform
    }

    /// The probing plan over the known Windows terminals.
    pub fn try_terminal_fallback(&self, path: &str) -> (r: DispatchPlan)
        ensures
            plan_matches(r, true, windows_terminal_list(path@)),
    {
        DispatchPlan { attempts: windows_terminal_candidates(path), probe: true }
    }
}

impl PlatformOperations for WindowsPlatform {
    open spec fn os(&self) -> OsKind {
        OsKind::Windows
    }

    fn open_terminal(&self, path: &str, config: &AppConfig) -> (r: Result<DispatchPlan, AppError>) {
        match config.platform.terminal.mode {
            ProgramMode::Auto => Ok(self.try_terminal_fallback(path)),
            ProgramMode::Default => {
                let mut cd = "cd /d \"".to_owned();
                cd.append(path);
                cd.append("\"");
                let inv = inv2("cmd", "/K", cd);
                let mut attempts: Vec<Invocation> = Vec::new();
                attempts.push(inv);
                let mut rest = windows_terminal_candidates(path);
                attempts.append(&mut rest);
                let p = DispatchPlan { attempts, probe: true };
                proof {
                    let ghost list = seq![("cmd"@, seq!["/K"@, "cd /d \""@ + path@ + "\""@])]
                        + windows_terminal_list(path@);
                    assert forall|k: int| 0 <= k < list.len() implies inv_matches(
                        #[trigger] p.attempts@[k],
                        list[k].0,
                        list[k].1,
                    ) by {
                        if k > 0 {
                            assert(list[k] == windows_terminal_list(path@)[k - 1]);
                        }
                    }
                }
                Ok(p)
            },
            ProgramMode::Custom => plan_custom(&config.platform.terminal, &path_var_list(path)),
            ProgramMode::Script => plan_script(
                OsKind::Windows,
                &config.platform.terminal,
                &path_var_list(path),
            ),
        }
    }

    fn open_url(&self, url: &str, config: &AppConfig) -> (r: Result<DispatchPlan, AppError>) {
        match config.platform.browser.mode {
            ProgramMode::Auto | ProgramMode::Default => {
                let mut args: Vec<String> = Vec::new();
                args.push("/c".to_owned());
                args.push("start".to_owned());
                args.push(url.to_owned());
                Ok(single(Invocation { program: "cmd".to_owned(), args }))
            },
            ProgramMode::Custom => {
                match &config.platform.browser.custom_path {
                    Option::None => Err(AppError::ConfigError),
                    Option::Some(cp) => Ok(single(inv1_program(cp.clone(), url.to_owned()))),
                }
            },
            ProgramMode::Script => plan_script(
                OsKind::Windows,
                &config.platform.browser,
                &url_var_list(url),
            ),
        }
    }

    fn open_file_manager(&self, path: &str, config: &AppConfig) -> (r: Result<
        DispatchPlan,
        AppError,
    >) {
        Ok(single(inv1("explorer", path.to_owned())))
    }

    fn open_text_editor(&self, path: &str, config: &AppConfig) -> (r: Result<
        DispatchPlan,
        AppError,
    >) {
        match config.platform.text_editor.mode {
            ProgramMode::Auto | ProgramMode::Default => Ok(
                single(inv1("notepad", path.to_owned())),
            ),
            ProgramMode::Custom => {
                match &config.platform.text_editor.custom_path {
                    Option::None => Err(AppError::ConfigError),
                    Option::Some(cp) => Ok(single(inv1_program(cp.clone(), path.to_owned()))),
                }
            },
            ProgramMode::Script => plan_script(
                OsKind::Windows,
                &config.platform.text_editor,
                &path_var_list(path),
            ),
        }
    }

    fn execute_script(&self, script: &str, vars: &Vec<(String, String)>) -> (r: Result<
        DispatchPlan,
        AppError,
    >) {
        let body = replace_variables(script, vars);
        let mut args: Vec<String> = Vec::new();
        args.push("-NoProfile".to_owned());
        args.push("-Command".to_owned());
        args.push(body);
        Ok(single(Invocation { program: "powershell".to_owned(), args }))
    }
}

/// The platform active in this process.
pub enum SystemPlatform {
    Linux(LinuxPlatform),
    Windows(WindowsPlatform),
}

impl PlatformOperations for SystemPlatform {
    open spec fn os(&self) -> OsKind {
        match self {
            SystemPlatform::Linux(_) => OsKind::Linux,
            SystemPlatform::Windows(_) => OsKind::Windows,
        }
    }

    fn open_terminal(&self, path: &str, config: &AppConfig) -> (r: Result<DispatchPlan, AppError>) {
        match self {
            SystemPlatform::Linux(p) => p.open_terminal(path, config),
            SystemPlatform::Windows(p) => p.open_terminal(path, config),
        }
    }

    fn open_url(&self, url: &str, config: &AppConfig) -> (r: Result<DispatchPlan, AppError>) {
        match self {
            SystemPlatform::Linux(p) => p.open_url(url, config),
            SystemPlatform::Windows(p) => p.open_url(url, config),
        }
    }

    fn open_file_manager(&self, path: &str, config: &AppConfig) -> (r: Result<
        DispatchPlan,
        AppError,
    >) {
        match self {
            SystemPlatform::Linux(p) => p.open_file_manager(path, config),
            SystemPlatform::Windows(p) => p.open_file_manager(path, config),
        }
    }

    fn open_text_editor(&self, path: &str, config: &AppConfig) -> (r: Result<
        DispatchPlan,
        AppError,
    >) {
        match self {
            SystemPlatform::Linux(p) => p.open_text_editor(path, config),
            SystemPlatform::Windows(p) => p.open_text_editor(path, config),
        }
    }

    fn execute_script(&self, script: &str, vars: &Vec<(String, String)>) -> (r: Result<
        DispatchPlan,
        AppError,
    >) {
        match self {
            SystemPlatform::Linux(p) => p.execute_script(script, vars),
            SystemPlatform::Windows(p) => p.execute_script(script, vars),
        }
    }
}

/// Selects the platform implementation for the detected operating system.
pub fn get_platform(os: OsKind) -> (r: SystemPlatform)
    ensures
        r.os() == os,
{
    match os {
        OsKind::Linux => SystemPlatform::Linux(LinuxPlatform::new()),
        OsKind::Windows => SystemPlatform::Windows(WindowsPlatform::new()),
    }
}

/// The probing rule: the attempt that runs is the first whose launch
/// succeeded. Given the spawn outcome of each attempt, in plan order, this
/// is the index of the invocation the dispatcher ends up using, or nothing
/// when every candidate failed to spawn.
pub fn select_first_success(outcomes: &Vec<bool>) -> (r: Option<usize>)
    ensures
        match r {
            Option::Some(k) => k < outcomes@.len() && outcomes@[k as int] && (forall|j: int|
                0 <= j < k ==> !outcomes@[j]),
            Option::None => forall|j: int| 0 <= j < outcomes@.len() ==> !outcomes@[j],
        },
{
    let mut k: usize = 0;
    while k < outcomes.len()
        invariant
            k <= outcomes@.len(),
            forall|j: int| 0 <= j < k ==> !outcomes@[j],
        decreases outcomes@.len() - k,
    {
        if outcomes[k] {
            return Option::Some(k);
        }
        k = k + 1;
    }
    Option::None
}

} // verus!
