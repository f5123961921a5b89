use vstd::prelude::*;

use crate::config::{DetectedProgram, DetectedPrograms, OsKind};

verus! {

/// The views of a catalog of probe candidates: command and display name.
pub open spec fn cat_views(cat: Seq<(String, String)>) -> Seq<(Seq<char>, Seq<char>)> {
    Seq::new(cat.len(), |i: int| (cat[i].0@, cat[i].1@))
}

/// The detection result for a catalog and the probe outcome of each of its
/// candidates: the found programs in catalog order, carrying their display
/// name and resolved path, the first found one marked as the default.
pub open spec fn detected_ok(
    cat: Seq<(Seq<char>, Seq<char>)>,
    found: Seq<Option<String>>,
    r: Seq<DetectedProgram>,
    any_before: bool,
) -> bool
    decreases cat.len(),
{
    if cat.len() == 0 || found.len() == 0 {
        r.len() == 0
    } else {
        match found[0] {
            Option::None => detected_ok(cat.drop_first(), found.drop_first(), r, any_before),
            Option::Some(p) => r.len() > 0 && r[0].name@ == cat[0].1 && r[0].path@ == p@
                && r[0].version is None && r[0].is_default == !any_before && detected_ok(
                cat.drop_first(),
                found.drop_first(),
                r.drop_first(),
                true,
            ),
        }
    }
}

/// Assembles the detection result from a candidate catalog and the resolved
/// path of each candidate that the probe found.
fn detect_from(
    cat: &Vec<(String, String)>,
    found: &Vec<Option<String>>,
    k: usize,
    any_before: bool,
) -> (r: Vec<DetectedProgram>)
    requires
        cat@.len() == found@.len(),
        k <= cat@.len(),
    ensures
        detected_ok(cat_views(cat@).skip(k as int), found@.skip(k as int), r@, any_before),
    decreases cat@.len() - k,
{
    if k == cat.len() {
        let r: Vec<DetectedProgram> = Vec::new();
        proof {
            assert(cat_views(cat@).skip(k as int).len() == 0);
        }
        r
    } else {
        let ghost cv = cat_views(cat@).skip(k as int);
        let ghost fv = found@.skip(k as int);
        proof {
            assert(cv.drop_first() =~= cat_views(cat@).skip(k + 1));
            assert(fv.drop_first() =~= found@.skip(k + 1));
            assert(cv[0] == (cat@[k as int].0@, cat@[k as int].1@));
            assert(fv[0] == found@[k as int]);
        }
        match &found[k] {
            Option::None => detect_from(cat, found, k + 1, any_before),
            Option::Some(p) => {
                let rest = detect_from(cat, found, k + 1, true);
                let ghost pre = rest@;
                let entry = DetectedProgram {
                    name: cat[k].1.clone(),
                    path: p.clone(),
                    version: Option::None,
                    is_default: !any_before,
                };
                let mut out = rest;
                out.insert(0, entry);
                proof {
                    assert(out@.drop_first() =~= pre);
                    assert(out@[0] == entry);
                }
                out
            },
        }
    }
}

/// Probes for installed programs by catalog. The caller resolves each
/// candidate command on the search path and hands the outcomes over, one
/// per candidate, in catalog order.
pub struct ProgramDetector;

impl ProgramDetector {
    /// The terminal candidates of the OS: command and display name, in
    /// preference order.
    pub fn terminal_catalog(os: OsKind) -> (r: Vec<(String, String)>)
        ensures
            cat_views(r@) =~= spec_terminal_catalog(os),
    {
        let mut r: Vec<(String, String)> = Vec::new();
        match os {
            OsKind::Windows => {
                r.push(("wt".to_owned(), "Windows Terminal".to_owned()));
                r.push(("powershell".to_owned(), "PowerShell".to_owned()));
                r.push(("cmd".to_owned(), "Command Prompt".to_owned()));
                r.push(("bash".to_owned(), "Git Bash".to_owned()));
            },
            OsKind::Linux => {
                r.push(("konsole".to_owned(), "Konsole".to_owned()));
                r.push(("gnome-terminal".to_owned(), "GNOME Terminal".to_owned()));
                r.push(("alacritty".to_owned(), "Alacritty".to_owned()));
                r.push(("kitty".to_owned(), "Kitty".to_owned()));
                r.push(("xfce4-terminal".to_owned(), "XFCE Terminal".to_owned()));
                r.push(("tilix".to_owned(), "Tilix".to_owned()));
                r.push(("xterm".to_owned(), "XTerm".to_owned()));
            },
        }
        r
    }

    /// The browser candidates of the OS.
    pub fn browser_catalog(os: OsKind) -> (r: Vec<(String, String)>)
        ensures
            cat_views(r@) =~= spec_browser_catalog(os),
    {
        let mut r: Vec<(String, String)> = Vec::new();
        match os {
            OsKind::Windows => {
                r.push(("chrome".to_owned(), "Google Chrome".to_owned()));
                r.push(("msedge".to_owned(), "Microsoft Edge".to_owned()));
                r.push(("firefox".to_owned(), "Mozilla Firefox".to_owned()));
                r.push(("brave".to_owned(), "Brave".to_owned()));
            },
            OsKind::Linux => {
                r.push(("google-chrome".to_owned(), "Google Chrome".to_owned()));
                r.push(("firefox".to_owned(), "Mozilla Firefox".to_owned()));
                r.push(("chromium".to_owned(), "Chromium".to_owned()));
                r.push(("brave".to_owned(), "Brave".to_owned()));
            },
        }
        r
    }

    /// The file manager candidates of the OS; on Windows the Explorer is
    /// always present and is not probed.
    pub fn file_manager_catalog(os: OsKind) -> (r: Vec<(String, String)>)
        ensures
            cat_views(r@) =~= spec_file_manager_catalog(os),
    {
        let mut r: Vec<(String, String)> = Vec::new();
        match os {
            OsKind::Windows => {},
            OsKind::Linux => {
                r.push(("dolphin".to_owned(), "Dolphin".to_owned()));
                r.push(("nautilus".to_owned(), "Nautilus".to_owned()));
                r.push(("thunar".to_owned(), "Thunar".to_owned()));
                r.push(("nemo".to_owned(), "Nemo".to_owned()));
                r.push(("pcmanfm".to_owned(), "PCManFM".to_owned()));
            },
        }
        r
    }

    /// The text editor candidates probed on every OS.
    pub fn editor_catalog() -> (r: Vec<(String, String)>)
        ensures
            cat_views(r@) =~= spec_editor_catalog(),
    {
        let mut r: Vec<(String, String)> = Vec::new();
        r.push(("code".to_owned(), "Visual Studio Code".to_owned()));
        r.push(("code-insiders".to_owned(), "VS Code Insiders".to_owned()));
        r.push(("subl".to_owned(), "Sublime Text".to_owned()));
        r.push(("atom".to_owned(), "Atom".to_owned()));
        r.push(("nvim".to_owned(), "Neovim".to_owned()));
        r.push(("vim".to_owned(), "Vim".to_owned()));
        r.push(("nano".to_owned(), "Nano".to_owned()));
        r
    }

    /// The terminals found on the system, first found marked default.
    pub fn detect_terminals(os: OsKind, found: &Vec<Option<String>>) -> (r: Vec<DetectedProgram>)
        requires
            found@.len() == spec_terminal_catalog(os).len(),
        ensures
            detected_ok(spec_terminal_catalog(os), found@, r@, false),
    {
        let cat = Self::terminal_catalog(os);
        let r = detect_from(&cat, found, 0, false);
        proof {
            assert(cat_views(cat@).skip(0) =~= spec_terminal_catalog(os));
            assert(found@.skip(0) =~= found@);
        }
        r
    }

    /// The browsers found on the system, first found marked default.
    pub fn detect_browsers(os: OsKind, found: &Vec<Option<String>>) -> (r: Vec<DetectedProgram>)
        requires
            found@.len() == spec_browser_catalog(os).len(),
        ensures
            detected_ok(spec_browser_catalog(os), found@, r@, false),
    {
        let cat = Self::browser_catalog(os);
        let r = detect_from(&cat, found, 0, false);
        proof {
            assert(cat_views(cat@).skip(0) =~= spec_browser_catalog(os));
            assert(found@.skip(0) =~= found@);
        }
        r
    }

    /// The file managers found on the system; on Windows the Explorer alone,
    /// always available.
    pub fn detect_file_managers(os: OsKind, found: &Vec<Option<String>>) -> (r: Vec<
        DetectedProgram,
    >)
        requires
            found@.len() == spec_file_manager_catalog(os).len(),
        ensures
            os == OsKind::Linux ==> detected_ok(spec_file_manager_catalog(os), found@, r@, false),
            os == OsKind::Windows ==> r@.len() == 1 && r@[0].name@ == "Windows Explorer"@
                && r@[0].path@ == "explorer"@ && r@[0].version is None && r@[0].is_default,
    {
        match os {
            OsKind::Windows => {
                let mut r: Vec<DetectedProgram> = Vec::new();
                r.push(
                    DetectedProgram {
                        name: "Windows Explorer".to_owned(),
                        path: "explorer".to_owned(),
                        version: Option::None,
                        is_default: true,
                    },
                );
                r
            },
            OsKind::Linux => {
                let cat = Self::file_manager_catalog(os);
                let r = detect_from(&cat, found, 0, false);
                proof {
                    assert(cat_views(cat@).skip(0) =~= spec_file_manager_catalog(os));
                    assert(found@.skip(0) =~= found@);
                }
                r
            },
        }
    }

    /// The text editors found on the system; on Windows the Notepad entry is
    /// appended, always available, default only when nothing else was found.
    pub fn detect_text_editors(os: OsKind, found: &Vec<Option<String>>) -> (r: Vec<
        DetectedProgram,
    >)
        requires
            found@.len() == spec_editor_catalog().len(),
        ensures
            os == OsKind::Linux ==> detected_ok(spec_editor_catalog(), found@, r@, false),
            os == OsKind::Windows ==> r@.len() >= 1 && detected_ok(
                spec_editor_catalog(),
                found@,
                r@.drop_last(),
                false,
            ) && r@.last().name@ == "Notepad"@ && r@.last().path@ == "notepad"@
                && r@.last().version is None && r@.last().is_default == (r@.len() == 1),
    {
        let cat = Self::editor_catalog();
        let mut r = detect_from(&cat, found, 0, false);
        proof {
            assert(cat_views(cat@).skip(0) =~= spec_editor_catalog());
            assert(found@.skip(0) =~= found@);
        }
        match os {
            OsKind::Linux => r,
            OsKind::Windows => {
                let empty_so_far = r.len() == 0;
                let ghost pre = r@;
                r.push(
                    DetectedProgram {
                        name: "Notepad".to_owned(),
                        path: "notepad".to_owned(),
                        version: Option::None,
                        is_default: empty_so_far,
                    },
                );
                proof {
                    assert(r@.drop_last() =~= pre);
                }
                r
            },
        }
    }

    /// The whole detection result, from the probe outcomes of all four
    /// catalogs.
    pub fn detect_all(
        os: OsKind,
        terminals_found: &Vec<Option<String>>,
        browsers_found: &Vec<Option<String>>,
        file_managers_found: &Vec<Option<String>>,
        editors_found: &Vec<Option<String>>,
    ) -> (r: DetectedPrograms)
        requires
            terminals_found@.len() == spec_terminal_catalog(os).len(),
            browsers_found@.len() == spec_browser_catalog(os).len(),
            file_managers_found@.len() == spec_file_manager_catalog(os).len(),
            editors_found@.len() == spec_editor_catalog().len(),
        ensures
            detected_ok(spec_terminal_catalog(os), terminals_found@, r.terminals@, false),
            detected_ok(spec_browser_catalog(os), browsers_found@, r.browsers@, false),
            os == OsKind::Linux ==> detected_ok(
                spec_file_manager_catalog(os),
                file_managers_found@,
                r.file_managers@,
                false,
            ),
            os == OsKind::Linux ==> detected_ok(
                spec_editor_catalog(),
                editors_found@,
                r.text_editors@,
                false,
            ),
            os == OsKind::Windows ==> r.file_managers@.len() == 1 && r.file_managers@[0].name@
                == "Windows Explorer"@ && r.file_managers@[0].path@ == "explorer"@
                && r.file_managers@[0].version is None && r.file_managers@[0].is_default,
            os == OsKind::Windows ==> r.text_editors@.len() >= 1 && detected_ok(
                spec_editor_catalog(),
                editors_found@,
                r.text_editors@.drop_last(),
                false,
            ) && r.text_editors@.last().name@ == "Notepad"@ && r.text_editors@.last().path@
                == "notepad"@ && r.text_editors@.last().version is None
                && r.text_editors@.last().is_default == (r.text_editors@.len() == 1),
    {
        DetectedPrograms {
            terminals: Self::detect_terminals(os, terminals_found),
            browsers: Self::detect_browsers(os, browsers_found),
            file_managers: Self::detect_file_managers(os, file_managers_found),
            text_editors: Self::detect_text_editors(os, editors_found),
        }
    }

    /// Relies on std::path::Path::exists: whether the path points at an
    /// existing filesystem entity. The answer depends on the disk, so
    /// nothing further is promised.
    #[verifier::external_body]
    pub fn program_exists(path: &str) -> bool {
        std::path::Path::new(path).exists()
    }
}

/// The Linux and Windows terminal probe catalogs, as command and display
/// name pairs.
pub open spec fn spec_terminal_catalog(os: OsKind) -> Seq<(Seq<char>, Seq<char>)> {
    match os {
        OsKind::Windows => seq![
            ("wt"@, "Windows Terminal"@),
            ("powershell"@, "PowerShell"@),
            ("cmd"@, "Command Prompt"@),
            ("bash"@, "Git Bash"@),
        ],
        OsKind::Linux => seq![
            ("konsole"@, "Konsole"@),
            ("gnome-terminal"@, "GNOME Terminal"@),
            ("alacritty"@, "Alacritty"@),
            ("kitty"@, "Kitty"@),
            ("xfce4-terminal"@, "XFCE Terminal"@),
            ("tilix"@, "Tilix"@),
            ("xterm"@, "XTerm"@),
        ],
    }
}

pub open spec fn spec_browser_catalog(os: OsKind) -> Seq<(Seq<char>, Seq<char>)> {
    match os {
        OsKind::Windows => seq![
            ("chrome"@, "Google Chrome"@),
            ("msedge"@, "Microsoft Edge"@),
            ("firefox"@, "Mozilla Firefox"@),
            ("brave"@, "Brave"@),
        ],
        OsKind::Linux => seq![
            ("google-chrome"@, "Google Chrome"@),
            ("firefox"@, "Mozilla Firefox"@),
            ("chromium"@, "Chromium"@),
            ("brave"@, "Brave"@),
        ],
    }
}

pub open spec fn spec_file_manager_catalog(os: OsKind) -> Seq<(Seq<char>, Seq<char>)> {
    match os {
        OsKind::Windows => Seq::empty(),
        OsKind::Linux => seq![
            ("dolphin"@, "Dolphin"@),
            ("nautilus"@, "Nautilus"@),
            ("thunar"@, "Thunar"@),
            ("nemo"@, "Nemo"@),
            ("pcmanfm"@, "PCManFM"@),
        ],
    }
}

pub open spec fn spec_editor_catalog() -> Seq<(Seq<char>, Seq<char>)> {
    seq![
        ("code"@, "Visual Studio Code"@),
        ("code-insiders"@, "VS Code Insiders"@),
        ("subl"@, "Sublime Text"@),
        ("atom"@, "Atom"@),
        ("nvim"@, "Neovim"@),
        ("vim"@, "Vim"@),
        ("nano"@, "Nano"@),
    ]
}

} // verus!
