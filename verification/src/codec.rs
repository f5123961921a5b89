use vstd::prelude::*;

use crate::config::{
    AdvancedConfig, AppConfig, BackupConfig, LogLevel, PlatformConfig, ProgramConfig, ProgramMode,
    ShortcutBinding, ShortcutsConfig, ThemeMode, UiConfig, advanced_eq, backup_eq, binding_eq,
    config_eq, env_eq, opt_shortcuts_eq, opt_str_eq, pc_eq, platform_eq, sc_entries_eq,
    shortcuts_eq, str_seq_eq, ui_eq,
};
use crate::strutil::{expect_lit, lemma_matches_split, matches_at, push_char};

verus! {

// ---------------------------------------------------------------------------
// The rendered shapes of the document's pieces
// ---------------------------------------------------------------------------
/// The encoding of one character of a string value: the string delimiter
/// and the escape character are backslash-escaped, everything else is
/// written verbatim.
pub open spec fn esc_char(c: char) -> Seq<char> {
    if c == '"' || c == '\\' {
        seq!['\\', c]
    } else {
        seq![c]
    }
}

/// The escaped body of a string value.
pub open spec fn esc_str(w: Seq<char>) -> Seq<char>
    decreases w.len(),
{
    if w.len() == 0 {
        Seq::<char>::empty()
    } else {
        esc_char(w[0]) + esc_str(w.drop_first())
    }
}

/// A string value in the document: quoted and escaped.
pub open spec fn qstr(w: Seq<char>) -> Seq<char> {
    seq!['"'] + esc_str(w) + seq!['"']
}

/// Escaping distributes over appending one character at the end.
pub proof fn lemma_esc_snoc(w: Seq<char>, c: char)
    ensures
        esc_str(w.push(c)) == esc_str(w) + esc_char(c),
    decreases w.len(),
{
    if w.len() == 0 {
        assert(w.push(c).drop_first() =~= Seq::<char>::empty());
        assert(w.push(c)[0] == c);
        assert(esc_str(w.push(c)) == esc_char(c) + esc_str(Seq::<char>::empty()));
        assert(esc_char(c) + Seq::<char>::empty() =~= esc_char(c));
        assert(esc_str(w) + esc_char(c) =~= esc_char(c));
    } else {
        lemma_esc_snoc(w.drop_first(), c);
        assert(w.push(c).drop_first() =~= w.drop_first().push(c));
        assert(w.push(c)[0] == w[0]);
        assert(esc_str(w.push(c)) == esc_char(w[0]) + (esc_str(w.drop_first()) + esc_char(c)));
        assert(esc_char(w[0]) + (esc_str(w.drop_first()) + esc_char(c)) =~= (esc_char(w[0])
            + esc_str(w.drop_first())) + esc_char(c));
    }
}

pub open spec fn opt_str_r(o: Option<String>) -> Seq<char> {
    match o {
        Option::None => "null"@,
        Option::Some(s) => qstr(s@),
    }
}

pub open spec fn bool_r(b: bool) -> Seq<char> {
    if b {
        "true"@
    } else {
        "false"@
    }
}

pub open spec fn digit_char(d: nat) -> char {
    if d == 0 {
        '0'
    } else if d == 1 {
        '1'
    } else if d == 2 {
        '2'
    } else if d == 3 {
        '3'
    } else if d == 4 {
        '4'
    } else if d == 5 {
        '5'
    } else if d == 6 {
        '6'
    } else if d == 7 {
        '7'
    } else if d == 8 {
        '8'
    } else {
        '9'
    }
}

pub open spec fn digit_val(c: char) -> int {
    if c == '0' {
        0
    } else if c == '1' {
        1
    } else if c == '2' {
        2
    } else if c == '3' {
        3
    } else if c == '4' {
        4
    } else if c == '5' {
        5
    } else if c == '6' {
        6
    } else if c == '7' {
        7
    } else if c == '8' {
        8
    } else if c == '9' {
        9
    } else {
        10
    }
}

pub open spec fn is_digit(c: char) -> bool {
    digit_val(c) <= 9
}

/// The decimal digits of a number, most significant first.
pub open spec fn dec_rep(n: nat) -> Seq<char>
    decreases n,
{
    if n < 10 {
        seq![digit_char(n)]
    } else {
        dec_rep(n / 10).push(digit_char(n % 10))
    }
}

/// The value a digit string denotes.
pub open spec fn val_of(d: Seq<char>) -> int
    decreases d.len(),
{
    if d.len() == 0 {
        0
    } else {
        val_of(d.drop_last()) * 10 + digit_val(d.last())
    }
}

pub open spec fn u32_r(n: u32) -> Seq<char> {
    dec_rep(n as nat)
}

pub open spec fn mode_r(m: ProgramMode) -> Seq<char> {
    match m {
        ProgramMode::Auto => "\"auto\""@,
        ProgramMode::Default => "\"default\""@,
        ProgramMode::Custom => "\"custom\""@,
        ProgramMode::Script => "\"script\""@,
    }
}

pub open spec fn theme_r(t: ThemeMode) -> Seq<char> {
    match t {
        ThemeMode::Auto => "\"auto\""@,
        ThemeMode::Light => "\"light\""@,
        ThemeMode::Dark => "\"dark\""@,
    }
}

pub open spec fn log_r(l: LogLevel) -> Seq<char> {
    match l {
        LogLevel::Error => "\"error\""@,
        LogLevel::Warn => "\"warn\""@,
        LogLevel::Info => "\"info\""@,
        LogLevel::Debug => "\"debug\""@,
    }
}

/// The tail of a rendered string list after its first item.
pub open spec fn args_rest_r(items: Seq<String>) -> Seq<char>
    decreases items.len(),
{
    if items.len() == 0 {
        "]"@
    } else {
        ","@ + qstr(items[0]@) + args_rest_r(items.drop_first())
    }
}

pub open spec fn args_r(a: Seq<String>) -> Seq<char> {
    if a.len() == 0 {
        "[]"@
    } else {
        "["@ + qstr(a[0]@) + args_rest_r(a.drop_first())
    }
}

/// The tail of a rendered environment object after its first entry.
pub open spec fn env_rest_r(items: Seq<(String, String)>) -> Seq<char>
    decreases items.len(),
{
    if items.len() == 0 {
        "}"@
    } else {
        ","@ + qstr(items[0].0@) + ":"@ + qstr(items[0].1@) + env_rest_r(items.drop_first())
    }
}

pub open spec fn env_r(e: Seq<(String, String)>) -> Seq<char> {
    if e.len() == 0 {
        "{}"@
    } else {
        "{"@ + qstr(e[0].0@) + ":"@ + qstr(e[0].1@) + env_rest_r(e.drop_first())
    }
}

pub open spec fn pc_r(p: ProgramConfig) -> Seq<char> {
    "{\"mode\":"@ + mode_r(p.mode) + ",\"custom_path\":"@ + opt_str_r(p.custom_path)
        + ",\"custom_args\":"@ + args_r(p.custom_args@) + ",\"custom_script\":"@ + opt_str_r(
        p.custom_script,
    ) + "}"@
}

pub open spec fn platform_r(p: PlatformConfig) -> Seq<char> {
    "{\"terminal\":"@ + pc_r(p.terminal) + ",\"browser\":"@ + pc_r(p.browser)
        + ",\"file_manager\":"@ + pc_r(p.file_manager) + ",\"text_editor\":"@ + pc_r(p.text_editor)
        + ",\"environment\":"@ + env_r(p.environment@) + "}"@
}

pub open spec fn backup_r(b: BackupConfig) -> Seq<char> {
    "{\"default_path\":"@ + opt_str_r(b.default_path) + ",\"auto_backup_enabled\":"@ + bool_r(
        b.auto_backup_enabled,
    ) + ",\"auto_backup_interval\":"@ + u32_r(b.auto_backup_interval) + ",\"cleanup_old_backups\":"@
        + bool_r(b.cleanup_old_backups) + ",\"retention_days\":"@ + u32_r(b.retention_days)
        + "}"@
}

pub open spec fn ui_r(u: UiConfig) -> Seq<char> {
    "{\"theme\":"@ + theme_r(u.theme) + ",\"language\":"@ + qstr(u.language@)
        + ",\"confirm_delete\":"@ + bool_r(u.confirm_delete) + ",\"show_welcome\":"@ + bool_r(
        u.show_welcome,
    ) + "}"@
}

pub open spec fn advanced_r(a: AdvancedConfig) -> Seq<char> {
    "{\"log_level\":"@ + log_r(a.log_level) + ",\"enable_analytics\":"@ + bool_r(
        a.enable_analytics,
    ) + ",\"database_path\":"@ + opt_str_r(a.database_path) + ",\"enable_auto_update\":"@ + bool_r(
        a.enable_auto_update,
    ) + "}"@
}

/// One rendered shortcut binding.
pub open spec fn binding_r(b: ShortcutBinding) -> Seq<char> {
    "{\"key\":"@ + qstr(b.key@) + ",\"enabled\":"@ + bool_r(b.enabled) + ",\"description\":"@
        + opt_str_r(b.description) + "}"@
}

/// The tail of a rendered shortcut table after its first entry.
pub open spec fn sc_rest_r(items: Seq<(String, ShortcutBinding)>) -> Seq<char>
    decreases items.len(),
{
    if items.len() == 0 {
        "}"@
    } else {
        ","@ + qstr(items[0].0@) + ":"@ + binding_r(items[0].1) + sc_rest_r(items.drop_first())
    }
}

pub open spec fn sc_entries_r(e: Seq<(String, ShortcutBinding)>) -> Seq<char> {
    if e.len() == 0 {
        "{}"@
    } else {
        "{"@ + qstr(e[0].0@) + ":"@ + binding_r(e[0].1) + sc_rest_r(e.drop_first())
    }
}

pub open spec fn shortcuts_r(sc: ShortcutsConfig) -> Seq<char> {
    "{\"enabled\":"@ + bool_r(sc.enabled) + ",\"shortcuts\":"@ + sc_entries_r(sc.shortcuts@)
        + "}"@
}

pub open spec fn opt_shortcuts_r(o: Option<ShortcutsConfig>) -> Seq<char> {
    match o {
        Option::None => "null"@,
        Option::Some(sc) => shortcuts_r(sc),
    }
}

/// The whole rendered configuration document.
pub open spec fn config_r(c: AppConfig) -> Seq<char> {
    "{\"version\":"@ + qstr(c.version@) + ",\"platform\":"@ + platform_r(c.platform)
        + ",\"backup\":"@ + backup_r(c.backup) + ",\"ui\":"@ + ui_r(c.ui) + ",\"advanced\":"@
        + advanced_r(c.advanced) + ",\"shortcuts\":"@ + opt_shortcuts_r(c.shortcuts) + "}"@
}

// ---------------------------------------------------------------------------
// Digit lemmas
// ---------------------------------------------------------------------------
#[verifier::rlimit(50)]
pub proof fn lemma_dec_rep(n: nat)
    ensures
        dec_rep(n).len() >= 1,
        forall|k: int| 0 <= k < dec_rep(n).len() ==> is_digit(#[trigger] dec_rep(n)[k]),
        val_of(dec_rep(n)) == n,
        n >= 10 ==> dec_rep(n)[0] != '0',
    decreases n,
{
    if n < 10 {
        assert(dec_rep(n) == seq![digit_char(n)]);
        assert(dec_rep(n).drop_last() =~= Seq::<char>::empty());
        assert(val_of(Seq::<char>::empty()) == 0);
        assert(val_of(dec_rep(n)) == 0 * 10 + digit_val(digit_char(n)));
        assert(digit_val(digit_char(n)) == n);
    } else {
        lemma_dec_rep(n / 10);
        assert(dec_rep(n) == dec_rep(n / 10).push(digit_char(n % 10)));
        assert(dec_rep(n).drop_last() =~= dec_rep(n / 10));
        assert(dec_rep(n).last() == digit_char(n % 10));
        assert forall|k: int| 0 <= k < dec_rep(n).len() implies is_digit(
            #[trigger] dec_rep(n)[k],
        ) by {
            if k < dec_rep(n).len() - 1 {
                assert(dec_rep(n)[k] == dec_rep(n / 10)[k]);
            }
        }
        assert(digit_val(digit_char(n % 10)) == n % 10);
        assert(val_of(dec_rep(n)) == (n / 10) * 10 + (n % 10));
        assert((n / 10) * 10 + (n % 10) == n) by {
            vstd::arithmetic::div_mod::lemma_fundamental_div_mod(n as int, 10);
        }
        assert(dec_rep(n)[0] == dec_rep(n / 10)[0]);
        if n / 10 < 10 {
            assert(1 <= n / 10 <= 9);
            assert(dec_rep(n / 10) == seq![digit_char(n / 10)]);
            assert(dec_rep(n / 10)[0] == digit_char(n / 10));
            assert(digit_char(n / 10) != '0');
        }
    }
}

/// Digit strings denote non-negative values.
pub proof fn lemma_val_nonneg(d: Seq<char>)
    requires
        forall|k: int| 0 <= k < d.len() ==> is_digit(#[trigger] d[k]),
    ensures
        val_of(d) >= 0,
    decreases d.len(),
{
    if d.len() > 0 {
        assert forall|k: int| 0 <= k < d.drop_last().len() implies is_digit(
            #[trigger] d.drop_last()[k],
        ) by {
            assert(d.drop_last()[k] == d[k]);
        }
        lemma_val_nonneg(d.drop_last());
    }
}

/// A prefix of a digit string denotes at most the whole string's value.
pub proof fn lemma_val_prefix(d: Seq<char>, k: int)
    requires
        forall|t: int| 0 <= t < d.len() ==> is_digit(#[trigger] d[t]),
        0 <= k <= d.len(),
    ensures
        val_of(d.take(k)) <= val_of(d),
    decreases d.len() - k,
{
    if k < d.len() {
        assert forall|t: int| 0 <= t < d.take(k + 1).len() implies is_digit(
            #[trigger] d.take(k + 1)[t],
        ) by {
            assert(d.take(k + 1)[t] == d[t]);
        }
        assert(d.take(k + 1).drop_last() =~= d.take(k));
        assert(d.take(k + 1).last() == d[k]);
        assert(val_of(d.take(k + 1)) == val_of(d.take(k)) * 10 + digit_val(d[k]));
        assert forall|t: int| 0 <= t < d.take(k).len() implies is_digit(
            #[trigger] d.take(k)[t],
        ) by {
            assert(d.take(k)[t] == d[t]);
        }
        lemma_val_nonneg(d.take(k));
        assert(val_of(d.take(k)) <= val_of(d.take(k + 1)));
        lemma_val_prefix(d, k + 1);
    } else {
        assert(d.take(k) =~= d);
    }
}

// ---------------------------------------------------------------------------
// Primitive parsers. Each contract says: wherever the rendering of a value
// sits at the position, the parser recovers exactly that value and stops
// right after it.
// ---------------------------------------------------------------------------
/// Reads a string value up to its closing quote, undoing the escaping (the
/// opening quote has been consumed by the caller).
#[verifier::rlimit(100)]
pub fn parse_string_value(s: &str, i: usize) -> (r: Option<(String, usize)>)
    ensures
        forall|w: Seq<char>|
            matches_at(s@, i as int, #[trigger] (esc_str(w) + seq!['"'])) ==> (r matches Some(p)
                && p.0@ == w && p.1 == i + esc_str(w).len() + 1),
        r matches Some(p) ==> i < p.1 <= s@.len(),
    decreases s@.len() - i,
{
    let hl = s.unicode_len();
    if i >= hl {
        proof {
            assert forall|w: Seq<char>|
                matches_at(s@, i as int, #[trigger] (esc_str(w) + seq!['"'])) implies false by {
                assert(i + (esc_str(w) + seq!['"']).len() <= s@.len());
            }
        }
        return Option::None;
    }
    let c = s.get_char(i);
    if c == '"' {
        proof {
            assert forall|w: Seq<char>|
                matches_at(s@, i as int, #[trigger] (esc_str(w) + seq!['"'])) implies w
                =~= Seq::<char>::empty() by {
                if w.len() > 0 {
                    assert((esc_str(w) + seq!['"'])[0] == esc_char(w[0])[0]);
                    assert(s@.subrange(i as int, i + (esc_str(w) + seq!['"']).len())[0] == (esc_str(
                        w,
                    ) + seq!['"'])[0]);
                    assert(s@[i as int] == esc_char(w[0])[0]);
                    if w[0] == '"' || w[0] == '\\' {
                        assert(esc_char(w[0])[0] == '\\');
                    } else {
                        assert(esc_char(w[0])[0] == w[0]);
                    }
                }
            }
        }
        return Option::Some((String::new(), i + 1));
    }
    if c == '\\' {
        if i + 1 >= hl {
            proof {
                assert forall|w: Seq<char>|
                    matches_at(s@, i as int, #[trigger] (esc_str(w) + seq!['"'])) implies false by {
                    string_head_facts(s@, i as int, w);
                }
            }
            return Option::None;
        }
        let d = s.get_char(i + 1);
        if d != '"' && d != '\\' {
            proof {
                assert forall|w: Seq<char>|
                    matches_at(s@, i as int, #[trigger] (esc_str(w) + seq!['"'])) implies false by {
                    string_head_facts(s@, i as int, w);
                }
            }
            return Option::None;
        }
        let rest = match parse_string_value(s, i + 2) {
            Option::Some(pr) => pr,
            Option::None => {
                proof {
                    assert forall|w: Seq<char>|
                        matches_at(
                            s@,
                            i as int,
                            #[trigger] (esc_str(w) + seq!['"']),
                        ) implies false by {
                        string_head_facts(s@, i as int, w);
                    }
                }
                return Option::None;
            },
        };
        let mut out = String::new();
        push_char(&mut out, d);
        out.append(rest.0.as_str());
        proof {
            assert forall|w: Seq<char>|
                matches_at(s@, i as int, #[trigger] (esc_str(w) + seq!['"'])) implies (out@ == w
                && rest.1 == i + esc_str(w).len() + 1) by {
                string_head_facts(s@, i as int, w);
                assert(w[0] == d);
                assert(rest.0@ == w.drop_first());
                assert(out@ =~= w);
            }
        }
        return Option::Some((out, rest.1));
    }
    let rest = match parse_string_value(s, i + 1) {
        Option::Some(pr) => pr,
        Option::None => {
            proof {
                assert forall|w: Seq<char>|
                    matches_at(s@, i as int, #[trigger] (esc_str(w) + seq!['"'])) implies false by {
                    string_head_facts(s@, i as int, w);
                }
            }
            return Option::None;
        },
    };
    let mut out = String::new();
    push_char(&mut out, c);
    out.append(rest.0.as_str());
    proof {
        assert forall|w: Seq<char>|
            matches_at(s@, i as int, #[trigger] (esc_str(w) + seq!['"'])) implies (out@ == w
            && rest.1 == i + esc_str(w).len() + 1) by {
            string_head_facts(s@, i as int, w);
            assert(w[0] == c);
            assert(rest.0@ == w.drop_first());
            assert(out@ =~= w);
        }
    }
    Option::Some((out, rest.1))
}

/// How an escaped string value that matches at a position relates to the
/// text: a non-empty value starts with either its escaped first character
/// (two source characters) or the character itself, and the remainder of the
/// value matches right after it.
proof fn string_head_facts(s: Seq<char>, i: int, w: Seq<char>)
    requires
        matches_at(s, i, esc_str(w) + seq!['"']),
        s[i] != '"',
    ensures
        w.len() > 0,
        (s[i] == '\\') ==> (w[0] == '"' || w[0] == '\\') && i + 2 < s.len() && s[i + 1] == w[0]
            && matches_at(s, i + 2, esc_str(w.drop_first()) + seq!['"']) && esc_str(w).len() == 2
            + esc_str(w.drop_first()).len(),
        (s[i] != '\\') ==> w[0] == s[i] && !(w[0] == '"' || w[0] == '\\') && matches_at(
            s,
            i + 1,
            esc_str(w.drop_first()) + seq!['"'],
        ) && esc_str(w).len() == 1 + esc_str(w.drop_first()).len(),
{
    if w.len() == 0 {
        assert(esc_str(w) + seq!['"'] =~= seq!['"']);
        assert(s.subrange(i, i + 1)[0] == '"');
        assert(s[i] == '"');
    }
    assert(esc_str(w) == esc_char(w[0]) + esc_str(w.drop_first()));
    assert(esc_char(w[0]) + (esc_str(w.drop_first()) + seq!['"']) =~= (esc_char(w[0]) + esc_str(
        w.drop_first(),
    )) + seq!['"']);
    assert(matches_at(s, i, esc_char(w[0]) + (esc_str(w.drop_first()) + seq!['"'])));
    lemma_matches_split(s, i, esc_char(w[0]), esc_str(w.drop_first()) + seq!['"']);
    assert(matches_at(s, i, esc_char(w[0])));
    if w[0] == '"' || w[0] == '\\' {
        assert(s.subrange(i, i + 2)[0] == '\\');
        assert(s.subrange(i, i + 2)[1] == w[0]);
        assert(s[i] == '\\' && s[i + 1] == w[0]);
        assert(matches_at(s, i + 2, esc_str(w.drop_first()) + seq!['"']));
        assert(i + 2 + (esc_str(w.drop_first()) + seq!['"']).len() <= s.len());
    } else {
        assert(s.subrange(i, i + 1)[0] == w[0]);
        assert(s[i] == w[0]);
        assert(matches_at(s, i + 1, esc_str(w.drop_first()) + seq!['"']));
    }
}

/// Reads a decimal number; the caller guarantees a non-digit follows.
#[verifier::rlimit(60)]
pub fn parse_u32(s: &str, i: usize) -> (r: Option<(u32, usize)>)
    ensures
        forall|n: u32|
            matches_at(s@, i as int, #[trigger] u32_r(n)) && (i + u32_r(n).len() == s@.len()
                || !is_digit(s@[i + u32_r(n).len()])) ==> (r matches Some(p) && p.0 == n && p.1 == i
                + u32_r(n).len()),
{
    let hl = s.unicode_len();
    if i >= hl {
        proof {
            assert forall|n: u32| matches_at(s@, i as int, #[trigger] u32_r(n)) implies false by {
                lemma_dec_rep(n as nat);
            }
        }
        return Option::None;
    }
    let mut k: usize = i;
    let mut acc: u32 = 0;
    while k < hl && is_digit_exec(s.get_char(k)) && k - i < 10
        invariant
            i <= k <= hl,
            hl == s@.len(),
            k - i <= 10,
            forall|t: int| i <= t < k ==> is_digit(#[trigger] s@[t]),
            acc == val_of(s@.subrange(i as int, k as int)),
        decreases hl - k,
    {
        let c = s.get_char(k);
        let d = digit_of(c);
        proof {
            assert(s@.subrange(i as int, k + 1).drop_last() =~= s@.subrange(i as int, k as int));
            assert(s@.subrange(i as int, k + 1).last() == s@[k as int]);
        }
        if acc > (u32::MAX - d) / 10 {
            proof {
                assert forall|n: u32|
                    matches_at(s@, i as int, #[trigger] u32_r(n)) && (i + u32_r(n).len() == s@.len()
                        || !is_digit(s@[i + u32_r(n).len()])) implies false by {
                    lemma_dec_rep(n as nat);
                    let ln = u32_r(n).len() as int;
                    assert forall|t: int| 0 <= t < ln implies s@[i + t] == u32_r(n)[t] by {
                        assert(s@.subrange(i as int, i + ln)[t] == u32_r(n)[t]);
                    }
                    assert((k as int) < i + ln) by {
                        if (k as int) > i + ln {
                            assert(is_digit(s@[i + ln]));
                        }
                        if (k as int) == i + ln {
                            assert(is_digit(s@[k as int]));
                        }
                    }
                    assert(s@.subrange(i as int, k + 1) =~= u32_r(n).take(k + 1 - i));
                    lemma_val_prefix(u32_r(n), k + 1 - i);
                    assert(val_of(s@.subrange(i as int, k + 1)) <= n);
                    assert(acc * 10 + d > u32::MAX);
                }
            }
            return Option::None;
        }
        acc = acc * 10 + d;
        k = k + 1;
    }
    if k == i {
        proof {
            assert forall|n: u32| matches_at(s@, i as int, #[trigger] u32_r(n)) implies false by {
                lemma_dec_rep(n as nat);
                assert(s@.subrange(i as int, i + u32_r(n).len() as int)[0] == u32_r(n)[0]);
                assert(is_digit(s@[i as int]));
            }
        }
        return Option::None;
    }
    proof {
        assert forall|n: u32|
            matches_at(s@, i as int, #[trigger] u32_r(n)) && (i + u32_r(n).len() == s@.len()
                || !is_digit(s@[i + u32_r(n).len()])) implies acc == n && k == i
            + u32_r(n).len() by {
            lemma_dec_rep(n as nat);
            let ln = u32_r(n).len() as int;
            assert forall|t: int| 0 <= t < ln implies s@[i + t] == u32_r(n)[t] by {
                assert(s@.subrange(i as int, i + ln)[t] == u32_r(n)[t]);
            }
            assert(ln <= 10) by {
                if ln > 10 {
                    assert(n >= 10) by {
                        if n < 10 {
                            assert(u32_r(n).len() == 1);
                        }
                    }
                    assert(u32_r(n)[0] != '0');
                    lemma_val_lower(u32_r(n), 11);
                    lemma_val_prefix(u32_r(n), 11);
                    lemma_pow10_ten();
                    assert(n >= 10000000000);
                }
            }
            assert((k as int) >= i + ln) by {
                if (k as int) < i + ln {
                    assert(s@[i + (k - i)] == u32_r(n)[k - i]);
                    assert(is_digit(u32_r(n)[k - i]));
                    assert(is_digit(s@[k as int]));
                    assert(k < hl) by {
                        assert(i + ln <= hl);
                    }
                    assert(k - i < ln <= 10);
                }
            }
            assert((k as int) <= i + ln) by {
                if (k as int) > i + ln {
                    assert(i + ln < hl || i + ln == hl);
                    assert(is_digit(s@[i + ln]) || i + ln == s@.len());
                    assert(i <= i + ln < k);
                    assert(is_digit(s@[i + ln]));
                    assert(i + ln < hl);
                }
            }
            assert(s@.subrange(i as int, k as int) =~= u32_r(n));
        }
    }
    Option::Some((acc, k))
}

/// A digit string with a non-zero leading digit denotes at least the power
/// of ten of its length.
proof fn lemma_val_lower(d: Seq<char>, k: int)
    requires
        forall|t: int| 0 <= t < d.len() ==> is_digit(#[trigger] d[t]),
        1 <= k <= d.len(),
        d[0] != '0',
    ensures
        val_of(d.take(k)) >= pow10((k - 1) as nat),
    decreases k,
{
    assert(d.take(k).drop_last() =~= d.take(k - 1));
    assert(d.take(k).last() == d[k - 1]);
    if k == 1 {
        assert(val_of(d.take(1)) == val_of(d.take(0)) * 10 + digit_val(d[0]));
        assert(d.take(0) =~= Seq::<char>::empty());
        assert(digit_val(d[0]) >= 1);
        assert(pow10(0) == 1);
    } else {
        lemma_val_lower(d, k - 1);
        assert(val_of(d.take(k)) == val_of(d.take(k - 1)) * 10 + digit_val(d[k - 1]));
        assert(digit_val(d[k - 1]) >= 0);
        assert(pow10((k - 1) as nat) == pow10((k - 2) as nat) * 10);
    }
}

pub open spec fn pow10(k: nat) -> int
    decreases k,
{
    if k == 0 {
        1
    } else {
        pow10((k - 1) as nat) * 10
    }
}

/// The tenth power of ten, spelled out.
proof fn lemma_pow10_ten()
    ensures
        pow10(10) == 10000000000,
{
    assert(pow10(0) == 1);
    assert(pow10(1) == 10);
    assert(pow10(2) == 100);
    assert(pow10(3) == 1000);
    assert(pow10(4) == 10000);
    assert(pow10(5) == 100000);
    assert(pow10(6) == 1000000);
    assert(pow10(7) == 10000000);
    assert(pow10(8) == 100000000);
    assert(pow10(9) == 1000000000);
    assert(pow10(10) == 10000000000);
}

fn is_digit_exec(c: char) -> (r: bool)
    ensures
        r == is_digit(c),
{
    c >= '0' && c <= '9'
}

/// The digit denoted by a digit character.
fn digit_of(c: char) -> (r: u32)
    requires
        is_digit(c),
    ensures
        r == digit_val(c),
        r <= 9,
{
    if c == '0' {
        0
    } else if c == '1' {
        1
    } else if c == '2' {
        2
    } else if c == '3' {
        3
    } else if c == '4' {
        4
    } else if c == '5' {
        5
    } else if c == '6' {
        6
    } else if c == '7' {
        7
    } else if c == '8' {
        8
    } else {
        9
    }
}

// ---------------------------------------------------------------------------
// The renderer
// ---------------------------------------------------------------------------
/// Appends a quoted string value, escaping the delimiter and the escape
/// character.
fn render_qstr(out: &mut String, v: &str)
    ensures
        final(out)@ == old(out)@ + qstr(v@),
{
    out.append("\"");
    let n = v.unicode_len();
    let mut k: usize = 0;
    proof {
        reveal_strlit("\"");
        assert("\""@ =~= seq!['"']);
        assert(esc_str(v@.take(0)) =~= Seq::<char>::empty());
        assert(out@ =~= old(out)@ + seq!['"'] + esc_str(v@.take(0)));
    }
    while k < n
        invariant
            k <= n,
            n == v@.len(),
            out@ == old(out)@ + seq!['"'] + esc_str(v@.take(k as int)),
        decreases n - k,
    {
        let c = v.get_char(k);
        if c == '"' || c == '\\' {
            push_char(out, '\\');
        }
        push_char(out, c);
        proof {
            lemma_esc_snoc(v@.take(k as int), c);
            assert(v@.take(k + 1) =~= v@.take(k as int).push(c));
            assert(out@ =~= old(out)@ + seq!['"'] + esc_str(v@.take(k + 1)));
        }
        k = k + 1;
    }
    out.append("\"");
    proof {
        reveal_strlit("\"");
        assert("\""@ =~= seq!['"']);
        assert(v@.take(n as int) =~= v@);
        assert(out@ =~= old(out)@ + qstr(v@));
    }
}

fn render_opt_str(out: &mut String, o: &Option<String>)
    ensures
        final(out)@ == old(out)@ + opt_str_r(*o),
{
    match o {
        Option::None => {
            out.append("null");
        },
        Option::Some(v) => {
            render_qstr(out, v.as_str());
        },
    }
}

fn render_bool(out: &mut String, b: bool)
    ensures
        final(out)@ == old(out)@ + bool_r(b),
{
    if b {
        out.append("true");
    } else {
        out.append("false");
    }
}

fn digit_char_exec(d: u32) -> (r: char)
    requires
        d < 10,
    ensures
        r == digit_char(d as nat),
{
    if d == 0 {
        '0'
    } else if d == 1 {
        '1'
    } else if d == 2 {
        '2'
    } else if d == 3 {
        '3'
    } else if d == 4 {
        '4'
    } else if d == 5 {
        '5'
    } else if d == 6 {
        '6'
    } else if d == 7 {
        '7'
    } else if d == 8 {
        '8'
    } else {
        '9'
    }
}

fn render_u32(out: &mut String, n: u32)
    ensures
        final(out)@ == old(out)@ + u32_r(n),
    decreases n,
{
    if n < 10 {
        push_char(out, digit_char_exec(n));
        proof {
            assert(out@ =~= old(out)@ + u32_r(n));
        }
    } else {
        render_u32(out, n / 10);
        push_char(out, digit_char_exec(n % 10));
        proof {
            assert(dec_rep(n as nat) == dec_rep((n as nat) / 10).push(digit_char((n as nat) % 10)));
            assert(out@ =~= old(out)@ + u32_r(n));
        }
    }
}

fn render_mode(out: &mut String, m: ProgramMode)
    ensures
        final(out)@ == old(out)@ + mode_r(m),
{
    match m {
        ProgramMode::Auto => out.append("\"auto\""),
        ProgramMode::Default => out.append("\"default\""),
        ProgramMode::Custom => out.append("\"custom\""),
        ProgramMode::Script => out.append("\"script\""),
    }
}

fn render_theme(out: &mut String, t: ThemeMode)
    ensures
        final(out)@ == old(out)@ + theme_r(t),
{
    match t {
        ThemeMode::Auto => out.append("\"auto\""),
        ThemeMode::Light => out.append("\"light\""),
        ThemeMode::Dark => out.append("\"dark\""),
    }
}

fn render_log(out: &mut String, l: LogLevel)
    ensures
        final(out)@ == old(out)@ + log_r(l),
{
    match l {
        LogLevel::Error => out.append("\"error\""),
        LogLevel::Warn => out.append("\"warn\""),
        LogLevel::Info => out.append("\"info\""),
        LogLevel::Debug => out.append("\"debug\""),
    }
}

fn render_args_rest(out: &mut String, a: &Vec<String>, k: usize)
    requires
        1 <= k <= a@.len(),
    ensures
        final(out)@ == old(out)@ + args_rest_r(a@.skip(k as int)),
    decreases a@.len() - k,
{
    if k == a.len() {
        out.append("]");
        proof {
            assert(a@.skip(k as int).len() == 0);
        }
    } else {
        out.append(",");
        render_qstr(out, a[k].as_str());
        render_args_rest(out, a, k + 1);
        proof {
            assert(a@.skip(k as int).drop_first() =~= a@.skip(k + 1));
            assert(a@.skip(k as int)[0] == a@[k as int]);
            assert(out@ =~= old(out)@ + args_rest_r(a@.skip(k as int)));
        }
    }
}

fn render_args(out: &mut String, a: &Vec<String>)
    ensures
        final(out)@ == old(out)@ + args_r(a@),
{
    if a.len() == 0 {
        out.append("[]");
    } else {
        out.append("[");
        render_qstr(out, a[0].as_str());
        render_args_rest(out, a, 1);
        proof {
            assert(a@.skip(1) =~= a@.drop_first());
            assert(out@ =~= old(out)@ + args_r(a@));
        }
    }
}

fn render_env_rest(out: &mut String, e: &Vec<(String, String)>, k: usize)
    requires
        1 <= k <= e@.len(),
    ensures
        final(out)@ == old(out)@ + env_rest_r(e@.skip(k as int)),
    decreases e@.len() - k,
{
    if k == e.len() {
        out.append("}");
        proof {
            assert(e@.skip(k as int).len() == 0);
        }
    } else {
        out.append(",");
        render_qstr(out, e[k].0.as_str());
        out.append(":");
        render_qstr(out, e[k].1.as_str());
        render_env_rest(out, e, k + 1);
        proof {
            assert(e@.skip(k as int).drop_first() =~= e@.skip(k + 1));
            assert(e@.skip(k as int)[0] == e@[k as int]);
            assert(out@ =~= old(out)@ + env_rest_r(e@.skip(k as int)));
        }
    }
}

fn render_env(out: &mut String, e: &Vec<(String, String)>)
    ensures
        final(out)@ == old(out)@ + env_r(e@),
{
    if e.len() == 0 {
        out.append("{}");
    } else {
        out.append("{");
        render_qstr(out, e[0].0.as_str());
        out.append(":");
        render_qstr(out, e[0].1.as_str());
        render_env_rest(out, e, 1);
        proof {
            assert(e@.skip(1) =~= e@.drop_first());
            assert(out@ =~= old(out)@ + env_r(e@));
        }
    }
}

fn render_pc(out: &mut String, p: &ProgramConfig)
    ensures
        final(out)@ == old(out)@ + pc_r(*p),
{
    out.append("{\"mode\":");
    render_mode(out, p.mode);
    out.append(",\"custom_path\":");
    render_opt_str(out, &p.custom_path);
    out.append(",\"custom_args\":");
    render_args(out, &p.custom_args);
    out.append(",\"custom_script\":");
    render_opt_str(out, &p.custom_script);
    out.append("}");
    proof {
        assert(out@ =~= old(out)@ + pc_r(*p));
    }
}

fn render_platform(out: &mut String, p: &PlatformConfig)
    ensures
        final(out)@ == old(out)@ + platform_r(*p),
{
    out.append("{\"terminal\":");
    render_pc(out, &p.terminal);
    out.append(",\"browser\":");
    render_pc(out, &p.browser);
    out.append(",\"file_manager\":");
    render_pc(out, &p.file_manager);
    out.append(",\"text_editor\":");
    render_pc(out, &p.text_editor);
    out.append(",\"environment\":");
    render_env(out, &p.environment);
    out.append("}");
    proof {
        assert(out@ =~= old(out)@ + platform_r(*p));
    }
}

fn render_backup(out: &mut String, b: &BackupConfig)
    ensures
        final(out)@ == old(out)@ + backup_r(*b),
{
    out.append("{\"default_path\":");
    render_opt_str(out, &b.default_path);
    out.append(",\"auto_backup_enabled\":");
    render_bool(out, b.auto_backup_enabled);
    out.append(",\"auto_backup_interval\":");
    render_u32(out, b.auto_backup_interval);
    out.append(",\"cleanup_old_backups\":");
    render_bool(out, b.cleanup_old_backups);
    out.append(",\"retention_days\":");
    render_u32(out, b.retention_days);
    out.append("}");
    proof {
        assert(out@ =~= old(out)@ + backup_r(*b));
    }
}

fn render_ui(out: &mut String, u: &UiConfig)
    ensures
        final(out)@ == old(out)@ + ui_r(*u),
{
    out.append("{\"theme\":");
    render_theme(out, u.theme);
    out.append(",\"language\":");
    render_qstr(out, u.language.as_str());
    out.append(",\"confirm_delete\":");
    render_bool(out, u.confirm_delete);
    out.append(",\"show_welcome\":");
    render_bool(out, u.show_welcome);
    out.append("}");
    proof {
        assert(out@ =~= old(out)@ + ui_r(*u));
    }
}

fn render_advanced(out: &mut String, a: &AdvancedConfig)
    ensures
        final(out)@ == old(out)@ + advanced_r(*a),
{
    out.append("{\"log_level\":");
    render_log(out, a.log_level);
    out.append(",\"enable_analytics\":");
    render_bool(out, a.enable_analytics);
    out.append(",\"database_path\":");
    render_opt_str(out, &a.database_path);
    out.append(",\"enable_auto_update\":");
    render_bool(out, a.enable_auto_update);
    out.append("}");
    proof {
        assert(out@ =~= old(out)@ + advanced_r(*a));
    }
}

fn render_binding(out: &mut String, b: &ShortcutBinding)
    ensures
        final(out)@ == old(out)@ + binding_r(*b),
{
    out.append("{\"key\":");
    render_qstr(out, b.key.as_str());
    out.append(",\"enabled\":");
    render_bool(out, b.enabled);
    out.append(",\"description\":");
    render_opt_str(out, &b.description);
    out.append("}");
    proof {
        assert(out@ =~= old(out)@ + binding_r(*b));
    }
}

fn render_sc_rest(out: &mut String, e: &Vec<(String, ShortcutBinding)>, k: usize)
    requires
        1 <= k <= e@.len(),
    ensures
        final(out)@ == old(out)@ + sc_rest_r(e@.skip(k as int)),
    decreases e@.len() - k,
{
    if k == e.len() {
        out.append("}");
        proof {
            assert(e@.skip(k as int).len() == 0);
        }
    } else {
        out.append(",");
        render_qstr(out, e[k].0.as_str());
        out.append(":");
        render_binding(out, &e[k].1);
        render_sc_rest(out, e, k + 1);
        proof {
            assert(e@.skip(k as int).drop_first() =~= e@.skip(k + 1));
            assert(e@.skip(k as int)[0] == e@[k as int]);
            assert(out@ =~= old(out)@ + sc_rest_r(e@.skip(k as int)));
        }
    }
}

fn render_sc_entries(out: &mut String, e: &Vec<(String, ShortcutBinding)>)
    ensures
        final(out)@ == old(out)@ + sc_entries_r(e@),
{
    if e.len() == 0 {
        out.append("{}");
    } else {
        out.append("{");
        render_qstr(out, e[0].0.as_str());
        out.append(":");
        render_binding(out, &e[0].1);
        render_sc_rest(out, e, 1);
        proof {
            assert(e@.skip(1) =~= e@.drop_first());
            assert(out@ =~= old(out)@ + sc_entries_r(e@));
        }
    }
}

fn render_opt_shortcuts(out: &mut String, o: &Option<ShortcutsConfig>)
    ensures
        final(out)@ == old(out)@ + opt_shortcuts_r(*o),
{
    match o {
        Option::None => {
            out.append("null");
        },
        Option::Some(sc) => {
            out.append("{\"enabled\":");
            render_bool(out, sc.enabled);
            out.append(",\"shortcuts\":");
            render_sc_entries(out, &sc.shortcuts);
            out.append("}");
            proof {
                assert(out@ =~= old(out)@ + shortcuts_r(*sc));
            }
        },
    }
}

/// Renders the whole configuration document.
pub fn render_config(c: &AppConfig) -> (r: String)
    ensures
        r@ == config_r(*c),
{
    let mut out = String::new();
    out.append("{\"version\":");
    render_qstr(&mut out, c.version.as_str());
    out.append(",\"platform\":");
    render_platform(&mut out, &c.platform);
    out.append(",\"backup\":");
    render_backup(&mut out, &c.backup);
    out.append(",\"ui\":");
    render_ui(&mut out, &c.ui);
    out.append(",\"advanced\":");
    render_advanced(&mut out, &c.advanced);
    out.append(",\"shortcuts\":");
    render_opt_shortcuts(&mut out, &c.shortcuts);
    out.append("}");
    proof {
        assert(out@ =~= config_r(*c));
    }
    out
}

// ---------------------------------------------------------------------------
// Scalar parsers
// ---------------------------------------------------------------------------
/// Splits a quoted string into its delimiter and escaped body.
proof fn lemma_qstr_parts(s: Seq<char>, i: int, w: Seq<char>)
    requires
        matches_at(s, i, qstr(w)),
    ensures
        matches_at(s, i, "\""@),
        matches_at(s, i + 1, esc_str(w) + seq!['"']),
        qstr(w).len() == esc_str(w).len() + 2,
{
    reveal_strlit("\"");
    assert("\""@ =~= seq!['"']);
    lemma_matches_split(s, i, seq!['"'] + esc_str(w), seq!['"']);
    lemma_matches_split(s, i, seq!['"'], esc_str(w));
    lemma_matches_split(s, i + 1, esc_str(w), seq!['"']);
    assert(matches_at(s, i, seq!['"']));
    assert(matches_at(s, i, "\""@));
}

/// A position that starts `null` does not hold a quote.
proof fn lemma_null_quote_disjoint(s: Seq<char>, i: int)
    requires
        matches_at(s, i, "null"@),
    ensures
        !matches_at(s, i, "\""@),
{
    reveal_strlit("null");
    reveal_strlit("\"");
    if matches_at(s, i, "\""@) {
        assert(s.subrange(i, i + "null"@.len())[0] == 'n');
        assert(s.subrange(i, i + "\""@.len())[0] == '"');
        assert(s[i] == 'n' && s[i] == '"');
    }
}

fn parse_opt_str(s: &str, i: usize) -> (r: Option<(Option<String>, usize)>)
    ensures
        forall|o: Option<String>|
            matches_at(s@, i as int, #[trigger] opt_str_r(o)) ==> (r matches Some(p)
                && opt_str_eq(p.0, o) && p.1 == i + opt_str_r(o).len()),
        r matches Some(p) ==> i < p.1 <= s@.len(),
{
    match expect_lit(s, i, "null") {
        Option::Some(j) => {
            proof {
                reveal_strlit("null");
                assert forall|o: Option<String>|
                    matches_at(s@, i as int, #[trigger] opt_str_r(o)) implies (
                opt_str_eq(Option::<String>::None, o) && j == i + opt_str_r(o).len()) by {
                    match o {
                        Option::None => {},
                        Option::Some(x) => {
                            lemma_qstr_parts(s@, i as int, x@);
                            lemma_null_quote_disjoint(s@, i as int);
                        },
                    }
                }
            }
            Option::Some((Option::None, j))
        },
        Option::None => {
            match expect_lit(s, i, "\"") {
                Option::None => {
                    proof {
                        assert forall|o: Option<String>|
                            matches_at(
                                s@,
                                i as int,
                                #[trigger] opt_str_r(o),
                            ) implies false by {
                            match o {
                                Option::None => {},
                                Option::Some(x) => {
                                    lemma_qstr_parts(s@, i as int, x@);
                                },
                            }
                        }
                    }
                    Option::None
                },
                Option::Some(i1) => {
                    proof {
                        reveal_strlit("\"");
                    }
                    match parse_string_value(s, i1) {
                        Option::None => {
                            proof {
                                assert forall|o: Option<String>|
                                    matches_at(
                                        s@,
                                        i as int,
                                        #[trigger] opt_str_r(o),
                                    ) implies false by {
                                    match o {
                                        Option::None => {
                                            lemma_null_quote_disjoint(s@, i as int);
                                        },
                                        Option::Some(x) => {
                                            lemma_qstr_parts(s@, i as int, x@);
                                        },
                                    }
                                }
                            }
                            Option::None
                        },
                        Option::Some((v, j2)) => {
                            proof {
                                assert forall|o: Option<String>|
                                    matches_at(
                                        s@,
                                        i as int,
                                        #[trigger] opt_str_r(o),
                                    ) implies (opt_str_eq(Option::Some(v), o) && j2 == i
                                    + opt_str_r(o).len()) by {
                                    match o {
                                        Option::None => {
                                            lemma_null_quote_disjoint(s@, i as int);
                                        },
                                        Option::Some(x) => {
                                            lemma_qstr_parts(s@, i as int, x@);
                                        },
                                    }
                                }
                            }
                            Option::Some((Option::Some(v), j2))
                        },
                    }
                },
            }
        },
    }
}

fn parse_bool(s: &str, i: usize) -> (r: Option<(bool, usize)>)
    ensures
        forall|b: bool|
            matches_at(s@, i as int, #[trigger] bool_r(b)) ==> (r matches Some(p) && p.0 == b
                && p.1 == i + bool_r(b).len()),
        r matches Some(p) ==> i < p.1 <= s@.len(),
{
    match expect_lit(s, i, "true") {
        Option::Some(j) => {
            proof {
                reveal_strlit("true");
                reveal_strlit("false");
                assert forall|b: bool|
                    matches_at(s@, i as int, #[trigger] bool_r(b)) implies (b == true && j == i
                    + bool_r(b).len()) by {
                    if !b {
                        assert(s@.subrange(i as int, i + "true"@.len())[0] == 't');
                        assert(s@.subrange(i as int, i + "false"@.len())[0] == 'f');
                    }
                }
            }
            Option::Some((true, j))
        },
        Option::None => {
            match expect_lit(s, i, "false") {
                Option::Some(j) => {
                    proof {
                        reveal_strlit("true");
                        reveal_strlit("false");
                        assert(i < j <= s@.len());
                        assert forall|b: bool|
                            matches_at(s@, i as int, #[trigger] bool_r(b)) implies (b == false && j
                            == i + bool_r(b).len()) by {}
                    }
                    Option::Some((false, j))
                },
                Option::None => {
                    Option::None
                },
            }
        },
    }
}

/// Two different rendered mode keywords cannot start at one position.
proof fn lemma_mode_disjoint(s: Seq<char>, i: int, m1: ProgramMode, m2: ProgramMode)
    requires
        matches_at(s, i, mode_r(m1)),
        matches_at(s, i, mode_r(m2)),
    ensures
        m1 == m2,
{
    reveal_strlit("\"auto\"");
    reveal_strlit("\"default\"");
    reveal_strlit("\"custom\"");
    reveal_strlit("\"script\"");
    if m1 != m2 {
        assert(s.subrange(i, i + mode_r(m1).len())[1] == mode_r(m1)[1]);
        assert(s.subrange(i, i + mode_r(m2).len())[1] == mode_r(m2)[1]);
        assert(s[i + 1] == mode_r(m1)[1] && s[i + 1] == mode_r(m2)[1]);
    }
}

fn parse_mode(s: &str, i: usize) -> (r: Option<(ProgramMode, usize)>)
    ensures
        forall|m: ProgramMode|
            matches_at(s@, i as int, #[trigger] mode_r(m)) ==> (r matches Some(p) && p.0 == m
                && p.1 == i + mode_r(m).len()),
        r matches Some(p) ==> i < p.1 <= s@.len(),
{
    match expect_lit(s, i, "\"auto\"") {
        Option::Some(j) => {
            proof {
                assert forall|m: ProgramMode|
                    matches_at(s@, i as int, #[trigger] mode_r(m)) implies (m == ProgramMode::Auto
                    && j == i + mode_r(m).len()) by {
                    lemma_mode_disjoint(s@, i as int, ProgramMode::Auto, m);
                }
                reveal_strlit("\"auto\"");
            }
            return Option::Some((ProgramMode::Auto, j));
        },
        Option::None => {},
    }
    match expect_lit(s, i, "\"default\"") {
        Option::Some(j) => {
            proof {
                assert forall|m: ProgramMode|
                    matches_at(s@, i as int, #[trigger] mode_r(m)) implies (m
                    == ProgramMode::Default && j == i + mode_r(m).len()) by {
                    lemma_mode_disjoint(s@, i as int, ProgramMode::Default, m);
                }
                reveal_strlit("\"default\"");
            }
            return Option::Some((ProgramMode::Default, j));
        },
        Option::None => {},
    }
    match expect_lit(s, i, "\"custom\"") {
        Option::Some(j) => {
            proof {
                assert forall|m: ProgramMode|
                    matches_at(s@, i as int, #[trigger] mode_r(m)) implies (m == ProgramMode::Custom
                    && j == i + mode_r(m).len()) by {
                    lemma_mode_disjoint(s@, i as int, ProgramMode::Custom, m);
                }
                reveal_strlit("\"custom\"");
            }
            return Option::Some((ProgramMode::Custom, j));
        },
        Option::None => {},
    }
    match expect_lit(s, i, "\"script\"") {
        Option::Some(j) => {
            proof {
                assert forall|m: ProgramMode|
                    matches_at(s@, i as int, #[trigger] mode_r(m)) implies (m == ProgramMode::Script
                    && j == i + mode_r(m).len()) by {
                    lemma_mode_disjoint(s@, i as int, ProgramMode::Script, m);
                }
                reveal_strlit("\"script\"");
            }
            return Option::Some((ProgramMode::Script, j));
        },
        Option::None => {},
    }
    Option::None
}

proof fn lemma_theme_disjoint(s: Seq<char>, i: int, m1: ThemeMode, m2: ThemeMode)
    requires
        matches_at(s, i, theme_r(m1)),
        matches_at(s, i, theme_r(m2)),
    ensures
        m1 == m2,
{
    reveal_strlit("\"auto\"");
    reveal_strlit("\"light\"");
    reveal_strlit("\"dark\"");
    if m1 != m2 {
        assert(s.subrange(i, i + theme_r(m1).len())[1] == theme_r(m1)[1]);
        assert(s.subrange(i, i + theme_r(m2).len())[1] == theme_r(m2)[1]);
        assert(s[i + 1] == theme_r(m1)[1] && s[i + 1] == theme_r(m2)[1]);
    }
}

fn parse_theme(s: &str, i: usize) -> (r: Option<(ThemeMode, usize)>)
    ensures
        forall|m: ThemeMode|
            matches_at(s@, i as int, #[trigger] theme_r(m)) ==> (r matches Some(p) && p.0 == m
                && p.1 == i + theme_r(m).len()),
        r matches Some(p) ==> i < p.1 <= s@.len(),
{
    match expect_lit(s, i, "\"auto\"") {
        Option::Some(j) => {
            proof {
                assert forall|m: ThemeMode|
                    matches_at(s@, i as int, #[trigger] theme_r(m)) implies (m == ThemeMode::Auto
                    && j == i + theme_r(m).len()) by {
                    lemma_theme_disjoint(s@, i as int, ThemeMode::Auto, m);
                }
                reveal_strlit("\"auto\"");
            }
            return Option::Some((ThemeMode::Auto, j));
        },
        Option::None => {},
    }
    match expect_lit(s, i, "\"light\"") {
        Option::Some(j) => {
            proof {
                assert forall|m: ThemeMode|
                    matches_at(s@, i as int, #[trigger] theme_r(m)) implies (m == ThemeMode::Light
                    && j == i + theme_r(m).len()) by {
                    lemma_theme_disjoint(s@, i as int, ThemeMode::Light, m);
                }
                reveal_strlit("\"light\"");
            }
            return Option::Some((ThemeMode::Light, j));
        },
        Option::None => {},
    }
    match expect_lit(s, i, "\"dark\"") {
        Option::Some(j) => {
            proof {
                assert forall|m: ThemeMode|
                    matches_at(s@, i as int, #[trigger] theme_r(m)) implies (m == ThemeMode::Dark
                    && j == i + theme_r(m).len()) by {
                    lemma_theme_disjoint(s@, i as int, ThemeMode::Dark, m);
                }
                reveal_strlit("\"dark\"");
            }
            return Option::Some((ThemeMode::Dark, j));
        },
        Option::None => {},
    }
    Option::None
}

proof fn lemma_log_disjoint(s: Seq<char>, i: int, m1: LogLevel, m2: LogLevel)
    requires
        matches_at(s, i, log_r(m1)),
        matches_at(s, i, log_r(m2)),
    ensures
        m1 == m2,
{
    reveal_strlit("\"error\"");
    reveal_strlit("\"warn\"");
    reveal_strlit("\"info\"");
    reveal_strlit("\"debug\"");
    if m1 != m2 {
        assert(s.subrange(i, i + log_r(m1).len())[1] == log_r(m1)[1]);
        assert(s.subrange(i, i + log_r(m2).len())[1] == log_r(m2)[1]);
        assert(s[i + 1] == log_r(m1)[1] && s[i + 1] == log_r(m2)[1]);
    }
}

fn parse_log(s: &str, i: usize) -> (r: Option<(LogLevel, usize)>)
    ensures
        forall|m: LogLevel|
            matches_at(s@, i as int, #[trigger] log_r(m)) ==> (r matches Some(p) && p.0 == m && p.1
                == i + log_r(m).len()),
        r matches Some(p) ==> i < p.1 <= s@.len(),
{
    match expect_lit(s, i, "\"error\"") {
        Option::Some(j) => {
            proof {
                assert forall|m: LogLevel|
                    matches_at(s@, i as int, #[trigger] log_r(m)) implies (m == LogLevel::Error && j
                    == i + log_r(m).len()) by {
                    lemma_log_disjoint(s@, i as int, LogLevel::Error, m);
                }
                reveal_strlit("\"error\"");
            }
            return Option::Some((LogLevel::Error, j));
        },
        Option::None => {},
    }
    match expect_lit(s, i, "\"warn\"") {
        Option::Some(j) => {
            proof {
                assert forall|m: LogLevel|
                    matches_at(s@, i as int, #[trigger] log_r(m)) implies (m == LogLevel::Warn && j
                    == i + log_r(m).len()) by {
                    lemma_log_disjoint(s@, i as int, LogLevel::Warn, m);
                }
                reveal_strlit("\"warn\"");
            }
            return Option::Some((LogLevel::Warn, j));
        },
        Option::None => {},
    }
    match expect_lit(s, i, "\"info\"") {
        Option::Some(j) => {
            proof {
                assert forall|m: LogLevel|
                    matches_at(s@, i as int, #[trigger] log_r(m)) implies (m == LogLevel::Info && j
                    == i + log_r(m).len()) by {
                    lemma_log_disjoint(s@, i as int, LogLevel::Info, m);
                }
                reveal_strlit("\"info\"");
            }
            return Option::Some((LogLevel::Info, j));
        },
        Option::None => {},
    }
    match expect_lit(s, i, "\"debug\"") {
        Option::Some(j) => {
            proof {
                assert forall|m: LogLevel|
                    matches_at(s@, i as int, #[trigger] log_r(m)) implies (m == LogLevel::Debug && j
                    == i + log_r(m).len()) by {
                    lemma_log_disjoint(s@, i as int, LogLevel::Debug, m);
                }
                reveal_strlit("\"debug\"");
            }
            return Option::Some((LogLevel::Debug, j));
        },
        Option::None => {},
    }
    Option::None
}

// ---------------------------------------------------------------------------
// List parsers
// ---------------------------------------------------------------------------
fn parse_args_rest(s: &str, i: usize) -> (r: Option<(Vec<String>, usize)>)
    ensures
        forall|items: Seq<String>|
            matches_at(s@, i as int, #[trigger] args_rest_r(items)) ==> (
            r matches Some(p) && str_seq_eq(p.0@, items) && p.1 == i + args_rest_r(items).len()),
        r matches Some(p) ==> i < p.1 <= s@.len(),
    decreases s@.len() - i,
{
    proof {
        reveal_strlit("]");
        reveal_strlit(",");
        reveal_strlit("\"");
    }
    match expect_lit(s, i, "]") {
        Option::Some(j) => {
            proof {
                assert forall|items: Seq<String>|
                    matches_at(
                        s@,
                        i as int,
                        #[trigger] args_rest_r(items),
                    ) implies (str_seq_eq(Seq::<String>::empty(), items) && j == i + args_rest_r(
                    items,
                ).len()) by {
                    if items.len() > 0 {
                        assert(s@.subrange(i as int, i + args_rest_r(items).len())[0]
                            == args_rest_r(items)[0]);
                        assert(args_rest_r(items)[0] == ',');
                        assert(s@.subrange(i as int, i + "]"@.len())[0] == ']');
                    }
                }
                reveal_strlit("}");
            }
            return Option::Some((Vec::new(), j));
        },
        Option::None => {},
    }
    match expect_lit(s, i, ",") {
        Option::None => {
            proof {
                assert forall|items: Seq<String>|
                    matches_at(
                        s@,
                        i as int,
                        #[trigger] args_rest_r(items),
                    ) implies false by {
                    if items.len() > 0 {
                        lemma_matches_split(
                            s@,
                            i as int,
                            ","@ + qstr(items[0]@),
                            args_rest_r(items.drop_first()),
                        );
                        lemma_matches_split(s@, i as int, ","@, qstr(items[0]@));
                    }
                }
            }
            return Option::None;
        },
        Option::Some(i1) => {
            proof {
                assert(i1 == i + 1);
            }
            match expect_lit(s, i1, "\"") {
                Option::None => {
                    proof {
                        assert forall|items: Seq<String>|
                            matches_at(
                                s@,
                                i as int,
                                #[trigger] args_rest_r(items),
                            ) implies false by {
                            if items.len() > 0 {
                                lemma_matches_split(
                                    s@,
                                    i as int,
                                    ","@ + qstr(items[0]@),
                                    args_rest_r(items.drop_first()),
                                );
                                lemma_matches_split(s@, i as int, ","@, qstr(items[0]@));
                                lemma_qstr_parts(s@, i + 1, items[0]@);
                            } else {
                                assert(s@.subrange(i as int, i + "]"@.len())[0] == ']');
                                assert(s@.subrange(i as int, i + ","@.len())[0] == ',');
                            }
                        }
                    }
                    return Option::None;
                },
                Option::Some(i2) => {
                    match parse_string_value(s, i2) {
                        Option::None => {
                            proof {
                                assert forall|items: Seq<String>|
                                    matches_at(
                                        s@,
                                        i as int,
                                        #[trigger] args_rest_r(items),
                                    ) implies false by {
                                    if items.len() > 0 {
                                        lemma_matches_split(
                                            s@,
                                            i as int,
                                            ","@ + qstr(items[0]@),
                                            args_rest_r(items.drop_first()),
                                        );
                                        lemma_matches_split(s@, i as int, ","@, qstr(items[0]@));
                                        lemma_qstr_parts(s@, i + 1, items[0]@);
                                    } else {
                                        assert(s@.subrange(i as int, i + "]"@.len())[0] == ']');
                                        assert(s@.subrange(i as int, i + ","@.len())[0] == ',');
                                    }
                                }
                            }
                            return Option::None;
                        },
                        Option::Some((first, i3)) => {
                            match parse_args_rest(s, i3) {
                                Option::None => {
                                    proof {
                                        assert forall|items: Seq<String>|
                                            matches_at(
                                                s@,
                                                i as int,
                                                #[trigger] args_rest_r(items),
                                            ) implies false by {
                                            if items.len() > 0 {
                                                lemma_matches_split(
                                                    s@,
                                                    i as int,
                                                    ","@ + qstr(items[0]@),
                                                    args_rest_r(items.drop_first()),
                                                );
                                                lemma_matches_split(
                                                    s@,
                                                    i as int,
                                                    ","@,
                                                    qstr(items[0]@),
                                                );
                                                lemma_qstr_parts(s@, i + 1, items[0]@);
                                                assert(forall|t: int|
                                                    0 <= t < items.drop_first().len()
                                                        ==> #[trigger] items.drop_first()[t]
                                                        == items[t + 1]);
                                            } else {
                                                assert(s@.subrange(i as int, i + "]"@.len())[0]
                                                    == ']');
                                                assert(s@.subrange(i as int, i + ","@.len())[0]
                                                    == ',');
                                            }
                                        }
                                    }
                                    return Option::None;
                                },
                                Option::Some((rest_v, j)) => {
                                    let mut out_v = rest_v;
                                    out_v.insert(0, first);
                                    proof {
                                        assert forall|items: Seq<String>|
                                            matches_at(
                                                s@,
                                                i as int,
                                                #[trigger] args_rest_r(items),
                                            ) implies (str_seq_eq(out_v@, items) && j == i
                                            + args_rest_r(items).len()) by {
                                            if items.len() > 0 {
                                                lemma_matches_split(
                                                    s@,
                                                    i as int,
                                                    ","@ + qstr(items[0]@),
                                                    args_rest_r(items.drop_first()),
                                                );
                                                lemma_matches_split(
                                                    s@,
                                                    i as int,
                                                    ","@,
                                                    qstr(items[0]@),
                                                );
                                                lemma_qstr_parts(s@, i + 1, items[0]@);
                                                assert(first@ == items[0]@);
                                                assert(i3 == i + 1 + esc_str(items[0]@).len() + 2);
                                                assert(forall|t: int|
                                                    0 <= t < items.drop_first().len()
                                                        ==> #[trigger] items.drop_first()[t]
                                                        == items[t + 1]);
                                                assert(str_seq_eq(rest_v@, items.drop_first()));
                                                assert forall|t: int|
                                                    0 <= t < out_v@.len() implies (
                                                #[trigger] out_v@[t])@ == items[t]@ by {
                                                    if t > 0 {
                                                        assert(out_v@[t] == rest_v@[t - 1]);
                                                        assert(items.drop_first()[t - 1]
                                                            == items[t]);
                                                    }
                                                }
                                            } else {
                                                assert(s@.subrange(i as int, i + "]"@.len())[0]
                                                    == ']');
                                                assert(s@.subrange(i as int, i + ","@.len())[0]
                                                    == ',');
                                            }
                                        }
                                    }
                                    return Option::Some((out_v, j));
                                },
                            }
                        },
                    }
                },
            }
        },
    }
}

fn parse_args(s: &str, i: usize) -> (r: Option<(Vec<String>, usize)>)
    ensures
        forall|a: Seq<String>|
            matches_at(s@, i as int, #[trigger] args_r(a)) ==> (r matches Some(p)
                && str_seq_eq(p.0@, a) && p.1 == i + args_r(a).len()),
        r matches Some(p) ==> i < p.1 <= s@.len(),
{
    proof {
        reveal_strlit("[");
        reveal_strlit("[]");
        reveal_strlit("\"");
    }
    match expect_lit(s, i, "[]") {
        Option::Some(j) => {
            proof {
                assert forall|a: Seq<String>|
                    matches_at(s@, i as int, #[trigger] args_r(a)) implies (
                str_seq_eq(Seq::<String>::empty(), a) && j == i + args_r(a).len()) by {
                    if a.len() > 0 {
                        lemma_matches_split(
                            s@,
                            i as int,
                            "["@ + qstr(a[0]@),
                            args_rest_r(a.drop_first()),
                        );
                        lemma_matches_split(s@, i as int, "["@, qstr(a[0]@));
                        lemma_qstr_parts(s@, i + 1, a[0]@);
                        assert(s@.subrange(i + 1, i + 1 + "\""@.len() as int)[0] == '"');
                        assert(s@.subrange(i as int, i + "[]"@.len())[1] == ']');
                        assert(s@[i + 1] == '"' && s@[i + 1] == ']');
                    }
                }
            }
            return Option::Some((Vec::new(), j));
        },
        Option::None => {},
    }
    match expect_lit(s, i, "[") {
        Option::None => {
            proof {
                assert forall|a: Seq<String>|
                    matches_at(s@, i as int, #[trigger] args_r(a)) implies false by {
                    if a.len() > 0 {
                        lemma_matches_split(
                            s@,
                            i as int,
                            "["@ + qstr(a[0]@),
                            args_rest_r(a.drop_first()),
                        );
                        lemma_matches_split(s@, i as int, "["@, qstr(a[0]@));
                    } else {
                        assert(s@.subrange(i as int, i + "[]"@.len())[0] == '[');
                        assert(matches_at(s@, i as int, "["@)) by {
                            assert(s@.subrange(i as int, i + "["@.len()) =~= "["@);
                        }
                    }
                }
            }
            return Option::None;
        },
        Option::Some(i1) => {
            match expect_lit(s, i1, "\"") {
                Option::None => {
                    proof {
                        assert forall|a: Seq<String>|
                            matches_at(
                                s@,
                                i as int,
                                #[trigger] args_r(a),
                            ) implies false by {
                            if a.len() > 0 {
                                lemma_matches_split(
                                    s@,
                                    i as int,
                                    "["@ + qstr(a[0]@),
                                    args_rest_r(a.drop_first()),
                                );
                                lemma_matches_split(s@, i as int, "["@, qstr(a[0]@));
                                lemma_qstr_parts(s@, i + 1, a[0]@);
                            } else {
                                assert(s@.subrange(i as int, i + "[]"@.len())[1] == ']');
                                assert(matches_at(s@, i + 1, "\""@) == false);
                                assert(s@.subrange(i as int, i + "[]"@.len()) == "[]"@);
                                assert(matches_at(s@, i + 1, "]"@)) by {
                                    reveal_strlit("]");
                                    assert(s@.subrange(i + 1, i + 2) =~= "]"@);
                                }
                                assert(matches_at(s@, i1 as int, "]"@));
                            }
                        }
                    }
                    return Option::None;
                },
                Option::Some(i2) => {
                    proof {
                        assert forall|a: Seq<String>|
                            matches_at(s@, i as int, #[trigger] args_r(a)) && a.len()
                                == 0 implies false by {
                            assert(s@.subrange(i as int, i + "[]"@.len())[1] == ']');
                            assert(s@.subrange(i1 as int, i1 + "\""@.len())[0] == '"');
                            assert(s@[i + 1] == ']' && s@[i + 1] == '"');
                        }
                    }
                    match parse_string_value(s, i2) {
                        Option::None => {
                            proof {
                                assert forall|a: Seq<String>|
                                    matches_at(
                                        s@,
                                        i as int,
                                        #[trigger] args_r(a),
                                    ) implies false by {
                                    if a.len() > 0 {
                                        lemma_matches_split(
                                            s@,
                                            i as int,
                                            "["@ + qstr(a[0]@),
                                            args_rest_r(a.drop_first()),
                                        );
                                        lemma_matches_split(s@, i as int, "["@, qstr(a[0]@));
                                        lemma_qstr_parts(s@, i + 1, a[0]@);
                                    }
                                }
                            }
                            return Option::None;
                        },
                        Option::Some((first, i3)) => {
                            match parse_args_rest(s, i3) {
                                Option::None => {
                                    proof {
                                        assert forall|a: Seq<String>|
                                            matches_at(
                                                s@,
                                                i as int,
                                                #[trigger] args_r(a),
                                            ) implies false by {
                                            if a.len() > 0 {
                                                lemma_matches_split(
                                                    s@,
                                                    i as int,
                                                    "["@ + qstr(a[0]@),
                                                    args_rest_r(a.drop_first()),
                                                );
                                                lemma_matches_split(s@, i as int, "["@, qstr(a[0]@));
                                                lemma_qstr_parts(s@, i + 1, a[0]@);
                                                assert(first@ == a[0]@);
                                                assert(forall|t: int|
                                                    0 <= t < a.drop_first().len()
                                                        ==> #[trigger] a.drop_first()[t] == a[t
                                                        + 1]);
                                            }
                                        }
                                    }
                                    return Option::None;
                                },
                                Option::Some((rest_v, j)) => {
                                    let mut out_v = rest_v;
                                    out_v.insert(0, first);
                                    proof {
                                        assert forall|a: Seq<String>|
                                            matches_at(
                                                s@,
                                                i as int,
                                                #[trigger] args_r(a),
                                            ) implies (str_seq_eq(out_v@, a) && j == i + args_r(
                                            a,
                                        ).len()) by {
                                            if a.len() > 0 {
                                                lemma_matches_split(
                                                    s@,
                                                    i as int,
                                                    "["@ + qstr(a[0]@),
                                                    args_rest_r(a.drop_first()),
                                                );
                                                lemma_matches_split(s@, i as int, "["@, qstr(a[0]@));
                                                lemma_qstr_parts(s@, i + 1, a[0]@);
                                                assert(first@ == a[0]@);
                                                assert(i3 == i + 1 + esc_str(a[0]@).len() + 2);
                                                assert(forall|t: int|
                                                    0 <= t < a.drop_first().len()
                                                        ==> #[trigger] a.drop_first()[t] == a[t
                                                        + 1]);
                                                assert(str_seq_eq(rest_v@, a.drop_first()));
                                                assert forall|t: int|
                                                    0 <= t < out_v@.len() implies (
                                                #[trigger] out_v@[t])@ == a[t]@ by {
                                                    if t > 0 {
                                                        assert(out_v@[t] == rest_v@[t - 1]);
                                                        assert(a.drop_first()[t - 1] == a[t]);
                                                    }
                                                }
                                            }
                                        }
                                    }
                                    return Option::Some((out_v, j));
                                },
                            }
                        },
                    }
                },
            }
        },
    }
}

#[verifier::rlimit(60)]
fn parse_env_rest(s: &str, i: usize) -> (r: Option<(Vec<(String, String)>, usize)>)
    ensures
        forall|items: Seq<(String, String)>|
            matches_at(s@, i as int, #[trigger] env_rest_r(items)) ==> (
            r matches Some(p) && env_eq(p.0@, items) && p.1 == i + env_rest_r(items).len()),
        r matches Some(p) ==> i < p.1 <= s@.len(),
    decreases s@.len() - i,
{
    match expect_lit(s, i, "}") {
        Option::Some(j) => {
            proof {
                assert forall|items: Seq<(String, String)>|
                    matches_at(
                        s@,
                        i as int,
                        #[trigger] env_rest_r(items),
                    ) implies (env_eq(Seq::<(String, String)>::empty(), items) && j == i
                    + env_rest_r(items).len()) by {
                    if items.len() > 0 {
                        reveal_strlit("}");
                        reveal_strlit(",");
                        lemma_env_pair_parts(s@, i as int, items, ","@);
                        assert(s@.subrange(i as int, i + ","@.len())[0] == ',');
                        assert(s@.subrange(i as int, i + "}"@.len())[0] == '}');
                    }
                }
                reveal_strlit("}");
            }
            return Option::Some((Vec::new(), j));
        },
        Option::None => {},
    }
    match expect_lit(s, i, ",") {
        Option::None => {
            proof {
                assert forall|items: Seq<(String, String)>|
                    matches_at(
                        s@,
                        i as int,
                        #[trigger] env_rest_r(items),
                    ) implies false by {
                    if items.len() > 0 {
                        reveal_strlit(",");
                        lemma_env_pair_parts(s@, i as int, items, ","@);
                    }
                }
            }
            return Option::None;
        },
        Option::Some(i1) => {
            let i2 = match expect_lit(s, i1, "\"") {
                Option::Some(j) => j,
                Option::None => {
                    proof {
                        assert forall|items: Seq<(String, String)>|
                            matches_at(
                                s@,
                                i as int,
                                #[trigger] env_rest_r(items),
                            ) implies false by {
                            reveal_strlit(",");
                            reveal_strlit("\"");
                            reveal_strlit(":");
                            reveal_strlit("}");
                            if items.len() > 0 {
                                lemma_env_pair_parts(s@, i as int, items, ","@);
                            } else {
                                assert(s@.subrange(i as int, i + "}"@.len())[0] == '}');
                                assert(s@.subrange(i as int, i + ","@.len())[0] == ',');
                            }
                        }
                    }
                    return Option::None;
                },
            };
            let (key, i3) = match parse_string_value(s, i2) {
                Option::Some(pr) => pr,
                Option::None => {
                    proof {
                        assert forall|items: Seq<(String, String)>|
                            matches_at(
                                s@,
                                i as int,
                                #[trigger] env_rest_r(items),
                            ) implies false by {
                            reveal_strlit(",");
                            reveal_strlit("\"");
                            reveal_strlit(":");
                            reveal_strlit("}");
                            if items.len() > 0 {
                                lemma_env_pair_parts(s@, i as int, items, ","@);
                            } else {
                                assert(s@.subrange(i as int, i + "}"@.len())[0] == '}');
                                assert(s@.subrange(i as int, i + ","@.len())[0] == ',');
                            }
                        }
                    }
                    return Option::None;
                },
            };
            let i4 = match expect_lit(s, i3, ":") {
                Option::Some(j) => j,
                Option::None => {
                    proof {
                        assert forall|items: Seq<(String, String)>|
                            matches_at(
                                s@,
                                i as int,
                                #[trigger] env_rest_r(items),
                            ) implies false by {
                            reveal_strlit(",");
                            reveal_strlit("\"");
                            reveal_strlit(":");
                            reveal_strlit("}");
                            if items.len() > 0 {
                                lemma_env_pair_parts(s@, i as int, items, ","@);
                            } else {
                                assert(s@.subrange(i as int, i + "}"@.len())[0] == '}');
                                assert(s@.subrange(i as int, i + ","@.len())[0] == ',');
                            }
                        }
                    }
                    return Option::None;
                },
            };
            let i5 = match expect_lit(s, i4, "\"") {
                Option::Some(j) => j,
                Option::None => {
                    proof {
                        assert forall|items: Seq<(String, String)>|
                            matches_at(
                                s@,
                                i as int,
                                #[trigger] env_rest_r(items),
                            ) implies false by {
                            reveal_strlit(",");
                            reveal_strlit("\"");
                            reveal_strlit(":");
                            reveal_strlit("}");
                            if items.len() > 0 {
                                lemma_env_pair_parts(s@, i as int, items, ","@);
                            } else {
                                assert(s@.subrange(i as int, i + "}"@.len())[0] == '}');
                                assert(s@.subrange(i as int, i + ","@.len())[0] == ',');
                            }
                        }
                    }
                    return Option::None;
                },
            };
            let (val, i6) = match parse_string_value(s, i5) {
                Option::Some(pr) => pr,
                Option::None => {
                    proof {
                        assert forall|items: Seq<(String, String)>|
                            matches_at(
                                s@,
                                i as int,
                                #[trigger] env_rest_r(items),
                            ) implies false by {
                            reveal_strlit(",");
                            reveal_strlit("\"");
                            reveal_strlit(":");
                            reveal_strlit("}");
                            if items.len() > 0 {
                                lemma_env_pair_parts(s@, i as int, items, ","@);
                            } else {
                                assert(s@.subrange(i as int, i + "}"@.len())[0] == '}');
                                assert(s@.subrange(i as int, i + ","@.len())[0] == ',');
                            }
                        }
                    }
                    return Option::None;
                },
            };
            let (rest_v, j) = match parse_env_rest(s, i6) {
                Option::Some(pr) => pr,
                Option::None => {
                    proof {
                        assert forall|items: Seq<(String, String)>|
                            matches_at(
                                s@,
                                i as int,
                                #[trigger] env_rest_r(items),
                            ) implies false by {
                            reveal_strlit(",");
                            reveal_strlit("\"");
                            reveal_strlit(":");
                            reveal_strlit("}");
                            if items.len() > 0 {
                                lemma_env_pair_parts(s@, i as int, items, ","@);
                            } else {
                                assert(s@.subrange(i as int, i + "}"@.len())[0] == '}');
                                assert(s@.subrange(i as int, i + ","@.len())[0] == ',');
                            }
                        }
                    }
                    return Option::None;
                },
            };
            let mut out_v = rest_v;
            out_v.insert(0, (key, val));
            proof {
                assert forall|items: Seq<(String, String)>|
                    matches_at(
                        s@,
                        i as int,
                        #[trigger] env_rest_r(items),
                    ) implies (env_eq(out_v@, items) && j == i + env_rest_r(items).len()) by {
                    if items.len() > 0 {
                        reveal_strlit(",");
                        reveal_strlit("\"");
                        reveal_strlit(":");
                        lemma_env_pair_parts(s@, i as int, items, ","@);
                        assert(key@ == items[0].0@);
                        assert(val@ == items[0].1@);
                        assert(env_eq(rest_v@, items.drop_first()));
                        assert forall|t: int|
                            0 <= t < out_v@.len() implies (#[trigger] out_v@[t]).0@ == items[t].0@
                                && out_v@[t].1@ == items[t].1@ by {
                            if t > 0 {
                                assert(out_v@[t] == rest_v@[t - 1]);
                                assert(items.drop_first()[t - 1] == items[t]);
                            }
                        }
                    } else {
                        reveal_strlit("}");
                        reveal_strlit(",");
                        assert(s@.subrange(i as int, i + "}"@.len())[0] == '}');
                        assert(s@.subrange(i as int, i + ","@.len())[0] == ',');
                    }
                }
            }
            return Option::Some((out_v, j));
        },
    }
}

/// Splits the rendering of a non-empty environment tail into its pieces:
/// the opener, the quoted key, the separator, the quoted value, and the
/// remainder, each matched in place.
proof fn lemma_env_pair_parts(s: Seq<char>, i: int, items: Seq<(String, String)>, opener: Seq<char>)
    requires
        items.len() > 0,
        matches_at(
            s,
            i,
            opener + qstr(items[0].0@) + ":"@ + qstr(items[0].1@) + env_rest_r(items.drop_first()),
        ),
    ensures
        matches_at(s, i, opener),
        matches_at(s, i + opener.len(), qstr(items[0].0@)),
        matches_at(s, i + opener.len(), "\""@),
        matches_at(s, i + opener.len() + 1, esc_str(items[0].0@) + seq!['"']),
        matches_at(s, i + opener.len() + esc_str(items[0].0@).len() + 2, ":"@),
        matches_at(s, i + opener.len() + esc_str(items[0].0@).len() + 3, qstr(items[0].1@)),
        matches_at(s, i + opener.len() + esc_str(items[0].0@).len() + 3, "\""@),
        matches_at(
            s,
            i + opener.len() + esc_str(items[0].0@).len() + 4,
            esc_str(items[0].1@) + seq!['"'],
        ),
        matches_at(
            s,
            i + opener.len() + esc_str(items[0].0@).len() + esc_str(items[0].1@).len() + 5,
            env_rest_r(items.drop_first()),
        ),
        (forall|t: int|
            0 <= t < items.drop_first().len() ==> #[trigger] items.drop_first()[t] == items[t + 1]),
        (opener + qstr(items[0].0@) + ":"@ + qstr(items[0].1@) + env_rest_r(
            items.drop_first(),
        )).len() == opener.len() + esc_str(items[0].0@).len() + esc_str(items[0].1@).len() + 5
            + env_rest_r(items.drop_first()).len(),
{
    reveal_strlit(":");
    let qk = qstr(items[0].0@);
    let qv = qstr(items[0].1@);
    let rest = env_rest_r(items.drop_first());
    assert(qk.len() == esc_str(items[0].0@).len() + 2);
    assert(qv.len() == esc_str(items[0].1@).len() + 2);
    assert(":"@.len() == 1);
    lemma_matches_split(s, i, opener + qk + ":"@ + qv, rest);
    lemma_matches_split(s, i, opener + qk + ":"@, qv);
    lemma_matches_split(s, i, opener + qk, ":"@);
    lemma_matches_split(s, i, opener, qk);
    assert((opener + qk).len() == opener.len() + esc_str(items[0].0@).len() + 2);
    assert((opener + qk + ":"@).len() == opener.len() + esc_str(items[0].0@).len() + 3);
    assert((opener + qk + ":"@ + qv).len() == opener.len() + esc_str(items[0].0@).len() + esc_str(
        items[0].1@,
    ).len() + 5);
    lemma_qstr_parts(s, i + opener.len(), items[0].0@);
    lemma_qstr_parts(s, i + opener.len() + esc_str(items[0].0@).len() + 3, items[0].1@);
}

#[verifier::rlimit(60)]
fn parse_env(s: &str, i: usize) -> (r: Option<(Vec<(String, String)>, usize)>)
    ensures
        forall|e: Seq<(String, String)>|
            matches_at(s@, i as int, #[trigger] env_r(e)) ==> (r matches Some(p)
                && env_eq(p.0@, e) && p.1 == i + env_r(e).len()),
        r matches Some(p) ==> i < p.1 <= s@.len(),
{
    match expect_lit(s, i, "{}") {
        Option::Some(j) => {
            proof {
                assert forall|e: Seq<(String, String)>|
                    matches_at(s@, i as int, #[trigger] env_r(e)) implies (env_eq(
                    Seq::<(String, String)>::empty(),
                    e,
                ) && j == i + env_r(e).len()) by {
                    if e.len() > 0 {
                        reveal_strlit("{");
                        reveal_strlit("{}");
                        reveal_strlit("\"");
                        lemma_env_pair_parts(s@, i as int, e, "{"@);
                        lemma_qstr_parts(s@, i + 1, e[0].0@);
                        assert(s@.subrange(i + 1, i + 1 + "\""@.len() as int)[0] == '"');
                        assert(s@.subrange(i as int, i + "{}"@.len())[1] == '}');
                        assert(s@[i + 1] == '"' && s@[i + 1] == '}');
                    }
                }
                reveal_strlit("{}");
            }
            return Option::Some((Vec::new(), j));
        },
        Option::None => {},
    }
    match expect_lit(s, i, "{") {
        Option::None => {
            proof {
                assert forall|e: Seq<(String, String)>|
                    matches_at(s@, i as int, #[trigger] env_r(e)) implies false by {
                    reveal_strlit("{");
                    reveal_strlit("{}");
                    if e.len() > 0 {
                        lemma_env_pair_parts(s@, i as int, e, "{"@);
                    } else {
                        assert(s@.subrange(i as int, i + "{}"@.len())[0] == '{');
                        assert(matches_at(s@, i as int, "{"@)) by {
                            assert(s@.subrange(i as int, i + "{"@.len()) =~= "{"@);
                        }
                    }
                }
            }
            return Option::None;
        },
        Option::Some(i1) => {
            let i2 = match expect_lit(s, i1, "\"") {
                Option::Some(j) => j,
                Option::None => {
                    proof {
                        assert forall|e: Seq<(String, String)>|
                            matches_at(s@, i as int, #[trigger] env_r(e)) implies false by {
                            reveal_strlit("{");
                            reveal_strlit("{}");
                            reveal_strlit("\"");
                            reveal_strlit(":");
                            if e.len() > 0 {
                                lemma_env_pair_parts(s@, i as int, e, "{"@);
                            } else {
                                assert(s@.subrange(i as int, i + "{}"@.len())[1] == '}');
                                assert(s@.subrange(i1 as int, i1 + "\""@.len())[0] == '"');
                            }
                        }
                    }
                    return Option::None;
                },
            };
            let (key, i3) = match parse_string_value(s, i2) {
                Option::Some(pr) => pr,
                Option::None => {
                    proof {
                        assert forall|e: Seq<(String, String)>|
                            matches_at(s@, i as int, #[trigger] env_r(e)) implies false by {
                            reveal_strlit("{");
                            reveal_strlit("{}");
                            reveal_strlit("\"");
                            reveal_strlit(":");
                            if e.len() > 0 {
                                lemma_env_pair_parts(s@, i as int, e, "{"@);
                            } else {
                                assert(s@.subrange(i as int, i + "{}"@.len())[1] == '}');
                                assert(s@.subrange(i1 as int, i1 + "\""@.len())[0] == '"');
                            }
                        }
                    }
                    return Option::None;
                },
            };
            let i4 = match expect_lit(s, i3, ":") {
                Option::Some(j) => j,
                Option::None => {
                    proof {
                        assert forall|e: Seq<(String, String)>|
                            matches_at(s@, i as int, #[trigger] env_r(e)) implies false by {
                            reveal_strlit("{");
                            reveal_strlit("{}");
                            reveal_strlit("\"");
                            reveal_strlit(":");
                            if e.len() > 0 {
                                lemma_env_pair_parts(s@, i as int, e, "{"@);
                            } else {
                                assert(s@.subrange(i as int, i + "{}"@.len())[1] == '}');
                                assert(s@.subrange(i1 as int, i1 + "\""@.len())[0] == '"');
                            }
                        }
                    }
                    return Option::None;
                },
            };
            let i5 = match expect_lit(s, i4, "\"") {
                Option::Some(j) => j,
                Option::None => {
                    proof {
                        assert forall|e: Seq<(String, String)>|
                            matches_at(s@, i as int, #[trigger] env_r(e)) implies false by {
                            reveal_strlit("{");
                            reveal_strlit("{}");
                            reveal_strlit("\"");
                            reveal_strlit(":");
                            if e.len() > 0 {
                                lemma_env_pair_parts(s@, i as int, e, "{"@);
                            } else {
                                assert(s@.subrange(i as int, i + "{}"@.len())[1] == '}');
                                assert(s@.subrange(i1 as int, i1 + "\""@.len())[0] == '"');
                            }
                        }
                    }
                    return Option::None;
                },
            };
            let (val, i6) = match parse_string_value(s, i5) {
                Option::Some(pr) => pr,
                Option::None => {
                    proof {
                        assert forall|e: Seq<(String, String)>|
                            matches_at(s@, i as int, #[trigger] env_r(e)) implies false by {
                            reveal_strlit("{");
                            reveal_strlit("{}");
                            reveal_strlit("\"");
                            reveal_strlit(":");
                            if e.len() > 0 {
                                lemma_env_pair_parts(s@, i as int, e, "{"@);
                            } else {
                                assert(s@.subrange(i as int, i + "{}"@.len())[1] == '}');
                                assert(s@.subrange(i1 as int, i1 + "\""@.len())[0] == '"');
                            }
                        }
                    }
                    return Option::None;
                },
            };
            let (rest_v, j) = match parse_env_rest(s, i6) {
                Option::Some(pr) => pr,
                Option::None => {
                    proof {
                        assert forall|e: Seq<(String, String)>|
                            matches_at(s@, i as int, #[trigger] env_r(e)) implies false by {
                            reveal_strlit("{");
                            reveal_strlit("{}");
                            reveal_strlit("\"");
                            reveal_strlit(":");
                            if e.len() > 0 {
                                lemma_env_pair_parts(s@, i as int, e, "{"@);
                            } else {
                                assert(s@.subrange(i as int, i + "{}"@.len())[1] == '}');
                                assert(s@.subrange(i1 as int, i1 + "\""@.len())[0] == '"');
                            }
                        }
                    }
                    return Option::None;
                },
            };
            let mut out_v = rest_v;
            out_v.insert(0, (key, val));
            proof {
                assert forall|e: Seq<(String, String)>|
                    matches_at(s@, i as int, #[trigger] env_r(e)) implies (env_eq(
                    out_v@,
                    e,
                ) && j == i + env_r(e).len()) by {
                    if e.len() > 0 {
                        reveal_strlit("{");
                        reveal_strlit("\"");
                        reveal_strlit(":");
                        lemma_env_pair_parts(s@, i as int, e, "{"@);
                        assert(key@ == e[0].0@);
                        assert(val@ == e[0].1@);
                        assert(env_eq(rest_v@, e.drop_first()));
                        assert forall|t: int|
                            0 <= t < out_v@.len() implies (#[trigger] out_v@[t]).0@ == e[t].0@
                                && out_v@[t].1@ == e[t].1@ by {
                            if t > 0 {
                                assert(out_v@[t] == rest_v@[t - 1]);
                                assert(e.drop_first()[t - 1] == e[t]);
                            }
                        }
                    } else {
                        reveal_strlit("{}");
                        reveal_strlit("\"");
                        assert(s@.subrange(i as int, i + "{}"@.len())[1] == '}');
                        assert(s@.subrange(i1 as int, i1 + "\""@.len())[0] == '"');
                    }
                }
            }
            return Option::Some((out_v, j));
        },
    }
}

// ---------------------------------------------------------------------------
// Shortcut table parsers
// ---------------------------------------------------------------------------
/// Splits the rendering of one shortcut binding into its pieces.
proof fn lemma_binding_parts(s: Seq<char>, i: int, b: ShortcutBinding)
    requires
        matches_at(s, i, binding_r(b)),
    ensures
        matches_at(s, i, "{\"key\":"@),
        matches_at(s, i + "{\"key\":"@.len(), qstr(b.key@)),
        matches_at(s, i + "{\"key\":"@.len(), "\""@),
        matches_at(s, i + "{\"key\":"@.len() + 1, esc_str(b.key@) + seq!['"']),
        matches_at(s, i + "{\"key\":"@.len() + qstr(b.key@).len(), ",\"enabled\":"@),
        matches_at(
            s,
            i + "{\"key\":"@.len() + qstr(b.key@).len() + ",\"enabled\":"@.len(),
            bool_r(b.enabled),
        ),
        matches_at(
            s,
            i + "{\"key\":"@.len() + qstr(b.key@).len() + ",\"enabled\":"@.len() + bool_r(
                b.enabled,
            ).len(),
            ",\"description\":"@,
        ),
        matches_at(
            s,
            i + "{\"key\":"@.len() + qstr(b.key@).len() + ",\"enabled\":"@.len() + bool_r(
                b.enabled,
            ).len() + ",\"description\":"@.len(),
            opt_str_r(b.description),
        ),
        matches_at(
            s,
            i + "{\"key\":"@.len() + qstr(b.key@).len() + ",\"enabled\":"@.len() + bool_r(
                b.enabled,
            ).len() + ",\"description\":"@.len() + opt_str_r(b.description).len(),
            "}"@,
        ),
        binding_r(b).len() == "{\"key\":"@.len() + qstr(b.key@).len() + ",\"enabled\":"@.len()
            + bool_r(b.enabled).len() + ",\"description\":"@.len() + opt_str_r(
            b.description,
        ).len() + "}"@.len(),
{
    lemma_matches_split(
        s,
        i,
        "{\"key\":"@ + qstr(b.key@) + ",\"enabled\":"@ + bool_r(b.enabled)
            + ",\"description\":"@ + opt_str_r(b.description),
        "}"@,
    );
    lemma_matches_split(
        s,
        i,
        "{\"key\":"@ + qstr(b.key@) + ",\"enabled\":"@ + bool_r(b.enabled)
            + ",\"description\":"@,
        opt_str_r(b.description),
    );
    lemma_matches_split(
        s,
        i,
        "{\"key\":"@ + qstr(b.key@) + ",\"enabled\":"@ + bool_r(b.enabled),
        ",\"description\":"@,
    );
    lemma_matches_split(s, i, "{\"key\":"@ + qstr(b.key@) + ",\"enabled\":"@, bool_r(b.enabled));
    lemma_matches_split(s, i, "{\"key\":"@ + qstr(b.key@), ",\"enabled\":"@);
    lemma_matches_split(s, i, "{\"key\":"@, qstr(b.key@));
    lemma_qstr_parts(s, i + "{\"key\":"@.len(), b.key@);
}

#[verifier::rlimit(100)]
fn parse_binding(s: &str, i: usize) -> (r: Option<(ShortcutBinding, usize)>)
    ensures
        forall|b: ShortcutBinding|
            matches_at(s@, i as int, #[trigger] binding_r(b)) ==> (
            r matches Some(p) && binding_eq(p.0, b) && p.1 == i + binding_r(b).len()),
        r matches Some(p) ==> i < p.1 <= s@.len(),
{
    let p0 = match expect_lit(s, i, "{\"key\":") {
        Option::Some(j) => j,
        Option::None => {
            proof {
                assert forall|b: ShortcutBinding|
                    matches_at(
                        s@,
                        i as int,
                        #[trigger] binding_r(b),
                    ) implies false by {
                    reveal_strlit("\"");
                    lemma_binding_parts(s@, i as int, b);
                }
            }
            return Option::None;
        },
    };
    let q1 = match expect_lit(s, p0, "\"") {
        Option::Some(j) => j,
        Option::None => {
            proof {
                assert forall|b: ShortcutBinding|
                    matches_at(
                        s@,
                        i as int,
                        #[trigger] binding_r(b),
                    ) implies false by {
                    reveal_strlit("\"");
                    lemma_binding_parts(s@, i as int, b);
                }
            }
            return Option::None;
        },
    };
    let (key, p1) = match parse_string_value(s, q1) {
        Option::Some(pr) => pr,
        Option::None => {
            proof {
                assert forall|b: ShortcutBinding|
                    matches_at(
                        s@,
                        i as int,
                        #[trigger] binding_r(b),
                    ) implies false by {
                    reveal_strlit("\"");
                    lemma_binding_parts(s@, i as int, b);
                }
            }
            return Option::None;
        },
    };
    let p2 = match expect_lit(s, p1, ",\"enabled\":") {
        Option::Some(j) => j,
        Option::None => {
            proof {
                assert forall|b: ShortcutBinding|
                    matches_at(
                        s@,
                        i as int,
                        #[trigger] binding_r(b),
                    ) implies false by {
                    reveal_strlit("\"");
                    lemma_binding_parts(s@, i as int, b);
                }
            }
            return Option::None;
        },
    };
    let (enabled, p3) = match parse_bool(s, p2) {
        Option::Some(pr) => pr,
        Option::None => {
            proof {
                assert forall|b: ShortcutBinding|
                    matches_at(
                        s@,
                        i as int,
                        #[trigger] binding_r(b),
                    ) implies false by {
                    reveal_strlit("\"");
                    lemma_binding_parts(s@, i as int, b);
                }
            }
            return Option::None;
        },
    };
    let p4 = match expect_lit(s, p3, ",\"description\":") {
        Option::Some(j) => j,
        Option::None => {
            proof {
                assert forall|b: ShortcutBinding|
                    matches_at(
                        s@,
                        i as int,
                        #[trigger] binding_r(b),
                    ) implies false by {
                    reveal_strlit("\"");
                    lemma_binding_parts(s@, i as int, b);
                }
            }
            return Option::None;
        },
    };
    let (description, p5) = match parse_opt_str(s, p4) {
        Option::Some(pr) => pr,
        Option::None => {
            proof {
                assert forall|b: ShortcutBinding|
                    matches_at(
                        s@,
                        i as int,
                        #[trigger] binding_r(b),
                    ) implies false by {
                    reveal_strlit("\"");
                    lemma_binding_parts(s@, i as int, b);
                }
            }
            return Option::None;
        },
    };
    let p6 = match expect_lit(s, p5, "}") {
        Option::Some(j) => j,
        Option::None => {
            proof {
                assert forall|b: ShortcutBinding|
                    matches_at(
                        s@,
                        i as int,
                        #[trigger] binding_r(b),
                    ) implies false by {
                    reveal_strlit("\"");
                    lemma_binding_parts(s@, i as int, b);
                }
            }
            return Option::None;
        },
    };
    let built = ShortcutBinding { key, enabled, description };
    proof {
        assert forall|b: ShortcutBinding|
            matches_at(s@, i as int, #[trigger] binding_r(b)) implies (
        binding_eq(built, b) && p6 == i + binding_r(b).len()) by {
            reveal_strlit("\"");
            lemma_binding_parts(s@, i as int, b);
        }
        assert(i < p6 <= s@.len());
    }
    Option::Some((built, p6))
}

/// Splits the rendering of a non-empty shortcut-table tail into its pieces.
proof fn lemma_sc_pair_parts(
    s: Seq<char>,
    i: int,
    items: Seq<(String, ShortcutBinding)>,
    opener: Seq<char>,
)
    requires
        items.len() > 0,
        matches_at(
            s,
            i,
            opener + qstr(items[0].0@) + ":"@ + binding_r(items[0].1) + sc_rest_r(
                items.drop_first(),
            ),
        ),
    ensures
        matches_at(s, i, opener),
        matches_at(s, i + opener.len(), qstr(items[0].0@)),
        matches_at(s, i + opener.len(), "\""@),
        matches_at(s, i + opener.len() + 1, esc_str(items[0].0@) + seq!['"']),
        matches_at(s, i + opener.len() + esc_str(items[0].0@).len() + 2, ":"@),
        matches_at(s, i + opener.len() + esc_str(items[0].0@).len() + 3, binding_r(items[0].1)),
        matches_at(
            s,
            i + opener.len() + esc_str(items[0].0@).len() + 3 + binding_r(items[0].1).len(),
            sc_rest_r(items.drop_first()),
        ),
        (forall|t: int|
            0 <= t < items.drop_first().len() ==> #[trigger] items.drop_first()[t] == items[t + 1]),
        (opener + qstr(items[0].0@) + ":"@ + binding_r(items[0].1) + sc_rest_r(
            items.drop_first(),
        )).len() == opener.len() + esc_str(items[0].0@).len() + 3 + binding_r(
            items[0].1,
        ).len() + sc_rest_r(items.drop_first()).len(),
{
    reveal_strlit(":");
    let qk = qstr(items[0].0@);
    let bv = binding_r(items[0].1);
    let rest = sc_rest_r(items.drop_first());
    assert(qk.len() == esc_str(items[0].0@).len() + 2);
    assert(":"@.len() == 1);
    lemma_matches_split(s, i, opener + qk + ":"@ + bv, rest);
    lemma_matches_split(s, i, opener + qk + ":"@, bv);
    lemma_matches_split(s, i, opener + qk, ":"@);
    lemma_matches_split(s, i, opener, qk);
    assert((opener + qk).len() == opener.len() + esc_str(items[0].0@).len() + 2);
    assert((opener + qk + ":"@).len() == opener.len() + esc_str(items[0].0@).len() + 3);
    lemma_qstr_parts(s, i + opener.len(), items[0].0@);
}

#[verifier::rlimit(100)]
fn parse_sc_rest(s: &str, i: usize) -> (r: Option<(Vec<(String, ShortcutBinding)>, usize)>)
    ensures
        forall|items: Seq<(String, ShortcutBinding)>|
            matches_at(s@, i as int, #[trigger] sc_rest_r(items))
                ==> (r matches Some(p) && sc_entries_eq(p.0@, items) && p.1 == i + sc_rest_r(
                items,
            ).len()),
        r matches Some(p) ==> i < p.1 <= s@.len(),
    decreases s@.len() - i,
{
    match expect_lit(s, i, "}") {
        Option::Some(j) => {
            proof {
                reveal_strlit("}");
                assert forall|items: Seq<(String, ShortcutBinding)>|
                    matches_at(
                        s@,
                        i as int,
                        #[trigger] sc_rest_r(items),
                    ) implies (sc_entries_eq(Seq::<(String, ShortcutBinding)>::empty(), items) && j
                    == i + sc_rest_r(items).len()) by {
                    if items.len() > 0 {
                        reveal_strlit(",");
                        lemma_sc_pair_parts(s@, i as int, items, ","@);
                        assert(s@.subrange(i as int, i + ","@.len())[0] == ',');
                        assert(s@.subrange(i as int, i + "}"@.len())[0] == '}');
                    }
                }
            }
            return Option::Some((Vec::new(), j));
        },
        Option::None => {},
    }
    match expect_lit(s, i, ",") {
        Option::None => {
            proof {
                assert forall|items: Seq<(String, ShortcutBinding)>|
                    matches_at(
                        s@,
                        i as int,
                        #[trigger] sc_rest_r(items),
                    ) implies false by {
                    reveal_strlit(",");
                    reveal_strlit("}");
                    if items.len() > 0 {
                        lemma_sc_pair_parts(s@, i as int, items, ","@);
                    }
                }
            }
            return Option::None;
        },
        Option::Some(i1) => {
            let i2 = match expect_lit(s, i1, "\"") {
                Option::Some(j) => j,
                Option::None => {
                    proof {
                        assert forall|items: Seq<(String, ShortcutBinding)>|
                            matches_at(
                                s@,
                                i as int,
                                #[trigger] sc_rest_r(items),
                            ) implies false by {
                            reveal_strlit(",");
                            reveal_strlit("\"");
                            reveal_strlit(":");
                            reveal_strlit("}");
                            if items.len() > 0 {
                                lemma_sc_pair_parts(s@, i as int, items, ","@);
                            } else {
                                assert(s@.subrange(i as int, i + "}"@.len())[0] == '}');
                                assert(s@.subrange(i as int, i + ","@.len())[0] == ',');
                            }
                        }
                    }
                    return Option::None;
                },
            };
            let (key, i3) = match parse_string_value(s, i2) {
                Option::Some(pr) => pr,
                Option::None => {
                    proof {
                        assert forall|items: Seq<(String, ShortcutBinding)>|
                            matches_at(
                                s@,
                                i as int,
                                #[trigger] sc_rest_r(items),
                            ) implies false by {
                            reveal_strlit(",");
                            reveal_strlit("\"");
                            reveal_strlit(":");
                            reveal_strlit("}");
                            if items.len() > 0 {
                                lemma_sc_pair_parts(s@, i as int, items, ","@);
                            } else {
                                assert(s@.subrange(i as int, i + "}"@.len())[0] == '}');
                                assert(s@.subrange(i as int, i + ","@.len())[0] == ',');
                            }
                        }
                    }
                    return Option::None;
                },
            };
            let i4 = match expect_lit(s, i3, ":") {
                Option::Some(j) => j,
                Option::None => {
                    proof {
                        assert forall|items: Seq<(String, ShortcutBinding)>|
                            matches_at(
                                s@,
                                i as int,
                                #[trigger] sc_rest_r(items),
                            ) implies false by {
                            reveal_strlit(",");
                            reveal_strlit("\"");
                            reveal_strlit(":");
                            reveal_strlit("}");
                            if items.len() > 0 {
                                lemma_sc_pair_parts(s@, i as int, items, ","@);
                            } else {
                                assert(s@.subrange(i as int, i + "}"@.len())[0] == '}');
                                assert(s@.subrange(i as int, i + ","@.len())[0] == ',');
                            }
                        }
                    }
                    return Option::None;
                },
            };
            let (binding, i5) = match parse_binding(s, i4) {
                Option::Some(pr) => pr,
                Option::None => {
                    proof {
                        assert forall|items: Seq<(String, ShortcutBinding)>|
                            matches_at(
                                s@,
                                i as int,
                                #[trigger] sc_rest_r(items),
                            ) implies false by {
                            reveal_strlit(",");
                            reveal_strlit("\"");
                            reveal_strlit(":");
                            reveal_strlit("}");
                            if items.len() > 0 {
                                lemma_sc_pair_parts(s@, i as int, items, ","@);
                            } else {
                                assert(s@.subrange(i as int, i + "}"@.len())[0] == '}');
                                assert(s@.subrange(i as int, i + ","@.len())[0] == ',');
                            }
                        }
                    }
                    return Option::None;
                },
            };
            let (rest_v, j) = match parse_sc_rest(s, i5) {
                Option::Some(pr) => pr,
                Option::None => {
                    proof {
                        assert forall|items: Seq<(String, ShortcutBinding)>|
                            matches_at(
                                s@,
                                i as int,
                                #[trigger] sc_rest_r(items),
                            ) implies false by {
                            reveal_strlit(",");
                            reveal_strlit("\"");
                            reveal_strlit(":");
                            reveal_strlit("}");
                            if items.len() > 0 {
                                lemma_sc_pair_parts(s@, i as int, items, ","@);
                            } else {
                                assert(s@.subrange(i as int, i + "}"@.len())[0] == '}');
                                assert(s@.subrange(i as int, i + ","@.len())[0] == ',');
                            }
                        }
                    }
                    return Option::None;
                },
            };
            let mut out_v = rest_v;
            out_v.insert(0, (key, binding));
            proof {
                assert forall|items: Seq<(String, ShortcutBinding)>|
                    matches_at(
                        s@,
                        i as int,
                        #[trigger] sc_rest_r(items),
                    ) implies (sc_entries_eq(out_v@, items) && j == i + sc_rest_r(
                    items,
                ).len()) by {
                    if items.len() > 0 {
                        reveal_strlit(",");
                        reveal_strlit("\"");
                        reveal_strlit(":");
                        lemma_sc_pair_parts(s@, i as int, items, ","@);
                        assert(key@ == items[0].0@);
                        assert(binding_eq(binding, items[0].1));
                        assert(sc_entries_eq(rest_v@, items.drop_first()));
                        assert forall|t: int|
                            0 <= t < out_v@.len() implies (#[trigger] out_v@[t]).0@ == items[t].0@
                                && binding_eq(out_v@[t].1, items[t].1) by {
                            if t > 0 {
                                assert(out_v@[t] == rest_v@[t - 1]);
                                assert(items.drop_first()[t - 1] == items[t]);
                            }
                        }
                    } else {
                        reveal_strlit("}");
                        reveal_strlit(",");
                        assert(s@.subrange(i as int, i + "}"@.len())[0] == '}');
                        assert(s@.subrange(i as int, i + ","@.len())[0] == ',');
                    }
                }
            }
            return Option::Some((out_v, j));
        },
    }
}


#[verifier::rlimit(100)]
fn parse_sc_entries(s: &str, i: usize) -> (r: Option<(Vec<(String, ShortcutBinding)>, usize)>)
    ensures
        forall|e: Seq<(String, ShortcutBinding)>|
            matches_at(s@, i as int, #[trigger] sc_entries_r(e)) ==> (
            r matches Some(p) && sc_entries_eq(p.0@, e) && p.1 == i + sc_entries_r(e).len()),
        r matches Some(p) ==> i < p.1 <= s@.len(),
{
    match expect_lit(s, i, "{}") {
        Option::Some(j) => {
            proof {
                reveal_strlit("{}");
                assert forall|e: Seq<(String, ShortcutBinding)>|
                    matches_at(
                        s@,
                        i as int,
                        #[trigger] sc_entries_r(e),
                    ) implies (sc_entries_eq(Seq::<(String, ShortcutBinding)>::empty(), e) && j == i
                    + sc_entries_r(e).len()) by {
                    if e.len() > 0 {
                        reveal_strlit("{");
                        reveal_strlit("\"");
                        lemma_sc_pair_parts(s@, i as int, e, "{"@);
                        assert(s@.subrange(i + 1, i + 1 + "\""@.len() as int)[0] == '"');
                        assert(s@.subrange(i as int, i + "{}"@.len())[1] == '}');
                        assert(s@[i + 1] == '"' && s@[i + 1] == '}');
                    }
                }
            }
            return Option::Some((Vec::new(), j));
        },
        Option::None => {},
    }
    match expect_lit(s, i, "{") {
        Option::None => {
            proof {
                assert forall|e: Seq<(String, ShortcutBinding)>|
                    matches_at(
                        s@,
                        i as int,
                        #[trigger] sc_entries_r(e),
                    ) implies false by {
                    reveal_strlit("{");
                    reveal_strlit("{}");
                    if e.len() > 0 {
                        lemma_sc_pair_parts(s@, i as int, e, "{"@);
                    } else {
                        assert(s@.subrange(i as int, i + "{}"@.len())[0] == '{');
                        assert(matches_at(s@, i as int, "{"@)) by {
                            assert(s@.subrange(i as int, i + "{"@.len()) =~= "{"@);
                        }
                    }
                }
            }
            return Option::None;
        },
        Option::Some(i1) => {
            let i2 = match expect_lit(s, i1, "\"") {
                Option::Some(j) => j,
                Option::None => {
                    proof {
                        assert forall|e: Seq<(String, ShortcutBinding)>|
                            matches_at(
                                s@,
                                i as int,
                                #[trigger] sc_entries_r(e),
                            ) implies false by {
                            reveal_strlit("{");
                            reveal_strlit("{}");
                            reveal_strlit("\"");
                            reveal_strlit(":");
                            if e.len() > 0 {
                                lemma_sc_pair_parts(s@, i as int, e, "{"@);
                            } else {
                                assert(s@.subrange(i as int, i + "{}"@.len())[1] == '}');
                                assert(s@.subrange(i1 as int, i1 + "\""@.len())[0] == '"');
                            }
                        }
                    }
                    return Option::None;
                },
            };
            let (key, i3) = match parse_string_value(s, i2) {
                Option::Some(pr) => pr,
                Option::None => {
                    proof {
                        assert forall|e: Seq<(String, ShortcutBinding)>|
                            matches_at(
                                s@,
                                i as int,
                                #[trigger] sc_entries_r(e),
                            ) implies false by {
                            reveal_strlit("{");
                            reveal_strlit("{}");
                            reveal_strlit("\"");
                            reveal_strlit(":");
                            if e.len() > 0 {
                                lemma_sc_pair_parts(s@, i as int, e, "{"@);
                            } else {
                                assert(s@.subrange(i as int, i + "{}"@.len())[1] == '}');
                                assert(s@.subrange(i1 as int, i1 + "\""@.len())[0] == '"');
                            }
                        }
                    }
                    return Option::None;
                },
            };
            let i4 = match expect_lit(s, i3, ":") {
                Option::Some(j) => j,
                Option::None => {
                    proof {
                        assert forall|e: Seq<(String, ShortcutBinding)>|
                            matches_at(
                                s@,
                                i as int,
                                #[trigger] sc_entries_r(e),
                            ) implies false by {
                            reveal_strlit("{");
                            reveal_strlit("{}");
                            reveal_strlit("\"");
                            reveal_strlit(":");
                            if e.len() > 0 {
                                lemma_sc_pair_parts(s@, i as int, e, "{"@);
                            } else {
                                assert(s@.subrange(i as int, i + "{}"@.len())[1] == '}');
                                assert(s@.subrange(i1 as int, i1 + "\""@.len())[0] == '"');
                            }
                        }
                    }
                    return Option::None;
                },
            };
            let (binding, i5) = match parse_binding(s, i4) {
                Option::Some(pr) => pr,
                Option::None => {
                    proof {
                        assert forall|e: Seq<(String, ShortcutBinding)>|
                            matches_at(
                                s@,
                                i as int,
                                #[trigger] sc_entries_r(e),
                            ) implies false by {
                            reveal_strlit("{");
                            reveal_strlit("{}");
                            reveal_strlit("\"");
                            reveal_strlit(":");
                            if e.len() > 0 {
                                lemma_sc_pair_parts(s@, i as int, e, "{"@);
                            } else {
                                assert(s@.subrange(i as int, i + "{}"@.len())[1] == '}');
                                assert(s@.subrange(i1 as int, i1 + "\""@.len())[0] == '"');
                            }
                        }
                    }
                    return Option::None;
                },
            };
            let (rest_v, j) = match parse_sc_rest(s, i5) {
                Option::Some(pr) => pr,
                Option::None => {
                    proof {
                        assert forall|e: Seq<(String, ShortcutBinding)>|
                            matches_at(
                                s@,
                                i as int,
                                #[trigger] sc_entries_r(e),
                            ) implies false by {
                            reveal_strlit("{");
                            reveal_strlit("{}");
                            reveal_strlit("\"");
                            reveal_strlit(":");
                            if e.len() > 0 {
                                lemma_sc_pair_parts(s@, i as int, e, "{"@);
                            } else {
                                assert(s@.subrange(i as int, i + "{}"@.len())[1] == '}');
                                assert(s@.subrange(i1 as int, i1 + "\""@.len())[0] == '"');
                            }
                        }
                    }
                    return Option::None;
                },
            };
            let mut out_v = rest_v;
            out_v.insert(0, (key, binding));
            proof {
                assert forall|e: Seq<(String, ShortcutBinding)>|
                    matches_at(
                        s@,
                        i as int,
                        #[trigger] sc_entries_r(e),
                    ) implies (sc_entries_eq(out_v@, e) && j == i + sc_entries_r(e).len()) by {
                    if e.len() > 0 {
                        reveal_strlit("{");
                        reveal_strlit("\"");
                        reveal_strlit(":");
                        lemma_sc_pair_parts(s@, i as int, e, "{"@);
                        assert(key@ == e[0].0@);
                        assert(binding_eq(binding, e[0].1));
                        assert(sc_entries_eq(rest_v@, e.drop_first()));
                        assert forall|t: int|
                            0 <= t < out_v@.len() implies (#[trigger] out_v@[t]).0@ == e[t].0@
                                && binding_eq(out_v@[t].1, e[t].1) by {
                            if t > 0 {
                                assert(out_v@[t] == rest_v@[t - 1]);
                                assert(e.drop_first()[t - 1] == e[t]);
                            }
                        }
                    } else {
                        reveal_strlit("{}");
                        reveal_strlit("\"");
                        assert(s@.subrange(i as int, i + "{}"@.len())[1] == '}');
                        assert(s@.subrange(i1 as int, i1 + "\""@.len())[0] == '"');
                    }
                }
            }
            return Option::Some((out_v, j));
        },
    }
}

/// Splits the rendering of a shortcut table into its pieces.
proof fn lemma_shortcuts_parts(s: Seq<char>, i: int, sc: ShortcutsConfig)
    requires
        matches_at(s, i, shortcuts_r(sc)),
    ensures
        matches_at(s, i, "{\"enabled\":"@),
        matches_at(s, i + "{\"enabled\":"@.len(), bool_r(sc.enabled)),
        matches_at(
            s,
            i + "{\"enabled\":"@.len() + bool_r(sc.enabled).len(),
            ",\"shortcuts\":"@,
        ),
        matches_at(
            s,
            i + "{\"enabled\":"@.len() + bool_r(sc.enabled).len() + ",\"shortcuts\":"@.len(),
            sc_entries_r(sc.shortcuts@),
        ),
        matches_at(
            s,
            i + "{\"enabled\":"@.len() + bool_r(sc.enabled).len() + ",\"shortcuts\":"@.len()
                + sc_entries_r(sc.shortcuts@).len(),
            "}"@,
        ),
        shortcuts_r(sc).len() == "{\"enabled\":"@.len() + bool_r(sc.enabled).len()
            + ",\"shortcuts\":"@.len() + sc_entries_r(sc.shortcuts@).len() + "}"@.len(),
{
    lemma_matches_split(
        s,
        i,
        "{\"enabled\":"@ + bool_r(sc.enabled) + ",\"shortcuts\":"@ + sc_entries_r(sc.shortcuts@),
        "}"@,
    );
    lemma_matches_split(
        s,
        i,
        "{\"enabled\":"@ + bool_r(sc.enabled) + ",\"shortcuts\":"@,
        sc_entries_r(sc.shortcuts@),
    );
    lemma_matches_split(s, i, "{\"enabled\":"@ + bool_r(sc.enabled), ",\"shortcuts\":"@);
    lemma_matches_split(s, i, "{\"enabled\":"@, bool_r(sc.enabled));
}

/// A position that starts `null` does not open a shortcut table.
proof fn lemma_null_sc_disjoint(s: Seq<char>, i: int, sc: ShortcutsConfig)
    requires
        matches_at(s, i, "null"@),
    ensures
        !matches_at(s, i, shortcuts_r(sc)),
{
    reveal_strlit("null");
    reveal_strlit("{\"enabled\":");
    if matches_at(s, i, shortcuts_r(sc)) {
        lemma_shortcuts_parts(s, i, sc);
        assert(s.subrange(i, i + "null"@.len())[0] == 'n');
        assert(s.subrange(i, i + "{\"enabled\":"@.len())[0] == '{');
        assert(s[i] == 'n' && s[i] == '{');
    }
}

#[verifier::rlimit(100)]
fn parse_opt_shortcuts(s: &str, i: usize) -> (r: Option<(Option<ShortcutsConfig>, usize)>)
    ensures
        forall|o: Option<ShortcutsConfig>|
            matches_at(s@, i as int, #[trigger] opt_shortcuts_r(o)) ==> (
            r matches Some(p) && opt_shortcuts_eq(p.0, o) && p.1 == i + opt_shortcuts_r(o).len()),
        r matches Some(p) ==> i < p.1 <= s@.len(),
{
    match expect_lit(s, i, "null") {
        Option::Some(j) => {
            proof {
                reveal_strlit("null");
                assert forall|o: Option<ShortcutsConfig>|
                    matches_at(
                        s@,
                        i as int,
                        #[trigger] opt_shortcuts_r(o),
                    ) implies (opt_shortcuts_eq(Option::<ShortcutsConfig>::None, o) && j == i
                    + opt_shortcuts_r(o).len()) by {
                    match o {
                        Option::None => {},
                        Option::Some(sc) => {
                            lemma_null_sc_disjoint(s@, i as int, sc);
                        },
                    }
                }
            }
            return Option::Some((Option::None, j));
        },
        Option::None => {},
    }
    let p0 = match expect_lit(s, i, "{\"enabled\":") {
        Option::Some(j) => j,
        Option::None => {
            proof {
                assert forall|o: Option<ShortcutsConfig>|
                    matches_at(
                        s@,
                        i as int,
                        #[trigger] opt_shortcuts_r(o),
                    ) implies false by {
                    match o {
                        Option::None => {},
                        Option::Some(sc) => {
                            lemma_shortcuts_parts(s@, i as int, sc);
                        },
                    }
                }
            }
            return Option::None;
        },
    };
    let (enabled, p1) = match parse_bool(s, p0) {
        Option::Some(pr) => pr,
        Option::None => {
            proof {
                assert forall|o: Option<ShortcutsConfig>|
                    matches_at(
                        s@,
                        i as int,
                        #[trigger] opt_shortcuts_r(o),
                    ) implies false by {
                    match o {
                        Option::None => {
                            reveal_strlit("null");
                            reveal_strlit("{\"enabled\":");
                            assert(s@.subrange(i as int, i + "null"@.len())[0] == 'n');
                            assert(s@.subrange(i as int, i + "{\"enabled\":"@.len())[0] == '{');
                        },
                        Option::Some(sc) => {
                            lemma_shortcuts_parts(s@, i as int, sc);
                        },
                    }
                }
            }
            return Option::None;
        },
    };
    let p2 = match expect_lit(s, p1, ",\"shortcuts\":") {
        Option::Some(j) => j,
        Option::None => {
            proof {
                assert forall|o: Option<ShortcutsConfig>|
                    matches_at(
                        s@,
                        i as int,
                        #[trigger] opt_shortcuts_r(o),
                    ) implies false by {
                    match o {
                        Option::None => {
                            reveal_strlit("null");
                            reveal_strlit("{\"enabled\":");
                            assert(s@.subrange(i as int, i + "null"@.len())[0] == 'n');
                            assert(s@.subrange(i as int, i + "{\"enabled\":"@.len())[0] == '{');
                        },
                        Option::Some(sc) => {
                            lemma_shortcuts_parts(s@, i as int, sc);
                        },
                    }
                }
            }
            return Option::None;
        },
    };
    let (entries, p3) = match parse_sc_entries(s, p2) {
        Option::Some(pr) => pr,
        Option::None => {
            proof {
                assert forall|o: Option<ShortcutsConfig>|
                    matches_at(
                        s@,
                        i as int,
                        #[trigger] opt_shortcuts_r(o),
                    ) implies false by {
                    match o {
                        Option::None => {
                            reveal_strlit("null");
                            reveal_strlit("{\"enabled\":");
                            assert(s@.subrange(i as int, i + "null"@.len())[0] == 'n');
                            assert(s@.subrange(i as int, i + "{\"enabled\":"@.len())[0] == '{');
                        },
                        Option::Some(sc) => {
                            lemma_shortcuts_parts(s@, i as int, sc);
                        },
                    }
                }
            }
            return Option::None;
        },
    };
    let p4 = match expect_lit(s, p3, "}") {
        Option::Some(j) => j,
        Option::None => {
            proof {
                assert forall|o: Option<ShortcutsConfig>|
                    matches_at(
                        s@,
                        i as int,
                        #[trigger] opt_shortcuts_r(o),
                    ) implies false by {
                    match o {
                        Option::None => {
                            reveal_strlit("null");
                            reveal_strlit("{\"enabled\":");
                            assert(s@.subrange(i as int, i + "null"@.len())[0] == 'n');
                            assert(s@.subrange(i as int, i + "{\"enabled\":"@.len())[0] == '{');
                        },
                        Option::Some(sc) => {
                            lemma_shortcuts_parts(s@, i as int, sc);
                        },
                    }
                }
            }
            return Option::None;
        },
    };
    let built = ShortcutsConfig { enabled, shortcuts: entries };
    proof {
        assert forall|o: Option<ShortcutsConfig>|
            matches_at(
                s@,
                i as int,
                #[trigger] opt_shortcuts_r(o),
            ) implies (opt_shortcuts_eq(Option::Some(built), o) && p4 == i + opt_shortcuts_r(
            o,
        ).len()) by {
            match o {
                Option::None => {
                    reveal_strlit("null");
                    reveal_strlit("{\"enabled\":");
                    assert(s@.subrange(i as int, i + "null"@.len())[0] == 'n');
                    assert(s@.subrange(i as int, i + "{\"enabled\":"@.len())[0] == '{');
                },
                Option::Some(sc) => {
                    lemma_shortcuts_parts(s@, i as int, sc);
                },
            }
        }
        assert(i < p4 <= s@.len());
    }
    Option::Some((Option::Some(built), p4))
}

// ---------------------------------------------------------------------------
// Composite parsers
// ---------------------------------------------------------------------------

#[verifier::rlimit(100)]
proof fn lemma_pc_parts(s: Seq<char>, i: int, x: ProgramConfig)
    requires
        matches_at(s, i, pc_r(x)),
    ensures
        matches_at(s, i, "{\"mode\":"@),
        matches_at(s, i + "{\"mode\":"@.len(), mode_r(x.mode)),
        matches_at(s, i + "{\"mode\":"@.len() + mode_r(x.mode).len(), ",\"custom_path\":"@),
        matches_at(s, i + "{\"mode\":"@.len() + mode_r(x.mode).len() + ",\"custom_path\":"@.len(), opt_str_r(x.custom_path)),
        matches_at(s, i + "{\"mode\":"@.len() + mode_r(x.mode).len() + ",\"custom_path\":"@.len() + opt_str_r(x.custom_path).len(), ",\"custom_args\":"@),
        matches_at(s, i + "{\"mode\":"@.len() + mode_r(x.mode).len() + ",\"custom_path\":"@.len() + opt_str_r(x.custom_path).len() + ",\"custom_args\":"@.len(), args_r(x.custom_args@)),
        matches_at(s, i + "{\"mode\":"@.len() + mode_r(x.mode).len() + ",\"custom_path\":"@.len() + opt_str_r(x.custom_path).len() + ",\"custom_args\":"@.len() + args_r(x.custom_args@).len(), ",\"custom_script\":"@),
        matches_at(s, i + "{\"mode\":"@.len() + mode_r(x.mode).len() + ",\"custom_path\":"@.len() + opt_str_r(x.custom_path).len() + ",\"custom_args\":"@.len() + args_r(x.custom_args@).len() + ",\"custom_script\":"@.len(), opt_str_r(x.custom_script)),
        matches_at(s, i + "{\"mode\":"@.len() + mode_r(x.mode).len() + ",\"custom_path\":"@.len() + opt_str_r(x.custom_path).len() + ",\"custom_args\":"@.len() + args_r(x.custom_args@).len() + ",\"custom_script\":"@.len() + opt_str_r(x.custom_script).len(), "}"@),
        pc_r(x).len() == i + "{\"mode\":"@.len() + mode_r(x.mode).len() + ",\"custom_path\":"@.len() + opt_str_r(x.custom_path).len() + ",\"custom_args\":"@.len() + args_r(x.custom_args@).len() + ",\"custom_script\":"@.len() + opt_str_r(x.custom_script).len() + "}"@.len() - i,
{
    lemma_matches_split(s, i, "{\"mode\":"@ + mode_r(x.mode) + ",\"custom_path\":"@ + opt_str_r(x.custom_path) + ",\"custom_args\":"@ + args_r(x.custom_args@) + ",\"custom_script\":"@ + opt_str_r(x.custom_script), "}"@);
    lemma_matches_split(s, i, "{\"mode\":"@ + mode_r(x.mode) + ",\"custom_path\":"@ + opt_str_r(x.custom_path) + ",\"custom_args\":"@ + args_r(x.custom_args@) + ",\"custom_script\":"@, opt_str_r(x.custom_script));
    lemma_matches_split(s, i, "{\"mode\":"@ + mode_r(x.mode) + ",\"custom_path\":"@ + opt_str_r(x.custom_path) + ",\"custom_args\":"@ + args_r(x.custom_args@), ",\"custom_script\":"@);
    lemma_matches_split(s, i, "{\"mode\":"@ + mode_r(x.mode) + ",\"custom_path\":"@ + opt_str_r(x.custom_path) + ",\"custom_args\":"@, args_r(x.custom_args@));
    lemma_matches_split(s, i, "{\"mode\":"@ + mode_r(x.mode) + ",\"custom_path\":"@ + opt_str_r(x.custom_path), ",\"custom_args\":"@);
    lemma_matches_split(s, i, "{\"mode\":"@ + mode_r(x.mode) + ",\"custom_path\":"@, opt_str_r(x.custom_path));
    lemma_matches_split(s, i, "{\"mode\":"@ + mode_r(x.mode), ",\"custom_path\":"@);
    lemma_matches_split(s, i, "{\"mode\":"@, mode_r(x.mode));

}

#[verifier::rlimit(100)]
fn parse_pc(s: &str, i: usize) -> (r: Option<(ProgramConfig, usize)>)
    ensures
        forall|x: ProgramConfig|
            matches_at(s@, i as int, #[trigger] pc_r(x)) ==> (r matches Some(p) && pc_eq(p.0, x)
                && p.1 == i + pc_r(x).len()),
{
    let p0 = match expect_lit(s, i, "{\"mode\":") {
        Option::Some(j) => j,
        Option::None => {
            proof {
                assert forall|x: ProgramConfig| matches_at(s@, i as int, #[trigger] pc_r(x)) implies false by {
                    lemma_pc_parts(s@, i as int, x);
                }
            }
            return Option::None;
        },
    };
    let (v0, p1) = match parse_mode(s, p0) {
        Option::Some(pr) => pr,
        Option::None => {
            proof {
                assert forall|x: ProgramConfig| matches_at(s@, i as int, #[trigger] pc_r(x)) implies false by {
                    lemma_pc_parts(s@, i as int, x);
                }
            }
            return Option::None;
        },
    };
    let p2 = match expect_lit(s, p1, ",\"custom_path\":") {
        Option::Some(j) => j,
        Option::None => {
            proof {
                assert forall|x: ProgramConfig| matches_at(s@, i as int, #[trigger] pc_r(x)) implies false by {
                    lemma_pc_parts(s@, i as int, x);
                }
            }
            return Option::None;
        },
    };
    let (v1, p3) = match parse_opt_str(s, p2) {
        Option::Some(pr) => pr,
        Option::None => {
            proof {
                assert forall|x: ProgramConfig| matches_at(s@, i as int, #[trigger] pc_r(x)) implies false by {
                    lemma_pc_parts(s@, i as int, x);
                }
            }
            return Option::None;
        },
    };
    let p4 = match expect_lit(s, p3, ",\"custom_args\":") {
        Option::Some(j) => j,
        Option::None => {
            proof {
                assert forall|x: ProgramConfig| matches_at(s@, i as int, #[trigger] pc_r(x)) implies false by {
                    lemma_pc_parts(s@, i as int, x);
                }
            }
            return Option::None;
        },
    };
    let (v2, p5) = match parse_args(s, p4) {
        Option::Some(pr) => pr,
        Option::None => {
            proof {
                assert forall|x: ProgramConfig| matches_at(s@, i as int, #[trigger] pc_r(x)) implies false by {
                    lemma_pc_parts(s@, i as int, x);
                }
            }
            return Option::None;
        },
    };
    let p6 = match expect_lit(s, p5, ",\"custom_script\":") {
        Option::Some(j) => j,
        Option::None => {
            proof {
                assert forall|x: ProgramConfig| matches_at(s@, i as int, #[trigger] pc_r(x)) implies false by {
                    lemma_pc_parts(s@, i as int, x);
                }
            }
            return Option::None;
        },
    };
    let (v3, p7) = match parse_opt_str(s, p6) {
        Option::Some(pr) => pr,
        Option::None => {
            proof {
                assert forall|x: ProgramConfig| matches_at(s@, i as int, #[trigger] pc_r(x)) implies false by {
                    lemma_pc_parts(s@, i as int, x);
                }
            }
            return Option::None;
        },
    };
    let p8 = match expect_lit(s, p7, "}") {
        Option::Some(j) => j,
        Option::None => {
            proof {
                assert forall|x: ProgramConfig| matches_at(s@, i as int, #[trigger] pc_r(x)) implies false by {
                    lemma_pc_parts(s@, i as int, x);
                }
            }
            return Option::None;
        },
    };
    let built = ProgramConfig { mode: v0, custom_path: v1, custom_args: v2, custom_script: v3 };
    proof {
        assert forall|x: ProgramConfig| matches_at(s@, i as int, #[trigger] pc_r(x)) implies (pc_eq(built, x)
            && p8 == i + pc_r(x).len()) by {
            lemma_pc_parts(s@, i as int, x);
        }
    }
    Option::Some((built, p8))
}


#[verifier::rlimit(100)]
proof fn lemma_platform_parts(s: Seq<char>, i: int, x: PlatformConfig)
    requires
        matches_at(s, i, platform_r(x)),
    ensures
        matches_at(s, i, "{\"terminal\":"@),
        matches_at(s, i + "{\"terminal\":"@.len(), pc_r(x.terminal)),
        matches_at(s, i + "{\"terminal\":"@.len() + pc_r(x.terminal).len(), ",\"browser\":"@),
        matches_at(s, i + "{\"terminal\":"@.len() + pc_r(x.terminal).len() + ",\"browser\":"@.len(), pc_r(x.browser)),
        matches_at(s, i + "{\"terminal\":"@.len() + pc_r(x.terminal).len() + ",\"browser\":"@.len() + pc_r(x.browser).len(), ",\"file_manager\":"@),
        matches_at(s, i + "{\"terminal\":"@.len() + pc_r(x.terminal).len() + ",\"browser\":"@.len() + pc_r(x.browser).len() + ",\"file_manager\":"@.len(), pc_r(x.file_manager)),
        matches_at(s, i + "{\"terminal\":"@.len() + pc_r(x.terminal).len() + ",\"browser\":"@.len() + pc_r(x.browser).len() + ",\"file_manager\":"@.len() + pc_r(x.file_manager).len(), ",\"text_editor\":"@),
        matches_at(s, i + "{\"terminal\":"@.len() + pc_r(x.terminal).len() + ",\"browser\":"@.len() + pc_r(x.browser).len() + ",\"file_manager\":"@.len() + pc_r(x.file_manager).len() + ",\"text_editor\":"@.len(), pc_r(x.text_editor)),
        matches_at(s, i + "{\"terminal\":"@.len() + pc_r(x.terminal).len() + ",\"browser\":"@.len() + pc_r(x.browser).len() + ",\"file_manager\":"@.len() + pc_r(x.file_manager).len() + ",\"text_editor\":"@.len() + pc_r(x.text_editor).len(), ",\"environment\":"@),
        matches_at(s, i + "{\"terminal\":"@.len() + pc_r(x.terminal).len() + ",\"browser\":"@.len() + pc_r(x.browser).len() + ",\"file_manager\":"@.len() + pc_r(x.file_manager).len() + ",\"text_editor\":"@.len() + pc_r(x.text_editor).len() + ",\"environment\":"@.len(), env_r(x.environment@)),
        matches_at(s, i + "{\"terminal\":"@.len() + pc_r(x.terminal).len() + ",\"browser\":"@.len() + pc_r(x.browser).len() + ",\"file_manager\":"@.len() + pc_r(x.file_manager).len() + ",\"text_editor\":"@.len() + pc_r(x.text_editor).len() + ",\"environment\":"@.len() + env_r(x.environment@).len(), "}"@),
        platform_r(x).len() == i + "{\"terminal\":"@.len() + pc_r(x.terminal).len() + ",\"browser\":"@.len() + pc_r(x.browser).len() + ",\"file_manager\":"@.len() + pc_r(x.file_manager).len() + ",\"text_editor\":"@.len() + pc_r(x.text_editor).len() + ",\"environment\":"@.len() + env_r(x.environment@).len() + "}"@.len() - i,
{
    lemma_matches_split(s, i, "{\"terminal\":"@ + pc_r(x.terminal) + ",\"browser\":"@ + pc_r(x.browser) + ",\"file_manager\":"@ + pc_r(x.file_manager) + ",\"text_editor\":"@ + pc_r(x.text_editor) + ",\"environment\":"@ + env_r(x.environment@), "}"@);
    lemma_matches_split(s, i, "{\"terminal\":"@ + pc_r(x.terminal) + ",\"browser\":"@ + pc_r(x.browser) + ",\"file_manager\":"@ + pc_r(x.file_manager) + ",\"text_editor\":"@ + pc_r(x.text_editor) + ",\"environment\":"@, env_r(x.environment@));
    lemma_matches_split(s, i, "{\"terminal\":"@ + pc_r(x.terminal) + ",\"browser\":"@ + pc_r(x.browser) + ",\"file_manager\":"@ + pc_r(x.file_manager) + ",\"text_editor\":"@ + pc_r(x.text_editor), ",\"environment\":"@);
    lemma_matches_split(s, i, "{\"terminal\":"@ + pc_r(x.terminal) + ",\"browser\":"@ + pc_r(x.browser) + ",\"file_manager\":"@ + pc_r(x.file_manager) + ",\"text_editor\":"@, pc_r(x.text_editor));
    lemma_matches_split(s, i, "{\"terminal\":"@ + pc_r(x.terminal) + ",\"browser\":"@ + pc_r(x.browser) + ",\"file_manager\":"@ + pc_r(x.file_manager), ",\"text_editor\":"@);
    lemma_matches_split(s, i, "{\"terminal\":"@ + pc_r(x.terminal) + ",\"browser\":"@ + pc_r(x.browser) + ",\"file_manager\":"@, pc_r(x.file_manager));
    lemma_matches_split(s, i, "{\"terminal\":"@ + pc_r(x.terminal) + ",\"browser\":"@ + pc_r(x.browser), ",\"file_manager\":"@);
    lemma_matches_split(s, i, "{\"terminal\":"@ + pc_r(x.terminal) + ",\"browser\":"@, pc_r(x.browser));
    lemma_matches_split(s, i, "{\"terminal\":"@ + pc_r(x.terminal), ",\"browser\":"@);
    lemma_matches_split(s, i, "{\"terminal\":"@, pc_r(x.terminal));

}

#[verifier::rlimit(100)]
fn parse_platform(s: &str, i: usize) -> (r: Option<(PlatformConfig, usize)>)
    ensures
        forall|x: PlatformConfig|
            matches_at(s@, i as int, #[trigger] platform_r(x)) ==> (r matches Some(p) && platform_eq(p.0, x)
                && p.1 == i + platform_r(x).len()),
{
    let p0 = match expect_lit(s, i, "{\"terminal\":") {
        Option::Some(j) => j,
        Option::None => {
            proof {
                assert forall|x: PlatformConfig| matches_at(s@, i as int, #[trigger] platform_r(x)) implies false by {
                    lemma_platform_parts(s@, i as int, x);
                }
            }
            return Option::None;
        },
    };
    let (v0, p1) = match parse_pc(s, p0) {
        Option::Some(pr) => pr,
        Option::None => {
            proof {
                assert forall|x: PlatformConfig| matches_at(s@, i as int, #[trigger] platform_r(x)) implies false by {
                    lemma_platform_parts(s@, i as int, x);
                }
            }
            return Option::None;
        },
    };
    let p2 = match expect_lit(s, p1, ",\"browser\":") {
        Option::Some(j) => j,
        Option::None => {
            proof {
                assert forall|x: PlatformConfig| matches_at(s@, i as int, #[trigger] platform_r(x)) implies false by {
                    lemma_platform_parts(s@, i as int, x);
                }
            }
            return Option::None;
        },
    };
    let (v1, p3) = match parse_pc(s, p2) {
        Option::Some(pr) => pr,
        Option::None => {
            proof {
                assert forall|x: PlatformConfig| matches_at(s@, i as int, #[trigger] platform_r(x)) implies false by {
                    lemma_platform_parts(s@, i as int, x);
                }
            }
            return Option::None;
        },
    };
    let p4 = match expect_lit(s, p3, ",\"file_manager\":") {
        Option::Some(j) => j,
        Option::None => {
            proof {
                assert forall|x: PlatformConfig| matches_at(s@, i as int, #[trigger] platform_r(x)) implies false by {
                    lemma_platform_parts(s@, i as int, x);
                }
            }
            return Option::None;
        },
    };
    let (v2, p5) = match parse_pc(s, p4) {
        Option::Some(pr) => pr,
        Option::None => {
            proof {
                assert forall|x: PlatformConfig| matches_at(s@, i as int, #[trigger] platform_r(x)) implies false by {
                    lemma_platform_parts(s@, i as int, x);
                }
            }
            return Option::None;
        },
    };
    let p6 = match expect_lit(s, p5, ",\"text_editor\":") {
        Option::Some(j) => j,
        Option::None => {
            proof {
                assert forall|x: PlatformConfig| matches_at(s@, i as int, #[trigger] platform_r(x)) implies false by {
                    lemma_platform_parts(s@, i as int, x);
                }
            }
            return Option::None;
        },
    };
    let (v3, p7) = match parse_pc(s, p6) {
        Option::Some(pr) => pr,
        Option::None => {
            proof {
                assert forall|x: PlatformConfig| matches_at(s@, i as int, #[trigger] platform_r(x)) implies false by {
                    lemma_platform_parts(s@, i as int, x);
                }
            }
            return Option::None;
        },
    };
    let p8 = match expect_lit(s, p7, ",\"environment\":") {
        Option::Some(j) => j,
        Option::None => {
            proof {
                assert forall|x: PlatformConfig| matches_at(s@, i as int, #[trigger] platform_r(x)) implies false by {
                    lemma_platform_parts(s@, i as int, x);
                }
            }
            return Option::None;
        },
    };
    let (v4, p9) = match parse_env(s, p8) {
        Option::Some(pr) => pr,
        Option::None => {
            proof {
                assert forall|x: PlatformConfig| matches_at(s@, i as int, #[trigger] platform_r(x)) implies false by {
                    lemma_platform_parts(s@, i as int, x);
                }
            }
            return Option::None;
        },
    };
    let p10 = match expect_lit(s, p9, "}") {
        Option::Some(j) => j,
        Option::None => {
            proof {
                assert forall|x: PlatformConfig| matches_at(s@, i as int, #[trigger] platform_r(x)) implies false by {
                    lemma_platform_parts(s@, i as int, x);
                }
            }
            return Option::None;
        },
    };
    let built = PlatformConfig { terminal: v0, browser: v1, file_manager: v2, text_editor: v3, environment: v4 };
    proof {
        assert forall|x: PlatformConfig| matches_at(s@, i as int, #[trigger] platform_r(x)) implies (platform_eq(built, x)
            && p10 == i + platform_r(x).len()) by {
            lemma_platform_parts(s@, i as int, x);
        }
    }
    Option::Some((built, p10))
}


#[verifier::rlimit(100)]
proof fn lemma_backup_parts(s: Seq<char>, i: int, x: BackupConfig)
    requires
        matches_at(s, i, backup_r(x)),
    ensures
        matches_at(s, i, "{\"default_path\":"@),
        matches_at(s, i + "{\"default_path\":"@.len(), opt_str_r(x.default_path)),
        matches_at(s, i + "{\"default_path\":"@.len() + opt_str_r(x.default_path).len(), ",\"auto_backup_enabled\":"@),
        matches_at(s, i + "{\"default_path\":"@.len() + opt_str_r(x.default_path).len() + ",\"auto_backup_enabled\":"@.len(), bool_r(x.auto_backup_enabled)),
        matches_at(s, i + "{\"default_path\":"@.len() + opt_str_r(x.default_path).len() + ",\"auto_backup_enabled\":"@.len() + bool_r(x.auto_backup_enabled).len(), ",\"auto_backup_interval\":"@),
        matches_at(s, i + "{\"default_path\":"@.len() + opt_str_r(x.default_path).len() + ",\"auto_backup_enabled\":"@.len() + bool_r(x.auto_backup_enabled).len() + ",\"auto_backup_interval\":"@.len(), u32_r(x.auto_backup_interval)),
        i + "{\"default_path\":"@.len() + opt_str_r(x.default_path).len() + ",\"auto_backup_enabled\":"@.len() + bool_r(x.auto_backup_enabled).len() + ",\"auto_backup_interval\":"@.len() + u32_r(x.auto_backup_interval).len() < s.len(),
        !is_digit(s[i + "{\"default_path\":"@.len() + opt_str_r(x.default_path).len() + ",\"auto_backup_enabled\":"@.len() + bool_r(x.auto_backup_enabled).len() + ",\"auto_backup_interval\":"@.len() + u32_r(x.auto_backup_interval).len()]),
        matches_at(s, i + "{\"default_path\":"@.len() + opt_str_r(x.default_path).len() + ",\"auto_backup_enabled\":"@.len() + bool_r(x.auto_backup_enabled).len() + ",\"auto_backup_interval\":"@.len() + u32_r(x.auto_backup_interval).len(), ",\"cleanup_old_backups\":"@),
        matches_at(s, i + "{\"default_path\":"@.len() + opt_str_r(x.default_path).len() + ",\"auto_backup_enabled\":"@.len() + bool_r(x.auto_backup_enabled).len() + ",\"auto_backup_interval\":"@.len() + u32_r(x.auto_backup_interval).len() + ",\"cleanup_old_backups\":"@.len(), bool_r(x.cleanup_old_backups)),
        matches_at(s, i + "{\"default_path\":"@.len() + opt_str_r(x.default_path).len() + ",\"auto_backup_enabled\":"@.len() + bool_r(x.auto_backup_enabled).len() + ",\"auto_backup_interval\":"@.len() + u32_r(x.auto_backup_interval).len() + ",\"cleanup_old_backups\":"@.len() + bool_r(x.cleanup_old_backups).len(), ",\"retention_days\":"@),
        matches_at(s, i + "{\"default_path\":"@.len() + opt_str_r(x.default_path).len() + ",\"auto_backup_enabled\":"@.len() + bool_r(x.auto_backup_enabled).len() + ",\"auto_backup_interval\":"@.len() + u32_r(x.auto_backup_interval).len() + ",\"cleanup_old_backups\":"@.len() + bool_r(x.cleanup_old_backups).len() + ",\"retention_days\":"@.len(), u32_r(x.retention_days)),
        i + "{\"default_path\":"@.len() + opt_str_r(x.default_path).len() + ",\"auto_backup_enabled\":"@.len() + bool_r(x.auto_backup_enabled).len() + ",\"auto_backup_interval\":"@.len() + u32_r(x.auto_backup_interval).len() + ",\"cleanup_old_backups\":"@.len() + bool_r(x.cleanup_old_backups).len() + ",\"retention_days\":"@.len() + u32_r(x.retention_days).len() < s.len(),
        !is_digit(s[i + "{\"default_path\":"@.len() + opt_str_r(x.default_path).len() + ",\"auto_backup_enabled\":"@.len() + bool_r(x.auto_backup_enabled).len() + ",\"auto_backup_interval\":"@.len() + u32_r(x.auto_backup_interval).len() + ",\"cleanup_old_backups\":"@.len() + bool_r(x.cleanup_old_backups).len() + ",\"retention_days\":"@.len() + u32_r(x.retention_days).len()]),
        matches_at(s, i + "{\"default_path\":"@.len() + opt_str_r(x.default_path).len() + ",\"auto_backup_enabled\":"@.len() + bool_r(x.auto_backup_enabled).len() + ",\"auto_backup_interval\":"@.len() + u32_r(x.auto_backup_interval).len() + ",\"cleanup_old_backups\":"@.len() + bool_r(x.cleanup_old_backups).len() + ",\"retention_days\":"@.len() + u32_r(x.retention_days).len(), "}"@),
        backup_r(x).len() == i + "{\"default_path\":"@.len() + opt_str_r(x.default_path).len() + ",\"auto_backup_enabled\":"@.len() + bool_r(x.auto_backup_enabled).len() + ",\"auto_backup_interval\":"@.len() + u32_r(x.auto_backup_interval).len() + ",\"cleanup_old_backups\":"@.len() + bool_r(x.cleanup_old_backups).len() + ",\"retention_days\":"@.len() + u32_r(x.retention_days).len() + "}"@.len() - i,
{
    lemma_matches_split(s, i, "{\"default_path\":"@ + opt_str_r(x.default_path) + ",\"auto_backup_enabled\":"@ + bool_r(x.auto_backup_enabled) + ",\"auto_backup_interval\":"@ + u32_r(x.auto_backup_interval) + ",\"cleanup_old_backups\":"@ + bool_r(x.cleanup_old_backups) + ",\"retention_days\":"@ + u32_r(x.retention_days), "}"@);
    lemma_matches_split(s, i, "{\"default_path\":"@ + opt_str_r(x.default_path) + ",\"auto_backup_enabled\":"@ + bool_r(x.auto_backup_enabled) + ",\"auto_backup_interval\":"@ + u32_r(x.auto_backup_interval) + ",\"cleanup_old_backups\":"@ + bool_r(x.cleanup_old_backups) + ",\"retention_days\":"@, u32_r(x.retention_days));
    lemma_matches_split(s, i, "{\"default_path\":"@ + opt_str_r(x.default_path) + ",\"auto_backup_enabled\":"@ + bool_r(x.auto_backup_enabled) + ",\"auto_backup_interval\":"@ + u32_r(x.auto_backup_interval) + ",\"cleanup_old_backups\":"@ + bool_r(x.cleanup_old_backups), ",\"retention_days\":"@);
    lemma_matches_split(s, i, "{\"default_path\":"@ + opt_str_r(x.default_path) + ",\"auto_backup_enabled\":"@ + bool_r(x.auto_backup_enabled) + ",\"auto_backup_interval\":"@ + u32_r(x.auto_backup_interval) + ",\"cleanup_old_backups\":"@, bool_r(x.cleanup_old_backups));
    lemma_matches_split(s, i, "{\"default_path\":"@ + opt_str_r(x.default_path) + ",\"auto_backup_enabled\":"@ + bool_r(x.auto_backup_enabled) + ",\"auto_backup_interval\":"@ + u32_r(x.auto_backup_interval), ",\"cleanup_old_backups\":"@);
    lemma_matches_split(s, i, "{\"default_path\":"@ + opt_str_r(x.default_path) + ",\"auto_backup_enabled\":"@ + bool_r(x.auto_backup_enabled) + ",\"auto_backup_interval\":"@, u32_r(x.auto_backup_interval));
    lemma_matches_split(s, i, "{\"default_path\":"@ + opt_str_r(x.default_path) + ",\"auto_backup_enabled\":"@ + bool_r(x.auto_backup_enabled), ",\"auto_backup_interval\":"@);
    lemma_matches_split(s, i, "{\"default_path\":"@ + opt_str_r(x.default_path) + ",\"auto_backup_enabled\":"@, bool_r(x.auto_backup_enabled));
    lemma_matches_split(s, i, "{\"default_path\":"@ + opt_str_r(x.default_path), ",\"auto_backup_enabled\":"@);
    lemma_matches_split(s, i, "{\"default_path\":"@, opt_str_r(x.default_path));
    reveal_strlit(",\"cleanup_old_backups\":");
    assert(s.subrange(i + "{\"default_path\":"@.len() + opt_str_r(x.default_path).len() + ",\"auto_backup_enabled\":"@.len() + bool_r(x.auto_backup_enabled).len() + ",\"auto_backup_interval\":"@.len() + u32_r(x.auto_backup_interval).len(), i + "{\"default_path\":"@.len() + opt_str_r(x.default_path).len() + ",\"auto_backup_enabled\":"@.len() + bool_r(x.auto_backup_enabled).len() + ",\"auto_backup_interval\":"@.len() + u32_r(x.auto_backup_interval).len() + ",\"cleanup_old_backups\":"@.len()) == ",\"cleanup_old_backups\":"@);
    assert(s[i + "{\"default_path\":"@.len() + opt_str_r(x.default_path).len() + ",\"auto_backup_enabled\":"@.len() + bool_r(x.auto_backup_enabled).len() + ",\"auto_backup_interval\":"@.len() + u32_r(x.auto_backup_interval).len()] == ",\"cleanup_old_backups\":"@[0]);
    reveal_strlit("}");
    assert(s.subrange(i + "{\"default_path\":"@.len() + opt_str_r(x.default_path).len() + ",\"auto_backup_enabled\":"@.len() + bool_r(x.auto_backup_enabled).len() + ",\"auto_backup_interval\":"@.len() + u32_r(x.auto_backup_interval).len() + ",\"cleanup_old_backups\":"@.len() + bool_r(x.cleanup_old_backups).len() + ",\"retention_days\":"@.len() + u32_r(x.retention_days).len(), i + "{\"default_path\":"@.len() + opt_str_r(x.default_path).len() + ",\"auto_backup_enabled\":"@.len() + bool_r(x.auto_backup_enabled).len() + ",\"auto_backup_interval\":"@.len() + u32_r(x.auto_backup_interval).len() + ",\"cleanup_old_backups\":"@.len() + bool_r(x.cleanup_old_backups).len() + ",\"retention_days\":"@.len() + u32_r(x.retention_days).len() + "}"@.len()) == "}"@);
    assert(s[i + "{\"default_path\":"@.len() + opt_str_r(x.default_path).len() + ",\"auto_backup_enabled\":"@.len() + bool_r(x.auto_backup_enabled).len() + ",\"auto_backup_interval\":"@.len() + u32_r(x.auto_backup_interval).len() + ",\"cleanup_old_backups\":"@.len() + bool_r(x.cleanup_old_backups).len() + ",\"retention_days\":"@.len() + u32_r(x.retention_days).len()] == "}"@[0]);
}

#[verifier::rlimit(100)]
fn parse_backup(s: &str, i: usize) -> (r: Option<(BackupConfig, usize)>)
    ensures
        forall|x: BackupConfig|
            matches_at(s@, i as int, #[trigger] backup_r(x)) ==> (r matches Some(p) && backup_eq(p.0, x)
                && p.1 == i + backup_r(x).len()),
{
    let p0 = match expect_lit(s, i, "{\"default_path\":") {
        Option::Some(j) => j,
        Option::None => {
            proof {
                assert forall|x: BackupConfig| matches_at(s@, i as int, #[trigger] backup_r(x)) implies false by {
                    lemma_backup_parts(s@, i as int, x);
                }
            }
            return Option::None;
        },
    };
    let (v0, p1) = match parse_opt_str(s, p0) {
        Option::Some(pr) => pr,
        Option::None => {
            proof {
                assert forall|x: BackupConfig| matches_at(s@, i as int, #[trigger] backup_r(x)) implies false by {
                    lemma_backup_parts(s@, i as int, x);
                }
            }
            return Option::None;
        },
    };
    let p2 = match expect_lit(s, p1, ",\"auto_backup_enabled\":") {
        Option::Some(j) => j,
        Option::None => {
            proof {
                assert forall|x: BackupConfig| matches_at(s@, i as int, #[trigger] backup_r(x)) implies false by {
                    lemma_backup_parts(s@, i as int, x);
                }
            }
            return Option::None;
        },
    };
    let (v1, p3) = match parse_bool(s, p2) {
        Option::Some(pr) => pr,
        Option::None => {
            proof {
                assert forall|x: BackupConfig| matches_at(s@, i as int, #[trigger] backup_r(x)) implies false by {
                    lemma_backup_parts(s@, i as int, x);
                }
            }
            return Option::None;
        },
    };
    let p4 = match expect_lit(s, p3, ",\"auto_backup_interval\":") {
        Option::Some(j) => j,
        Option::None => {
            proof {
                assert forall|x: BackupConfig| matches_at(s@, i as int, #[trigger] backup_r(x)) implies false by {
                    lemma_backup_parts(s@, i as int, x);
                }
            }
            return Option::None;
        },
    };
    let (v2, p5) = match parse_u32(s, p4) {
        Option::Some(pr) => pr,
        Option::None => {
            proof {
                assert forall|x: BackupConfig| matches_at(s@, i as int, #[trigger] backup_r(x)) implies false by {
                    lemma_backup_parts(s@, i as int, x);
                }
            }
            return Option::None;
        },
    };
    let p6 = match expect_lit(s, p5, ",\"cleanup_old_backups\":") {
        Option::Some(j) => j,
        Option::None => {
            proof {
                assert forall|x: BackupConfig| matches_at(s@, i as int, #[trigger] backup_r(x)) implies false by {
                    lemma_backup_parts(s@, i as int, x);
                }
            }
            return Option::None;
        },
    };
    let (v3, p7) = match parse_bool(s, p6) {
        Option::Some(pr) => pr,
        Option::None => {
            proof {
                assert forall|x: BackupConfig| matches_at(s@, i as int, #[trigger] backup_r(x)) implies false by {
                    lemma_backup_parts(s@, i as int, x);
                }
            }
            return Option::None;
        },
    };
    let p8 = match expect_lit(s, p7, ",\"retention_days\":") {
        Option::Some(j) => j,
        Option::None => {
            proof {
                assert forall|x: BackupConfig| matches_at(s@, i as int, #[trigger] backup_r(x)) implies false by {
                    lemma_backup_parts(s@, i as int, x);
                }
            }
            return Option::None;
        },
    };
    let (v4, p9) = match parse_u32(s, p8) {
        Option::Some(pr) => pr,
        Option::None => {
            proof {
                assert forall|x: BackupConfig| matches_at(s@, i as int, #[trigger] backup_r(x)) implies false by {
                    lemma_backup_parts(s@, i as int, x);
                }
            }
            return Option::None;
        },
    };
    let p10 = match expect_lit(s, p9, "}") {
        Option::Some(j) => j,
        Option::None => {
            proof {
                assert forall|x: BackupConfig| matches_at(s@, i as int, #[trigger] backup_r(x)) implies false by {
                    lemma_backup_parts(s@, i as int, x);
                }
            }
            return Option::None;
        },
    };
    let built = BackupConfig { default_path: v0, auto_backup_enabled: v1, auto_backup_interval: v2, cleanup_old_backups: v3, retention_days: v4 };
    proof {
        assert forall|x: BackupConfig| matches_at(s@, i as int, #[trigger] backup_r(x)) implies (backup_eq(built, x)
            && p10 == i + backup_r(x).len()) by {
            lemma_backup_parts(s@, i as int, x);
        }
    }
    Option::Some((built, p10))
}


#[verifier::rlimit(100)]
proof fn lemma_ui_parts(s: Seq<char>, i: int, x: UiConfig)
    requires
        matches_at(s, i, ui_r(x)),
    ensures
        matches_at(s, i, "{\"theme\":"@),
        matches_at(s, i + "{\"theme\":"@.len(), theme_r(x.theme)),
        matches_at(s, i + "{\"theme\":"@.len() + theme_r(x.theme).len(), ",\"language\":"@),
        matches_at(s, i + "{\"theme\":"@.len() + theme_r(x.theme).len() + ",\"language\":"@.len(), qstr(x.language@)),
        matches_at(s, i + "{\"theme\":"@.len() + theme_r(x.theme).len() + ",\"language\":"@.len(), "\""@),
        matches_at(s, i + "{\"theme\":"@.len() + theme_r(x.theme).len() + ",\"language\":"@.len() + 1, esc_str(x.language@) + seq!['"']),
        matches_at(s, i + "{\"theme\":"@.len() + theme_r(x.theme).len() + ",\"language\":"@.len() + qstr(x.language@).len(), ",\"confirm_delete\":"@),
        matches_at(s, i + "{\"theme\":"@.len() + theme_r(x.theme).len() + ",\"language\":"@.len() + qstr(x.language@).len() + ",\"confirm_delete\":"@.len(), bool_r(x.confirm_delete)),
        matches_at(s, i + "{\"theme\":"@.len() + theme_r(x.theme).len() + ",\"language\":"@.len() + qstr(x.language@).len() + ",\"confirm_delete\":"@.len() + bool_r(x.confirm_delete).len(), ",\"show_welcome\":"@),
        matches_at(s, i + "{\"theme\":"@.len() + theme_r(x.theme).len() + ",\"language\":"@.len() + qstr(x.language@).len() + ",\"confirm_delete\":"@.len() + bool_r(x.confirm_delete).len() + ",\"show_welcome\":"@.len(), bool_r(x.show_welcome)),
        matches_at(s, i + "{\"theme\":"@.len() + theme_r(x.theme).len() + ",\"language\":"@.len() + qstr(x.language@).len() + ",\"confirm_delete\":"@.len() + bool_r(x.confirm_delete).len() + ",\"show_welcome\":"@.len() + bool_r(x.show_welcome).len(), "}"@),
        ui_r(x).len() == i + "{\"theme\":"@.len() + theme_r(x.theme).len() + ",\"language\":"@.len() + qstr(x.language@).len() + ",\"confirm_delete\":"@.len() + bool_r(x.confirm_delete).len() + ",\"show_welcome\":"@.len() + bool_r(x.show_welcome).len() + "}"@.len() - i,
{
    lemma_matches_split(s, i, "{\"theme\":"@ + theme_r(x.theme) + ",\"language\":"@ + qstr(x.language@) + ",\"confirm_delete\":"@ + bool_r(x.confirm_delete) + ",\"show_welcome\":"@ + bool_r(x.show_welcome), "}"@);
    lemma_matches_split(s, i, "{\"theme\":"@ + theme_r(x.theme) + ",\"language\":"@ + qstr(x.language@) + ",\"confirm_delete\":"@ + bool_r(x.confirm_delete) + ",\"show_welcome\":"@, bool_r(x.show_welcome));
    lemma_matches_split(s, i, "{\"theme\":"@ + theme_r(x.theme) + ",\"language\":"@ + qstr(x.language@) + ",\"confirm_delete\":"@ + bool_r(x.confirm_delete), ",\"show_welcome\":"@);
    lemma_matches_split(s, i, "{\"theme\":"@ + theme_r(x.theme) + ",\"language\":"@ + qstr(x.language@) + ",\"confirm_delete\":"@, bool_r(x.confirm_delete));
    lemma_matches_split(s, i, "{\"theme\":"@ + theme_r(x.theme) + ",\"language\":"@ + qstr(x.language@), ",\"confirm_delete\":"@);
    lemma_matches_split(s, i, "{\"theme\":"@ + theme_r(x.theme) + ",\"language\":"@, qstr(x.language@));
    lemma_matches_split(s, i, "{\"theme\":"@ + theme_r(x.theme), ",\"language\":"@);
    lemma_matches_split(s, i, "{\"theme\":"@, theme_r(x.theme));
    lemma_qstr_parts(s, i + "{\"theme\":"@.len() + theme_r(x.theme).len() + ",\"language\":"@.len(), x.language@);
}

#[verifier::rlimit(100)]
fn parse_ui(s: &str, i: usize) -> (r: Option<(UiConfig, usize)>)
    ensures
        forall|x: UiConfig|
            matches_at(s@, i as int, #[trigger] ui_r(x)) ==> (r matches Some(p) && ui_eq(p.0, x)
                && p.1 == i + ui_r(x).len()),
{
    let p0 = match expect_lit(s, i, "{\"theme\":") {
        Option::Some(j) => j,
        Option::None => {
            proof {
                assert forall|x: UiConfig| matches_at(s@, i as int, #[trigger] ui_r(x)) implies false by {
                    reveal_strlit("\"");
                    lemma_ui_parts(s@, i as int, x);
                }
            }
            return Option::None;
        },
    };
    let (v0, p1) = match parse_theme(s, p0) {
        Option::Some(pr) => pr,
        Option::None => {
            proof {
                assert forall|x: UiConfig| matches_at(s@, i as int, #[trigger] ui_r(x)) implies false by {
                    reveal_strlit("\"");
                    lemma_ui_parts(s@, i as int, x);
                }
            }
            return Option::None;
        },
    };
    let p2 = match expect_lit(s, p1, ",\"language\":") {
        Option::Some(j) => j,
        Option::None => {
            proof {
                assert forall|x: UiConfig| matches_at(s@, i as int, #[trigger] ui_r(x)) implies false by {
                    reveal_strlit("\"");
                    lemma_ui_parts(s@, i as int, x);
                }
            }
            return Option::None;
        },
    };
    let q3 = match expect_lit(s, p2, "\"") {
        Option::Some(j) => j,
        Option::None => {
            proof {
                assert forall|x: UiConfig| matches_at(s@, i as int, #[trigger] ui_r(x)) implies false by {
                    reveal_strlit("\"");
                    lemma_ui_parts(s@, i as int, x);
                }
            }
            return Option::None;
        },
    };
    let (v1, p3) = match parse_string_value(s, q3) {
        Option::Some(pr) => pr,
        Option::None => {
            proof {
                assert forall|x: UiConfig| matches_at(s@, i as int, #[trigger] ui_r(x)) implies false by {
                    reveal_strlit("\"");
                    lemma_ui_parts(s@, i as int, x);
                }
            }
            return Option::None;
        },
    };
    let p4 = match expect_lit(s, p3, ",\"confirm_delete\":") {
        Option::Some(j) => j,
        Option::None => {
            proof {
                assert forall|x: UiConfig| matches_at(s@, i as int, #[trigger] ui_r(x)) implies false by {
                    reveal_strlit("\"");
                    lemma_ui_parts(s@, i as int, x);
                }
            }
            return Option::None;
        },
    };
    let (v2, p5) = match parse_bool(s, p4) {
        Option::Some(pr) => pr,
        Option::None => {
            proof {
                assert forall|x: UiConfig| matches_at(s@, i as int, #[trigger] ui_r(x)) implies false by {
                    reveal_strlit("\"");
                    lemma_ui_parts(s@, i as int, x);
                }
            }
            return Option::None;
        },
    };
    let p6 = match expect_lit(s, p5, ",\"show_welcome\":") {
        Option::Some(j) => j,
        Option::None => {
            proof {
                assert forall|x: UiConfig| matches_at(s@, i as int, #[trigger] ui_r(x)) implies false by {
                    reveal_strlit("\"");
                    lemma_ui_parts(s@, i as int, x);
                }
            }
            return Option::None;
        },
    };
    let (v3, p7) = match parse_bool(s, p6) {
        Option::Some(pr) => pr,
        Option::None => {
            proof {
                assert forall|x: UiConfig| matches_at(s@, i as int, #[trigger] ui_r(x)) implies false by {
                    reveal_strlit("\"");
                    lemma_ui_parts(s@, i as int, x);
                }
            }
            return Option::None;
        },
    };
    let p8 = match expect_lit(s, p7, "}") {
        Option::Some(j) => j,
        Option::None => {
            proof {
                assert forall|x: UiConfig| matches_at(s@, i as int, #[trigger] ui_r(x)) implies false by {
                    reveal_strlit("\"");
                    lemma_ui_parts(s@, i as int, x);
                }
            }
            return Option::None;
        },
    };
    let built = UiConfig { theme: v0, language: v1, confirm_delete: v2, show_welcome: v3 };
    proof {
        assert forall|x: UiConfig| matches_at(s@, i as int, #[trigger] ui_r(x)) implies (ui_eq(built, x)
            && p8 == i + ui_r(x).len()) by {
            reveal_strlit("\"");
            reveal_strlit("\"");
                    lemma_ui_parts(s@, i as int, x);
        }
    }
    Option::Some((built, p8))
}


#[verifier::rlimit(100)]
proof fn lemma_advanced_parts(s: Seq<char>, i: int, x: AdvancedConfig)
    requires
        matches_at(s, i, advanced_r(x)),
    ensures
        matches_at(s, i, "{\"log_level\":"@),
        matches_at(s, i + "{\"log_level\":"@.len(), log_r(x.log_level)),
        matches_at(s, i + "{\"log_level\":"@.len() + log_r(x.log_level).len(), ",\"enable_analytics\":"@),
        matches_at(s, i + "{\"log_level\":"@.len() + log_r(x.log_level).len() + ",\"enable_analytics\":"@.len(), bool_r(x.enable_analytics)),
        matches_at(s, i + "{\"log_level\":"@.len() + log_r(x.log_level).len() + ",\"enable_analytics\":"@.len() + bool_r(x.enable_analytics).len(), ",\"database_path\":"@),
        matches_at(s, i + "{\"log_level\":"@.len() + log_r(x.log_level).len() + ",\"enable_analytics\":"@.len() + bool_r(x.enable_analytics).len() + ",\"database_path\":"@.len(), opt_str_r(x.database_path)),
        matches_at(s, i + "{\"log_level\":"@.len() + log_r(x.log_level).len() + ",\"enable_analytics\":"@.len() + bool_r(x.enable_analytics).len() + ",\"database_path\":"@.len() + opt_str_r(x.database_path).len(), ",\"enable_auto_update\":"@),
        matches_at(s, i + "{\"log_level\":"@.len() + log_r(x.log_level).len() + ",\"enable_analytics\":"@.len() + bool_r(x.enable_analytics).len() + ",\"database_path\":"@.len() + opt_str_r(x.database_path).len() + ",\"enable_auto_update\":"@.len(), bool_r(x.enable_auto_update)),
        matches_at(s, i + "{\"log_level\":"@.len() + log_r(x.log_level).len() + ",\"enable_analytics\":"@.len() + bool_r(x.enable_analytics).len() + ",\"database_path\":"@.len() + opt_str_r(x.database_path).len() + ",\"enable_auto_update\":"@.len() + bool_r(x.enable_auto_update).len(), "}"@),
        advanced_r(x).len() == i + "{\"log_level\":"@.len() + log_r(x.log_level).len() + ",\"enable_analytics\":"@.len() + bool_r(x.enable_analytics).len() + ",\"database_path\":"@.len() + opt_str_r(x.database_path).len() + ",\"enable_auto_update\":"@.len() + bool_r(x.enable_auto_update).len() + "}"@.len() - i,
{
    lemma_matches_split(s, i, "{\"log_level\":"@ + log_r(x.log_level) + ",\"enable_analytics\":"@ + bool_r(x.enable_analytics) + ",\"database_path\":"@ + opt_str_r(x.database_path) + ",\"enable_auto_update\":"@ + bool_r(x.enable_auto_update), "}"@);
    lemma_matches_split(s, i, "{\"log_level\":"@ + log_r(x.log_level) + ",\"enable_analytics\":"@ + bool_r(x.enable_analytics) + ",\"database_path\":"@ + opt_str_r(x.database_path) + ",\"enable_auto_update\":"@, bool_r(x.enable_auto_update));
    lemma_matches_split(s, i, "{\"log_level\":"@ + log_r(x.log_level) + ",\"enable_analytics\":"@ + bool_r(x.enable_analytics) + ",\"database_path\":"@ + opt_str_r(x.database_path), ",\"enable_auto_update\":"@);
    lemma_matches_split(s, i, "{\"log_level\":"@ + log_r(x.log_level) + ",\"enable_analytics\":"@ + bool_r(x.enable_analytics) + ",\"database_path\":"@, opt_str_r(x.database_path));
    lemma_matches_split(s, i, "{\"log_level\":"@ + log_r(x.log_level) + ",\"enable_analytics\":"@ + bool_r(x.enable_analytics), ",\"database_path\":"@);
    lemma_matches_split(s, i, "{\"log_level\":"@ + log_r(x.log_level) + ",\"enable_analytics\":"@, bool_r(x.enable_analytics));
    lemma_matches_split(s, i, "{\"log_level\":"@ + log_r(x.log_level), ",\"enable_analytics\":"@);
    lemma_matches_split(s, i, "{\"log_level\":"@, log_r(x.log_level));

}

#[verifier::rlimit(100)]
fn parse_advanced(s: &str, i: usize) -> (r: Option<(AdvancedConfig, usize)>)
    ensures
        forall|x: AdvancedConfig|
            matches_at(s@, i as int, #[trigger] advanced_r(x)) ==> (r matches Some(p) && advanced_eq(p.0, x)
                && p.1 == i + advanced_r(x).len()),
{
    let p0 = match expect_lit(s, i, "{\"log_level\":") {
        Option::Some(j) => j,
        Option::None => {
            proof {
                assert forall|x: AdvancedConfig| matches_at(s@, i as int, #[trigger] advanced_r(x)) implies false by {
                    lemma_advanced_parts(s@, i as int, x);
                }
            }
            return Option::None;
        },
    };
    let (v0, p1) = match parse_log(s, p0) {
        Option::Some(pr) => pr,
        Option::None => {
            proof {
                assert forall|x: AdvancedConfig| matches_at(s@, i as int, #[trigger] advanced_r(x)) implies false by {
                    lemma_advanced_parts(s@, i as int, x);
                }
            }
            return Option::None;
        },
    };
    let p2 = match expect_lit(s, p1, ",\"enable_analytics\":") {
        Option::Some(j) => j,
        Option::None => {
            proof {
                assert forall|x: AdvancedConfig| matches_at(s@, i as int, #[trigger] advanced_r(x)) implies false by {
                    lemma_advanced_parts(s@, i as int, x);
                }
            }
            return Option::None;
        },
    };
    let (v1, p3) = match parse_bool(s, p2) {
        Option::Some(pr) => pr,
        Option::None => {
            proof {
                assert forall|x: AdvancedConfig| matches_at(s@, i as int, #[trigger] advanced_r(x)) implies false by {
                    lemma_advanced_parts(s@, i as int, x);
                }
            }
            return Option::None;
        },
    };
    let p4 = match expect_lit(s, p3, ",\"database_path\":") {
        Option::Some(j) => j,
        Option::None => {
            proof {
                assert forall|x: AdvancedConfig| matches_at(s@, i as int, #[trigger] advanced_r(x)) implies false by {
                    lemma_advanced_parts(s@, i as int, x);
                }
            }
            return Option::None;
        },
    };
    let (v2, p5) = match parse_opt_str(s, p4) {
        Option::Some(pr) => pr,
        Option::None => {
            proof {
                assert forall|x: AdvancedConfig| matches_at(s@, i as int, #[trigger] advanced_r(x)) implies false by {
                    lemma_advanced_parts(s@, i as int, x);
                }
            }
            return Option::None;
        },
    };
    let p6 = match expect_lit(s, p5, ",\"enable_auto_update\":") {
        Option::Some(j) => j,
        Option::None => {
            proof {
                assert forall|x: AdvancedConfig| matches_at(s@, i as int, #[trigger] advanced_r(x)) implies false by {
                    lemma_advanced_parts(s@, i as int, x);
                }
            }
            return Option::None;
        },
    };
    let (v3, p7) = match parse_bool(s, p6) {
        Option::Some(pr) => pr,
        Option::None => {
            proof {
                assert forall|x: AdvancedConfig| matches_at(s@, i as int, #[trigger] advanced_r(x)) implies false by {
                    lemma_advanced_parts(s@, i as int, x);
                }
            }
            return Option::None;
        },
    };
    let p8 = match expect_lit(s, p7, "}") {
        Option::Some(j) => j,
        Option::None => {
            proof {
                assert forall|x: AdvancedConfig| matches_at(s@, i as int, #[trigger] advanced_r(x)) implies false by {
                    lemma_advanced_parts(s@, i as int, x);
                }
            }
            return Option::None;
        },
    };
    let built = AdvancedConfig { log_level: v0, enable_analytics: v1, database_path: v2, enable_auto_update: v3 };
    proof {
        assert forall|x: AdvancedConfig| matches_at(s@, i as int, #[trigger] advanced_r(x)) implies (advanced_eq(built, x)
            && p8 == i + advanced_r(x).len()) by {
            lemma_advanced_parts(s@, i as int, x);
        }
    }
    Option::Some((built, p8))
}


#[verifier::rlimit(100)]
proof fn lemma_appconfig_parts(s: Seq<char>, i: int, x: AppConfig)
    requires
        matches_at(s, i, config_r(x)),
    ensures
        matches_at(s, i, "{\"version\":"@),
        matches_at(s, i + "{\"version\":"@.len(), qstr(x.version@)),
        matches_at(s, i + "{\"version\":"@.len(), "\""@),
        matches_at(s, i + "{\"version\":"@.len() + 1, esc_str(x.version@) + seq!['"']),
        matches_at(s, i + "{\"version\":"@.len() + qstr(x.version@).len(), ",\"platform\":"@),
        matches_at(s, i + "{\"version\":"@.len() + qstr(x.version@).len() + ",\"platform\":"@.len(), platform_r(x.platform)),
        matches_at(s, i + "{\"version\":"@.len() + qstr(x.version@).len() + ",\"platform\":"@.len() + platform_r(x.platform).len(), ",\"backup\":"@),
        matches_at(s, i + "{\"version\":"@.len() + qstr(x.version@).len() + ",\"platform\":"@.len() + platform_r(x.platform).len() + ",\"backup\":"@.len(), backup_r(x.backup)),
        matches_at(s, i + "{\"version\":"@.len() + qstr(x.version@).len() + ",\"platform\":"@.len() + platform_r(x.platform).len() + ",\"backup\":"@.len() + backup_r(x.backup).len(), ",\"ui\":"@),
        matches_at(s, i + "{\"version\":"@.len() + qstr(x.version@).len() + ",\"platform\":"@.len() + platform_r(x.platform).len() + ",\"backup\":"@.len() + backup_r(x.backup).len() + ",\"ui\":"@.len(), ui_r(x.ui)),
        matches_at(s, i + "{\"version\":"@.len() + qstr(x.version@).len() + ",\"platform\":"@.len() + platform_r(x.platform).len() + ",\"backup\":"@.len() + backup_r(x.backup).len() + ",\"ui\":"@.len() + ui_r(x.ui).len(), ",\"advanced\":"@),
        matches_at(s, i + "{\"version\":"@.len() + qstr(x.version@).len() + ",\"platform\":"@.len() + platform_r(x.platform).len() + ",\"backup\":"@.len() + backup_r(x.backup).len() + ",\"ui\":"@.len() + ui_r(x.ui).len() + ",\"advanced\":"@.len(), advanced_r(x.advanced)),
        matches_at(s, i + "{\"version\":"@.len() + qstr(x.version@).len() + ",\"platform\":"@.len() + platform_r(x.platform).len() + ",\"backup\":"@.len() + backup_r(x.backup).len() + ",\"ui\":"@.len() + ui_r(x.ui).len() + ",\"advanced\":"@.len() + advanced_r(x.advanced).len(), ",\"shortcuts\":"@),
        matches_at(s, i + "{\"version\":"@.len() + qstr(x.version@).len() + ",\"platform\":"@.len() + platform_r(x.platform).len() + ",\"backup\":"@.len() + backup_r(x.backup).len() + ",\"ui\":"@.len() + ui_r(x.ui).len() + ",\"advanced\":"@.len() + advanced_r(x.advanced).len() + ",\"shortcuts\":"@.len(), opt_shortcuts_r(x.shortcuts)),
        matches_at(s, i + "{\"version\":"@.len() + qstr(x.version@).len() + ",\"platform\":"@.len() + platform_r(x.platform).len() + ",\"backup\":"@.len() + backup_r(x.backup).len() + ",\"ui\":"@.len() + ui_r(x.ui).len() + ",\"advanced\":"@.len() + advanced_r(x.advanced).len() + ",\"shortcuts\":"@.len() + opt_shortcuts_r(x.shortcuts).len(), "}"@),
        config_r(x).len() == i + "{\"version\":"@.len() + qstr(x.version@).len() + ",\"platform\":"@.len() + platform_r(x.platform).len() + ",\"backup\":"@.len() + backup_r(x.backup).len() + ",\"ui\":"@.len() + ui_r(x.ui).len() + ",\"advanced\":"@.len() + advanced_r(x.advanced).len() + ",\"shortcuts\":"@.len() + opt_shortcuts_r(x.shortcuts).len() + "}"@.len() - i,
{
    lemma_matches_split(s, i, "{\"version\":"@ + qstr(x.version@) + ",\"platform\":"@ + platform_r(x.platform) + ",\"backup\":"@ + backup_r(x.backup) + ",\"ui\":"@ + ui_r(x.ui) + ",\"advanced\":"@ + advanced_r(x.advanced) + ",\"shortcuts\":"@ + opt_shortcuts_r(x.shortcuts), "}"@);
    lemma_matches_split(s, i, "{\"version\":"@ + qstr(x.version@) + ",\"platform\":"@ + platform_r(x.platform) + ",\"backup\":"@ + backup_r(x.backup) + ",\"ui\":"@ + ui_r(x.ui) + ",\"advanced\":"@ + advanced_r(x.advanced) + ",\"shortcuts\":"@, opt_shortcuts_r(x.shortcuts));
    lemma_matches_split(s, i, "{\"version\":"@ + qstr(x.version@) + ",\"platform\":"@ + platform_r(x.platform) + ",\"backup\":"@ + backup_r(x.backup) + ",\"ui\":"@ + ui_r(x.ui) + ",\"advanced\":"@ + advanced_r(x.advanced), ",\"shortcuts\":"@);
    lemma_matches_split(s, i, "{\"version\":"@ + qstr(x.version@) + ",\"platform\":"@ + platform_r(x.platform) + ",\"backup\":"@ + backup_r(x.backup) + ",\"ui\":"@ + ui_r(x.ui) + ",\"advanced\":"@, advanced_r(x.advanced));
    lemma_matches_split(s, i, "{\"version\":"@ + qstr(x.version@) + ",\"platform\":"@ + platform_r(x.platform) + ",\"backup\":"@ + backup_r(x.backup) + ",\"ui\":"@ + ui_r(x.ui), ",\"advanced\":"@);
    lemma_matches_split(s, i, "{\"version\":"@ + qstr(x.version@) + ",\"platform\":"@ + platform_r(x.platform) + ",\"backup\":"@ + backup_r(x.backup) + ",\"ui\":"@, ui_r(x.ui));
    lemma_matches_split(s, i, "{\"version\":"@ + qstr(x.version@) + ",\"platform\":"@ + platform_r(x.platform) + ",\"backup\":"@ + backup_r(x.backup), ",\"ui\":"@);
    lemma_matches_split(s, i, "{\"version\":"@ + qstr(x.version@) + ",\"platform\":"@ + platform_r(x.platform) + ",\"backup\":"@, backup_r(x.backup));
    lemma_matches_split(s, i, "{\"version\":"@ + qstr(x.version@) + ",\"platform\":"@ + platform_r(x.platform), ",\"backup\":"@);
    lemma_matches_split(s, i, "{\"version\":"@ + qstr(x.version@) + ",\"platform\":"@, platform_r(x.platform));
    lemma_matches_split(s, i, "{\"version\":"@ + qstr(x.version@), ",\"platform\":"@);
    lemma_matches_split(s, i, "{\"version\":"@, qstr(x.version@));
    lemma_qstr_parts(s, i + "{\"version\":"@.len(), x.version@);
}

#[verifier::rlimit(100)]
#[verifier::spinoff_prover]
fn parse_config_version(s: &str, i: usize) -> (r: Option<(String, usize)>)
    ensures
        forall|x: AppConfig|
            matches_at(s@, i as int, #[trigger] config_r(x)) ==> (r matches Some(
                p,
            ) && p.0@ == x.version@ && p.1 == i + "{\"version\":"@.len() + qstr(x.version@).len()),
{
    let p0 = match expect_lit(s, i, "{\"version\":") {
        Option::Some(j) => j,
        Option::None => {
            proof {
                assert forall|x: AppConfig| matches_at(s@, i as int, #[trigger] config_r(x)) implies false by {
                    reveal_strlit("\"");
                    lemma_appconfig_parts(s@, i as int, x);
                }
            }
            return Option::None;
        },
    };
    let q1 = match expect_lit(s, p0, "\"") {
        Option::Some(j) => j,
        Option::None => {
            proof {
                assert forall|x: AppConfig| matches_at(s@, i as int, #[trigger] config_r(x)) implies false by {
                    reveal_strlit("\"");
                    lemma_appconfig_parts(s@, i as int, x);
                }
            }
            return Option::None;
        },
    };
    let (v0, p1) = match parse_string_value(s, q1) {
        Option::Some(pr) => pr,
        Option::None => {
            proof {
                assert forall|x: AppConfig| matches_at(s@, i as int, #[trigger] config_r(x)) implies false by {
                    reveal_strlit("\"");
                    lemma_appconfig_parts(s@, i as int, x);
                }
            }
            return Option::None;
        },
    };
    proof {
        assert forall|x: AppConfig| matches_at(s@, i as int, #[trigger] config_r(x)) implies (v0@
            == x.version@ && p1 == i + "{\"version\":"@.len() + qstr(x.version@).len()) by {
            reveal_strlit("\"");
            lemma_appconfig_parts(s@, i as int, x);
        }
    }
    Option::Some((v0, p1))
}

#[verifier::rlimit(100)]
#[verifier::spinoff_prover]
fn parse_config_front(s: &str, i: usize) -> (r: Option<(String, PlatformConfig, BackupConfig, usize)>)
    ensures
        forall|x: AppConfig|
            matches_at(s@, i as int, #[trigger] config_r(x)) ==> (r matches Some(
                p,
            ) && p.0@ == x.version@ && platform_eq(p.1, x.platform) && backup_eq(p.2, x.backup)
                && p.3 == i + "{\"version\":"@.len() + qstr(x.version@).len()
                + ",\"platform\":"@.len() + platform_r(x.platform).len() + ",\"backup\":"@.len()
                + backup_r(x.backup).len()),
{
    let (v0, p1) = match parse_config_version(s, i) {
        Option::Some(pr) => pr,
        Option::None => {
            return Option::None;
        },
    };
    let p2 = match expect_lit(s, p1, ",\"platform\":") {
        Option::Some(j) => j,
        Option::None => {
            proof {
                assert forall|x: AppConfig| matches_at(s@, i as int, #[trigger] config_r(x)) implies false by {
                    reveal_strlit("\"");
                    lemma_appconfig_parts(s@, i as int, x);
                }
            }
            return Option::None;
        },
    };
    let (v1, p3) = match parse_platform(s, p2) {
        Option::Some(pr) => pr,
        Option::None => {
            proof {
                assert forall|x: AppConfig| matches_at(s@, i as int, #[trigger] config_r(x)) implies false by {
                    reveal_strlit("\"");
                    lemma_appconfig_parts(s@, i as int, x);
                }
            }
            return Option::None;
        },
    };
    let p4 = match expect_lit(s, p3, ",\"backup\":") {
        Option::Some(j) => j,
        Option::None => {
            proof {
                assert forall|x: AppConfig| matches_at(s@, i as int, #[trigger] config_r(x)) implies false by {
                    reveal_strlit("\"");
                    lemma_appconfig_parts(s@, i as int, x);
                }
            }
            return Option::None;
        },
    };
    let (v2, p5) = match parse_backup(s, p4) {
        Option::Some(pr) => pr,
        Option::None => {
            proof {
                assert forall|x: AppConfig| matches_at(s@, i as int, #[trigger] config_r(x)) implies false by {
                    reveal_strlit("\"");
                    lemma_appconfig_parts(s@, i as int, x);
                }
            }
            return Option::None;
        },
    };
    proof {
        assert forall|x: AppConfig| matches_at(s@, i as int, #[trigger] config_r(x)) implies (v0@
            == x.version@ && platform_eq(v1, x.platform) && backup_eq(v2, x.backup) && p5 == i
            + "{\"version\":"@.len() + qstr(x.version@).len() + ",\"platform\":"@.len()
            + platform_r(x.platform).len() + ",\"backup\":"@.len() + backup_r(x.backup).len()) by {
            reveal_strlit("\"");
            lemma_appconfig_parts(s@, i as int, x);
        }
    }
    Option::Some((v0, v1, v2, p5))
}

#[verifier::rlimit(100)]
#[verifier::spinoff_prover]
fn parse_config_at(s: &str, i: usize) -> (r: Option<(AppConfig, usize)>)
    ensures
        forall|x: AppConfig|
            matches_at(s@, i as int, #[trigger] config_r(x)) ==> (r matches Some(
                p,
            ) && config_eq(p.0, x) && p.1 == i + config_r(x).len()),
{
    let (v0, v1, v2, p5) = match parse_config_front(s, i) {
        Option::Some(pr) => pr,
        Option::None => {
            return Option::None;
        },
    };
    let p6 = match expect_lit(s, p5, ",\"ui\":") {
        Option::Some(j) => j,
        Option::None => {
            proof {
                assert forall|x: AppConfig| matches_at(s@, i as int, #[trigger] config_r(x)) implies false by {
                    lemma_appconfig_parts(s@, i as int, x);
                }
            }
            return Option::None;
        },
    };
    let (v3, p7) = match parse_ui(s, p6) {
        Option::Some(pr) => pr,
        Option::None => {
            proof {
                assert forall|x: AppConfig| matches_at(s@, i as int, #[trigger] config_r(x)) implies false by {
                    lemma_appconfig_parts(s@, i as int, x);
                }
            }
            return Option::None;
        },
    };
    let p8 = match expect_lit(s, p7, ",\"advanced\":") {
        Option::Some(j) => j,
        Option::None => {
            proof {
                assert forall|x: AppConfig| matches_at(s@, i as int, #[trigger] config_r(x)) implies false by {
                    lemma_appconfig_parts(s@, i as int, x);
                }
            }
            return Option::None;
        },
    };
    let (v4, p9) = match parse_advanced(s, p8) {
        Option::Some(pr) => pr,
        Option::None => {
            proof {
                assert forall|x: AppConfig| matches_at(s@, i as int, #[trigger] config_r(x)) implies false by {
                    lemma_appconfig_parts(s@, i as int, x);
                }
            }
            return Option::None;
        },
    };
    let p10 = match expect_lit(s, p9, ",\"shortcuts\":") {
        Option::Some(j) => j,
        Option::None => {
            proof {
                assert forall|x: AppConfig| matches_at(s@, i as int, #[trigger] config_r(x)) implies false by {
                    lemma_appconfig_parts(s@, i as int, x);
                }
            }
            return Option::None;
        },
    };
    let (v5, p11) = match parse_opt_shortcuts(s, p10) {
        Option::Some(pr) => pr,
        Option::None => {
            proof {
                assert forall|x: AppConfig| matches_at(s@, i as int, #[trigger] config_r(x)) implies false by {
                    lemma_appconfig_parts(s@, i as int, x);
                }
            }
            return Option::None;
        },
    };
    let p12 = match expect_lit(s, p11, "}") {
        Option::Some(j) => j,
        Option::None => {
            proof {
                assert forall|x: AppConfig| matches_at(s@, i as int, #[trigger] config_r(x)) implies false by {
                    lemma_appconfig_parts(s@, i as int, x);
                }
            }
            return Option::None;
        },
    };
    let built = AppConfig {
        version: v0,
        platform: v1,
        backup: v2,
        ui: v3,
        advanced: v4,
        shortcuts: v5,
    };
    proof {
        assert forall|x: AppConfig| matches_at(s@, i as int, #[trigger] config_r(x)) implies (config_eq(built, x)
            && p12 == i + config_r(x).len()) by {
            lemma_appconfig_parts(s@, i as int, x);
        }
    }
    Option::Some((built, p12))
}

/// Parses a whole rendered configuration document: whatever renderable
/// configuration the document encodes is recovered with equal contents.
#[verifier::rlimit(100)]
pub fn parse_config(s: &str) -> (r: Option<AppConfig>)
    ensures
        forall|c: AppConfig|
            s@ == #[trigger] config_r(c) ==> (r matches Some(out) && config_eq(
                out,
                c,
            )),
{
    proof {
        assert forall|c0: AppConfig|
            s@ == #[trigger] config_r(c0) implies matches_at(
            s@,
            0,
            config_r(c0),
        ) by {
            assert(s@.subrange(0, config_r(c0).len() as int) =~= config_r(c0));
        }
    }
    match parse_config_at(s, 0) {
        Option::Some((c, _)) => Option::Some(c),
        Option::None => Option::None,
    }
}

} // verus!
