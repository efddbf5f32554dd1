use vstd::prelude::*;

use crate::cleaner::RegistryHive;
use crate::models::{
    category_label, ItemStatus, JunkCategory, JunkItem, JunkTarget, ScanProgress,
    MAX_ITEMS_PER_CATEGORY,
};
use crate::scanner::browser::contains_lit;
use crate::scanner::temp::{admin_reason, found_message, found_progress, placeholder_admin, progress_is};
use crate::text::{
    chars_of, extend_chars, extend_str, has_infix, is_white, is_whitespace, last_pos, lemma_last_pos,
    lower, lower_ascii, rfind_char, slice_chars, string_of, trim, trim_chars, Strip,
};
use crate::util::{expand_env, expand_env_path, pos_of, EnvVars};

verus! {

// ---------------------------------------------------------------------------
// Keys that are never touched
// ---------------------------------------------------------------------------

/// Whether a key path lies in a part of the registry that is never scanned or
/// cleaned: profile list, `Windows NT\CurrentVersion\Windows`, Winlogon, services.
pub open spec fn blacklisted(key: Seq<char>) -> bool {
    let l = lower(key);
    ||| has_infix(l, lower("Windows NT\\CurrentVersion\\ProfileList"@))
    ||| has_infix(l, lower("Windows NT\\CurrentVersion\\Windows"@))
    ||| has_infix(l, lower("Microsoft\\Windows NT\\CurrentVersion\\Winlogon"@))
    ||| has_infix(l, lower("CurrentControlSet\\Services"@))
}

fn contains_lower(l: &Vec<char>, fragment: &str) -> (r: bool)
    ensures
        r == has_infix(l@, lower(fragment@)),
{
    let f = lower_ascii(&chars_of(fragment));
    crate::text::contains_chars(l, &f)
}

/// Whether a key path lies in a part of the registry that is never touched.
pub fn is_blacklisted(key: &str) -> (r: bool)
    ensures
        r == blacklisted(key@),
{
    let l = lower_ascii(&chars_of(key));
    contains_lower(&l, "Windows NT\\CurrentVersion\\ProfileList") || contains_lower(
        &l,
        "Windows NT\\CurrentVersion\\Windows",
    ) || contains_lower(&l, "Microsoft\\Windows NT\\CurrentVersion\\Winlogon") || contains_lower(
        &l,
        "CurrentControlSet\\Services",
    )
}

// ---------------------------------------------------------------------------
// Paths in registry values
// ---------------------------------------------------------------------------

/// The path a registry value names: trimmed of white space and quotes, with
/// environment variables expanded; `None` when nothing is left.
pub open spec fn path_value(raw: Seq<char>, env: Seq<(Seq<char>, Seq<char>)>) -> Option<Seq<char>> {
    let t = trim(trim(trim(raw, Strip::White), Strip::Quote), Strip::White);
    if t.len() == 0 {
        None
    } else {
        let e = expand_env(t, env);
        if e.len() == 0 {
            None
        } else {
            Some(e)
        }
    }
}

/// The path that a registry value names.
pub fn normalize_path_value(raw: &str, env: &EnvVars) -> (r: Option<String>)
    ensures
        match r {
            Some(p) => path_value(raw@, env.view_entries()) == Some(p@),
            None => path_value(raw@, env.view_entries()) is None,
        },
{
    let t = trim_chars(&trim_chars(&trim_chars(&chars_of(raw), Strip::White), Strip::Quote), Strip::White);
    if t.len() == 0 {
        return None;
    }
    let e = expand_env_path(&t, env);
    if e.len() == 0 {
        return None;
    }
    Some(string_of(&e))
}

/// Whether every character is a `-` or an ASCII digit.
pub open spec fn icon_index(s: Seq<char>) -> bool {
    forall|k: int| 0 <= k < s.len() ==> s[k] == '-' || ('0' <= s[k] && s[k] <= '9')
}

/// An icon location without its `,N` index suffix, when there is one.
pub open spec fn strip_icon_index(t: Seq<char>) -> Seq<char> {
    let k = last_pos(t, ',');
    if k >= 0 && icon_index(t.skip(k + 1)) {
        t.take(k)
    } else {
        t
    }
}

/// The path that an icon location names.
pub open spec fn icon_path_value(raw: Seq<char>, env: Seq<(Seq<char>, Seq<char>)>) -> Option<Seq<char>> {
    let t = trim(trim(raw, Strip::White), Strip::Quote);
    path_value(trim(trim(strip_icon_index(t), Strip::White), Strip::Quote), env)
}

/// The path that an icon location (`path,index`) names.
pub fn normalize_icon_path(raw: &str, env: &EnvVars) -> (r: Option<String>)
    ensures
        match r {
            Some(p) => icon_path_value(raw@, env.view_entries()) == Some(p@),
            None => icon_path_value(raw@, env.view_entries()) is None,
        },
{
    let t = trim_chars(&trim_chars(&chars_of(raw), Strip::White), Strip::Quote);
    let without = match rfind_char(&t, ',') {
        Some(idx) => {
            proof {
                lemma_last_pos(t@, ',', idx as int);
            }
            let suffix = slice_chars(&t, idx + 1, t.len());
            let mut all = true;
            for k in 0..suffix.len()
                invariant
                    all <==> forall|m: int| 0 <= m < k ==> suffix@[m] == '-' || ('0' <= suffix@[m] && suffix@[m] <= '9'),
            {
                let c = suffix[k];
                if !(c == '-' || ('0' <= c && c <= '9')) {
                    all = false;
                }
            }
            assert(suffix@ == t@.skip(idx + 1));
            if all {
                let cut = slice_chars(&t, 0, idx);
                assert(cut@ == t@.take(idx as int));
                cut
            } else {
                t
            }
        },
        None => {
            assert(last_pos(t@, ',') == -1);
            t
        },
    };
    let cleaned = trim_chars(&trim_chars(&without, Strip::White), Strip::Quote);
    normalize_path_value(string_of(&cleaned).as_str(), env)
}

/// The position of the first white-space character, or the length when there is none.
pub open spec fn first_white(s: Seq<char>) -> nat
    decreases s.len(),
{
    if s.len() == 0 {
        0
    } else if is_white(s[0]) {
        0
    } else {
        1 + first_white(s.drop_first())
    }
}

proof fn lemma_first_white(s: Seq<char>, k: int)
    requires
        0 <= k <= s.len(),
        forall|m: int| 0 <= m < k ==> !is_white(s[m]),
        k == s.len() || is_white(s[k]),
    ensures
        first_white(s) == k,
    decreases k,
{
    if k > 0 {
        lemma_first_white(s.drop_first(), k - 1);
    }
}

/// The program that a command line runs: the quoted text after a leading quote, or
/// else the first word; `None` for an empty command or an unclosed quote.
pub open spec fn command_program(cmd: Seq<char>, env: Seq<(Seq<char>, Seq<char>)>) -> Option<Seq<char>> {
    let c = trim(cmd, Strip::White);
    if c.len() == 0 {
        None
    } else if c[0] == '"' {
        let rest = c.drop_first();
        let k = pos_of(rest, '"');
        if k == rest.len() {
            None
        } else {
            path_value(rest.take(k as int), env)
        }
    } else {
        path_value(c.take(first_white(c) as int), env)
    }
}

/// The program that a command line runs.
pub fn extract_exe_from_command(cmd: &str, env: &EnvVars) -> (r: Option<String>)
    ensures
        match r {
            Some(p) => command_program(cmd@, env.view_entries()) == Some(p@),
            None => command_program(cmd@, env.view_entries()) is None,
        },
{
    let c = trim_chars(&chars_of(cmd), Strip::White);
    if c.len() == 0 {
        return None;
    }
    if c[0] == '"' {
        let mut j: usize = 1;
        while j < c.len() && c[j] != '"'
            invariant
                1 <= j <= c.len(),
                forall|m: int| 1 <= m < j ==> c@[m] != '"',
            decreases c.len() - j,
        {
            j = j + 1;
        }
        proof {
            let rest = c@.drop_first();
            crate::util::lemma_pos_of_at(rest, '"', j - 1);
        }
        if j == c.len() {
            return None;
        }
        let inner = slice_chars(&c, 1, j);
        assert(inner@ == c@.drop_first().take(j - 1));
        return normalize_path_value(string_of(&inner).as_str(), env);
    }
    let mut j: usize = 0;
    while j < c.len() && !is_whitespace(c[j])
        invariant
            j <= c.len(),
            forall|m: int| 0 <= m < j ==> !is_white(c@[m]),
        decreases c.len() - j,
    {
        j = j + 1;
    }
    proof {
        lemma_first_white(c@, j as int);
    }
    let token = slice_chars(&c, 0, j);
    assert(token@ == c@.take(j as int));
    normalize_path_value(string_of(&token).as_str(), env)
}


// ---------------------------------------------------------------------------
// Deciding what is orphaned
// ---------------------------------------------------------------------------

/// The path named by an optional value, through `f`.
pub open spec fn opt_path(
    v: Option<Seq<char>>,
    f: spec_fn(Seq<char>) -> Option<Seq<char>>,
) -> Option<Seq<char>> {
    match v {
        Some(x) => f(x),
        None => None,
    }
}

pub open spec fn opt_view(v: Option<String>) -> Option<Seq<char>> {
    match v {
        Some(x) => Some(x@),
        None => None,
    }
}

/// The paths an uninstall entry points to: its install location and the program of
/// its uninstall command, and only when neither gives one, its icon.
pub open spec fn uninstall_paths(
    install_location: Option<Seq<char>>,
    display_icon: Option<Seq<char>>,
    uninstall_string: Option<Seq<char>>,
    env: Seq<(Seq<char>, Seq<char>)>,
) -> Seq<Seq<char>> {
    let a = opt_path(install_location, |x: Seq<char>| path_value(x, env));
    let b = opt_path(uninstall_string, |x: Seq<char>| command_program(x, env));
    let first = match a {
        Some(p) => seq![p],
        None => Seq::empty(),
    } + match b {
        Some(p) => seq![p],
        None => Seq::empty(),
    };
    if first.len() == 0 {
        match opt_path(display_icon, |x: Seq<char>| icon_path_value(x, env)) {
            Some(p) => seq![p],
            None => Seq::empty(),
        }
    } else {
        first
    }
}

/// The paths that an uninstall entry with these values points to, in the order they
/// are checked.
pub fn uninstall_candidates(
    install_location: &Option<String>,
    display_icon: &Option<String>,
    uninstall_string: &Option<String>,
    env: &EnvVars,
) -> (r: Vec<String>)
    ensures
        r@.map_values(|x: String| x@) == uninstall_paths(
            opt_view(*install_location),
            opt_view(*display_icon),
            opt_view(*uninstall_string),
            env.view_entries(),
        ),
{
    let ghost e = env.view_entries();
    let mut out: Vec<String> = Vec::new();
    let a = match install_location {
        Some(v) => normalize_path_value(v.as_str(), env),
        None => None,
    };
    let b = match uninstall_string {
        Some(v) => extract_exe_from_command(v.as_str(), env),
        None => None,
    };
    match a {
        Some(p) => out.push(p),
        None => {},
    }
    match b {
        Some(p) => out.push(p),
        None => {},
    }
    if out.len() == 0 {
        let c = match display_icon {
            Some(v) => normalize_icon_path(v.as_str(), env),
            None => None,
        };
        match c {
            Some(p) => out.push(p),
            None => {},
        }
    }
    proof {
        let first = match opt_path(opt_view(*install_location), |x: Seq<char>| path_value(x, e)) {
            Some(p) => seq![p],
            None => Seq::<Seq<char>>::empty(),
        } + match opt_path(opt_view(*uninstall_string), |x: Seq<char>| command_program(x, e)) {
            Some(p) => seq![p],
            None => Seq::<Seq<char>>::empty(),
        };
        assert(out@.map_values(|x: String| x@) =~= uninstall_paths(
            opt_view(*install_location),
            opt_view(*display_icon),
            opt_view(*uninstall_string),
            e,
        ));
    }
    out
}

/// The program an `App Paths` entry points to: that of its default value, else the
/// path in its `Path` value.
pub open spec fn app_path_target(
    default_value: Option<Seq<char>>,
    path_value_raw: Option<Seq<char>>,
    env: Seq<(Seq<char>, Seq<char>)>,
) -> Option<Seq<char>> {
    match opt_path(default_value, |x: Seq<char>| command_program(x, env)) {
        Some(p) => Some(p),
        None => opt_path(path_value_raw, |x: Seq<char>| path_value(x, env)),
    }
}

/// The program an `App Paths` entry with these values points to.
pub fn app_path_candidate(default_value: &Option<String>, path: &Option<String>, env: &EnvVars) -> (r: Option<String>)
    ensures
        match r {
            Some(p) => app_path_target(opt_view(*default_value), opt_view(*path), env.view_entries()) == Some(p@),
            None => app_path_target(opt_view(*default_value), opt_view(*path), env.view_entries()) is None,
        },
{
    let first = match default_value {
        Some(v) => extract_exe_from_command(v.as_str(), env),
        None => None,
    };
    match first {
        Some(p) => Some(p),
        None => match path {
            Some(v) => normalize_path_value(v.as_str(), env),
            None => None,
        },
    }
}

/// The program a `Run` value starts; values without a name are passed over.
pub open spec fn run_value_target(name: Seq<char>, data: Seq<char>, env: Seq<(Seq<char>, Seq<char>)>) -> Option<Seq<char>> {
    if name.len() == 0 {
        None
    } else {
        command_program(data, env)
    }
}

/// The program a `Run` value with this name and command starts.
pub fn run_value_candidate(name: &str, data: &str, env: &EnvVars) -> (r: Option<String>)
    ensures
        match r {
            Some(p) => run_value_target(name@, data@, env.view_entries()) == Some(p@),
            None => run_value_target(name@, data@, env.view_entries()) is None,
        },
{
    if name.is_empty() {
        return None;
    }
    extract_exe_from_command(data, env)
}

/// The path that makes an entry orphaned, from the paths it points to, each with
/// whether it exists: the first of them, when there is one and none exists; `None`
/// otherwise.
pub fn missing_target(candidates: &Vec<(String, bool)>) -> (r: Option<String>)
    ensures
        r == (if candidates.len() > 0 && forall|k: int| 0 <= k < candidates.len() ==> !candidates[k].1 {
            Some(candidates[0].0)
        } else {
            None::<String>
        }),
{
    if candidates.len() == 0 {
        return None;
    }
    for k in 0..candidates.len()
        invariant
            forall|m: int| 0 <= m < k ==> !candidates[m].1,
    {
        if candidates[k].1 {
            return None;
        }
    }
    Some(candidates[0].0.clone())
}

/// `a\b`.
pub fn join_key(a: &str, b: &str) -> (r: String)
    ensures
        r@ == a@ + seq!['\\'] + b@,
{
    let mut v = chars_of(a);
    v.push('\\');
    extend_str(&mut v, b);
    string_of(&v)
}

/// How a `Run` value is shown: `key [name]`.
pub fn run_value_display(store_key: &str, name: &str) -> (r: String)
    ensures
        r@ == store_key@ + " ["@ + name@ + "]"@,
{
    let mut v = chars_of(store_key);
    extend_str(&mut v, " [");
    extend_str(&mut v, name);
    extend_str(&mut v, "]");
    string_of(&v)
}

/// The uninstall, `App Paths` and `Run` keys scanned in each hive, relative to it.
pub open spec fn uninstall_keys() -> Seq<Seq<char>> {
    seq![
        "SOFTWARE\\Microsoft\\Windows\\CurrentVersion\\Uninstall"@,
        "SOFTWARE\\WOW6432Node\\Microsoft\\Windows\\CurrentVersion\\Uninstall"@,
    ]
}

pub open spec fn app_paths_keys() -> Seq<Seq<char>> {
    seq![
        "SOFTWARE\\Microsoft\\Windows\\CurrentVersion\\App Paths"@,
        "SOFTWARE\\WOW6432Node\\Microsoft\\Windows\\CurrentVersion\\App Paths"@,
    ]
}

pub open spec fn run_keys() -> Seq<Seq<char>> {
    seq![
        "SOFTWARE\\Microsoft\\Windows\\CurrentVersion\\Run"@,
        "SOFTWARE\\Microsoft\\Windows\\CurrentVersion\\RunOnce"@,
        "SOFTWARE\\WOW6432Node\\Microsoft\\Windows\\CurrentVersion\\Run"@,
        "SOFTWARE\\WOW6432Node\\Microsoft\\Windows\\CurrentVersion\\RunOnce"@,
    ]
}

fn strings(a: &str, b: &str) -> (r: Vec<String>)
    ensures
        r@.map_values(|x: String| x@) == seq![a@, b@],
{
    let mut v: Vec<String> = Vec::new();
    v.push(String::from_str(a));
    v.push(String::from_str(b));
    assert(v@.map_values(|x: String| x@) =~= seq![a@, b@]);
    v
}

/// The uninstall keys scanned in each hive.
pub fn uninstall_subkeys() -> (r: Vec<String>)
    ensures
        r@.map_values(|x: String| x@) == uninstall_keys(),
{
    strings(
        "SOFTWARE\\Microsoft\\Windows\\CurrentVersion\\Uninstall",
        "SOFTWARE\\WOW6432Node\\Microsoft\\Windows\\CurrentVersion\\Uninstall",
    )
}

/// The `App Paths` keys scanned in each hive.
pub fn app_paths_subkeys() -> (r: Vec<String>)
    ensures
        r@.map_values(|x: String| x@) == app_paths_keys(),
{
    strings(
        "SOFTWARE\\Microsoft\\Windows\\CurrentVersion\\App Paths",
        "SOFTWARE\\WOW6432Node\\Microsoft\\Windows\\CurrentVersion\\App Paths",
    )
}

/// The `Run` keys scanned in each hive.
pub fn run_subkeys() -> (r: Vec<String>)
    ensures
        r@.map_values(|x: String| x@) == run_keys(),
{
    let mut v: Vec<String> = Vec::new();
    v.push(String::from_str("SOFTWARE\\Microsoft\\Windows\\CurrentVersion\\Run"));
    v.push(String::from_str("SOFTWARE\\Microsoft\\Windows\\CurrentVersion\\RunOnce"));
    v.push(String::from_str("SOFTWARE\\WOW6432Node\\Microsoft\\Windows\\CurrentVersion\\Run"));
    v.push(String::from_str("SOFTWARE\\WOW6432Node\\Microsoft\\Windows\\CurrentVersion\\RunOnce"));
    assert(v@.map_values(|x: String| x@) =~= run_keys());
    v
}

// ---------------------------------------------------------------------------
// Collecting orphaned entries
// ---------------------------------------------------------------------------

/// The reason given for an orphaned entry.
pub open spec fn missing_reason(missing: Seq<char>) -> Seq<char> {
    "指向的文件已不存在: "@ + missing
}

/// The item for an orphaned registry entry.
pub open spec fn orphan_item_ok(
    item: JunkItem,
    display: Seq<char>,
    store_key: Seq<char>,
    value_name: Option<Seq<char>>,
    missing: Seq<char>,
    needs_admin: bool,
) -> bool {
    &&& item.category == JunkCategory::RegistryOrphans
    &&& item.path@ == display
    &&& item.size == 0
    &&& item.status == (if needs_admin {
        ItemStatus::NeedsAdmin
    } else {
        ItemStatus::Normal
    })
    &&& !item.selected
    &&& item.skip_reason matches Some(r) && r@ == missing_reason(missing)
    &&& !item.is_recycle_bin
    &&& item.browser_sub is None
    &&& item.app_name is None
    &&& item.target matches JunkTarget::RegistryKey { key, value_name: v } && key@ == store_key && opt_view(v) == value_name
}

/// A scan of the registry for entries that point to files that are gone.
pub struct RegistryScan {
    items: Vec<JunkItem>,
}

impl View for RegistryScan {
    type V = Seq<JunkItem>;

    closed spec fn view(&self) -> Seq<JunkItem> {
        self.items@
    }
}

/// The consistency of a registry scan: every item is an unselected one of its category.
pub open spec fn registry_scan_wf(items: Seq<JunkItem>) -> bool {
    forall|k: int| 0 <= k < items.len() ==> (#[trigger] items[k]).category == JunkCategory::RegistryOrphans
        && !items[k].selected
}

/// The hives that a registry scan walks, each with the name its keys are shown
/// under: the current user's always, the machine's only with administrator rights.
pub fn hives_to_scan(is_admin: bool) -> (r: Vec<(RegistryHive, String)>)
    ensures
        r@.len() == (if is_admin { 2nat } else { 1nat }),
        r@[0].0 == RegistryHive::CurrentUser && r@[0].1@ == "HKCU"@,
        is_admin ==> r@[1].0 == RegistryHive::LocalMachine && r@[1].1@ == "HKLM"@,
{
    let mut v: Vec<(RegistryHive, String)> = Vec::new();
    v.push((RegistryHive::CurrentUser, String::from_str("HKCU")));
    if is_admin {
        v.push((RegistryHive::LocalMachine, String::from_str("HKLM")));
    }
    v
}

/// A registry scan with no items yet.
pub fn scan_registry_orphans() -> (r: RegistryScan)
    ensures
        registry_scan_wf(r@),
        r@.len() == 0,
{
    RegistryScan { items: Vec::new() }
}

impl RegistryScan {
    /// Whether the scan has reached the item limit; the walk stops looking then.
    pub fn is_full(&self) -> (r: bool)
        ensures
            r == (self@.len() >= MAX_ITEMS_PER_CATEGORY),
    {
        self.items.len() >= MAX_ITEMS_PER_CATEGORY
    }

    /// Records an entry that points to `missing`, which is gone. A progress report is
    /// due every 50 items.
    pub fn push_registry_item(
        &mut self,
        display_path: String,
        store_key: String,
        value_name: Option<String>,
        missing_path: &str,
        needs_admin: bool,
    ) -> (progress: Option<ScanProgress>)
        requires
            registry_scan_wf(old(self)@),
        ensures
            registry_scan_wf(final(self)@),
            final(self)@.len() == old(self)@.len() + 1,
            final(self)@.drop_last() == old(self)@,
            orphan_item_ok(final(self)@.last(), display_path@, store_key@, opt_view(value_name), missing_path@, needs_admin),
            match progress {
                Some(p) => final(self)@.len() % 50 == 0 && progress_is(
                    p,
                    JunkCategory::RegistryOrphans,
                    final(self)@.len(),
                    found_message(JunkCategory::RegistryOrphans, final(self)@.len()),
                ),
                None => final(self)@.len() % 50 != 0,
            },
    {
        let status = if needs_admin {
            ItemStatus::NeedsAdmin
        } else {
            ItemStatus::Normal
        };
        let mut reason = chars_of("指向的文件已不存在: ");
        extend_str(&mut reason, missing_path);
        let item = JunkItem {
            category: JunkCategory::RegistryOrphans,
            path: display_path,
            size: 0,
            status,
            selected: false,
            skip_reason: Some(string_of(&reason)),
            is_recycle_bin: false,
            browser_sub: None,
            app_name: None,
            target: JunkTarget::RegistryKey { key: store_key, value_name },
        };
        let ghost before = self.items@;
        self.items.push(item);
        assert(self.items@.drop_last() == before);
        let n = self.items.len();
        if n % 50 == 0 {
            Some(found_progress(JunkCategory::RegistryOrphans, n))
        } else {
            None
        }
    }

    /// Considers a registry entry found by the walk: `store_key` is the key that holds
    /// it, `display_path` how it is shown, `value_name` the value it is (none for a whole
    /// key), and `candidates` the paths it points to, each with whether it exists. The
    /// entry becomes an item when the scan is not full, its key is not one that is never
    /// touched, and it points to some path and none of them exists; the item names the
    /// first of them as missing.
    pub fn record_orphan(
        &mut self,
        display_path: String,
        store_key: String,
        value_name: Option<String>,
        candidates: &Vec<(String, bool)>,
    ) -> (progress: Option<ScanProgress>)
        requires
            registry_scan_wf(old(self)@),
        ensures
            registry_scan_wf(final(self)@),
            ({
                let orphaned = candidates@.len() > 0 && forall|k: int|
                    0 <= k < candidates@.len() ==> !candidates@[k].1;
                if old(self)@.len() < MAX_ITEMS_PER_CATEGORY && !blacklisted(store_key@) && orphaned {
                    &&& final(self)@.len() == old(self)@.len() + 1
                    &&& final(self)@.drop_last() == old(self)@
                    &&& orphan_item_ok(
                        final(self)@.last(),
                        display_path@,
                        store_key@,
                        opt_view(value_name),
                        candidates@[0].0@,
                        false,
                    )
                    &&& match progress {
                        Some(p) => final(self)@.len() % 50 == 0 && progress_is(
                            p,
                            JunkCategory::RegistryOrphans,
                            final(self)@.len(),
                            found_message(JunkCategory::RegistryOrphans, final(self)@.len()),
                        ),
                        None => final(self)@.len() % 50 != 0,
                    }
                } else {
                    final(self)@ == old(self)@ && progress is None
                }
            }),
    {
        if self.items.len() >= MAX_ITEMS_PER_CATEGORY || is_blacklisted(store_key.as_str()) {
            return None;
        }
        match missing_target(candidates) {
            Some(missing) => self.push_registry_item(display_path, store_key, value_name, missing.as_str(), false),
            None => None,
        }
    }

    /// Ends the scan. Without administrator rights the machine-wide hive is not
    /// scanned, and one item says so instead.
    pub fn finish(self, is_admin: bool) -> (r: Vec<JunkItem>)
        requires
            registry_scan_wf(self@),
        ensures
            is_admin ==> r@ == self@,
            !is_admin ==> {
                &&& r@.len() == self@.len() + 1
                &&& r@.drop_last() == self@
                &&& r@.last().category == JunkCategory::RegistryOrphans
                &&& r@.last().path@ == "HKLM\\SOFTWARE\\Microsoft\\Windows\\CurrentVersion\\Uninstall"@
                &&& r@.last().status == ItemStatus::NeedsAdmin
                &&& !r@.last().selected
                &&& r@.last().skip_reason matches Some(s) && s@ == "需要管理员权限才能扫描/清理 HKLM 注册表项"@
            },
    {
        let mut items = self.items;
        if !is_admin {
            let mut placeholder = placeholder_admin(
                JunkCategory::RegistryOrphans,
                "HKLM\\SOFTWARE\\Microsoft\\Windows\\CurrentVersion\\Uninstall",
            );
            placeholder.skip_reason = Some(String::from_str("需要管理员权限才能扫描/清理 HKLM 注册表项"));
            let ghost before = items@;
            items.push(placeholder);
            assert(items@.drop_last() == before);
        }
        items
    }
}

// ---------------------------------------------------------------------------
// Registry string data
// ---------------------------------------------------------------------------

/// The UTF-16 code units of little-endian bytes, an odd last byte left out.
pub open spec fn le_units(data: Seq<u8>) -> Seq<u16> {
    Seq::new(data.len() / 2, |k: int| (data[2 * k] + 256 * data[2 * k + 1]) as u16)
}

/// UTF-16 decoding in which each unpaired surrogate becomes U+FFFD.
pub open spec fn utf16_decode(u: Seq<u16>) -> Seq<char>
    decreases u.len(),
{
    if u.len() == 0 {
        Seq::empty()
    } else if 0xD800 <= u[0] < 0xDC00 && u.len() >= 2 && 0xDC00 <= u[1] < 0xE000 {
        seq![((0x10000 + (u[0] - 0xD800) * 1024 + (u[1] - 0xDC00)) as u32) as char] + utf16_decode(u.skip(2))
    } else if 0xD800 <= u[0] < 0xE000 {
        seq!['\u{FFFD}'] + utf16_decode(u.skip(1))
    } else {
        seq![(u[0] as u32) as char] + utf16_decode(u.skip(1))
    }
}

/// std `char::from_u32`: the character with this scalar value, if it is one.
#[verifier::external_body]
fn char_from_u32(v: u32) -> (r: Option<char>)
    ensures
        r == (if v < 0xD800 || (0xE000 <= v && v <= 0x10FFFF) {
            Some(v as char)
        } else {
            None
        }),
{
    char::from_u32(v)
}

fn scalar(v: u32) -> (r: char)
    requires
        v < 0xD800 || (0xE000 <= v && v <= 0x10FFFF),
    ensures
        r == (v as char),
{
    match char_from_u32(v) {
        Some(c) => c,
        None => '\u{FFFD}',
    }
}

/// Decodes UTF-16, turning each unpaired surrogate into U+FFFD.
pub fn decode_utf16_lossy(u: &Vec<u16>) -> (r: Vec<char>)
    ensures
        r@ == utf16_decode(u@),
{
    let n = u.len();
    let mut out: Vec<char> = Vec::new();
    let mut i: usize = 0;
    assert(u@.skip(0) == u@);
    while i < n
        invariant
            n == u.len(),
            i <= n,
            utf16_decode(u@) == out@ + utf16_decode(u@.skip(i as int)),
        decreases n - i,
    {
        let ghost t = u@.skip(i as int);
        let a = u[i];
        if 0xD800 <= a && a < 0xDC00 && i + 1 < n && 0xDC00 <= u[i + 1] && u[i + 1] < 0xE000 {
            let b = u[i + 1];
            let v: u32 = 0x10000 + ((a - 0xD800) as u32) * 1024 + ((b - 0xDC00) as u32);
            out.push(scalar(v));
            assert(t.skip(2) == u@.skip(i + 2));
            i = i + 2;
        } else if 0xD800 <= a && a < 0xE000 {
            out.push('\u{FFFD}');
            assert(t.skip(1) == u@.skip(i + 1));
            i = i + 1;
        } else {
            out.push(scalar(a as u32));
            assert(t.skip(1) == u@.skip(i + 1));
            i = i + 1;
        }
    }
    assert(u@.skip(n as int) == Seq::<u16>::empty());
    out
}

/// The text of registry string data (`REG_SZ` or `REG_EXPAND_SZ`, types 1 and 2):
/// the little-endian UTF-16 units without the last (the terminating zero), decoded
/// with U+FFFD for unpaired surrogates; `None` for data of another type.
pub open spec fn reg_text(reg_type: u32, data: Seq<u8>) -> Option<Seq<char>> {
    if reg_type == 1 || reg_type == 2 {
        let units = le_units(data);
        Some(utf16_decode(if units.len() > 0 { units.drop_last() } else { units }))
    } else {
        None
    }
}

/// The text of registry string data of the given type.
pub fn decode_reg_string(reg_type: u32, data: &Vec<u8>) -> (r: Option<String>)
    ensures
        match r {
            Some(s) => reg_text(reg_type, data@) == Some(s@),
            None => reg_text(reg_type, data@) is None,
        },
{
    if reg_type != 1 && reg_type != 2 {
        return None;
    }
    let pairs = data.len() / 2;
    let keep = if pairs > 0 { pairs - 1 } else { 0 };
    let mut units: Vec<u16> = Vec::new();
    for k in 0..keep
        invariant
            keep <= pairs == data.len() / 2,
            units@ == le_units(data@).take(k as int),
    {
        let lo = data[2 * k] as u16;
        let hi = data[2 * k + 1] as u16;
        let unit: u16 = lo + 256 * hi;
        units.push(unit);
        assert(le_units(data@).take(k + 1) == le_units(data@).take(k as int).push(unit));
    }
    proof {
        let all = le_units(data@);
        if all.len() > 0 {
            assert(all.take(keep as int) == all.drop_last());
        } else {
            assert(all.take(0) == all);
        }
    }
    Some(string_of(&decode_utf16_lossy(&units)))
}

/// The text of a queried registry value: its string data, or `None` for other types
/// and for empty text.
pub fn query_string_value(reg_type: u32, data: &Vec<u8>) -> (r: Option<String>)
    ensures
        match r {
            Some(s) => reg_text(reg_type, data@) == Some(s@) && s@.len() > 0,
            None => match reg_text(reg_type, data@) {
                Some(t) => t.len() == 0,
                None => true,
            },
        },
{
    match decode_reg_string(reg_type, data) {
        Some(s) => {
            if s.as_str().is_empty() {
                None
            } else {
                Some(s)
            }
        },
        None => None,
    }
}
} // verus!
