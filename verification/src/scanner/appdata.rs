use vstd::prelude::*;
use vstd::hash_set::StringHashSet;

use crate::models::{
    category_label, clone_opt_string, ItemStatus, JunkCategory, JunkItem, JunkTarget, ScanProgress,
    MAX_ITEMS_PER_CATEGORY,
};
use crate::order::{components_of, file_name, file_name_of, path_components};
use crate::scanner::registry::opt_view;
use crate::scanner::browser::{contains_lit, equals_lit};
use crate::scanner::temp::{found_message, found_progress, limit_message, limit_progress, progress_is, ScanStep};
use crate::text::{
    chars_eq, chars_of, contains_chars, ends_with, extend_str, has_infix, lower, lower_ascii, starts_with, string_of,
};

verus! {

/// A directory of a known application: its name, its path relative to
/// `%LOCALAPPDATA%` or `%APPDATA%` (where a `*` segment stands for every
/// subdirectory), and whether it holds caches (else logs or crash dumps).
pub struct NamedTarget {
    pub app_name: &'static str,
    pub relative: &'static str,
    pub is_cache: bool,
    pub glob_one: bool,
}

pub open spec fn target_view(t: NamedTarget) -> (Seq<char>, Seq<char>, bool, bool) {
    (t.app_name@, t.relative@, t.is_cache, t.glob_one)
}

/// The known application directories, in the order they are scanned.
pub open spec fn named_table() -> Seq<(Seq<char>, Seq<char>, bool, bool)> {
    seq![
        ("Discord"@, "discord\\Cache"@, true, false),
        ("Discord"@, "discord\\Code Cache"@, true, false),
        ("Discord"@, "discord\\GPUCache"@, true, false),
        ("Steam"@, "Steam\\htmlcache"@, true, false),
        ("Steam"@, "Steam\\appcache\\httpcache"@, true, false),
        ("VS Code"@, "Code\\Cache"@, true, false),
        ("VS Code"@, "Code\\CachedData"@, true, false),
        ("VS Code"@, "Code\\Code Cache"@, true, false),
        ("VS Code"@, "Code\\GPUCache"@, true, false),
        ("Cursor"@, "Cursor\\Cache"@, true, false),
        ("Cursor"@, "Cursor\\CachedData"@, true, false),
        ("Cursor"@, "Cursor\\Code Cache"@, true, false),
        ("Cursor"@, "Cursor\\GPUCache"@, true, false),
        ("JetBrains"@, "JetBrains\\*\\caches"@, true, true),
        ("npm"@, "npm-cache"@, true, false),
        ("yarn"@, "Yarn\\Cache"@, true, false),
        ("pnpm"@, "pnpm-cache"@, true, false),
        ("NuGet"@, "NuGet\\v3-cache"@, true, false),
        ("pip"@, "pip\\Cache"@, true, false),
        ("Telegram"@, "Telegram Desktop\\tdata\\user_data"@, true, false),
        ("Spotify"@, "Spotify\\Storage"@, true, false),
        ("Spotify"@, "Spotify\\Data"@, true, false),
        ("Firefox"@, "Mozilla\\Firefox\\Profiles\\*\\cache2"@, true, true),
        ("WeChat"@, "Tencent\\WeChat\\*\\Cache"@, true, true),
        ("VS Code"@, "Code\\logs"@, false, false),
        ("Cursor"@, "Cursor\\logs"@, false, false),
        ("Discord"@, "discord\\logs"@, false, false),
        ("JetBrains"@, "JetBrains\\*\\log"@, false, true),
    ]
}

fn target(app_name: &'static str, relative: &'static str, is_cache: bool, glob_one: bool) -> (r: NamedTarget)
    ensures
        target_view(r) == (app_name@, relative@, is_cache, glob_one),
{
    NamedTarget { app_name, relative, is_cache, glob_one }
}

/// The known application directories.
pub fn named_targets() -> (r: Vec<NamedTarget>)
    ensures
        r@.map_values(|t: NamedTarget| target_view(t)) == named_table(),
{
    let mut v: Vec<NamedTarget> = Vec::new();
    v.push(target("Discord", "discord\\Cache", true, false));
    v.push(target("Discord", "discord\\Code Cache", true, false));
    v.push(target("Discord", "discord\\GPUCache", true, false));
    v.push(target("Steam", "Steam\\htmlcache", true, false));
    v.push(target("Steam", "Steam\\appcache\\httpcache", true, false));
    v.push(target("VS Code", "Code\\Cache", true, false));
    v.push(target("VS Code", "Code\\CachedData", true, false));
    v.push(target("VS Code", "Code\\Code Cache", true, false));
    v.push(target("VS Code", "Code\\GPUCache", true, false));
    v.push(target("Cursor", "Cursor\\Cache", true, false));
    v.push(target("Cursor", "Cursor\\CachedData", true, false));
    v.push(target("Cursor", "Cursor\\Code Cache", true, false));
    v.push(target("Cursor", "Cursor\\GPUCache", true, false));
    v.push(target("JetBrains", "JetBrains\\*\\caches", true, true));
    v.push(target("npm", "npm-cache", true, false));
    v.push(target("yarn", "Yarn\\Cache", true, false));
    v.push(target("pnpm", "pnpm-cache", true, false));
    v.push(target("NuGet", "NuGet\\v3-cache", true, false));
    v.push(target("pip", "pip\\Cache", true, false));
    v.push(target("Telegram", "Telegram Desktop\\tdata\\user_data", true, false));
    v.push(target("Spotify", "Spotify\\Storage", true, false));
    v.push(target("Spotify", "Spotify\\Data", true, false));
    v.push(target("Firefox", "Mozilla\\Firefox\\Profiles\\*\\cache2", true, true));
    v.push(target("WeChat", "Tencent\\WeChat\\*\\Cache", true, true));
    v.push(target("VS Code", "Code\\logs", false, false));
    v.push(target("Cursor", "Cursor\\logs", false, false));
    v.push(target("Discord", "discord\\logs", false, false));
    v.push(target("JetBrains", "JetBrains\\*\\log", false, true));
    assert(v@.map_values(|t: NamedTarget| target_view(t)) =~= named_table());
    v
}


/// `s` cut at every `\`.
pub open spec fn split_backslash(s: Seq<char>) -> Seq<Seq<char>>
    decreases s.len(),
{
    let k = crate::util::pos_of(s, '\\');
    if k < s.len() {
        seq![s.take(k as int)] + split_backslash(s.skip((k + 1) as int))
    } else {
        seq![s]
    }
}


/// The segments of a relative path, split at `\`.
pub fn split_segments(s: &Vec<char>) -> (r: Vec<Vec<char>>)
    ensures
        r@.map_values(|x: Vec<char>| x@) == split_backslash(s@),
{
    let n = s.len();
    let mut done: Vec<Vec<char>> = Vec::new();
    let mut start: usize = 0;
    let mut i: usize = 0;
    assert(s@.skip(0) == s@);
    assert(done@.map_values(|x: Vec<char>| x@) =~= Seq::<Seq<char>>::empty());
    while i < n
        invariant
            n == s.len(),
            start <= i <= n,
            forall|m: int| start <= m < i ==> s@[m] != '\\',
            split_backslash(s@) == done@.map_values(|x: Vec<char>| x@) + split_backslash(s@.skip(start as int)),
        decreases n - i,
    {
        if s[i] == '\\' {
            let part = crate::text::slice_chars(s, start, i);
            let ghost t = s@.skip(start as int);
            proof {
                crate::util::lemma_pos_of_at(t, '\\', i - start);
                assert(t.take(i - start) == part@);
                assert(t.skip(i - start + 1) == s@.skip(i + 1));
            }
            let ghost before = done@.map_values(|x: Vec<char>| x@);
            done.push(part);
            assert(done@.map_values(|x: Vec<char>| x@) == before.push(part@));
            start = i + 1;
        }
        i = i + 1;
    }
    let last = crate::text::slice_chars(s, start, n);
    proof {
        let t = s@.skip(start as int);
        crate::util::lemma_pos_of_at(t, '\\', (n - start) as int);
        assert(t == last@);
    }
    let ghost before = done@.map_values(|x: Vec<char>| x@);
    done.push(last);
    assert(done@.map_values(|x: Vec<char>| x@) == before.push(last@));
    done
}

/// The position of the first `*` segment, if any.
pub open spec fn star_at(parts: Seq<Seq<char>>, k: int) -> bool {
    0 <= k < parts.len() && parts[k] == seq!['*'] && forall|m: int| 0 <= m < k ==> parts[m] != seq!['*']
}

/// For a path with a `*` segment: the segments before the first `*` and those after it.
pub fn glob_parts(relative: &str) -> (r: Option<(Vec<String>, Vec<String>)>)
    ensures
        match r {
            Some((before, after)) => exists|k: int| {
                &&& star_at(split_backslash(relative@), k)
                &&& before@.map_values(|x: String| x@) == split_backslash(relative@).take(k)
                &&& after@.map_values(|x: String| x@) == split_backslash(relative@).skip(k + 1)
            },
            None => !split_backslash(relative@).contains(seq!['*']),
        },
{
    let parts = split_segments(&chars_of(relative));
    let ghost pv = parts@.map_values(|x: Vec<char>| x@);
    let star = chars_of("*");
    proof {
        reveal_strlit("*");
        assert(star@ == seq!['*']);
    }
    let mut k: usize = 0;
    while k < parts.len()
        invariant
            pv == parts@.map_values(|x: Vec<char>| x@),
            pv == split_backslash(relative@),
            star@ == seq!['*'],
            k <= parts.len(),
            forall|m: int| 0 <= m < k ==> pv[m] != seq!['*'],
        decreases parts.len() - k,
    {
        if chars_eq(&parts[k], &star) {
            let mut before: Vec<String> = Vec::new();
            for m in 0..k
                invariant
                    k < parts.len(),
                    pv == parts@.map_values(|x: Vec<char>| x@),
                    before@.map_values(|x: String| x@) == pv.take(m as int),
            {
                let ghost b = before@.map_values(|x: String| x@);
                before.push(crate::text::string_of(&parts[m]));
                assert(before@.map_values(|x: String| x@) == b.push(pv[m as int]));
                assert(pv.take(m + 1) == pv.take(m as int).push(pv[m as int]));
            }
            let mut after: Vec<String> = Vec::new();
            let mut m = k + 1;
            while m < parts.len()
                invariant
                    k < m <= parts.len(),
                    pv == parts@.map_values(|x: Vec<char>| x@),
                    after@.map_values(|x: String| x@) == pv.subrange(k + 1, m as int),
                decreases parts.len() - m,
            {
                let ghost b = after@.map_values(|x: String| x@);
                after.push(crate::text::string_of(&parts[m]));
                assert(after@.map_values(|x: String| x@) == b.push(pv[m as int]));
                assert(pv.subrange(k + 1, m + 1) == pv.subrange(k + 1, m as int).push(pv[m as int]));
                m = m + 1;
            }
            assert(pv.subrange(k + 1, parts.len() as int) == pv.skip(k + 1));
            assert(star_at(pv, k as int));
            return Some((before, after));
        }
        k = k + 1;
    }
    assert forall|m: int| 0 <= m < pv.len() implies pv[m] != seq!['*'] by {}
    None
}

/// Whether a relative path lies in a place that other categories cover: Edge's or
/// Chrome's data, Explorer's caches, or `Temp`, compared ignoring ASCII case.
pub open spec fn excluded_by(l: Seq<char>, prefix: Seq<char>) -> bool {
    l == lower(prefix) || (lower(prefix) + seq!['\\']).is_prefix_of(l)
}

pub open spec fn excluded(rel: Seq<char>) -> bool {
    let l = crate::scanner::browser::normalized(rel);
    ||| excluded_by(l, "Microsoft\\Edge\\User Data"@)
    ||| excluded_by(l, "Google\\Chrome\\User Data"@)
    ||| excluded_by(l, "Microsoft\\Windows\\Explorer"@)
    ||| excluded_by(l, "Temp"@)
}

fn is_excluded_by(l: &Vec<char>, prefix: &str) -> (r: bool)
    ensures
        r == excluded_by(l@, prefix@),
{
    let p = lower_ascii(&chars_of(prefix));
    if chars_eq(l, &p) {
        return true;
    }
    let mut q = p;
    q.push('\\');
    starts_with(l, &q)
}

/// Whether a directory, given by its path relative to `%LOCALAPPDATA%` or
/// `%APPDATA%`, is left to other categories.
pub fn is_excluded(rel: &str) -> (r: bool)
    ensures
        r == excluded(rel@),
{
    let l = crate::scanner::browser::normalize_rel(rel);
    is_excluded_by(&l, "Microsoft\\Edge\\User Data") || is_excluded_by(&l, "Google\\Chrome\\User Data")
        || is_excluded_by(&l, "Microsoft\\Windows\\Explorer") || is_excluded_by(&l, "Temp")
}

/// Directory names that hold caches, and those that hold logs or crash dumps.
pub open spec fn heuristic_dir(name: Seq<char>, want_cache: bool) -> bool {
    if want_cache {
        name == "Cache"@ || name == "Caches"@ || name == "cache"@ || name == "Code Cache"@ || name
            == "GPUCache"@ || name == "Temp"@ || name == "tmp"@
    } else {
        name == "logs"@ || name == "Log"@ || name == "CrashDumps"@
    }
}

/// Whether a directory found by the walk is one to collect, by its name.
pub fn matches_heuristic_dir(name: &str, want_cache: bool) -> (r: bool)
    ensures
        r == heuristic_dir(name@, want_cache),
{
    let n = chars_of(name);
    if want_cache {
        equals_lit(&n, "Cache") || equals_lit(&n, "Caches") || equals_lit(&n, "cache") || equals_lit(
            &n,
            "Code Cache",
        ) || equals_lit(&n, "GPUCache") || equals_lit(&n, "Temp") || equals_lit(&n, "tmp")
    } else {
        equals_lit(&n, "logs") || equals_lit(&n, "Log") || equals_lit(&n, "CrashDumps")
    }
}

/// Names of settings files, which are never collected as logs: `settings.json`,
/// `Preferences`, `Secure Preferences` and any `*.json` with `setting` in its name,
/// ignoring ASCII case.
pub open spec fn settings_name(name: Seq<char>) -> bool {
    let l = lower(name);
    l == "settings.json"@ || l == "preferences"@ || l == "secure preferences"@ || (".json"@.is_suffix_of(l)
        && has_infix(l, "setting"@))
}

/// Whether a file name is that of a settings file.
pub fn is_settings_file(name: &str) -> (r: bool)
    ensures
        r == settings_name(name@),
{
    settings_chars(&chars_of(name))
}

fn settings_chars(name: &Vec<char>) -> (r: bool)
    ensures
        r == settings_name(name@),
{
    let l = lower_ascii(name);
    equals_lit(&l, "settings.json") || equals_lit(&l, "preferences") || equals_lit(&l, "secure preferences")
        || (ends_with(&l, &chars_of(".json")) && contains_lit(&l, "setting"))
}

/// Whether a relative path matches the path of a known directory, segment by segment,
/// a `*` segment matching any one nonempty segment.
pub open spec fn pattern_matches(rel: Seq<char>, pattern: Seq<char>) -> bool {
    let r = split_backslash(rel);
    let p = split_backslash(pattern);
    &&& r.len() == p.len()
    &&& forall|k: int|
        0 <= k < p.len() ==> if p[k] == seq!['*'] {
            r[k].len() > 0
        } else {
            r[k] == p[k]
        }
}

/// Whether a relative path is that of a known application directory of the kind
/// collected (caches, or logs and crash dumps).
pub open spec fn known_dir(rel: Seq<char>, want_cache: bool) -> bool {
    exists|i: int|
        0 <= i < named_table().len() && named_table()[i].2 == want_cache && pattern_matches(
            rel,
            #[trigger] named_table()[i].1,
        )
}

fn segments_match(r: &Vec<Vec<char>>, p: &Vec<Vec<char>>) -> (b: bool)
    ensures
        ({
            let rv = r@.map_values(|x: Vec<char>| x@);
            let pv = p@.map_values(|x: Vec<char>| x@);
            b == (rv.len() == pv.len() && forall|k: int|
                0 <= k < pv.len() ==> if pv[k] == seq!['*'] {
                    rv[k].len() > 0
                } else {
                    rv[k] == pv[k]
                })
        }),
{
    let ghost rv = r@.map_values(|x: Vec<char>| x@);
    let ghost pv = p@.map_values(|x: Vec<char>| x@);
    if r.len() != p.len() {
        return false;
    }
    let star = chars_of("*");
    proof {
        reveal_strlit("*");
        assert(star@ == seq!['*']);
    }
    let mut k: usize = 0;
    while k < p.len()
        invariant
            r.len() == p.len(),
            star@ == seq!['*'],
            rv == r@.map_values(|x: Vec<char>| x@),
            pv == p@.map_values(|x: Vec<char>| x@),
            k <= p.len(),
            forall|m: int|
                0 <= m < k ==> if pv[m] == seq!['*'] {
                    rv[m].len() > 0
                } else {
                    rv[m] == pv[m]
                },
        decreases p.len() - k,
    {
        assert(pv[k as int] == p@[k as int]@ && rv[k as int] == r@[k as int]@);
        if chars_eq(&p[k], &star) {
            if r[k].len() == 0 {
                return false;
            }
        } else if !chars_eq(&r[k], &p[k]) {
            return false;
        }
        k = k + 1;
    }
    true
}

/// The application of the known directory, of the kind collected, that a relative path
/// names, if any.
fn known_dir_app(rel: &str, want_cache: bool) -> (r: Option<String>)
    ensures
        (r is Some) == known_dir(rel@, want_cache),
        r matches Some(a) ==> exists|i: int|
            0 <= i < named_table().len() && named_table()[i].2 == want_cache && pattern_matches(
                rel@,
                #[trigger] named_table()[i].1,
            ) && named_table()[i].0 == a@,
{
    let targets = named_targets();
    let segs = split_segments(&chars_of(rel));
    let ghost table = named_table();
    let mut i: usize = 0;
    while i < targets.len()
        invariant
            targets@.map_values(|t: NamedTarget| target_view(t)) == table,
            table == named_table(),
            segs@.map_values(|x: Vec<char>| x@) == split_backslash(rel@),
            i <= targets.len(),
            forall|m: int|
                0 <= m < i ==> !(table[m].2 == want_cache && pattern_matches(rel@, #[trigger] table[m].1)),
        decreases targets.len() - i,
    {
        assert(target_view(targets@[i as int]) == table[i as int]);
        if targets[i].is_cache == want_cache {
            let pat = split_segments(&chars_of(targets[i].relative));
            if segments_match(&segs, &pat) {
                assert(pattern_matches(rel@, table[i as int].1));
                return Some(String::from_str(targets[i].app_name));
            }
        }
        i = i + 1;
    }
    assert(table.len() == targets@.len());
    None
}

/// The name of the folder that holds a directory: the next-to-last component of its
/// path, when that is a name below the drive or share the path starts with.
pub open spec fn parent_name(p: Seq<char>) -> Option<Seq<char>> {
    let c = path_components(p);
    if c.len() >= 3 && c[c.len() - 2] != seq!['.', '.'] {
        Some(c[c.len() - 2])
    } else {
        None
    }
}

fn parent_name_of(p: &Vec<char>) -> (r: Option<String>)
    ensures
        opt_view(r) == parent_name(p@),
{
    let c = components_of(p);
    let ghost cv = c@.map_values(|x: Vec<char>| x@);
    let n = c.len();
    if n < 3 {
        return None;
    }
    assert(cv[n - 2] == c@[n - 2]@);
    let dots = chars_of("..");
    proof {
        reveal_strlit("..");
        assert(dots@ == seq!['.', '.']);
    }
    if chars_eq(&c[n - 2], &dots) {
        None
    } else {
        Some(string_of(&c[n - 2]))
    }
}

/// A directory whose files a scan collects: the root it lies below (`%LOCALAPPDATA%`
/// or `%APPDATA%`), its path relative to that root, and whether it was found by its
/// name (else as a known application directory).
pub struct OpenedDir {
    pub root: Seq<char>,
    pub rel: Seq<char>,
    pub by_name: bool,
}

/// The full path of an opened directory.
pub open spec fn dir_path(d: OpenedDir) -> Seq<char> {
    d.root + seq!['\\'] + d.rel
}

/// Whether the files below a directory are collected: never in a place that other
/// categories cover; a directory found by name must carry a name that marks caches
/// (or logs and crash dumps), and any other must be a known application directory of
/// that kind.
#[verifier::opaque]
pub open spec fn dir_collected(d: OpenedDir, want_cache: bool) -> bool {
    &&& !excluded(d.rel)
    &&& if d.by_name {
        heuristic_dir(file_name_of(dir_path(d)), want_cache)
    } else {
        known_dir(d.rel, want_cache)
    }
}

/// Whether a path lies below an opened directory.
pub open spec fn lies_in(path: Seq<char>, d: OpenedDir) -> bool {
    (dir_path(d) + seq!['\\']).is_prefix_of(path)
}

/// The item for an application file: a normal, unselected file item that names its
/// application.
pub open spec fn app_item_ok(item: JunkItem, category: JunkCategory, path: Seq<char>, size: u64, app_name: Option<String>) -> bool {
    &&& item.category == category
    &&& item.path@ == path
    &&& item.size == size
    &&& item.status == ItemStatus::Normal
    &&& !item.selected
    &&& item.skip_reason is None
    &&& !item.is_recycle_bin
    &&& item.browser_sub is None
    &&& item.app_name == app_name
    &&& item.target matches JunkTarget::File(p) && p@ == path
}

/// A scan of application caches (or of application logs and crash dumps).
pub struct AppDataScan {
    category: JunkCategory,
    want_cache: bool,
    items: Vec<JunkItem>,
    seen: StringHashSet,
    heuristic: bool,
    open_prefix: Option<Vec<char>>,
    open_app: Option<String>,
    dirs: Ghost<Seq<OpenedDir>>,
}

/// The state of an application-data scan: its items, whether it has moved on to the
/// directories found by name, the directories opened so far, whether the last of them
/// is still open for files, and the application its files are credited to.
pub struct AppDataScanState {
    pub category: JunkCategory,
    pub want_cache: bool,
    pub items: Seq<JunkItem>,
    pub heuristic: bool,
    pub dirs: Seq<OpenedDir>,
    pub open: bool,
    pub app: Option<String>,
}

impl View for AppDataScan {
    type V = AppDataScanState;

    closed spec fn view(&self) -> AppDataScanState {
        AppDataScanState {
            category: self.category,
            want_cache: self.want_cache,
            items: self.items@,
            heuristic: self.heuristic,
            dirs: self.dirs@,
            open: self.open_prefix is Some,
            app: self.open_app,
        }
    }
}

/// Every opened directory is one to collect.
#[verifier::opaque]
pub open spec fn dirs_collected(dirs: Seq<OpenedDir>, want_cache: bool) -> bool {
    forall|j: int| 0 <= j < dirs.len() ==> dir_collected(#[trigger] dirs[j], want_cache)
}

/// Whether a path lies below one of the opened directories.
pub open spec fn in_some_dir(path: Seq<char>, dirs: Seq<OpenedDir>) -> bool {
    exists|j: int| 0 <= j < dirs.len() && lies_in(path, #[trigger] dirs[j])
}

/// Every item lies below one of the opened directories.
#[verifier::opaque]
pub open spec fn items_in_dirs(items: Seq<JunkItem>, dirs: Seq<OpenedDir>) -> bool {
    forall|k: int| 0 <= k < items.len() ==> in_some_dir((#[trigger] items[k]).path@, dirs)
}

#[verifier::spinoff_prover]
proof fn lemma_more_dirs(items: Seq<JunkItem>, dirs: Seq<OpenedDir>, d: OpenedDir, want_cache: bool)
    requires
        items_in_dirs(items, dirs),
        dirs_collected(dirs, want_cache),
        dir_collected(d, want_cache),
    ensures
        items_in_dirs(items, dirs.push(d)),
        dirs_collected(dirs.push(d), want_cache),
{
    lemma_items_in_more_dirs(items, dirs, d);
    reveal(dirs_collected);
    let more = dirs.push(d);
    assert forall|j: int| 0 <= j < more.len() implies dir_collected(#[trigger] more[j], want_cache) by {
        if j < dirs.len() {
            assert(more[j] == dirs[j]);
        }
    }
}

#[verifier::spinoff_prover]
proof fn lemma_items_in_more_dirs(items: Seq<JunkItem>, dirs: Seq<OpenedDir>, d: OpenedDir)
    requires
        items_in_dirs(items, dirs),
    ensures
        items_in_dirs(items, dirs.push(d)),
{
    reveal(items_in_dirs);
    let more = dirs.push(d);
    assert forall|k: int| 0 <= k < items.len() implies in_some_dir((#[trigger] items[k]).path@, more) by {
        let j = choose|j: int| 0 <= j < dirs.len() && lies_in(items[k].path@, #[trigger] dirs[j]);
        assert(more[j] == dirs[j]);
    }
}

proof fn lemma_more_items(items: Seq<JunkItem>, dirs: Seq<OpenedDir>, item: JunkItem)
    requires
        items_in_dirs(items, dirs),
        dirs.len() > 0,
        lies_in(item.path@, dirs.last()),
    ensures
        items_in_dirs(items.push(item), dirs),
{
    reveal(items_in_dirs);
    let more = items.push(item);
    assert forall|k: int| 0 <= k < more.len() implies in_some_dir((#[trigger] more[k]).path@, dirs) by {
        if k < items.len() {
            assert(more[k] == items[k]);
        } else {
            assert(lies_in(more[k].path@, dirs[dirs.len() - 1]));
        }
    }
}

proof fn lemma_nothing_opened(want_cache: bool)
    ensures
        items_in_dirs(Seq::empty(), Seq::empty()),
        dirs_collected(Seq::empty(), want_cache),
{
    reveal(items_in_dirs);
    reveal(dirs_collected);
}

/// The consistency of an application-data scan: no more items than the limit, no path
/// twice, no settings file among logs, every opened directory one to collect, and
/// every item below one of them.
pub open spec fn appdata_scan_wf(s: AppDataScanState) -> bool {
    &&& dirs_collected(s.dirs, s.want_cache)
    &&& s.open ==> s.dirs.len() > 0
    &&& items_in_dirs(s.items, s.dirs)
    &&& s.items.len() <= MAX_ITEMS_PER_CATEGORY
    &&& s.category == JunkCategory::AppCaches || s.category == JunkCategory::AppConfigs
    &&& s.want_cache <==> s.category == JunkCategory::AppCaches
    &&& forall|k: int| 0 <= k < s.items.len() ==> (#[trigger] s.items[k]).category == s.category
        && !s.items[k].selected
    &&& forall|a: int, b: int|
        0 <= a < b < s.items.len() ==> (#[trigger] s.items[a]).path@ != (#[trigger] s.items[b]).path@
    &&& s.category == JunkCategory::AppConfigs ==> forall|k: int|
        0 <= k < s.items.len() ==> !settings_name(file_name_of((#[trigger] s.items[k]).path@))
}

impl AppDataScan {
    closed spec fn inner_wf(&self) -> bool {
        &&& appdata_scan_wf(self@)
        &&& (self.open_prefix matches Some(p) ==> p@ == dir_path(self.dirs@.last()) + seq!['\\'])
        &&& self.seen@ == Set::new(|p: Seq<char>| exists|k: int| 0 <= k < self.items@.len() && self.items@[k].path@ == p)
    }

    /// The consistency of the scan.
    pub closed spec fn wf(&self) -> bool {
        self.inner_wf()
    }

    pub fn category(&self) -> (r: JunkCategory)
        ensures
            r == self@.category,
    {
        self.category
    }

    /// Whether caches are collected (else logs and crash dumps).
    pub fn want_cache(&self) -> (r: bool)
        ensures
            r == self@.want_cache,
    {
        self.want_cache
    }

    pub fn is_full(&self) -> (r: bool)
        requires
            self.wf(),
        ensures
            r == (self@.items.len() >= MAX_ITEMS_PER_CATEGORY),
    {
        self.items.len() >= MAX_ITEMS_PER_CATEGORY
    }

    /// How deep below `%LOCALAPPDATA%` and `%APPDATA%` the walk looks for directories
    /// by name.
    pub fn walk_depth(&self) -> (r: usize)
        ensures
            r == 4,
    {
        4
    }

    /// Moves on from the known application directories to the directories found by name.
    pub fn begin_heuristic(&mut self)
        requires
            old(self).wf(),
        ensures
            final(self).wf(),
            final(self)@ == (AppDataScanState { heuristic: true, ..old(self)@ }),
    {
        self.heuristic = true;
    }

    /// Opens the directory at `rel` below `root` for collecting its files, when it is
    /// one to collect: not in a place that other categories cover, and, before the
    /// directories found by name, a known application directory of the kind collected;
    /// after that, one whose name marks that kind. Returns the directory's path to walk,
    /// or `None`, and then no directory is open. The files of a known directory are
    /// credited to its application, those of a directory found by name to the folder
    /// that holds it.
    pub fn open_dir(&mut self, root: &str, rel: &str) -> (r: Option<String>)
        requires
            old(self).wf(),
        ensures
            final(self).wf(),
            ({
                let d = OpenedDir { root: root@, rel: rel@, by_name: old(self)@.heuristic };
                &&& final(self)@.items == old(self)@.items
                &&& final(self)@.category == old(self)@.category
                &&& final(self)@.want_cache == old(self)@.want_cache
                &&& final(self)@.heuristic == old(self)@.heuristic
                &&& (r is Some) == dir_collected(d, old(self)@.want_cache)
                &&& r matches Some(p) ==> p@ == dir_path(d) && final(self)@.dirs == old(self)@.dirs.push(d)
                    && final(self)@.open
                &&& r is Some && d.by_name ==> opt_view(final(self)@.app) == parent_name(dir_path(d))
                &&& r is Some && !d.by_name ==> exists|i: int|
                    0 <= i < named_table().len() && named_table()[i].2 == old(self)@.want_cache
                        && pattern_matches(rel@, #[trigger] named_table()[i].1) && opt_view(final(self)@.app)
                        == Some(named_table()[i].0)
                &&& r is None ==> final(self)@.dirs == old(self)@.dirs && !final(self)@.open
            }),
    {
        let ghost d = OpenedDir { root: root@, rel: rel@, by_name: self.heuristic };
        let mut full = chars_of(root);
        full.push('\\');
        extend_str(&mut full, rel);
        assert(full@ == dir_path(d));
        let (ok, app) = if is_excluded(rel) {
            (false, None)
        } else if self.heuristic {
            let path = string_of(&full);
            let name = string_of(&file_name(path.as_str()));
            (matches_heuristic_dir(name.as_str(), self.want_cache), parent_name_of(&full))
        } else {
            let app = known_dir_app(rel, self.want_cache);
            (app.is_some(), app)
        };
        if !ok {
            proof {
                reveal(dir_collected);
            }
            self.open_prefix = None;
            return None;
        }
        let ghost old_dirs = self.dirs@;
        proof {
            reveal(dir_collected);
        }
        let path = string_of(&full);
        let mut prefix = full;
        prefix.push('\\');
        assert(prefix@ == dir_path(d) + seq!['\\']);
        self.open_prefix = Some(prefix);
        self.open_app = app;
        self.dirs = Ghost(self.dirs@.push(d));
        assert(self.dirs@.last() == d);
        proof {
            lemma_more_dirs(self.items@, old_dirs, d, self.want_cache);
        }
        Some(path)
    }

    /// Whether a file would be collected: not a settings file among logs, and not
    /// collected before.
    pub fn accepts(&self, path: &str) -> (r: bool)
        requires
            self.wf(),
        ensures
            r == (!(self@.category == JunkCategory::AppConfigs && settings_name(file_name_of(path@)))
                && !exists|k: int| 0 <= k < self@.items.len() && self@.items[k].path@ == path@),
    {
        if self.category == JunkCategory::AppConfigs && settings_chars(&file_name(path)) {
            return false;
        }
        !self.seen.contains(path)
    }

    /// Adds a file found in the open directory. A file outside it, a settings file among
    /// logs, a file collected before, and any file once the scan is full are passed over;
    /// otherwise the file becomes an item credited to the open directory's application, a
    /// progress report is due every 500 items, and the walk stops at the item limit.
    pub fn add_file(&mut self, path: String, size: u64) -> (step: ScanStep)
        requires
            old(self).wf(),
        ensures
            final(self).wf(),
            final(self)@.category == old(self)@.category,
            final(self)@.want_cache == old(self)@.want_cache,
            final(self)@.heuristic == old(self)@.heuristic,
            old(self)@.items.len() >= MAX_ITEMS_PER_CATEGORY ==> final(self)@ == old(self)@ && step.stop
                && step.progress is None,
            final(self)@.dirs == old(self)@.dirs,
            final(self)@.open == old(self)@.open,
            final(self)@.app == old(self)@.app,
            old(self)@.items.len() < MAX_ITEMS_PER_CATEGORY ==> {
                if !(old(self)@.open && lies_in(path@, old(self)@.dirs.last())) || (old(self)@.category
                    == JunkCategory::AppConfigs && settings_name(file_name_of(path@))) || exists|k: int|
                    0 <= k < old(self)@.items.len() && old(self)@.items[k].path@ == path@ {
                    final(self)@ == old(self)@ && !step.stop && step.progress is None
                } else {
                    &&& final(self)@.items.len() == old(self)@.items.len() + 1
                    &&& final(self)@.items.drop_last() == old(self)@.items
                    &&& app_item_ok(final(self)@.items.last(), old(self)@.category, path@, size, old(self)@.app)
                    &&& step.stop == (final(self)@.items.len() >= MAX_ITEMS_PER_CATEGORY)
                    &&& match step.progress {
                        Some(p) => final(self)@.items.len() % 500 == 0 && progress_is(
                            p,
                            old(self)@.category,
                            final(self)@.items.len(),
                            found_message(old(self)@.category, final(self)@.items.len()),
                        ),
                        None => final(self)@.items.len() % 500 != 0,
                    }
                }
            },
    {
        if self.items.len() >= MAX_ITEMS_PER_CATEGORY {
            return ScanStep { progress: None, stop: true };
        }
        let inside = match &self.open_prefix {
            Some(prefix) => starts_with(&chars_of(path.as_str()), prefix),
            None => false,
        };
        if !inside || !self.accepts(path.as_str()) {
            return ScanStep { progress: None, stop: false };
        }
        let ghost at = self.dirs@.len() - 1;
        let ghost old_items = self.items@;
        self.seen.insert(path.clone());
        let item = JunkItem {
            category: self.category,
            path: path.clone(),
            size,
            status: ItemStatus::Normal,
            selected: false,
            skip_reason: None,
            is_recycle_bin: false,
            browser_sub: None,
            app_name: clone_opt_string(&self.open_app),
            target: JunkTarget::File(path),
        };
        self.items.push(item);
        proof {
            assert(self.items@.drop_last() == old_items);
            assert(self.seen@ =~= Set::new(|p: Seq<char>| exists|k: int| 0 <= k < self.items@.len() && self.items@[k].path@ == p)) by {
                assert forall|p: Seq<char>| self.seen@.contains(p) implies exists|k: int| 0 <= k < self.items@.len() && self.items@[k].path@ == p by {
                    if p != self.items@.last().path@ {
                        let k = choose|k: int| 0 <= k < old_items.len() && old_items[k].path@ == p;
                        assert(self.items@[k] == old_items[k]);
                    } else {
                        assert(self.items@[self.items@.len() - 1].path@ == p);
                    }
                }
                assert forall|p: Seq<char>| (exists|k: int| 0 <= k < self.items@.len() && self.items@[k].path@ == p) implies self.seen@.contains(p) by {
                    let k = choose|k: int| 0 <= k < self.items@.len() && self.items@[k].path@ == p;
                    if k < old_items.len() {
                        assert(self.items@[k] == old_items[k]);
                    }
                }
            }
            if self.category == JunkCategory::AppConfigs {
                assert forall|k: int| 0 <= k < self.items@.len() implies !settings_name(
                    file_name_of((#[trigger] self.items@[k]).path@),
                ) by {
                    if k < old_items.len() {
                        assert(self.items@[k] == old_items[k]);
                    }
                }
            }
            lemma_more_items(old_items, self.dirs@, self.items@.last());
            assert forall|a: int, b: int| 0 <= a < b < self.items@.len() implies (#[trigger] self.items@[a]).path@ != (#[trigger] self.items@[b]).path@ by {
                if b == self.items@.len() - 1 {
                    assert(self.items@[a] == old_items[a]);
                } else {
                    assert(self.items@[a] == old_items[a]);
                    assert(self.items@[b] == old_items[b]);
                }
            }
        }
        let n = self.items.len();
        let progress = if n % 500 == 0 {
            Some(found_progress(self.category, n))
        } else {
            None
        };
        ScanStep { progress, stop: n >= MAX_ITEMS_PER_CATEGORY }
    }

    /// Ends the scan: its items, and the limit notice when the limit was reached while
    /// collecting the directories found by name.
    pub fn finish(self) -> (r: (Vec<JunkItem>, Option<ScanProgress>))
        requires
            self.wf(),
        ensures
            r.0@ == self@.items,
            match r.1 {
                Some(p) => self@.heuristic && self@.items.len() >= MAX_ITEMS_PER_CATEGORY && progress_is(
                    p,
                    self@.category,
                    self@.items.len(),
                    limit_message(self@.category, true),
                ),
                None => !(self@.heuristic && self@.items.len() >= MAX_ITEMS_PER_CATEGORY),
            },
    {
        let notice = if self.heuristic && self.items.len() >= MAX_ITEMS_PER_CATEGORY {
            Some(limit_progress(self.category, self.items.len(), true))
        } else {
            None
        };
        (self.items, notice)
    }
}

fn new_appdata_scan(category: JunkCategory, want_cache: bool) -> (r: AppDataScan)
    requires
        want_cache <==> category == JunkCategory::AppCaches,
        category == JunkCategory::AppCaches || category == JunkCategory::AppConfigs,
    ensures
        r.wf(),
        r@ == (AppDataScanState {
            category,
            want_cache,
            items: Seq::empty(),
            heuristic: false,
            dirs: Seq::empty(),
            open: false,
            app: None,
        }),
{
    proof {
        lemma_nothing_opened(want_cache);
    }
    let r = AppDataScan {
        category,
        want_cache,
        items: Vec::new(),
        seen: StringHashSet::new(),
        heuristic: false,
        open_prefix: None,
        open_app: None,
        dirs: Ghost(Seq::empty()),
    };
    assert(r.seen@ =~= Set::new(|p: Seq<char>| exists|k: int| 0 <= k < r.items@.len() && r.items@[k].path@ == p));
    r
}

/// Caches of applications below `%LOCALAPPDATA%` and `%APPDATA%`.
pub fn scan_app_caches() -> (r: AppDataScan)
    ensures
        r.wf(),
        r@ == (AppDataScanState {
            category: JunkCategory::AppCaches,
            want_cache: true,
            items: Seq::empty(),
            heuristic: false,
            dirs: Seq::empty(),
            open: false,
            app: None,
        }),
{
    new_appdata_scan(JunkCategory::AppCaches, true)
}

/// Logs and crash dumps of applications below `%LOCALAPPDATA%` and `%APPDATA%`.
pub fn scan_app_configs() -> (r: AppDataScan)
    ensures
        r.wf(),
        r@ == (AppDataScanState {
            category: JunkCategory::AppConfigs,
            want_cache: false,
            items: Seq::empty(),
            heuristic: false,
            dirs: Seq::empty(),
            open: false,
            app: None,
        }),
{
    new_appdata_scan(JunkCategory::AppConfigs, false)
}

} // verus!
