use vstd::prelude::*;

use crate::models::{
    BrowserSubKind, ItemStatus, JunkCategory, JunkItem, JunkTarget, ScanProgress,
    MAX_ITEMS_PER_CATEGORY,
};
use crate::scanner::temp::{
    found_message, found_progress, limit_message, limit_progress, progress_is, ScanStep,
};
use crate::order::{ordered_unique, ordered_unique_paths};
use crate::text::{
    chars_eq, chars_of, contains_char, contains_chars, ends_with, has_infix, lower, lower_ascii,
    starts_with,
};

verus! {

/// A path relative to a browser profile, with `/` turned into `\` and ASCII letters
/// lower-cased.
pub open spec fn normalized(rel: Seq<char>) -> Seq<char> {
    lower(rel.map_values(|c: char| if c == '/' { '\\' } else { c }))
}

/// The kind of browser data a file holds, by its lower-cased path `l` below the profile.
pub open spec fn browser_kind(l: Seq<char>) -> Option<BrowserSubKind> {
    if l == "cookies"@ || l == "network\\cookies"@ || l == "network\\cookies-journal"@ || ("\\cookies"@.is_suffix_of(l)
        && !has_infix(l, "\\cache"@) && ("network\\"@.is_prefix_of(l) || !l.contains('\\'))) {
        Some(BrowserSubKind::Cookies)
    } else if "network\\cookies"@.is_prefix_of(l) {
        Some(BrowserSubKind::Cookies)
    } else if "local storage\\"@.is_prefix_of(l) || "session storage\\"@.is_prefix_of(l)
        || "indexeddb\\"@.is_prefix_of(l) || l == "local storage"@ || l == "session storage"@ || l
        == "indexeddb"@ {
        Some(BrowserSubKind::LocalStorage)
    } else if "code cache\\"@.is_prefix_of(l) || has_infix(l, "\\code cache\\"@) {
        Some(BrowserSubKind::CodeCache)
    } else if "gpucache\\"@.is_prefix_of(l) || has_infix(l, "\\gpucache\\"@) || l == "gpucache"@ {
        Some(BrowserSubKind::GpuCache)
    } else if "media cache\\"@.is_prefix_of(l) || has_infix(l, "\\media cache\\"@)
        || "service worker\\cachestorage\\"@.is_prefix_of(l) || has_infix(
        l,
        "\\service worker\\cachestorage\\"@,
    ) {
        Some(BrowserSubKind::MediaCache)
    } else if ("cache\\"@.is_prefix_of(l) || has_infix(l, "\\cache\\"@) || "cache_data\\"@.is_prefix_of(l))
        && !has_infix(l, "code cache"@) && !has_infix(l, "media cache"@) && !has_infix(
        l,
        "gpucache"@,
    ) {
        Some(BrowserSubKind::HttpCache)
    } else {
        None
    }
}

pub(crate) fn equals_lit(l: &Vec<char>, lit: &str) -> (r: bool)
    ensures
        r == (l@ == lit@),
{
    chars_eq(l, &chars_of(lit))
}

pub(crate) fn starts_lit(l: &Vec<char>, lit: &str) -> (r: bool)
    ensures
        r == lit@.is_prefix_of(l@),
{
    starts_with(l, &chars_of(lit))
}

pub(crate) fn contains_lit(l: &Vec<char>, lit: &str) -> (r: bool)
    ensures
        r == has_infix(l@, lit@),
{
    contains_chars(l, &chars_of(lit))
}

/// A relative path with `/` turned into `\` and ASCII letters lower-cased.
pub fn normalize_rel(rel: &str) -> (r: Vec<char>)
    ensures
        r@ == normalized(rel@),
{
    let raw = chars_of(rel);
    let mut slashed: Vec<char> = Vec::new();
    for i in 0..raw.len()
        invariant
            slashed@ == raw@.take(i as int).map_values(|c: char| if c == '/' { '\\' } else { c }),
    {
        let c = raw[i];
        slashed.push(if c == '/' { '\\' } else { c });
        assert(raw@.take(i + 1).map_values(|c: char| if c == '/' { '\\' } else { c }) == raw@.take(
            i as int,
        ).map_values(|c: char| if c == '/' { '\\' } else { c }).push(if c == '/' { '\\' } else { c }));
    }
    assert(raw@.take(raw.len() as int) == raw@);
    lower_ascii(&slashed)
}

/// The kind of browser data of a file, from its path relative to the profile
/// directory; `None` for a file of none of the kinds cleaned.
pub fn classify_browser_path(rel: &str) -> (r: Option<BrowserSubKind>)
    ensures
        r == browser_kind(normalized(rel@)),
{
    let l = normalize_rel(rel);
    if equals_lit(&l, "cookies") || equals_lit(&l, "network\\cookies") || equals_lit(&l, "network\\cookies-journal") || (ends_with(
        &l,
        &chars_of("\\cookies"),
    ) && !contains_lit(&l, "\\cache") && (starts_lit(&l, "network\\") || !contains_char(&l, '\\'))) {
        return Some(BrowserSubKind::Cookies);
    }
    if starts_lit(&l, "network\\cookies") {
        return Some(BrowserSubKind::Cookies);
    }
    if starts_lit(&l, "local storage\\") || starts_lit(&l, "session storage\\") || starts_lit(&l, "indexeddb\\")
        || equals_lit(&l, "local storage") || equals_lit(&l, "session storage") || equals_lit(&l, "indexeddb") {
        return Some(BrowserSubKind::LocalStorage);
    }
    if starts_lit(&l, "code cache\\") || contains_lit(&l, "\\code cache\\") {
        return Some(BrowserSubKind::CodeCache);
    }
    if starts_lit(&l, "gpucache\\") || contains_lit(&l, "\\gpucache\\") || equals_lit(&l, "gpucache") {
        return Some(BrowserSubKind::GpuCache);
    }
    if starts_lit(&l, "media cache\\") || contains_lit(&l, "\\media cache\\") || starts_lit(
        &l,
        "service worker\\cachestorage\\",
    ) || contains_lit(&l, "\\service worker\\cachestorage\\") {
        return Some(BrowserSubKind::MediaCache);
    }
    if (starts_lit(&l, "cache\\") || contains_lit(&l, "\\cache\\") || starts_lit(&l, "cache_data\\")) && !contains_lit(
        &l,
        "code cache",
    ) && !contains_lit(&l, "media cache") && !contains_lit(&l, "gpucache") {
        return Some(BrowserSubKind::HttpCache);
    }
    None
}

/// Whether a directory in a browser's `User Data` is a profile besides `Default`:
/// `Profile ...` or `Guest Profile`.
pub fn is_profile_dir_name(name: &str) -> (r: bool)
    ensures
        r == ("Profile "@.is_prefix_of(name@) || name@ == "Guest Profile"@),
{
    let n = chars_of(name);
    starts_lit(&n, "Profile ") || equals_lit(&n, "Guest Profile")
}

/// Whether a directory name is that of a profile besides `Default`.
pub open spec fn profile_name(name: Seq<char>) -> bool {
    "Profile "@.is_prefix_of(name) || name == "Guest Profile"@
}

/// The profile directories found in a browser's data directory: `Default` when it is
/// a directory, then each subdirectory (path and name) with a profile's name.
pub open spec fn profile_candidates(default: Option<Seq<char>>, dirs: Seq<(Seq<char>, Seq<char>)>) -> Seq<
    Seq<char>,
> {
    let first = match default {
        Some(p) => seq![p],
        None => Seq::empty(),
    };
    first + dirs.filter(|e: (Seq<char>, Seq<char>)| profile_name(e.1)).map_values(
        |e: (Seq<char>, Seq<char>)| e.0,
    )
}

/// The profiles of a browser to walk, from the path of `Default` when it is a directory
/// and the subdirectories of the data directory (path and name): the profile
/// directories, ordered as paths, each once.
pub fn discover_profiles(default: Option<String>, dirs: &Vec<(String, String)>) -> (r: Vec<String>)
    ensures
        ordered_unique_paths(
            r@.map_values(|x: String| x@),
            profile_candidates(
                match default {
                    Some(p) => Some(p@),
                    None => None,
                },
                dirs@.map_values(|e: (String, String)| (e.0@, e.1@)),
            ),
        ),
{
    let ghost dv = dirs@.map_values(|e: (String, String)| (e.0@, e.1@));
    let ghost pred = |e: (Seq<char>, Seq<char>)| profile_name(e.1);
    let ghost proj = |e: (Seq<char>, Seq<char>)| e.0;
    let ghost first: Seq<Seq<char>> = match &default {
        Some(p) => seq![p@],
        None => Seq::empty(),
    };
    let mut found: Vec<String> = Vec::new();
    match default {
        Some(p) => found.push(p),
        None => {},
    }
    proof {
        reveal_with_fuel(Seq::filter, 1);
        assert(dv.take(0).filter(pred) =~= Seq::<(Seq<char>, Seq<char>)>::empty());
        assert(found@.map_values(|x: String| x@) =~= first + dv.take(0).filter(pred).map_values(proj));
    }
    for i in 0..dirs.len()
        invariant
            dv == dirs@.map_values(|e: (String, String)| (e.0@, e.1@)),
            pred == (|e: (Seq<char>, Seq<char>)| profile_name(e.1)),
            proj == (|e: (Seq<char>, Seq<char>)| e.0),
            found@.map_values(|x: String| x@) == first + dv.take(i as int).filter(pred).map_values(proj),
    {
        let ghost before = found@.map_values(|x: String| x@);
        proof {
            reveal_with_fuel(Seq::filter, 1);
            assert(dv.take(i + 1).drop_last() == dv.take(i as int));
            assert(dv.take(i + 1).last() == dv[i as int]);
        }
        if is_profile_dir_name(dirs[i].1.as_str()) {
            found.push(dirs[i].0.clone());
            proof {
                assert(dv.take(i + 1).filter(pred) == dv.take(i as int).filter(pred).push(dv[i as int]));
                assert(dv.take(i + 1).filter(pred).map_values(proj) =~= dv.take(i as int).filter(pred).map_values(
                    proj,
                ).push(dirs@[i as int].0@));
                assert(found@.map_values(|x: String| x@) =~= before.push(dirs@[i as int].0@));
            }
        } else {
            proof {
                assert(dv.take(i + 1).filter(pred) == dv.take(i as int).filter(pred));
            }
        }
    }
    proof {
        assert(dv.take(dirs.len() as int) == dv);
    }
    ordered_unique(&found)
}

/// The skip reason of a browser file that is in use.
pub open spec fn browser_busy_reason() -> Seq<char> {
    "文件被占用，浏览器可能正在运行"@
}

/// The item for a browser file: unselected, of its kind, and with a reason when the
/// file is in use.
pub open spec fn browser_item_ok(
    item: JunkItem,
    category: JunkCategory,
    path: Seq<char>,
    sub: BrowserSubKind,
    status: ItemStatus,
    size: u64,
) -> bool {
    &&& item.category == category
    &&& item.path@ == path
    &&& item.size == size
    &&& item.status == status
    &&& !item.selected
    &&& (if status == ItemStatus::Skipped {
        item.skip_reason matches Some(r) && r@ == browser_busy_reason()
    } else {
        item.skip_reason is None
    })
    &&& !item.is_recycle_bin
    &&& item.browser_sub == Some(sub)
    &&& item.app_name is None
    &&& item.target matches JunkTarget::File(p) && p@ == path
}

/// The path of a file relative to a profile directory, when the file lies below it.
pub open spec fn rel_below(path: Seq<char>, profile: Seq<char>) -> Option<Seq<char>> {
    if (profile + seq!['\\']).is_prefix_of(path) {
        Some(path.skip(profile.len() + 1int))
    } else {
        None
    }
}

/// The kind of browser data of a file below a profile directory; `None` for a file
/// outside it or of none of the kinds cleaned.
pub open spec fn kind_below(path: Seq<char>, profile: Seq<char>) -> Option<BrowserSubKind> {
    match rel_below(path, profile) {
        Some(r) => browser_kind(normalized(r)),
        None => None,
    }
}

/// Whether an item lies below one of the profiles and has the kind its path there
/// gives it.
pub open spec fn classified_below(item: JunkItem, profiles: Seq<Seq<char>>) -> bool {
    exists|j: int|
        0 <= j < profiles.len() && item.browser_sub is Some && item.browser_sub == kind_below(
            item.path@,
            #[trigger] profiles[j],
        )
}

/// Every item has the kind its path below one of the profiles gives it.
#[verifier::opaque]
pub open spec fn items_classified(items: Seq<JunkItem>, profiles: Seq<Seq<char>>) -> bool {
    forall|k: int| 0 <= k < items.len() ==> classified_below(#[trigger] items[k], profiles)
}

proof fn lemma_classified_more_profiles(items: Seq<JunkItem>, profiles: Seq<Seq<char>>, p: Seq<char>)
    requires
        items_classified(items, profiles),
    ensures
        items_classified(items, profiles.push(p)),
{
    reveal(items_classified);
    let more = profiles.push(p);
    assert forall|k: int| 0 <= k < items.len() implies classified_below(#[trigger] items[k], more) by {
        let j = choose|j: int|
            0 <= j < profiles.len() && items[k].browser_sub is Some && items[k].browser_sub == kind_below(
                items[k].path@,
                #[trigger] profiles[j],
            );
        assert(more[j] == profiles[j]);
    }
}

proof fn lemma_classified_more_items(items: Seq<JunkItem>, profiles: Seq<Seq<char>>, item: JunkItem)
    requires
        items_classified(items, profiles),
        profiles.len() > 0,
        item.browser_sub is Some,
        item.browser_sub == kind_below(item.path@, profiles.last()),
    ensures
        items_classified(items.push(item), profiles),
{
    reveal(items_classified);
    let more = items.push(item);
    assert forall|k: int| 0 <= k < more.len() implies classified_below(#[trigger] more[k], profiles) by {
        if k < items.len() {
            assert(more[k] == items[k]);
        } else {
            assert(more[k].browser_sub == kind_below(more[k].path@, profiles[profiles.len() - 1]));
        }
    }
}

/// A scan of one browser's profiles.
pub struct BrowserScan {
    category: JunkCategory,
    user_data: String,
    items: Vec<JunkItem>,
    truncated: bool,
    profile: Option<String>,
    profiles: Ghost<Seq<Seq<char>>>,
}

/// The state of a browser scan: its items, whether it reached the limit, the profile
/// whose files it takes in now, and the profiles opened so far.
pub struct BrowserScanState {
    pub category: JunkCategory,
    pub user_data: Seq<char>,
    pub items: Seq<JunkItem>,
    pub truncated: bool,
    pub profile: Option<Seq<char>>,
    pub profiles: Seq<Seq<char>>,
}

impl View for BrowserScan {
    type V = BrowserScanState;

    closed spec fn view(&self) -> BrowserScanState {
        BrowserScanState {
            category: self.category,
            user_data: self.user_data@,
            items: self.items@,
            truncated: self.truncated,
            profile: match self.profile {
                Some(p) => Some(p@),
                None => None,
            },
            profiles: self.profiles@,
        }
    }
}

/// The consistency of a browser scan: no more items than the limit, every item
/// unselected, not awaiting rights, and of the kind its path below one of the opened
/// profiles gives it.
pub open spec fn browser_scan_wf(s: BrowserScanState) -> bool {
    &&& s.items.len() <= MAX_ITEMS_PER_CATEGORY
    &&& s.truncated <==> s.items.len() == MAX_ITEMS_PER_CATEGORY
    &&& forall|k: int|
        0 <= k < s.items.len() ==> #[trigger] s.items[k].category == s.category
            && s.items[k].browser_sub is Some && !s.items[k].selected && s.items[k].status
            != ItemStatus::NeedsAdmin
    &&& s.profile matches Some(p) ==> s.profiles.len() > 0 && s.profiles.last() == p
    &&& items_classified(s.items, s.profiles)
}

fn new_browser_scan(category: JunkCategory, user_data: &str) -> (r: BrowserScan)
    ensures
        browser_scan_wf(r@),
        r@.category == category,
        r@.user_data == user_data@,
        r@.items.len() == 0,
        !r@.truncated,
        r@.profile is None,
        r@.profiles.len() == 0,
{
    proof {
        reveal(items_classified);
    }
    BrowserScan {
        category,
        user_data: String::from_str(user_data),
        items: Vec::new(),
        truncated: false,
        profile: None,
        profiles: Ghost(Seq::empty()),
    }
}

/// Edge's data, below `%LOCALAPPDATA%\Microsoft\Edge\User Data`.
pub fn scan_edge_cache() -> (r: BrowserScan)
    ensures
        browser_scan_wf(r@),
        r@.category == JunkCategory::EdgeCache,
        r@.user_data == "Microsoft\\Edge\\User Data"@,
        r@.items.len() == 0,
        !r@.truncated,
        r@.profile is None,
        r@.profiles.len() == 0,
{
    new_browser_scan(JunkCategory::EdgeCache, "Microsoft\\Edge\\User Data")
}

/// Chrome's data, below `%LOCALAPPDATA%\Google\Chrome\User Data`.
pub fn scan_chrome_cache() -> (r: BrowserScan)
    ensures
        browser_scan_wf(r@),
        r@.category == JunkCategory::ChromeCache,
        r@.user_data == "Google\\Chrome\\User Data"@,
        r@.items.len() == 0,
        !r@.truncated,
        r@.profile is None,
        r@.profiles.len() == 0,
{
    new_browser_scan(JunkCategory::ChromeCache, "Google\\Chrome\\User Data")
}

impl BrowserScan {
    pub fn category(&self) -> (r: JunkCategory)
        ensures
            r == self@.category,
    {
        self.category
    }

    /// The browser's data directory, relative to `%LOCALAPPDATA%`.
    pub fn user_data(&self) -> (r: &String)
        ensures
            r@ == self@.user_data,
    {
        &self.user_data
    }

    pub fn is_full(&self) -> (r: bool)
        ensures
            r == self@.truncated,
    {
        self.truncated
    }

    /// How deep below a profile directory the walk looks.
    pub fn walk_depth(&self) -> (r: usize)
        ensures
            r == 8,
    {
        8
    }

    /// Takes in the files below the profile directory `profile` from now on.
    pub fn open_profile(&mut self, profile: &str)
        requires
            browser_scan_wf(old(self)@),
        ensures
            browser_scan_wf(final(self)@),
            final(self)@ == (BrowserScanState {
                profile: Some(profile@),
                profiles: old(self)@.profiles.push(profile@),
                ..old(self)@
            }),
    {
        proof {
            lemma_classified_more_profiles(self.items@, self.profiles@, profile@);
        }
        self.profile = Some(String::from_str(profile));
        self.profiles = Ghost(self.profiles@.push(profile@));
    }

    /// The kind of browser data of a file, by its path below the open profile; `None`
    /// when no profile is open, for a file outside it, and for a file of none of the
    /// kinds cleaned.
    pub fn kind_of(&self, path: &str) -> (r: Option<BrowserSubKind>)
        ensures
            r == match self@.profile {
                Some(p) => kind_below(path@, p),
                None => None,
            },
    {
        match &self.profile {
            None => None,
            Some(p) => {
                let mut prefix = chars_of(p.as_str());
                prefix.push('\\');
                let full = chars_of(path);
                if !starts_with(&full, &prefix) {
                    return None;
                }
                let rel = crate::text::slice_chars(&full, prefix.len(), full.len());
                assert(rel@ == path@.skip(p@.len() + 1int));
                classify_browser_path(crate::text::string_of(&rel).as_str())
            },
        }
    }

    /// Adds a file found below the open profile; `locked` tells whether opening it for
    /// writing failed because it is in use. A file outside the profile or of none of the
    /// kinds cleaned is passed over; otherwise it becomes an item of the kind its path
    /// below the profile gives it, skipped when it is in use. A progress report is due
    /// every 200 items and the walk stops at the item limit; a full scan takes no more
    /// files.
    pub fn add_file(&mut self, path: String, locked: bool, size: u64) -> (step: ScanStep)
        requires
            browser_scan_wf(old(self)@),
        ensures
            browser_scan_wf(final(self)@),
            ({
                let kind = match old(self)@.profile {
                    Some(p) => kind_below(path@, p),
                    None => None,
                };
                &&& final(self)@.category == old(self)@.category
                &&& final(self)@.user_data == old(self)@.user_data
                &&& final(self)@.profile == old(self)@.profile
                &&& final(self)@.profiles == old(self)@.profiles
                &&& old(self)@.truncated ==> final(self)@ == old(self)@ && step.stop && step.progress is None
                &&& !old(self)@.truncated && kind is None ==> final(self)@ == old(self)@ && !step.stop
                    && step.progress is None
                &&& !old(self)@.truncated && kind is Some ==> {
                    &&& final(self)@.items.len() == old(self)@.items.len() + 1
                    &&& final(self)@.items.drop_last() == old(self)@.items
                    &&& browser_item_ok(
                        final(self)@.items.last(),
                        old(self)@.category,
                        path@,
                        kind->0,
                        if locked {
                            ItemStatus::Skipped
                        } else {
                            ItemStatus::Normal
                        },
                        size,
                    )
                    &&& step.stop == final(self)@.truncated
                    &&& match step.progress {
                        Some(p) => final(self)@.items.len() % 200 == 0 && progress_is(
                            p,
                            old(self)@.category,
                            final(self)@.items.len(),
                            found_message(old(self)@.category, final(self)@.items.len()),
                        ),
                        None => final(self)@.items.len() % 200 != 0,
                    }
                }
            }),
    {
        if self.truncated {
            return ScanStep { progress: None, stop: true };
        }
        let sub = match self.kind_of(path.as_str()) {
            Some(k) => k,
            None => {
                return ScanStep { progress: None, stop: false };
            },
        };
        let status = if locked {
            ItemStatus::Skipped
        } else {
            ItemStatus::Normal
        };
        let skip_reason = if locked {
            Some(String::from_str("文件被占用，浏览器可能正在运行"))
        } else {
            None
        };
        let item = JunkItem {
            category: self.category,
            path: path.clone(),
            size,
            status,
            selected: false,
            skip_reason,
            is_recycle_bin: false,
            browser_sub: Some(sub),
            app_name: None,
            target: JunkTarget::File(path),
        };
        proof {
            lemma_classified_more_items(self.items@, self.profiles@, item);
        }
        self.items.push(item);
        assert(self.items@.drop_last() == old(self).items@);
        let n = self.items.len();
        let progress = if n % 200 == 0 {
            Some(found_progress(self.category, n))
        } else {
            None
        };
        if n >= MAX_ITEMS_PER_CATEGORY {
            self.truncated = true;
        }
        ScanStep { progress, stop: self.truncated }
    }

    /// Ends the scan: its items, and the limit notice when the limit was reached.
    pub fn finish(self) -> (r: (Vec<JunkItem>, Option<ScanProgress>))
        requires
            browser_scan_wf(self@),
        ensures
            r.0@ == self@.items,
            match r.1 {
                Some(p) => self@.truncated && progress_is(
                    p,
                    self@.category,
                    self@.items.len(),
                    limit_message(self@.category, true),
                ),
                None => !self@.truncated,
            },
    {
        let notice = if self.truncated {
            Some(limit_progress(self.category, self.items.len(), true))
        } else {
            None
        };
        (self.items, notice)
    }
}

} // verus!
