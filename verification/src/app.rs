use vstd::prelude::*;

use crate::models::{
    category_at, category_index, cleanable, registry_item, AppPhase, BrowserSubKind,
    CategorySummary, CleanError, CleanResult, JunkCategory, JunkItem, CATEGORY_COUNT,
};
use crate::order::{has_same_path, path_key, path_key_of};
use crate::tally::{
    add_size, count_of, in_browser_sub, in_category, lemma_count_bound, lemma_tally_step,
    lemma_wrapping_add, selected_cleanable, selected_cleanable_in, size_of, size_modulus,
    wrapped_size_of,
};
use crate::text::{chars_of, extend_chars, extend_str, has_infix, string_of};

verus! {

// ---------------------------------------------------------------------------
// What the state means
// ---------------------------------------------------------------------------

/// The state of the cleaner as its users see it (the caches left out).
pub struct AppState {
    pub phase: AppPhase,
    pub is_admin: bool,
    pub items: Seq<JunkItem>,
    pub filter_category: Option<JunkCategory>,
    pub scan_progress: Seq<char>,
    pub show_confirm_dialog: bool,
    pub show_result_dialog: bool,
    pub last_clean_result: Option<CleanResult>,
    pub elevate_error: Option<Seq<char>>,
    pub search_filter: Seq<char>,
}

/// The count and total size of one category's items.
pub open spec fn summary_of(items: Seq<JunkItem>, c: JunkCategory) -> CategorySummary {
    CategorySummary {
        count: count_of(items, in_category(c)) as usize,
        total_size: wrapped_size_of(items, in_category(c)),
        truncated: false,
    }
}

/// Some item of category `c` may be cleaned, and every such item is selected.
pub open spec fn category_fully_selected(items: Seq<JunkItem>, c: JunkCategory, is_admin: bool) -> bool {
    &&& exists|k: int| 0 <= k < items.len() && items[k].category == c && cleanable(items[k], is_admin)
    &&& forall|k: int|
        0 <= k < items.len() && items[k].category == c && cleanable(items[k], is_admin)
            ==> items[k].selected
}

/// Among the items of category `c` that may be cleaned, some are selected and some are not.
pub open spec fn category_partially_selected(items: Seq<JunkItem>, c: JunkCategory, is_admin: bool) -> bool {
    &&& exists|k: int|
        0 <= k < items.len() && items[k].category == c && cleanable(items[k], is_admin)
            && items[k].selected
    &&& exists|k: int|
        0 <= k < items.len() && items[k].category == c && cleanable(items[k], is_admin)
            && !items[k].selected
}

/// Some item of category `c` and sub-kind `sub` may be cleaned, and every such item is selected.
pub open spec fn browser_sub_fully_selected(
    items: Seq<JunkItem>,
    c: JunkCategory,
    sub: BrowserSubKind,
    is_admin: bool,
) -> bool {
    &&& exists|k: int|
        0 <= k < items.len() && items[k].category == c && items[k].browser_sub == Some(sub)
            && cleanable(items[k], is_admin)
    &&& forall|k: int|
        0 <= k < items.len() && items[k].category == c && items[k].browser_sub == Some(sub)
            && cleanable(items[k], is_admin) ==> items[k].selected
}

/// Some item of category `c` may be cleaned.
pub open spec fn has_cleanable(items: Seq<JunkItem>, c: JunkCategory, is_admin: bool) -> bool {
    exists|k: int| 0 <= k < items.len() && items[k].category == c && cleanable(items[k], is_admin)
}

/// Items of category `c` that may be cleaned.
pub open spec fn cleanable_in(c: JunkCategory, is_admin: bool) -> spec_fn(JunkItem) -> bool {
    |i: JunkItem| i.category == c && cleanable(i, is_admin)
}

/// Items of category `c` and browser sub-kind `sub` that may be cleaned.
pub open spec fn cleanable_in_sub(c: JunkCategory, sub: BrowserSubKind, is_admin: bool) -> spec_fn(JunkItem) -> bool {
    |i: JunkItem| i.category == c && i.browser_sub == Some(sub) && cleanable(i, is_admin)
}

/// Items that may be cleaned.
pub open spec fn may_clean(is_admin: bool) -> spec_fn(JunkItem) -> bool {
    |i: JunkItem| cleanable(i, is_admin)
}

/// The list with the selection of every item that satisfies `p` set to `selected`,
/// the other items unchanged.
pub open spec fn with_selection(items: Seq<JunkItem>, p: spec_fn(JunkItem) -> bool, selected: bool) -> Seq<JunkItem> {
    items.map_values(|i: JunkItem| if p(i) { JunkItem { selected, ..i } } else { i })
}

/// Unicode lower-casing (`str::to_lowercase`).
pub uninterp spec fn unicode_lower(s: Seq<char>) -> Seq<char>;

/// std `str::to_lowercase`: the contract names the result, which depends on the text alone.
#[verifier::external_body]
fn to_lowercase(s: &str) -> (r: String)
    ensures
        r@ == unicode_lower(s@),
{
    s.to_lowercase()
}

/// Whether an item passes the list filter: it is of the chosen category, if one is
/// chosen, and, when the search text is not empty, its lower-cased path contains the
/// lower-cased search text.
pub open spec fn item_matches(
    item: JunkItem,
    category: Option<JunkCategory>,
    searching: bool,
    needle: Seq<char>,
) -> bool {
    &&& match category {
        Some(c) => item.category == c,
        None => true,
    }
    &&& searching ==> has_infix(unicode_lower(item.path@), needle)
}

/// The positions, in increasing order, of the items that pass the list filter.
pub open spec fn matching_indices(
    items: Seq<JunkItem>,
    category: Option<JunkCategory>,
    searching: bool,
    needle: Seq<char>,
) -> Seq<usize>
    decreases items.len(),
{
    if items.len() == 0 {
        Seq::empty()
    } else {
        let prev = matching_indices(items.drop_last(), category, searching, needle);
        if item_matches(items.last(), category, searching, needle) {
            prev.push((items.len() - 1) as usize)
        } else {
            prev
        }
    }
}

/// The item with its selection cleared.
pub open spec fn deselected(item: JunkItem) -> JunkItem {
    JunkItem { selected: false, ..item }
}

/// The paths that a clean reports as failed, each by its key (see `path_key`), so that
/// the same path written another way (other separators, a trailing separator, another
/// case of the drive letter) is the same failure.
pub open spec fn failed_paths(errors: Seq<CleanError>) -> Set<Seq<Seq<char>>> {
    Set::new(|p: Seq<Seq<char>>| exists|k: int| 0 <= k < errors.len() && path_key(errors[k].path@) == p)
}

/// What stays in the list after a clean: the recycle-bin item goes when it was
/// selected and emptying it did not fail; a selected item that may be cleaned stays
/// only when its path (compared as a path) failed, or, for a registry item, when the
/// backup failed; every other item stays.
pub open spec fn stays_after_clean(
    item: JunkItem,
    is_admin: bool,
    had_recycle: bool,
    recycle_failed: bool,
    backup_failed: bool,
    failed: Set<Seq<Seq<char>>>,
) -> bool {
    if item.is_recycle_bin && had_recycle && !recycle_failed {
        false
    } else if item.selected && cleanable(item, is_admin) && !item.is_recycle_bin {
        if registry_item(item) && backup_failed {
            true
        } else {
            failed.contains(path_key(item.path@))
        }
    } else {
        true
    }
}

/// The items that stay after a clean, in order, all unselected.
pub open spec fn survivors(
    items: Seq<JunkItem>,
    is_admin: bool,
    had_recycle: bool,
    recycle_failed: bool,
    backup_failed: bool,
    failed: Set<Seq<Seq<char>>>,
) -> Seq<JunkItem>
    decreases items.len(),
{
    if items.len() == 0 {
        Seq::empty()
    } else {
        let prev = survivors(
            items.drop_last(),
            is_admin,
            had_recycle,
            recycle_failed,
            backup_failed,
            failed,
        );
        if stays_after_clean(items.last(), is_admin, had_recycle, recycle_failed, backup_failed, failed) {
            prev.push(deselected(items.last()))
        } else {
            prev
        }
    }
}

/// The path under which a clean reports the recycle bin.
pub open spec fn recycle_bin_path() -> Seq<char> {
    "回收站"@
}

/// The path under which a clean reports a failed registry backup.
pub open spec fn registry_backup_path() -> Seq<char> {
    "注册表备份"@
}

/// The list after `finish_clean` with this result.
pub open spec fn items_after_clean(items: Seq<JunkItem>, is_admin: bool, result: CleanResult) -> Seq<JunkItem> {
    let errors = result.errors@;
    survivors(
        items,
        is_admin,
        exists|k: int| 0 <= k < items.len() && items[k].is_recycle_bin && items[k].selected,
        exists|k: int| 0 <= k < errors.len() && errors[k].path@ == recycle_bin_path(),
        exists|k: int| 0 <= k < errors.len() && errors[k].path@ == registry_backup_path(),
        failed_paths(errors),
    )
}

// ---------------------------------------------------------------------------
// The state
// ---------------------------------------------------------------------------

/// The cleaner's state: the scanned items, the user's selection and filters, and
/// the dialogs that are open.
pub struct ClearHelperApp {
    phase: AppPhase,
    is_admin: bool,
    items: Vec<JunkItem>,
    filter_category: Option<JunkCategory>,
    scan_progress: String,
    show_confirm_dialog: bool,
    show_result_dialog: bool,
    last_clean_result: Option<CleanResult>,
    elevate_error: Option<String>,
    search_filter: String,
    /// Per-category summaries, in `JunkCategory::all()` order, while the items are unchanged.
    cached_summaries: Option<Vec<CategorySummary>>,
    /// The filter that `cached_filtered_indices` was computed for: category, lower-cased
    /// search text, and whether the search text was non-empty.
    cached_filter: Option<(Option<JunkCategory>, String, bool)>,
    cached_filtered_indices: Vec<usize>,
}

impl View for ClearHelperApp {
    type V = AppState;

    closed spec fn view(&self) -> AppState {
        AppState {
            phase: self.phase,
            is_admin: self.is_admin,
            items: self.items@,
            filter_category: self.filter_category,
            scan_progress: self.scan_progress@,
            show_confirm_dialog: self.show_confirm_dialog,
            show_result_dialog: self.show_result_dialog,
            last_clean_result: self.last_clean_result,
            elevate_error: match self.elevate_error {
                Some(e) => Some(e@),
                None => None,
            },
            search_filter: self.search_filter@,
        }
    }
}


/// Two lists that differ at most in which items are selected.
pub open spec fn same_but_selection(a: Seq<JunkItem>, b: Seq<JunkItem>) -> bool {
    &&& a.len() == b.len()
    &&& forall|k: int| 0 <= k < a.len() ==> (JunkItem { selected: a[k].selected, ..b[k] }) == a[k]
}

pub(crate) proof fn lemma_selection_irrelevant(a: Seq<JunkItem>, b: Seq<JunkItem>)
    requires
        same_but_selection(a, b),
    ensures
        forall|c: JunkCategory| #[trigger] summary_of(a, c) == summary_of(b, c),
        forall|cat: Option<JunkCategory>, searching: bool, needle: Seq<char>|
            #[trigger] matching_indices(a, cat, searching, needle) == matching_indices(
                b,
                cat,
                searching,
                needle,
            ),
    decreases a.len(),
{
    if a.len() > 0 {
        let a2 = a.drop_last();
        let b2 = b.drop_last();
        assert(same_but_selection(a2, b2)) by {
            assert forall|k: int| 0 <= k < a2.len() implies (JunkItem { selected: a2[k].selected, ..b2[k] }) == a2[k] by {
                assert(a2[k] == a[k]);
                assert(b2[k] == b[k]);
            }
        }
        lemma_selection_irrelevant(a2, b2);
        let la = a.last();
        let lb = b.last();
        assert((JunkItem { selected: la.selected, ..lb }) == la);
        assert forall|c: JunkCategory| #[trigger] summary_of(a, c) == summary_of(b, c) by {
            assert(summary_of(a2, c) == summary_of(b2, c));
            assert(count_of(a2, in_category(c)) == count_of(b2, in_category(c))) by {
                lemma_count_bound(a2, in_category(c));
                lemma_count_bound(b2, in_category(c));
                lemma_same_tallies(a2, b2, c);
            }
            lemma_same_tallies(a, b, c);
        }
        assert(la.category == lb.category && la.path == lb.path);
        assert forall|cat: Option<JunkCategory>, searching: bool, needle: Seq<char>|
            #[trigger] matching_indices(a, cat, searching, needle) == matching_indices(
                b,
                cat,
                searching,
                needle,
            ) by {
            assert(matching_indices(a2, cat, searching, needle) == matching_indices(b2, cat, searching, needle));
            assert(item_matches(la, cat, searching, needle) == item_matches(lb, cat, searching, needle));
        }
    }
}

proof fn lemma_same_tallies(a: Seq<JunkItem>, b: Seq<JunkItem>, c: JunkCategory)
    requires
        same_but_selection(a, b),
    ensures
        count_of(a, in_category(c)) == count_of(b, in_category(c)),
        size_of(a, in_category(c)) == size_of(b, in_category(c)),
    decreases a.len(),
{
    if a.len() > 0 {
        let a2 = a.drop_last();
        let b2 = b.drop_last();
        assert(same_but_selection(a2, b2)) by {
            assert forall|k: int| 0 <= k < a2.len() implies (JunkItem { selected: a2[k].selected, ..b2[k] }) == a2[k] by {
                assert(a2[k] == a[k]);
                assert(b2[k] == b[k]);
            }
        }
        lemma_same_tallies(a2, b2, c);
        assert((JunkItem { selected: a.last().selected, ..b.last() }) == a.last());
    }
}

proof fn lemma_category_roundtrip(c: JunkCategory)
    ensures
        category_at(category_index(c)) == c,
        category_index(c) < CATEGORY_COUNT,
{
}

proof fn lemma_summary_step(items: Seq<JunkItem>, i: int, c: JunkCategory)
    requires
        0 <= i < items.len() <= usize::MAX,
    ensures
        summary_of(items.take(i + 1), c) == (if items[i].category == c {
            CategorySummary {
                count: (summary_of(items.take(i), c).count + 1) as usize,
                total_size: vstd::wrapping::u64_specs::wrapping_add(
                    summary_of(items.take(i), c).total_size,
                    items[i].size,
                ),
                truncated: false,
            }
        } else {
            summary_of(items.take(i), c)
        }),
{
    lemma_tally_step(items, in_category(c), i);
    lemma_count_bound(items.take(i), in_category(c));
    lemma_count_bound(items.take(i + 1), in_category(c));
    lemma_wrapping_add(size_of(items.take(i), in_category(c)), items[i].size);
}

impl ClearHelperApp {
    /// The caches agree with the items and filters they were computed from.
    pub closed spec fn wf(&self) -> bool {
        &&& (self.cached_summaries matches Some(v) ==> {
            &&& v@.len() == CATEGORY_COUNT
            &&& forall|k: int|
                0 <= k < CATEGORY_COUNT ==> v@[k] == summary_of(self.items@, category_at(k as nat))
        })
        &&& (self.cached_filter matches Some(key) ==> self.cached_filtered_indices@
            == matching_indices(self.items@, key.0, key.2, key.1@))
    }

    /// A fresh state: idle, with no items.
    pub fn new(is_admin: bool) -> (r: Self)
        ensures
            r.wf(),
            r@ == (AppState {
                phase: AppPhase::Idle,
                is_admin,
                items: Seq::empty(),
                filter_category: None,
                scan_progress: Seq::empty(),
                show_confirm_dialog: false,
                show_result_dialog: false,
                last_clean_result: None,
                elevate_error: None,
                search_filter: Seq::empty(),
            }),
    {
        ClearHelperApp {
            phase: AppPhase::Idle,
            is_admin,
            items: Vec::new(),
            filter_category: None,
            scan_progress: String::new(),
            show_confirm_dialog: false,
            show_result_dialog: false,
            last_clean_result: None,
            elevate_error: None,
            search_filter: String::new(),
            cached_summaries: None,
            cached_filter: None,
            cached_filtered_indices: Vec::new(),
        }
    }

    /// Drops the cached summaries and filtered rows.
    pub fn invalidate_cache(&mut self)
        ensures
            final(self)@ == old(self)@,
            final(self).wf(),
    {
        self.cached_summaries = None;
        self.cached_filter = None;
        self.cached_filtered_indices.clear();
    }

    /// The count and total size of each category's items, in `JunkCategory::all()` order.
    pub fn category_summaries(&mut self) -> (r: Vec<CategorySummary>)
        requires
            old(self).wf(),
        ensures
            final(self).wf(),
            final(self)@ == old(self)@,
            r@.len() == CATEGORY_COUNT,
            forall|k: int|
                0 <= k < CATEGORY_COUNT ==> r@[k] == summary_of(old(self)@.items, category_at(k as nat)),
    {
        match &self.cached_summaries {
            Some(v) => {
                return v.clone();
            },
            None => {},
        }
        let mut v: Vec<CategorySummary> = Vec::new();
        for k in 0..CATEGORY_COUNT
            invariant
                v@.len() == k,
                forall|m: int| 0 <= m < k ==> v@[m] == (CategorySummary { count: 0, total_size: 0, truncated: false }),
        {
            v.push(CategorySummary::default());
        }
        proof {
            assert forall|m: int| 0 <= m < CATEGORY_COUNT implies v@[m] == summary_of(
                self.items@.take(0),
                category_at(m as nat),
            ) by {
                assert(self.items@.take(0).len() == 0);
            }
        }
        let n = self.items.len();
        for i in 0..n
            invariant
                n == self.items.len(),
                v@.len() == CATEGORY_COUNT,
                forall|m: int|
                    0 <= m < CATEGORY_COUNT ==> v@[m] == summary_of(
                        self.items@.take(i as int),
                        category_at(m as nat),
                    ),
        {
            let c = self.items[i].category;
            let idx = c.index();
            let old_summary = v[idx];
            proof {
                lemma_category_roundtrip(c);
                lemma_count_bound(self.items@.take(i as int), in_category(c));
            }
            let updated = CategorySummary {
                count: old_summary.count + 1,
                total_size: add_size(old_summary.total_size, self.items[i].size),
                truncated: false,
            };
            proof {
                lemma_category_roundtrip(c);
                assert forall|m: int| 0 <= m < CATEGORY_COUNT implies summary_of(
                    self.items@.take(i + 1),
                    category_at(m as nat),
                ) == (if m == idx {
                    updated
                } else {
                    v@[m]
                }) by {
                    lemma_summary_step(self.items@, i as int, category_at(m as nat));
                    lemma_count_bound(self.items@.take(i + 1), in_category(category_at(m as nat)));
                    if m != idx {
                        assert(category_at(m as nat) != c);
                    }
                }
            }
            v.set(idx, updated);
        }
        assert(self.items@.take(n as int) == self.items@);
        self.cached_summaries = Some(v.clone());
        v
    }

    /// The count and total size of one category's items.
    pub fn category_summary(&mut self, category: JunkCategory) -> (r: CategorySummary)
        requires
            old(self).wf(),
        ensures
            final(self).wf(),
            final(self)@ == old(self)@,
            r == summary_of(old(self)@.items, category),
    {
        let all = self.category_summaries();
        proof {
            lemma_category_roundtrip(category);
        }
        all[category.index()]
    }

    /// The number and total size of the selected items of a category that may be cleaned.
    pub fn category_selected_count(&self, category: JunkCategory) -> (r: (usize, u64))
        ensures
            r.0 == count_of(self@.items, selected_cleanable_in(category, self@.is_admin)),
            r.1 == wrapped_size_of(self@.items, selected_cleanable_in(category, self@.is_admin)),
    {
        let ghost p = selected_cleanable_in(category, self.is_admin);
        let mut count: usize = 0;
        let mut size: u64 = 0;
        for i in 0..self.items.len()
            invariant
                p == selected_cleanable_in(category, self.is_admin),
                count == count_of(self.items@.take(i as int), p),
                size == wrapped_size_of(self.items@.take(i as int), p),
        {
            proof {
                lemma_tally_step(self.items@, p, i as int);
                lemma_count_bound(self.items@.take(i as int), p);
                lemma_wrapping_add(size_of(self.items@.take(i as int), p), self.items@[i as int].size);
            }
            let item = &self.items[i];
            if item.category == category && item.selected && item.can_clean(self.is_admin) {
                count = count + 1;
                size = add_size(size, item.size);
            }
        }
        assert(self.items@.take(self.items.len() as int) == self.items@);
        (count, size)
    }

    /// Whether some item of the category may be cleaned and all such items are selected.
    pub fn is_category_fully_selected(&self, category: JunkCategory) -> (r: bool)
        ensures
            r == category_fully_selected(self@.items, category, self@.is_admin),
    {
        let mut any = false;
        for i in 0..self.items.len()
            invariant
                any <==> exists|k: int|
                    0 <= k < i && self.items@[k].category == category && cleanable(
                        self.items@[k],
                        self.is_admin,
                    ),
                forall|k: int|
                    0 <= k < i && self.items@[k].category == category && cleanable(
                        self.items@[k],
                        self.is_admin,
                    ) ==> self.items@[k].selected,
        {
            let item = &self.items[i];
            if item.category == category && item.can_clean(self.is_admin) {
                if !item.selected {
                    return false;
                }
                any = true;
            }
        }
        any
    }

    /// Whether, among the items of the category that may be cleaned, some are selected and some are not.
    pub fn is_category_partially_selected(&self, category: JunkCategory) -> (r: bool)
        ensures
            r == category_partially_selected(self@.items, category, self@.is_admin),
    {
        let mut some_selected = false;
        let mut some_unselected = false;
        for i in 0..self.items.len()
            invariant
                some_selected <==> exists|k: int|
                    0 <= k < i && self.items@[k].category == category && cleanable(
                        self.items@[k],
                        self.is_admin,
                    ) && self.items@[k].selected,
                some_unselected <==> exists|k: int|
                    0 <= k < i && self.items@[k].category == category && cleanable(
                        self.items@[k],
                        self.is_admin,
                    ) && !self.items@[k].selected,
        {
            let item = &self.items[i];
            if item.category == category && item.can_clean(self.is_admin) {
                if item.selected {
                    some_selected = true;
                } else {
                    some_unselected = true;
                }
            }
        }
        some_selected && some_unselected
    }

    /// The check box of a category, in the overview and in the side panel: `None`
    /// (shown disabled) when no item of the category may be cleaned, else whether all
    /// such items are selected. A click sets their selection to the opposite.
    pub fn category_check(&self, category: JunkCategory) -> (r: Option<bool>)
        ensures
            r == if has_cleanable(self@.items, category, self@.is_admin) {
                Some(category_fully_selected(self@.items, category, self@.is_admin))
            } else {
                None::<bool>
            },
    {
        let mut any = false;
        for i in 0..self.items.len()
            invariant
                any <==> exists|k: int|
                    0 <= k < i && self.items@[k].category == category && cleanable(
                        self.items@[k],
                        self.is_admin,
                    ),
        {
            if self.items[i].category == category && self.items[i].can_clean(self.is_admin) {
                any = true;
            }
        }
        if any {
            Some(self.is_category_fully_selected(category))
        } else {
            None
        }
    }

    /// Whether the button that cleans the selection is enabled: something that may be
    /// cleaned is selected, and no scan or clean is running.
    pub fn can_clean_selected(&self) -> (r: bool)
        ensures
            r == (count_of(self@.items, selected_cleanable(self@.is_admin)) > 0
                && self@.phase != AppPhase::Cleaning && self@.phase != AppPhase::Scanning),
    {
        let (count, _) = self.selected_stats();
        count > 0 && self.phase != AppPhase::Cleaning && self.phase != AppPhase::Scanning
    }

    /// Whether the buttons that select or deselect everything are enabled: a scan has
    /// results and the list is not empty.
    pub fn can_change_selection(&self) -> (r: bool)
        ensures
            r == (self@.phase == AppPhase::Results && self@.items.len() > 0),
    {
        self.phase == AppPhase::Results && self.items.len() > 0
    }

    /// Whether a scan may be started: none is running and no clean is running.
    pub fn can_start_scan(&self) -> (r: bool)
        ensures
            r == (self@.phase != AppPhase::Scanning && self@.phase != AppPhase::Cleaning),
    {
        self.phase != AppPhase::Scanning && self.phase != AppPhase::Cleaning
    }

    /// Selects or deselects every item of the category that may be cleaned.
    pub fn set_category_selection(&mut self, category: JunkCategory, selected: bool)
        requires
            old(self).wf(),
        ensures
            final(self).wf(),
            final(self)@ == (AppState { items: final(self)@.items, ..old(self)@ }),
            final(self)@.items == with_selection(
                old(self)@.items,
                cleanable_in(category, old(self)@.is_admin),
                selected,
            ),
    {
        let n = self.items.len();
        for i in 0..n
            invariant
                n == self.items.len() == old(self).items.len(),
                self.cached_summaries == old(self).cached_summaries,
                self.cached_filter == old(self).cached_filter,
                self.cached_filtered_indices == old(self).cached_filtered_indices,
                self@ == (AppState { items: self@.items, ..old(self)@ }),
                forall|k: int|
                    0 <= k < n ==> self.items@[k] == if k < i && old(self).items@[k].category == category
                        && cleanable(old(self).items@[k], old(self).is_admin) {
                        JunkItem { selected, ..old(self).items@[k] }
                    } else {
                        old(self).items@[k]
                    },
        {
            if self.items[i].category == category && self.items[i].can_clean(self.is_admin) {
                let mut item = self.items[i].clone();
                item.selected = selected;
                self.items.set(i, item);
            }
        }
        proof {
            assert(same_but_selection(self.items@, old(self).items@));
            lemma_selection_irrelevant(self.items@, old(self).items@);
            assert(self.items@ =~= with_selection(old(self).items@, cleanable_in(category, self.is_admin), selected));
        }
    }

    /// Selects or deselects every item of the category and browser sub-kind that may be cleaned.
    pub fn set_browser_sub_selection(&mut self, category: JunkCategory, sub: BrowserSubKind, selected: bool)
        requires
            old(self).wf(),
        ensures
            final(self).wf(),
            final(self)@ == (AppState { items: final(self)@.items, ..old(self)@ }),
            final(self)@.items == with_selection(
                old(self)@.items,
                cleanable_in_sub(category, sub, old(self)@.is_admin),
                selected,
            ),
    {
        let n = self.items.len();
        for i in 0..n
            invariant
                n == self.items.len() == old(self).items.len(),
                self.cached_summaries == old(self).cached_summaries,
                self.cached_filter == old(self).cached_filter,
                self.cached_filtered_indices == old(self).cached_filtered_indices,
                self@ == (AppState { items: self@.items, ..old(self)@ }),
                forall|k: int|
                    0 <= k < n ==> self.items@[k] == if k < i && old(self).items@[k].category == category
                        && old(self).items@[k].browser_sub == Some(sub) && cleanable(
                        old(self).items@[k],
                        old(self).is_admin,
                    ) {
                        JunkItem { selected, ..old(self).items@[k] }
                    } else {
                        old(self).items@[k]
                    },
        {
            if self.items[i].category == category && self.items[i].browser_sub == Some(sub)
                && self.items[i].can_clean(self.is_admin) {
                let mut item = self.items[i].clone();
                item.selected = selected;
                self.items.set(i, item);
            }
        }
        proof {
            assert(same_but_selection(self.items@, old(self).items@));
            lemma_selection_irrelevant(self.items@, old(self).items@);
            assert(self.items@ =~= with_selection(
                old(self).items@,
                cleanable_in_sub(category, sub, self.is_admin),
                selected,
            ));
        }
    }

    /// Whether some item of the category and sub-kind may be cleaned and all such items are selected.
    pub fn is_browser_sub_fully_selected(&self, category: JunkCategory, sub: BrowserSubKind) -> (r: bool)
        ensures
            r == browser_sub_fully_selected(self@.items, category, sub, self@.is_admin),
    {
        let mut any = false;
        for i in 0..self.items.len()
            invariant
                any <==> exists|k: int|
                    0 <= k < i && self.items@[k].category == category && self.items@[k].browser_sub
                        == Some(sub) && cleanable(self.items@[k], self.is_admin),
                forall|k: int|
                    0 <= k < i && self.items@[k].category == category && self.items@[k].browser_sub
                        == Some(sub) && cleanable(self.items@[k], self.is_admin)
                        ==> self.items@[k].selected,
        {
            let item = &self.items[i];
            if item.category == category && item.browser_sub == Some(sub) && item.can_clean(self.is_admin) {
                if !item.selected {
                    return false;
                }
                any = true;
            }
        }
        any
    }

    /// The number of items of the category and browser sub-kind.
    pub fn browser_sub_count(&self, category: JunkCategory, sub: BrowserSubKind) -> (r: usize)
        ensures
            r == count_of(self@.items, in_browser_sub(category, sub)),
    {
        let ghost p = in_browser_sub(category, sub);
        let mut count: usize = 0;
        for i in 0..self.items.len()
            invariant
                p == in_browser_sub(category, sub),
                count == count_of(self.items@.take(i as int), p),
        {
            proof {
                lemma_tally_step(self.items@, p, i as int);
                lemma_count_bound(self.items@.take(i as int), p);
            }
            let item = &self.items[i];
            if item.category == category && item.browser_sub == Some(sub) {
                count = count + 1;
            }
        }
        assert(self.items@.take(self.items.len() as int) == self.items@);
        count
    }

    /// Whether a selected item that may be cleaned stands for a registry entry.
    pub fn selected_has_registry(&self) -> (r: bool)
        ensures
            r == exists|k: int|
                0 <= k < self@.items.len() && self@.items[k].selected && cleanable(
                    self@.items[k],
                    self@.is_admin,
                ) && registry_item(self@.items[k]),
    {
        for i in 0..self.items.len()
            invariant
                forall|k: int|
                    0 <= k < i ==> !(self.items@[k].selected && cleanable(self.items@[k], self.is_admin)
                        && registry_item(self.items@[k])),
        {
            let item = &self.items[i];
            if item.selected && item.can_clean(self.is_admin) && item.is_registry() {
                return true;
            }
        }
        false
    }

    /// Selects every item that may be cleaned; the rest keep their selection.
    pub fn select_all_cleanable(&mut self)
        requires
            old(self).wf(),
        ensures
            final(self).wf(),
            final(self)@ == (AppState { items: final(self)@.items, ..old(self)@ }),
            final(self)@.items == with_selection(old(self)@.items, may_clean(old(self)@.is_admin), true),
    {
        let n = self.items.len();
        for i in 0..n
            invariant
                n == self.items.len() == old(self).items.len(),
                self.cached_summaries == old(self).cached_summaries,
                self.cached_filter == old(self).cached_filter,
                self.cached_filtered_indices == old(self).cached_filtered_indices,
                self@ == (AppState { items: self@.items, ..old(self)@ }),
                forall|k: int|
                    0 <= k < n ==> self.items@[k] == if k < i && cleanable(old(self).items@[k], old(self).is_admin) {
                        JunkItem { selected: true, ..old(self).items@[k] }
                    } else {
                        old(self).items@[k]
                    },
        {
            if self.items[i].can_clean(self.is_admin) {
                let mut item = self.items[i].clone();
                item.selected = true;
                self.items.set(i, item);
            }
        }
        proof {
            assert(same_but_selection(self.items@, old(self).items@));
            lemma_selection_irrelevant(self.items@, old(self).items@);
            assert(self.items@ =~= with_selection(old(self).items@, may_clean(self.is_admin), true));
        }
    }

    /// Deselects every item.
    pub fn deselect_all(&mut self)
        requires
            old(self).wf(),
        ensures
            final(self).wf(),
            final(self)@ == (AppState { items: final(self)@.items, ..old(self)@ }),
            final(self)@.items == old(self)@.items.map_values(|i: JunkItem| deselected(i)),
    {
        let n = self.items.len();
        for i in 0..n
            invariant
                n == self.items.len() == old(self).items.len(),
                self.cached_summaries == old(self).cached_summaries,
                self.cached_filter == old(self).cached_filter,
                self.cached_filtered_indices == old(self).cached_filtered_indices,
                self@ == (AppState { items: self@.items, ..old(self)@ }),
                forall|k: int|
                    0 <= k < n ==> self.items@[k] == if k < i {
                        deselected(old(self).items@[k])
                    } else {
                        old(self).items@[k]
                    },
        {
            let mut item = self.items[i].clone();
            item.selected = false;
            self.items.set(i, item);
        }
        proof {
            assert(same_but_selection(self.items@, old(self).items@));
            lemma_selection_irrelevant(self.items@, old(self).items@);
            assert(self.items@ =~= old(self).items@.map_values(|i: JunkItem| deselected(i)));
        }
    }

    /// The number and total size of the selected items that may be cleaned.
    pub fn selected_stats(&self) -> (r: (usize, u64))
        ensures
            r.0 == count_of(self@.items, selected_cleanable(self@.is_admin)),
            r.1 == wrapped_size_of(self@.items, selected_cleanable(self@.is_admin)),
    {
        let ghost p = selected_cleanable(self.is_admin);
        let mut count: usize = 0;
        let mut size: u64 = 0;
        for i in 0..self.items.len()
            invariant
                p == selected_cleanable(self.is_admin),
                count == count_of(self.items@.take(i as int), p),
                size == wrapped_size_of(self.items@.take(i as int), p),
        {
            proof {
                lemma_tally_step(self.items@, p, i as int);
                lemma_count_bound(self.items@.take(i as int), p);
                lemma_wrapping_add(size_of(self.items@.take(i as int), p), self.items@[i as int].size);
            }
            let item = &self.items[i];
            if item.selected && item.can_clean(self.is_admin) {
                count = count + 1;
                size = add_size(size, item.size);
            }
        }
        assert(self.items@.take(self.items.len() as int) == self.items@);
        (count, size)
    }

    /// The positions, in increasing order, of the items that pass the category filter
    /// and the search text.
    pub fn filtered_indices(&mut self) -> (r: Vec<usize>)
        requires
            old(self).wf(),
        ensures
            final(self).wf(),
            final(self)@ == old(self)@,
            r@ == matching_indices(
                old(self)@.items,
                old(self)@.filter_category,
                old(self)@.search_filter.len() > 0,
                unicode_lower(old(self)@.search_filter),
            ),
    {
        let needle = to_lowercase(self.search_filter.as_str());
        let searching = !self.search_filter.as_str().is_empty();
        let mut hit = false;
        match &self.cached_filter {
            Some(key) => {
                if key.0 == self.filter_category && key.2 == searching && key.1 == needle {
                    hit = true;
                }
            },
            None => {},
        }
        if hit {
            return self.cached_filtered_indices.clone();
        }
        let needle_chars = chars_of(needle.as_str());
        let mut out: Vec<usize> = Vec::new();
        let n = self.items.len();
        for i in 0..n
            invariant
                n == self.items.len(),
                needle_chars@ == unicode_lower(self.search_filter@),
                out@ == matching_indices(
                    self.items@.take(i as int),
                    self.filter_category,
                    searching,
                    needle_chars@,
                ),
        {
            let item = &self.items[i];
            let mut keep = match self.filter_category {
                Some(c) => item.category == c,
                None => true,
            };
            if keep && searching {
                let path_lower = to_lowercase(item.path.as_str());
                let hay = chars_of(path_lower.as_str());
                keep = crate::text::contains_chars(&hay, &needle_chars);
            }
            proof {
                let t = self.items@.take(i + 1);
                assert(t.drop_last() == self.items@.take(i as int));
                assert(t.last() == self.items@[i as int]);
            }
            if keep {
                out.push(i);
            }
        }
        assert(self.items@.take(n as int) == self.items@);
        self.cached_filtered_indices = out.clone();
        self.cached_filter = Some((self.filter_category, needle, searching));
        out
    }

    /// Begins a scan: the list is emptied and the category filter cleared.
    pub fn start_scan(&mut self)
        requires
            old(self).wf(),
        ensures
            final(self).wf(),
            final(self)@ == (AppState {
                phase: AppPhase::Scanning,
                items: Seq::empty(),
                scan_progress: "正在启动扫描..."@,
                filter_category: None,
                ..old(self)@
            }),
    {
        self.phase = AppPhase::Scanning;
        self.items.clear();
        self.invalidate_cache();
        self.scan_progress = String::from_str("正在启动扫描...");
        self.filter_category = None;
    }

    /// Takes in what a running scan reported since the last poll: its progress
    /// messages, in order, and its items once it has finished. Returns whether the scan
    /// has finished.
    pub fn poll_scan(&mut self, messages: Vec<String>, scanned: Option<Vec<JunkItem>>) -> (done: bool)
        requires
            old(self).wf(),
        ensures
            final(self).wf(),
            done == scanned is Some,
            match scanned {
                Some(items) => final(self)@ == (AppState {
                    items: items@,
                    phase: AppPhase::Results,
                    scan_progress: "扫描完成，共 "@ + crate::text::decimal(items@.len()) + " 项"@,
                    ..old(self)@
                }),
                None => final(self)@ == (AppState {
                    scan_progress: if messages@.len() > 0 {
                        messages@.last()@
                    } else {
                        old(self)@.scan_progress
                    },
                    ..old(self)@
                }),
            },
    {
        for k in 0..messages.len()
            invariant
                self.wf(),
                self@ == (AppState {
                    scan_progress: if k > 0 {
                        messages@[k - 1]@
                    } else {
                        old(self)@.scan_progress
                    },
                    ..old(self)@
                }),
        {
            self.scan_progress = messages[k].clone();
        }
        match scanned {
            Some(items) => {
                let count = items.len();
                self.items = items;
                self.invalidate_cache();
                self.phase = AppPhase::Results;
                let mut text = chars_of("扫描完成，共 ");
                let digits = crate::text::decimal_chars(count as u64);
                extend_chars(&mut text, &digits);
                extend_str(&mut text, " 项");
                self.scan_progress = string_of(&text);
                true
            },
            None => false,
        }
    }

    /// Begins a confirmed clean: closes the confirmation dialog and returns copies of
    /// the selected items that may be cleaned, in list order.
    fn start_clean(&mut self) -> (r: Vec<JunkItem>)
        requires
            old(self).wf(),
            old(self)@.show_confirm_dialog,
        ensures
            final(self).wf(),
            final(self)@ == (AppState {
                phase: AppPhase::Cleaning,
                show_confirm_dialog: false,
                ..old(self)@
            }),
            r@ == old(self)@.items.filter(selected_cleanable(old(self)@.is_admin)),
    {
        self.phase = AppPhase::Cleaning;
        self.show_confirm_dialog = false;
        let ghost p = selected_cleanable(self.is_admin);
        let mut out: Vec<JunkItem> = Vec::new();
        let n = self.items.len();
        for i in 0..n
            invariant
                n == self.items.len(),
                p == selected_cleanable(self.is_admin),
                out@ == self.items@.take(i as int).filter(p),
        {
            proof {
                let t = self.items@.take(i + 1);
                assert(t.drop_last() == self.items@.take(i as int));
                assert(t.last() == self.items@[i as int]);
                self.items@.take(i as int).lemma_filter_push(self.items@[i as int], p);
                assert(t == self.items@.take(i as int).push(self.items@[i as int]));
            }
            if self.items[i].selected && self.items[i].can_clean(self.is_admin) {
                out.push(self.items[i].clone());
            }
        }
        assert(self.items@.take(n as int) == self.items@);
        out
    }

    /// The "clean the selection" button: opens the confirmation dialog when something
    /// that may be cleaned is selected and no scan or clean is running; otherwise nothing
    /// changes.
    pub fn request_clean(&mut self)
        requires
            old(self).wf(),
        ensures
            final(self).wf(),
            final(self)@ == if count_of(old(self)@.items, selected_cleanable(old(self)@.is_admin)) > 0
                && old(self)@.phase != AppPhase::Cleaning && old(self)@.phase != AppPhase::Scanning {
                AppState { show_confirm_dialog: true, ..old(self)@ }
            } else {
                old(self)@
            },
    {
        if self.can_clean_selected() {
            self.show_confirm_dialog = true;
        }
    }

    /// The confirmation dialog's "delete" button: while the dialog is open, begins the
    /// clean as `start_clean` does and returns the items to clean; with the dialog closed
    /// nothing happens, so that no clean starts without confirmation.
    pub fn confirm_clean(&mut self) -> (r: Option<Vec<JunkItem>>)
        requires
            old(self).wf(),
        ensures
            final(self).wf(),
            old(self)@.show_confirm_dialog ==> {
                &&& final(self)@ == (AppState {
                    phase: AppPhase::Cleaning,
                    show_confirm_dialog: false,
                    ..old(self)@
                })
                &&& r matches Some(v) && v@ == old(self)@.items.filter(selected_cleanable(old(self)@.is_admin))
            },
            !old(self)@.show_confirm_dialog ==> final(self)@ == old(self)@ && r is None,
    {
        if self.show_confirm_dialog {
            Some(self.start_clean())
        } else {
            None
        }
    }

    /// Takes in a finished clean: drops the items that were cleaned, deselects the
    /// rest, keeps the result and opens the result dialog.
    pub fn finish_clean(&mut self, result: CleanResult)
        requires
            old(self).wf(),
        ensures
            final(self).wf(),
            final(self)@ == (AppState {
                items: items_after_clean(old(self)@.items, old(self)@.is_admin, result),
                last_clean_result: Some(result),
                phase: AppPhase::Results,
                show_result_dialog: true,
                ..old(self)@
            }),
    {
        let ghost errors = result.errors@;
        let recycle_name = chars_of("回收站");
        let backup_name = chars_of("注册表备份");
        let mut failed: Vec<Vec<Vec<char>>> = Vec::new();
        let mut recycle_failed = false;
        let mut backup_failed = false;
        for k in 0..result.errors.len()
            invariant
                errors == result.errors@,
                recycle_name@ == recycle_bin_path(),
                backup_name@ == registry_backup_path(),
                failed.len() == k,
                forall|m: int| 0 <= m < k ==> (#[trigger] failed@[m])@.map_values(|x: Vec<char>| x@) == path_key(
                    errors[m].path@,
                ),
                recycle_failed <==> exists|m: int| 0 <= m < k && errors[m].path@ == recycle_bin_path(),
                backup_failed <==> exists|m: int| 0 <= m < k && errors[m].path@ == registry_backup_path(),
        {
            let path = chars_of(result.errors[k].path.as_str());
            if crate::text::chars_eq(&path, &recycle_name) {
                recycle_failed = true;
            }
            if crate::text::chars_eq(&path, &backup_name) {
                backup_failed = true;
            }
            failed.push(path_key_of(result.errors[k].path.as_str()));
        }
        let mut had_recycle = false;
        for i in 0..self.items.len()
            invariant
                had_recycle <==> exists|m: int|
                    0 <= m < i && self.items@[m].is_recycle_bin && self.items@[m].selected,
        {
            if self.items[i].is_recycle_bin && self.items[i].selected {
                had_recycle = true;
            }
        }
        let ghost fs = failed_paths(errors);
        let mut kept: Vec<JunkItem> = Vec::new();
        let n = self.items.len();
        for i in 0..n
            invariant
                n == self.items.len(),
                fs == failed_paths(errors),
                failed.len() == errors.len(),
                forall|m: int| 0 <= m < errors.len() ==> (#[trigger] failed@[m])@.map_values(|x: Vec<char>| x@)
                    == path_key(errors[m].path@),
                kept@ == survivors(
                    self.items@.take(i as int),
                    self.is_admin,
                    had_recycle,
                    recycle_failed,
                    backup_failed,
                    fs,
                ),
        {
            let item = &self.items[i];
            let stays = if item.is_recycle_bin && had_recycle && !recycle_failed {
                false
            } else if item.selected && item.can_clean(self.is_admin) && !item.is_recycle_bin {
                if item.is_registry() && backup_failed {
                    true
                } else {
                    let key = path_key_of(item.path.as_str());
                    let found = has_same_path(&failed, &key);
                    proof {
                        let kv = key@.map_values(|x: Vec<char>| x@);
                        if found {
                            let m = choose|m: int| 0 <= m < failed.len() && failed@[m]@.map_values(|x: Vec<char>| x@) == kv;
                            assert(path_key(errors[m].path@) == kv);
                        }
                        if fs.contains(kv) {
                            let m = choose|m: int| 0 <= m < errors.len() && path_key(errors[m].path@) == kv;
                            assert(failed@[m]@.map_values(|x: Vec<char>| x@) == kv);
                        }
                    }
                    found
                }
            } else {
                true
            };
            proof {
                let t = self.items@.take(i + 1);
                assert(t.drop_last() == self.items@.take(i as int));
                assert(t.last() == self.items@[i as int]);
            }
            if stays {
                let mut copy = item.clone();
                copy.selected = false;
                kept.push(copy);
            }
        }
        assert(self.items@.take(n as int) == self.items@);
        self.items = kept;
        self.invalidate_cache();
        self.last_clean_result = Some(result);
        self.phase = AppPhase::Results;
        self.show_result_dialog = true;
    }

    pub fn phase(&self) -> (r: AppPhase)
        ensures
            r == self@.phase,
    {
        self.phase
    }

    pub fn is_admin(&self) -> (r: bool)
        ensures
            r == self@.is_admin,
    {
        self.is_admin
    }

    pub fn items(&self) -> (r: &Vec<JunkItem>)
        ensures
            r@ == self@.items,
    {
        &self.items
    }

    pub fn filter_category(&self) -> (r: Option<JunkCategory>)
        ensures
            r == self@.filter_category,
    {
        self.filter_category
    }

    /// Shows one category's items, or the overview (`None`).
    pub fn set_filter_category(&mut self, category: Option<JunkCategory>)
        requires
            old(self).wf(),
        ensures
            final(self).wf(),
            final(self)@ == (AppState { filter_category: category, ..old(self)@ }),
    {
        self.filter_category = category;
        self.cached_filter = None;
    }

    pub fn search_filter(&self) -> (r: &String)
        ensures
            r@ == self@.search_filter,
    {
        &self.search_filter
    }

    /// Changes the search text of the item list.
    pub fn set_search_filter(&mut self, text: String)
        requires
            old(self).wf(),
        ensures
            final(self).wf(),
            final(self)@ == (AppState { search_filter: text@, ..old(self)@ }),
    {
        self.search_filter = text;
        self.cached_filter = None;
    }

    pub fn scan_progress(&self) -> (r: &String)
        ensures
            r@ == self@.scan_progress,
    {
        &self.scan_progress
    }

    pub fn show_confirm_dialog(&self) -> (r: bool)
        ensures
            r == self@.show_confirm_dialog,
    {
        self.show_confirm_dialog
    }

    /// Opens or closes the confirmation dialog.
    pub fn set_show_confirm_dialog(&mut self, show: bool)
        requires
            old(self).wf(),
        ensures
            final(self).wf(),
            final(self)@ == (AppState { show_confirm_dialog: show, ..old(self)@ }),
    {
        self.show_confirm_dialog = show;
    }

    pub fn show_result_dialog(&self) -> (r: bool)
        ensures
            r == self@.show_result_dialog,
    {
        self.show_result_dialog
    }

    /// Opens or closes the result dialog.
    pub fn set_show_result_dialog(&mut self, show: bool)
        requires
            old(self).wf(),
        ensures
            final(self).wf(),
            final(self)@ == (AppState { show_result_dialog: show, ..old(self)@ }),
    {
        self.show_result_dialog = show;
    }

    pub fn last_clean_result(&self) -> (r: &Option<CleanResult>)
        ensures
            *r == self@.last_clean_result,
    {
        &self.last_clean_result
    }

    pub fn elevate_error(&self) -> (r: &Option<String>)
        ensures
            match *r {
                Some(e) => self@.elevate_error == Some(e@),
                None => self@.elevate_error is None,
            },
    {
        &self.elevate_error
    }

    /// Records why restarting as administrator failed.
    pub fn set_elevate_error(&mut self, error: String)
        requires
            old(self).wf(),
        ensures
            final(self).wf(),
            final(self)@ == (AppState { elevate_error: Some(error@), ..old(self)@ }),
    {
        self.elevate_error = Some(error);
    }

    /// Ticks or unticks one item's box; an item that may not be cleaned keeps its box
    /// as it is, as its box is disabled.
    pub fn set_item_selected(&mut self, index: usize, selected: bool)
        requires
            old(self).wf(),
        ensures
            final(self).wf(),
            final(self)@ == (AppState {
                items: if index < old(self)@.items.len() && cleanable(
                    old(self)@.items[index as int],
                    old(self)@.is_admin,
                ) {
                    old(self)@.items.update(
                        index as int,
                        JunkItem { selected, ..old(self)@.items[index as int] },
                    )
                } else {
                    old(self)@.items
                },
                ..old(self)@
            }),
    {
        if index < self.items.len() && self.items[index].can_clean(self.is_admin) {
            let mut item = self.items[index].clone();
            item.selected = selected;
            self.items.set(index, item);
            proof {
                assert(same_but_selection(self.items@, old(self).items@));
                lemma_selection_irrelevant(self.items@, old(self).items@);
            }
        }
    }
}

} // verus!