use vstd::prelude::*;
use vstd::multiset::Multiset;

use crate::models::{category_label, JunkItem};
use crate::text::{chars_of, upper_char};

verus! {

broadcast use vstd::seq_lib::group_to_multiset_ensures;

// ---------------------------------------------------------------------------
// Comparing texts and paths
// ---------------------------------------------------------------------------

/// Lexicographic comparison of two texts by code point (how `str` is ordered):
/// negative, zero or positive.
pub open spec fn text_order(a: Seq<char>, b: Seq<char>) -> int
    decreases a.len(),
{
    if a.len() == 0 {
        if b.len() == 0 {
            0
        } else {
            -1
        }
    } else if b.len() == 0 {
        1
    } else if a[0] < b[0] {
        -1
    } else if a[0] > b[0] {
        1
    } else {
        text_order(a.drop_first(), b.drop_first())
    }
}

/// A path separator on Windows.
pub open spec fn is_sep(c: char) -> bool {
    c == '\\' || c == '/'
}

/// The position of the first separator, or the length when there is none.
pub open spec fn first_sep(s: Seq<char>) -> nat
    decreases s.len(),
{
    if s.len() == 0 {
        0
    } else if is_sep(s[0]) {
        0
    } else {
        1 + first_sep(s.drop_first())
    }
}

/// The components of a path: the parts between separators, without empty parts and
/// without `.` parts.
pub open spec fn path_components(s: Seq<char>) -> Seq<Seq<char>>
    decreases s.len(),
{
    if s.len() == 0 {
        Seq::empty()
    } else {
        let k = first_sep(s);
        let seg = s.take(k as int);
        let rest = if k < s.len() {
            path_components(s.skip(k as int + 1))
        } else {
            Seq::empty()
        };
        if seg.len() == 0 || seg == seq!['.'] {
            rest
        } else {
            seq![seg] + rest
        }
    }
}

/// The file name of a path: its last component, or nothing when the path has no
/// components or ends in `..`.
pub open spec fn file_name_of(p: Seq<char>) -> Seq<char> {
    let c = path_components(p);
    if c.len() > 0 && c.last() != seq!['.', '.'] {
        c.last()
    } else {
        Seq::empty()
    }
}

/// The extension of a path: what follows the last `.` of its file name, when that dot
/// is not the name's first character; nothing otherwise.
pub open spec fn extension_of(p: Seq<char>) -> Seq<char> {
    let n = file_name_of(p);
    let i = crate::text::last_pos(n, '.');
    if i > 0 {
        n.subrange(i + 1, n.len() as int)
    } else {
        Seq::empty()
    }
}

/// Whether joining a name to `base` puts a separator between them: `base` is not
/// empty, does not end in a separator, and is not a bare drive such as `C:`.
pub open spec fn join_needs_separator(base: Seq<char>) -> bool {
    &&& base.len() > 0
    &&& !is_sep(base.last())
    &&& !(base.len() == 2 && base[1] == ':' && (('a' <= base[0] && base[0] <= 'z') || ('A' <= base[0]
        && base[0] <= 'Z')))
}

/// `base` joined with the relative path `rest`.
pub open spec fn joined(base: Seq<char>, rest: Seq<char>) -> Seq<char> {
    if join_needs_separator(base) {
        base + seq!['\\'] + rest
    } else {
        base + rest
    }
}

/// Lexicographic comparison of two component lists.
pub open spec fn components_order(a: Seq<Seq<char>>, b: Seq<Seq<char>>) -> int
    decreases a.len(),
{
    if a.len() == 0 {
        if b.len() == 0 {
            0
        } else {
            -1
        }
    } else if b.len() == 0 {
        1
    } else if text_order(a[0], b[0]) != 0 {
        text_order(a[0], b[0])
    } else {
        components_order(a.drop_first(), b.drop_first())
    }
}

/// The order of the scan results: by the category's label, then by path compared
/// component by component (see `path_key`).
pub open spec fn item_order(a: JunkItem, b: JunkItem) -> int {
    let l = text_order(category_label(a.category), category_label(b.category));
    if l != 0 {
        l
    } else {
        components_order(path_key(a.path@), path_key(b.path@))
    }
}

proof fn lemma_text_order_antisym(a: Seq<char>, b: Seq<char>)
    ensures
        text_order(a, b) == -text_order(b, a),
        -1 <= text_order(a, b) <= 1,
    decreases a.len(),
{
    if a.len() > 0 && b.len() > 0 && a[0] == b[0] {
        lemma_text_order_antisym(a.drop_first(), b.drop_first());
    }
}

proof fn lemma_components_order_antisym(a: Seq<Seq<char>>, b: Seq<Seq<char>>)
    ensures
        components_order(a, b) == -components_order(b, a),
    decreases a.len(),
{
    if a.len() > 0 && b.len() > 0 {
        lemma_text_order_antisym(a[0], b[0]);
        if text_order(a[0], b[0]) == 0 {
            lemma_components_order_antisym(a.drop_first(), b.drop_first());
        }
    }
}

/// Swapping the items negates the comparison.
pub proof fn lemma_item_order_antisym(a: JunkItem, b: JunkItem)
    ensures
        item_order(a, b) == -item_order(b, a),
{
    lemma_text_order_antisym(category_label(a.category), category_label(b.category));
    lemma_components_order_antisym(path_key(a.path@), path_key(b.path@));
}

/// Compares two texts by code point.
pub fn compare_chars(a: &Vec<char>, b: &Vec<char>) -> (r: i8)
    ensures
        r == text_order(a@, b@),
{
    let mut i: usize = 0;
    assert(a@.skip(0) == a@);
    assert(b@.skip(0) == b@);
    while i < a.len() && i < b.len() && a[i] == b[i]
        invariant
            i <= a.len(),
            i <= b.len(),
            text_order(a@, b@) == text_order(a@.skip(i as int), b@.skip(i as int)),
        decreases a.len() - i,
    {
        proof {
            let x = a@.skip(i as int);
            let y = b@.skip(i as int);
            assert(x.drop_first() == a@.skip(i + 1));
            assert(y.drop_first() == b@.skip(i + 1));
        }
        i = i + 1;
    }
    if i == a.len() {
        if i == b.len() {
            0
        } else {
            -1
        }
    } else if i == b.len() {
        1
    } else if a[i] < b[i] {
        -1
    } else {
        1
    }
}

proof fn lemma_first_sep_at(s: Seq<char>, k: int)
    requires
        0 <= k <= s.len(),
        forall|m: int| 0 <= m < k ==> !is_sep(s[m]),
        k == s.len() || is_sep(s[k]),
    ensures
        first_sep(s) == k,
    decreases k,
{
    if k > 0 {
        lemma_first_sep_at(s.drop_first(), k - 1);
    }
}

/// The components of a path.
pub fn components_of(s: &Vec<char>) -> (r: Vec<Vec<char>>)
    ensures
        r@.map_values(|x: Vec<char>| x@) == path_components(s@),
{
    let n = s.len();
    let mut out: Vec<Vec<char>> = Vec::new();
    let mut start: usize = 0;
    assert(s@.skip(0) == s@);
    assert(out@.map_values(|x: Vec<char>| x@) =~= Seq::<Seq<char>>::empty());
    while start < n
        invariant
            start <= n == s.len(),
            path_components(s@) == out@.map_values(|x: Vec<char>| x@) + path_components(s@.skip(start as int)),
        decreases n - start,
    {
        let mut j = start;
        while j < n && !(s[j] == '\\' || s[j] == '/')
            invariant
                start <= j <= n == s.len(),
                forall|m: int| start <= m < j ==> !is_sep(s@[m]),
            decreases n - j,
        {
            j = j + 1;
        }
        let ghost t = s@.skip(start as int);
        proof {
            lemma_first_sep_at(t, j - start);
        }
        let seg = crate::text::slice_chars(s, start, j);
        assert(seg@ == t.take(j - start));
        let dot = seg.len() == 1 && seg[0] == '.';
        proof {
            if seg@.len() == 1 {
                if seg@[0] == '.' {
                    assert(seg@ =~= seq!['.']);
                } else {
                    assert(seq!['.'][0] == '.');
                }
                assert(dot == (seg@ == seq!['.']));
            } else {
                assert(seg@ != seq!['.']);
            }
        }
        if seg.len() != 0 && !dot {
            let ghost before = out@.map_values(|x: Vec<char>| x@);
            out.push(seg);
            assert(out@.map_values(|x: Vec<char>| x@) == before.push(seg@));
            assert(before.push(seg@) + path_components(if j < n { s@.skip(j + 1) } else { Seq::empty() })
                == before + (seq![seg@] + path_components(if j < n { s@.skip(j + 1) } else { Seq::empty() })));
        }
        if j < n {
            assert(t.skip(j - start + 1) == s@.skip(j + 1));
            start = j + 1;
        } else {
            assert(s@.skip(n as int) == Seq::<char>::empty());
            start = n;
        }
    }
    assert(s@.skip(n as int) == Seq::<char>::empty());
    out
}

/// The file name of a path.
pub fn file_name(path: &str) -> (r: Vec<char>)
    ensures
        r@ == file_name_of(path@),
{
    let comps = components_of(&chars_of(path));
    let n = comps.len();
    proof {
        assert(comps@.map_values(|x: Vec<char>| x@).len() == n);
    }
    if n == 0 {
        return Vec::new();
    }
    let last = &comps[n - 1];
    let ghost lv = path_components(path@).last();
    assert(last@ == lv);
    let dots = last.len() == 2 && last[0] == '.' && last[1] == '.';
    proof {
        if last@.len() == 2 {
            if last@[0] == '.' && last@[1] == '.' {
                assert(last@ =~= seq!['.', '.']);
            } else {
                assert(seq!['.', '.'][0] == '.' && seq!['.', '.'][1] == '.');
            }
        }
        assert(dots == (lv == seq!['.', '.']));
    }
    if dots {
        Vec::new()
    } else {
        crate::text::slice_chars(last, 0, last.len())
    }
}

/// The extension of a path.
pub fn extension(path: &str) -> (r: Vec<char>)
    ensures
        r@ == extension_of(path@),
{
    let name = file_name(path);
    match crate::text::rfind_char(&name, '.') {
        Some(i) => {
            proof {
                crate::text::lemma_last_pos(name@, '.', i as int);
            }
            if i > 0 {
                crate::text::slice_chars(&name, i + 1, name.len())
            } else {
                Vec::new()
            }
        },
        None => {
            assert(crate::text::last_pos(name@, '.') == -1);
            Vec::new()
        },
    }
}

/// `base` joined with the relative path `rest`, as a path is extended by a name.
pub fn join_path(base: &str, rest: &str) -> (r: String)
    ensures
        r@ == joined(base@, rest@),
{
    let mut v = chars_of(base);
    let n = v.len();
    let needs = n > 0 && !(v[n - 1] == '\\' || v[n - 1] == '/') && !(n == 2 && v[1] == ':' && (('a' <= v[0]
        && v[0] <= 'z') || ('A' <= v[0] && v[0] <= 'Z')));
    if needs {
        v.push('\\');
    }
    crate::text::extend_str(&mut v, rest);
    crate::text::string_of(&v)
}

/// Compares two component lists.
pub fn compare_components(a: &Vec<Vec<char>>, b: &Vec<Vec<char>>) -> (r: i8)
    ensures
        r == components_order(a@.map_values(|x: Vec<char>| x@), b@.map_values(|x: Vec<char>| x@)),
{
    let ghost av = a@.map_values(|x: Vec<char>| x@);
    let ghost bv = b@.map_values(|x: Vec<char>| x@);
    let mut i: usize = 0;
    assert(av.skip(0) == av);
    assert(bv.skip(0) == bv);
    while i < a.len() && i < b.len()
        invariant
            i <= a.len(),
            i <= b.len(),
            av == a@.map_values(|x: Vec<char>| x@),
            bv == b@.map_values(|x: Vec<char>| x@),
            components_order(av, bv) == components_order(av.skip(i as int), bv.skip(i as int)),
        decreases a.len() - i,
    {
        let c = compare_chars(&a[i], &b[i]);
        proof {
            let x = av.skip(i as int);
            let y = bv.skip(i as int);
            assert(x[0] == a@[i as int]@);
            assert(y[0] == b@[i as int]@);
            assert(x.drop_first() == av.skip(i + 1));
            assert(y.drop_first() == bv.skip(i + 1));
        }
        if c != 0 {
            return c;
        }
        i = i + 1;
    }
    if i == a.len() {
        if i == b.len() {
            0
        } else {
            -1
        }
    } else {
        1
    }
}

/// Compares two items in the order of the scan results.
pub fn compare_items(a: &JunkItem, b: &JunkItem) -> (r: i8)
    ensures
        r == item_order(*a, *b),
{
    let la = chars_of(a.category.label());
    let lb = chars_of(b.category.label());
    let l = compare_chars(&la, &lb);
    if l != 0 {
        return l;
    }
    let ca = path_key_of(a.path.as_str());
    let cb = path_key_of(b.path.as_str());
    compare_components(&ca, &cb)
}

proof fn lemma_text_order_zero(a: Seq<char>, b: Seq<char>)
    ensures
        text_order(a, b) == 0 <==> a == b,
    decreases a.len(),
{
    if a.len() == 0 {
        if b.len() == 0 {
            assert(a =~= b);
        }
    } else if b.len() > 0 && a[0] == b[0] {
        lemma_text_order_zero(a.drop_first(), b.drop_first());
        if a.drop_first() == b.drop_first() {
            assert forall|k: int| 0 <= k < a.len() implies a[k] == b[k] by {
                if k > 0 {
                    assert(a[k] == a.drop_first()[k - 1]);
                    assert(b[k] == b.drop_first()[k - 1]);
                }
            }
            assert(a =~= b);
        }
        if a == b {
            assert(a.drop_first() =~= b.drop_first());
        }
    }
}

proof fn lemma_components_order_zero(a: Seq<Seq<char>>, b: Seq<Seq<char>>)
    ensures
        components_order(a, b) == 0 <==> a == b,
    decreases a.len(),
{
    if a.len() == 0 {
        if b.len() == 0 {
            assert(a =~= b);
        }
    } else if b.len() > 0 {
        lemma_text_order_zero(a[0], b[0]);
        if a[0] == b[0] {
            lemma_components_order_zero(a.drop_first(), b.drop_first());
            if a.drop_first() == b.drop_first() {
                assert forall|k: int| 0 <= k < a.len() implies a[k] == b[k] by {
                    if k > 0 {
                        assert(a[k] == a.drop_first()[k - 1]);
                        assert(b[k] == b.drop_first()[k - 1]);
                    }
                }
                assert(a =~= b);
            }
            if a == b {
                assert(a.drop_first() =~= b.drop_first());
            }
        }
    }
}

/// Whether a path starts with a drive, such as `C:`.
pub open spec fn starts_with_drive(s: Seq<char>) -> bool {
    s.len() >= 2 && s[1] == ':' && (('a' <= s[0] && s[0] <= 'z') || ('A' <= s[0] && s[0] <= 'Z'))
}

/// The components of a path, as the key by which paths are ordered and told apart:
/// the drive letter of a path that starts with a drive is upper-cased, since `c:` and
/// `C:` name the same drive.
#[verifier::opaque]
pub open spec fn path_key(s: Seq<char>) -> Seq<Seq<char>> {
    let c = path_components(s);
    if starts_with_drive(s) && c.len() > 0 && c[0].len() > 0 {
        c.update(0, c[0].update(0, upper_char(c[0][0])))
    } else {
        c
    }
}

/// The key of a path (see `path_key`).
pub fn path_key_of(path: &str) -> (r: Vec<Vec<char>>)
    ensures
        r@.map_values(|x: Vec<char>| x@) == path_key(path@),
{
    proof {
        reveal(path_key);
    }
    let s = chars_of(path);
    let mut c = components_of(&s);
    let ghost cv = c@.map_values(|x: Vec<char>| x@);
    if s.len() >= 2 && s[1] == ':' && (('a' <= s[0] && s[0] <= 'z') || ('A' <= s[0] && s[0] <= 'Z'))
        && c.len() > 0 && c[0].len() > 0 {
        let n = c[0].len();
        let mut first = crate::text::slice_chars(&c[0], 0, n);
        assert(first@ == cv[0]);
        let u = crate::text::upper_ascii_char(first[0]);
        first.set(0, u);
        c.set(0, first);
        assert(c@.map_values(|x: Vec<char>| x@) =~= cv.update(0, cv[0].update(0, upper_char(cv[0][0]))));
    }
    c
}

/// `r` is `dirs` ordered as paths, each path once: the paths of `r` rise strictly and
/// no two of them are the same path; `from` gives, for each of them, the first place in
/// `dirs` where that path occurs (it is this very text); `rep` gives, for each entry of
/// `dirs`, the entry of `r` that is the same path.
pub open spec fn unique_paths_with(r: Seq<Seq<char>>, dirs: Seq<Seq<char>>, from: Seq<int>, rep: Seq<int>) -> bool {
    &&& forall|k: int|
        0 <= k < r.len() - 1 ==> components_order(path_key(#[trigger] r[k]), path_key(r[k + 1])) < 0
    &&& forall|a: int, b: int|
        0 <= a < b < r.len() ==> path_key(#[trigger] r[a]) != path_key(#[trigger] r[b])
    &&& from.len() == r.len()
    &&& forall|k: int|
        0 <= k < r.len() ==> {
            &&& 0 <= #[trigger] from[k] < dirs.len()
            &&& dirs[from[k]] == r[k]
            &&& forall|j: int| 0 <= j < from[k] ==> path_key(#[trigger] dirs[j]) != path_key(r[k])
        }
    &&& rep.len() == dirs.len()
    &&& forall|i: int|
        0 <= i < dirs.len() ==> 0 <= #[trigger] rep[i] < r.len() && path_key(r[rep[i]]) == path_key(dirs[i])
}

/// `r` is `dirs` ordered as paths, each path once (see `unique_paths_with`).
pub open spec fn ordered_unique_paths(r: Seq<Seq<char>>, dirs: Seq<Seq<char>>) -> bool {
    exists|from: Seq<int>, rep: Seq<int>| unique_paths_with(r, dirs, from, rep)
}

#[verifier::spinoff_prover]
proof fn lemma_unique_skip(r: Seq<Seq<char>>, dirs: Seq<Seq<char>>, d: Seq<char>, k: int)
    requires
        ordered_unique_paths(r, dirs),
        0 <= k < r.len(),
        path_key(r[k]) == path_key(d),
    ensures
        ordered_unique_paths(r, dirs.push(d)),
{
    let (from, rep) = choose|from: Seq<int>, rep: Seq<int>| unique_paths_with(r, dirs, from, rep);
    let d2 = dirs.push(d);
    let rep2 = rep.push(k);
    assert forall|k2: int| 0 <= k2 < r.len() implies {
        &&& 0 <= #[trigger] from[k2] < d2.len()
        &&& d2[from[k2]] == r[k2]
        &&& forall|j: int| 0 <= j < from[k2] ==> path_key(#[trigger] d2[j]) != path_key(r[k2])
    } by {
        assert(d2[from[k2]] == dirs[from[k2]]);
        assert forall|j: int| 0 <= j < from[k2] implies path_key(#[trigger] d2[j]) != path_key(r[k2]) by {
            assert(d2[j] == dirs[j]);
        }
    }
    assert forall|i: int| 0 <= i < d2.len() implies 0 <= #[trigger] rep2[i] < r.len() && path_key(r[rep2[i]])
        == path_key(d2[i]) by {
        if i < dirs.len() {
            assert(rep2[i] == rep[i] && d2[i] == dirs[i]);
        }
    }
    assert(unique_paths_with(r, d2, from, rep2));
}

#[verifier::spinoff_prover]
#[verifier::rlimit(40)]
proof fn lemma_unique_insert(r: Seq<Seq<char>>, dirs: Seq<Seq<char>>, d: Seq<char>, pos: int)
    requires
        ordered_unique_paths(r, dirs),
        0 <= pos <= r.len(),
        forall|k: int| 0 <= k < r.len() ==> path_key(#[trigger] r[k]) != path_key(d),
        forall|k: int| 0 <= k < pos ==> components_order(path_key(#[trigger] r[k]), path_key(d)) < 0,
        pos < r.len() ==> components_order(path_key(d), path_key(r[pos])) < 0,
    ensures
        ordered_unique_paths(r.insert(pos, d), dirs.push(d)),
{
    let (from, rep) = choose|from: Seq<int>, rep: Seq<int>| unique_paths_with(r, dirs, from, rep);
    let nv = r.insert(pos, d);
    let d2 = dirs.push(d);
    let n = dirs.len() as int;
    let from2 = from.insert(pos, n);
    let rep2 = Seq::new(rep.len(), |i: int| if rep[i] < pos { rep[i] } else { rep[i] + 1 }).push(pos);
    assert forall|k: int| 0 <= k < nv.len() - 1 implies components_order(
        path_key(#[trigger] nv[k]),
        path_key(nv[k + 1]),
    ) < 0 by {
        if k < pos - 1 {
            assert(nv[k] == r[k] && nv[k + 1] == r[k + 1]);
        } else if k == pos - 1 {
            assert(nv[k] == r[k] && nv[k + 1] == d);
        } else if k == pos {
            assert(nv[k] == d && nv[k + 1] == r[k]);
        } else {
            assert(nv[k] == r[k - 1] && nv[k + 1] == r[k]);
        }
    }
    assert forall|a: int, b: int| 0 <= a < b < nv.len() implies path_key(#[trigger] nv[a])
        != path_key(#[trigger] nv[b]) by {
        let a0 = if a < pos { a } else { a - 1 };
        let b0 = if b < pos { b } else { b - 1 };
        if a != pos && b != pos {
            assert(nv[a] == r[a0] && nv[b] == r[b0]);
        } else if a == pos {
            assert(nv[b] == r[b0]);
        } else {
            assert(nv[a] == r[a0]);
        }
    }
    assert forall|k: int| 0 <= k < nv.len() implies {
        &&& 0 <= #[trigger] from2[k] < d2.len()
        &&& d2[from2[k]] == nv[k]
        &&& forall|j: int| 0 <= j < from2[k] ==> path_key(#[trigger] d2[j]) != path_key(nv[k])
    } by {
        if k == pos {
            assert(from2[k] == n);
            assert forall|j: int| 0 <= j < n implies path_key(#[trigger] d2[j]) != path_key(nv[k]) by {
                assert(d2[j] == dirs[j]);
                assert(0 <= rep[j] < r.len() && path_key(r[rep[j]]) == path_key(dirs[j]));
            }
        } else {
            let k0 = if k < pos { k } else { k - 1 };
            assert(from2[k] == from[k0] && nv[k] == r[k0]);
            assert(d2[from[k0]] == dirs[from[k0]]);
            assert forall|j: int| 0 <= j < from2[k] implies path_key(#[trigger] d2[j]) != path_key(nv[k]) by {
                assert(d2[j] == dirs[j]);
            }
        }
    }
    assert forall|i: int| 0 <= i < d2.len() implies 0 <= #[trigger] rep2[i] < nv.len() && path_key(nv[rep2[i]])
        == path_key(d2[i]) by {
        if i < n {
            assert(d2[i] == dirs[i]);
            assert(0 <= rep[i] < r.len());
            if rep[i] < pos {
                assert(nv[rep[i]] == r[rep[i]]);
            } else {
                assert(nv[rep[i] + 1] == r[rep[i]]);
            }
        } else {
            assert(rep2[i] == pos);
        }
    }
    assert(unique_paths_with(nv, d2, from2, rep2));
}

/// The key of each path of a list, kept beside it.
spec fn components_agree(comps: Seq<Vec<Vec<char>>>, paths: Seq<String>) -> bool {
    &&& comps.len() == paths.len()
    &&& forall|k: int| 0 <= k < comps.len() ==> (#[trigger] comps[k])@.map_values(|x: Vec<char>| x@)
        == path_key(paths[k]@)
}

pub(crate) fn has_same_path(comps: &Vec<Vec<Vec<char>>>, c: &Vec<Vec<char>>) -> (r: bool)
    ensures
        r == exists|k: int| 0 <= k < comps.len() && comps@[k]@.map_values(|x: Vec<char>| x@)
            == c@.map_values(|x: Vec<char>| x@),
{
    for j in 0..comps.len()
        invariant
            forall|k: int| 0 <= k < j ==> comps@[k]@.map_values(|x: Vec<char>| x@) != c@.map_values(
                |x: Vec<char>| x@,
            ),
    {
        let o = compare_components(&comps[j], c);
        proof {
            lemma_components_order_zero(comps@[j as int]@.map_values(|x: Vec<char>| x@), c@.map_values(|x: Vec<char>| x@));
        }
        if o == 0 {
            return true;
        }
    }
    false
}

fn insert_position(comps: &Vec<Vec<Vec<char>>>, c: &Vec<Vec<char>>) -> (pos: usize)
    ensures
        pos <= comps.len(),
        forall|k: int| 0 <= k < pos ==> components_order(
            comps@[k]@.map_values(|x: Vec<char>| x@),
            c@.map_values(|x: Vec<char>| x@),
        ) < 0,
        pos < comps.len() ==> components_order(
            comps@[pos as int]@.map_values(|x: Vec<char>| x@),
            c@.map_values(|x: Vec<char>| x@),
        ) >= 0,
{
    let mut pos: usize = 0;
    while pos < comps.len() && compare_components(&comps[pos], c) < 0
        invariant
            pos <= comps.len(),
            forall|k: int| 0 <= k < pos ==> components_order(
                comps@[k]@.map_values(|x: Vec<char>| x@),
                c@.map_values(|x: Vec<char>| x@),
            ) < 0,
        decreases comps.len() - pos,
    {
        pos = pos + 1;
    }
    pos
}

/// The paths of `dirs` ordered as paths, each path once (the first of those that are
/// the same path kept).
pub fn ordered_unique(dirs: &Vec<String>) -> (r: Vec<String>)
    ensures
        ordered_unique_paths(r@.map_values(|s: String| s@), dirs@.map_values(|s: String| s@)),
{
    let ghost dv = dirs@.map_values(|s: String| s@);
    let mut out: Vec<String> = Vec::new();
    let mut comps: Vec<Vec<Vec<char>>> = Vec::new();
    proof {
        let e = out@.map_values(|s: String| s@);
        assert(e =~= Seq::<Seq<char>>::empty());
        assert(unique_paths_with(e, dv.take(0), Seq::empty(), Seq::empty()));
    }
    for i in 0..dirs.len()
        invariant
            dv == dirs@.map_values(|s: String| s@),
            components_agree(comps@, out@),
            ordered_unique_paths(out@.map_values(|s: String| s@), dv.take(i as int)),
    {
        let ghost ov = out@.map_values(|s: String| s@);
        let d = &dirs[i];
        let c = path_key_of(d.as_str());
        let ghost cv = c@.map_values(|x: Vec<char>| x@);
        assert(cv == path_key(dv[i as int]));
        assert(dv.take(i + 1) == dv.take(i as int).push(dv[i as int]));
        if has_same_path(&comps, &c) {
            proof {
                let k = choose|k: int| 0 <= k < comps.len() && comps@[k]@.map_values(|x: Vec<char>| x@) == cv;
                assert(path_key(ov[k]) == path_key(dv[i as int]));
                lemma_unique_skip(ov, dv.take(i as int), dv[i as int], k);
            }
        } else {
            let pos = insert_position(&comps, &c);
            proof {
                assert forall|k: int| 0 <= k < ov.len() implies path_key(#[trigger] ov[k]) != path_key(dv[i as int]) by {
                    assert(comps@[k]@.map_values(|x: Vec<char>| x@) == path_key(ov[k]));
                }
                assert forall|k: int| 0 <= k < pos implies components_order(path_key(#[trigger] ov[k]), path_key(dv[i as int])) < 0 by {
                    assert(comps@[k]@.map_values(|x: Vec<char>| x@) == path_key(ov[k]));
                }
                if pos < out.len() {
                    let pk = path_key(ov[pos as int]);
                    assert(comps@[pos as int]@.map_values(|x: Vec<char>| x@) == pk);
                    lemma_components_order_zero(pk, cv);
                    lemma_components_order_antisym(pk, cv);
                }
                lemma_unique_insert(ov, dv.take(i as int), dv[i as int], pos as int);
            }
            let ghost old_out = out@;
            let ghost old_comps = comps@;
            out.insert(pos, d.clone());
            comps.insert(pos, c);
            proof {
                assert(out@.map_values(|s: String| s@) =~= ov.insert(pos as int, dv[i as int]));
                assert forall|k: int| 0 <= k < comps@.len() implies (#[trigger] comps@[k])@.map_values(
                    |x: Vec<char>| x@,
                ) == path_key(out@[k]@) by {
                    if k < pos {
                        assert(comps@[k] == old_comps[k] && out@[k] == old_out[k]);
                    } else if k > pos {
                        assert(comps@[k] == old_comps[k - 1] && out@[k] == old_out[k - 1]);
                    }
                }
            }
        }
    }
    proof {
        assert(dv.take(dirs.len() as int) == dv);
    }
    out
}

// ---------------------------------------------------------------------------
// Stable merge sort of positions
// ---------------------------------------------------------------------------

/// Position `i` comes before position `j`: its item is smaller, or the items are
/// equal in the order and `i` is the earlier position.
pub open spec fn before(items: Seq<JunkItem>, i: usize, j: usize) -> bool {
    let c = item_order(items[i as int], items[j as int]);
    c < 0 || (c == 0 && i < j)
}

/// Every position in the list comes before the next one.
pub open spec fn sorted_positions(items: Seq<JunkItem>, p: Seq<usize>) -> bool {
    forall|k: int| 0 <= k < p.len() - 1 ==> before(items, #[trigger] p[k], p[k + 1])
}

/// The positions `lo` to `hi`, each once.
pub open spec fn span(lo: usize, hi: usize) -> Seq<usize> {
    Seq::new((hi - lo) as nat, |k: int| (lo + k) as usize)
}

proof fn lemma_span_split(lo: usize, mid: usize, hi: usize)
    requires
        lo <= mid <= hi,
    ensures
        span(lo, hi) == span(lo, mid) + span(mid, hi),
{
    assert(span(lo, hi) =~= span(lo, mid) + span(mid, hi));
}

fn merge(items: &Vec<JunkItem>, left: Vec<usize>, right: Vec<usize>, lo: usize, mid: usize, hi: usize) -> (r: Vec<usize>)
    requires
        lo <= mid <= hi <= items.len(),
        forall|k: int| 0 <= k < left.len() ==> lo <= #[trigger] left@[k] < mid,
        forall|k: int| 0 <= k < right.len() ==> mid <= #[trigger] right@[k] < hi,
        sorted_positions(items@, left@),
        sorted_positions(items@, right@),
    ensures
        r@.to_multiset() == left@.to_multiset().add(right@.to_multiset()),
        forall|k: int| 0 <= k < r.len() ==> lo <= #[trigger] r@[k] < hi,
        sorted_positions(items@, r@),
{
    let mut out: Vec<usize> = Vec::new();
    let mut i: usize = 0;
    let mut j: usize = 0;
    assert(left@.skip(0) == left@);
    assert(right@.skip(0) == right@);
    while i < left.len() || j < right.len()
        invariant
            lo <= mid <= hi <= items.len(),
            i <= left.len(),
            j <= right.len(),
            forall|k: int| 0 <= k < left.len() ==> lo <= #[trigger] left@[k] < mid,
            forall|k: int| 0 <= k < right.len() ==> mid <= #[trigger] right@[k] < hi,
            sorted_positions(items@, left@),
            sorted_positions(items@, right@),
            out@.to_multiset().add(left@.skip(i as int).to_multiset()).add(right@.skip(j as int).to_multiset())
                == left@.to_multiset().add(right@.to_multiset()),
            forall|k: int| 0 <= k < out.len() ==> lo <= #[trigger] out@[k] < hi,
            sorted_positions(items@, out@),
            out.len() > 0 && i < left.len() ==> before(items@, out@.last(), left@[i as int]),
            out.len() > 0 && j < right.len() ==> before(items@, out@.last(), right@[j as int]),
        decreases left.len() - i + right.len() - j,
    {
        let take_left = if i < left.len() && j < right.len() {
            let c = compare_items(&items[left[i]], &items[right[j]]);
            c <= 0
        } else {
            i < left.len()
        };
        proof {
            if i < left.len() && j < right.len() {
                lemma_item_order_antisym(items@[left@[i as int] as int], items@[right@[j as int] as int]);
            }
        }
        let ghost old_out = out@;
        if take_left {
            let x = left[i];
            proof {
                let s = left@.skip(i as int);
                assert(s == seq![x] + left@.skip(i + 1));
                vstd::seq_lib::lemma_multiset_commutative(seq![x], left@.skip(i + 1));
                assert(seq![x].to_multiset() =~= Multiset::<usize>::empty().insert(x)) by {
                    assert(seq![x] == Seq::<usize>::empty().push(x));
                }
                if i + 1 < left.len() {
                    assert(before(items@, left@[i as int], left@[i + 1]));
                }
            }
            out.push(x);
            i = i + 1;
        } else {
            let y = right[j];
            proof {
                let s = right@.skip(j as int);
                assert(s == seq![y] + right@.skip(j + 1));
                vstd::seq_lib::lemma_multiset_commutative(seq![y], right@.skip(j + 1));
                assert(seq![y].to_multiset() =~= Multiset::<usize>::empty().insert(y)) by {
                    assert(seq![y] == Seq::<usize>::empty().push(y));
                }
                if j + 1 < right.len() {
                    assert(before(items@, right@[j as int], right@[j + 1]));
                }
            }
            out.push(y);
            j = j + 1;
        }
        proof {
            assert forall|k: int| 0 <= k < out@.len() - 1 implies before(items@, #[trigger] out@[k], out@[k + 1]) by {
                if k < out@.len() - 2 {
                    assert(out@[k] == old_out[k]);
                    assert(out@[k + 1] == old_out[k + 1]);
                }
            }
        }
    }
    assert(left@.skip(left.len() as int) =~= Seq::<usize>::empty());
    assert(right@.skip(right.len() as int) =~= Seq::<usize>::empty());
    out
}

/// Sorts the positions `lo` to `hi` of `items`, stably.
fn sort_span(items: &Vec<JunkItem>, lo: usize, hi: usize) -> (r: Vec<usize>)
    requires
        lo <= hi <= items.len(),
    ensures
        r@.to_multiset() == span(lo, hi).to_multiset(),
        forall|k: int| 0 <= k < r.len() ==> lo <= #[trigger] r@[k] < hi,
        sorted_positions(items@, r@),
    decreases hi - lo,
{
    if hi - lo <= 1 {
        let mut v: Vec<usize> = Vec::new();
        if hi - lo == 1 {
            v.push(lo);
        }
        assert(v@ =~= span(lo, hi));
        return v;
    }
    let mid = lo + (hi - lo) / 2;
    let left = sort_span(items, lo, mid);
    let right = sort_span(items, mid, hi);
    let r = merge(items, left, right, lo, mid, hi);
    proof {
        lemma_span_split(lo, mid, hi);
        vstd::seq_lib::lemma_multiset_commutative(span(lo, mid), span(mid, hi));
    }
    r
}

/// `r` holds the items of `items` ordered by `item_order`, items that are equal in
/// this order keeping their relative order: `p` lists, for each place of `r`, the
/// position in `items` that it was taken from.
pub open spec fn stable_sort_of(r: Seq<JunkItem>, items: Seq<JunkItem>) -> bool {
    exists|p: Seq<usize>| {
        &&& p.to_multiset() == span(0, items.len() as usize).to_multiset()
        &&& p.len() == items.len()
        &&& sorted_positions(items, p)
        &&& forall|k: int| 0 <= k < p.len() ==> #[trigger] r[k] == items[p[k] as int]
        &&& r.len() == p.len()
    }
}

/// The items in the order of the scan results: by category label, then by path, items
/// that are equal in this order keeping their order.
pub fn sort_items(items: Vec<JunkItem>) -> (r: Vec<JunkItem>)
    ensures
        stable_sort_of(r@, items@),
{
    let order = sort_span(&items, 0, items.len());
    let mut out: Vec<JunkItem> = Vec::new();
    for k in 0..order.len()
        invariant
            forall|m: int| 0 <= m < order.len() ==> 0 <= #[trigger] order@[m] < items.len(),
            out.len() == k,
            forall|m: int| 0 <= m < k ==> #[trigger] out@[m] == items@[order@[m] as int],
    {
        out.push(items[order[k]].clone());
    }
    proof {
        assert(order@.to_multiset().len() == span(0, items@.len() as usize).len());
        assert(order@.len() == items@.len());
        let p = order@;
        assert(forall|k: int| 0 <= k < p.len() ==> #[trigger] out@[k] == items@[p[k] as int]);
    }
    out
}

} // verus!
