//! Filtering the catalogs to the applications present on this machine, and
//! the report built from them.
use vstd::prelude::*;
use crate::catalog::{
    linux_catalog, linux_catalog_spec, macos_catalog, macos_catalog_spec, windows_catalog,
    windows_catalog_spec,
};
use crate::model::{software_views, CADSoftware, AppView};
use crate::report::extension_union;
use crate::text::{has_infix, occurs_at, replace_all, replace_single_occurrence, replace_text};

verus! {

pub open spec fn mark_present(v: AppView) -> AppView {
    AppView { detected: true, ..v }
}

/// The entries of `cat` whose probe in `found` succeeded, marked as detected,
/// in catalog order.
pub open spec fn present_only(cat: Seq<AppView>, found: Seq<bool>) -> Seq<AppView>
    decreases cat.len(),
{
    if cat.len() == 0 {
        seq![]
    } else {
        let rest = present_only(cat.drop_last(), found.drop_last());
        if found.last() {
            rest.push(mark_present(cat.last()))
        } else {
            rest
        }
    }
}

pub open spec fn username_placeholder() -> Seq<char> {
    "%USERNAME%"@
}

/// `v` with the user placeholder in its path replaced by `user`.
pub open spec fn for_user(v: AppView, user: Seq<char>) -> AppView {
    AppView { exec_path: replace_all(v.exec_path, username_placeholder(), user), ..v }
}

pub open spec fn catalog_for_user(cat: Seq<AppView>, user: Seq<char>) -> Seq<AppView> {
    cat.map_values(|v: AppView| for_user(v, user))
}

proof fn lemma_views_drop_first(
    before: Seq<CADSoftware>,
    after: Seq<CADSoftware>,
    whole: Seq<AppView>,
    i: int,
    n: int,
)
    requires
        0 <= i < n <= whole.len(),
        software_views(before) == whole.subrange(i, n),
        after == before.remove(0),
    ensures
        before[0]@ == whole[i],
        software_views(after) == whole.subrange(i + 1, n),
{
    assert(software_views(before).len() == before.len());
    assert(software_views(before)[0] == before[0]@);
    assert forall|k: int| 0 <= k < after.len() implies software_views(after)[k] == whole.subrange(
        i + 1,
        n,
    )[k] by {
        assert(after[k] == before[k + 1]);
        assert(software_views(before)[k + 1] == before[k + 1]@);
    }
    assert(software_views(after) =~= whole.subrange(i + 1, n));
}

/// `template` with every `%USERNAME%` replaced by `user`; an unknown user is
/// passed as the empty string.
pub fn expand_username(template: &str, user: &str) -> (r: String)
    ensures
        r@ == replace_all(template@, username_placeholder(), user@),
{
    proof {
        reveal_strlit("%USERNAME%");
    }
    replace_text(template, "%USERNAME%", user)
}

/// The entries of `entries` whose flag in `present` is set, marked as
/// detected, in their original order.
pub fn select_present(entries: Vec<CADSoftware>, present: &Vec<bool>) -> (r: Vec<CADSoftware>)
    requires
        present@.len() == entries@.len(),
    ensures
        software_views(r@) == present_only(software_views(entries@), present@),
{
    let ghost cat = software_views(entries@);
    let ghost n = entries@.len();
    let mut rest = entries;
    let mut out: Vec<CADSoftware> = Vec::new();
    let mut i: usize = 0;
    proof {
        assert(cat.subrange(0, n as int) =~= cat);
        assert(cat.subrange(0, 0) =~= Seq::<AppView>::empty());
        assert(present@.subrange(0, 0) =~= Seq::<bool>::empty());
    }
    while i < present.len()
        invariant
            n == present@.len(),
            i <= n,
            software_views(rest@) == cat.subrange(i as int, n as int),
            software_views(out@) == present_only(
                cat.subrange(0, i as int),
                present@.subrange(0, i as int),
            ),
            cat.len() == n,
        decreases n - i,
    {
        assert(software_views(rest@).len() == rest@.len());
        let ghost old_rest = rest@;
        let mut e = rest.remove(0);
        proof {
            lemma_views_drop_first(old_rest, rest@, cat, i as int, n as int);
            let c1 = cat.subrange(0, i + 1);
            let f1 = present@.subrange(0, i + 1);
            assert(c1.drop_last() =~= cat.subrange(0, i as int));
            assert(f1.drop_last() =~= present@.subrange(0, i as int));
        }
        if present[i] {
            e.detected = true;
            let ghost before = out@;
            out.push(e);
            proof {
                assert(software_views(out@) =~= software_views(before).push(mark_present(cat[i as int])));
            }
        }
        i = i + 1;
    }
    proof {
        assert(cat.subrange(0, n as int) =~= cat);
        assert(present@.subrange(0, n as int) =~= present@);
    }
    out
}

/// Relies on `std::path::Path::exists`: whether a file or directory is at
/// `path` right now. The answer depends on the disk, so nothing is stated.
#[verifier::external_body]
pub(crate) fn path_exists(path: &str) -> bool {
    std::path::Path::new(path).exists()
}

/// One existence probe per entry, on its path as it stands.
fn probe_paths(entries: &Vec<CADSoftware>) -> (r: Vec<bool>)
    ensures
        r@.len() == entries@.len(),
{
    let mut r: Vec<bool> = Vec::new();
    let mut i: usize = 0;
    while i < entries.len()
        invariant
            i <= entries@.len(),
            r@.len() == i,
        decreases entries@.len() - i,
    {
        r.push(path_exists(entries[i].exec_path.as_str()));
        i = i + 1;
    }
    r
}

/// The Windows catalog with the user placeholder expanded to `user`.
pub fn windows_catalog_for(user: &str) -> (r: Vec<CADSoftware>)
    ensures
        software_views(r@) == catalog_for_user(windows_catalog_spec(), user@),
{
    let mut rest = windows_catalog();
    let ghost base = software_views(rest@);
    let n = rest.len();
    let mut out: Vec<CADSoftware> = Vec::new();
    let mut i: usize = 0;
    proof {
        assert(base.subrange(0, n as int) =~= base);
        assert(base.subrange(0, 0) =~= Seq::<AppView>::empty());
    }
    while i < n
        invariant
            base == windows_catalog_spec(),
            n == base.len(),
            i <= n,
            software_views(rest@) == base.subrange(i as int, n as int),
            software_views(out@) =~= catalog_for_user(base.subrange(0, i as int), user@),
        decreases n - i,
    {
        assert(software_views(rest@).len() == rest@.len());
        let ghost old_rest = rest@;
        let mut e = rest.remove(0);
        proof {
            lemma_views_drop_first(old_rest, rest@, base, i as int, n as int);
        }
        let path = expand_username(e.exec_path.as_str(), user);
        e.exec_path = path;
        let ghost before = out@;
        out.push(e);
        proof {
            assert(software_views(out@) =~= software_views(before).push(for_user(base[i as int], user@)));
            assert(catalog_for_user(base.subrange(0, i + 1), user@) =~= catalog_for_user(base.subrange(0, i as int), user@).push(for_user(base[i as int], user@)));
        }
        i = i + 1;
    }
    proof {
        assert(base.subrange(0, n as int) =~= base);
    }
    out
}

/// `v` is an entry of `cat` whose probe in `found` succeeded, marked as
/// detected.
pub open spec fn kept_entry(v: AppView, cat: Seq<AppView>, found: Seq<bool>) -> bool {
    exists|k: int| 0 <= k < cat.len() && found[k] && v == mark_present(cat[k])
}

/// `v` is an entry of `cat`, its path expanded for `user`, marked as
/// detected.
pub open spec fn expanded_entry(v: AppView, cat: Seq<AppView>, user: Seq<char>) -> bool {
    exists|k: int| 0 <= k < cat.len() && v == mark_present(for_user(cat[k], user))
}

/// Each entry kept by the filter is an entry of the catalog whose probe
/// succeeded, marked as detected.
pub proof fn present_only_members(cat: Seq<AppView>, found: Seq<bool>)
    requires
        found.len() == cat.len(),
    ensures
        forall|i: int|
            0 <= i < present_only(cat, found).len() ==> #[trigger] kept_entry(
                present_only(cat, found)[i],
                cat,
                found,
            ),
    decreases cat.len(),
{
    if cat.len() > 0 {
        let init = cat.drop_last();
        let f0 = found.drop_last();
        present_only_members(init, f0);
        let rest = present_only(init, f0);
        let all = present_only(cat, found);
        assert forall|i: int| 0 <= i < all.len() implies #[trigger] kept_entry(all[i], cat, found) by {
            if found.last() {
                assert(all == rest.push(mark_present(cat.last())));
            } else {
                assert(all == rest);
            }
            if i < rest.len() {
                assert(all[i] == rest[i]);
                assert(kept_entry(rest[i], init, f0));
                let k = choose|k: int|
                    0 <= k < init.len() && f0[k] && rest[i] == mark_present(init[k]);
                assert(cat[k] == init[k] && found[k] == f0[k]);
                assert(0 <= k < cat.len() && found[k] && all[i] == mark_present(cat[k]));
            } else {
                let k = cat.len() - 1;
                assert(found[k] && all[i] == mark_present(cat[k]));
            }
        }
    }
}

/// The Windows applications whose install path exists, the user placeholder
/// expanded to `user` before each check (empty when the user is unknown).
/// Each reported entry is a catalog entry with its path so expanded.
pub fn detect_windows_cad(user: &str) -> (r: Vec<CADSoftware>)
    ensures
        forall|i: int|
            0 <= i < r@.len() ==> #[trigger] expanded_entry(r@[i]@, windows_catalog_spec(), user@),
        exists|found: Seq<bool>|
            found.len() == windows_catalog_spec().len() && software_views(r@) == present_only(
                catalog_for_user(windows_catalog_spec(), user@),
                found,
            ),
{
    let cat = windows_catalog_for(user);
    let found = probe_paths(&cat);
    let r = select_present(cat, &found);
    assert(found@.len() == windows_catalog_spec().len());
    proof {
        let c = catalog_for_user(windows_catalog_spec(), user@);
        present_only_members(c, found@);
        assert forall|i: int| 0 <= i < r@.len() implies #[trigger] expanded_entry(
            r@[i]@,
            windows_catalog_spec(),
            user@,
        ) by {
            assert(software_views(r@)[i] == r@[i]@);
            assert(kept_entry(present_only(c, found@)[i], c, found@));
            let k = choose|k: int|
                0 <= k < c.len() && found@[k] && present_only(c, found@)[i] == mark_present(c[k]);
            assert(c[k] == for_user(windows_catalog_spec()[k], user@));
        }
    }
    r
}

/// The macOS application bundles that exist.
pub fn detect_macos_cad() -> (r: Vec<CADSoftware>)
    ensures
        exists|found: Seq<bool>|
            found.len() == macos_catalog_spec().len() && software_views(r@) == present_only(
                macos_catalog_spec(),
                found,
            ),
{
    let cat = macos_catalog();
    let found = probe_paths(&cat);
    let r = select_present(cat, &found);
    assert(found@.len() == macos_catalog_spec().len());
    r
}

/// The Linux commands that resolved on the search path; `on_path` holds one
/// lookup result per catalog entry.
pub fn detect_linux_cad(on_path: &Vec<bool>) -> (r: Vec<CADSoftware>)
    requires
        on_path@.len() == linux_catalog_spec().len(),
    ensures
        software_views(r@) == present_only(linux_catalog_spec(), on_path@),
{
    let cat = linux_catalog();
    select_present(cat, on_path)
}

proof fn lemma_present_only_detected(cat: Seq<AppView>, found: Seq<bool>)
    requires
        found.len() == cat.len(),
    ensures
        forall|k: int| 0 <= k < present_only(cat, found).len() ==> #[trigger] present_only(
            cat,
            found,
        )[k].detected,
    decreases cat.len(),
{
    if cat.len() > 0 {
        lemma_present_only_detected(cat.drop_last(), found.drop_last());
        let rest = present_only(cat.drop_last(), found.drop_last());
        let all = present_only(cat, found);
        assert forall|k: int| 0 <= k < all.len() implies #[trigger] all[k].detected by {
            if k < rest.len() {
                assert(all[k] == rest[k]);
            }
        }
    }
}

proof fn lemma_present_only_all_found(sw: Seq<AppView>)
    requires
        forall|k: int| 0 <= k < sw.len() ==> #[trigger] sw[k].detected,
    ensures
        present_only(sw, Seq::new(sw.len(), |k: int| true)) == sw,
    decreases sw.len(),
{
    if sw.len() > 0 {
        let init = sw.drop_last();
        lemma_present_only_all_found(init);
        assert(Seq::new(sw.len(), |k: int| true).drop_last() =~= Seq::new(init.len(), |k: int| true));
        assert(sw[sw.len() - 1].detected);
        assert(mark_present(sw.last()) =~= sw.last());
        assert(init.push(sw.last()) =~= sw);
    }
}

/// Detection reads nothing but the probe outcomes, so two detections that
/// observe the same machine state report the same applications and the
/// same extensions in the same order; and running
/// the filter again over what was detected, with every probe succeeding,
/// changes nothing.
pub proof fn detection_is_repeatable(cat: Seq<AppView>, found1: Seq<bool>, found2: Seq<bool>)
    requires
        found1.len() == cat.len(),
        found1 == found2,
    ensures
        present_only(cat, found1) == present_only(cat, found2),
        extension_union(present_only(cat, found1)) == extension_union(present_only(cat, found2)),
        present_only(
            present_only(cat, found1),
            Seq::new(present_only(cat, found1).len(), |k: int| true),
        ) == present_only(cat, found1),
{
    lemma_present_only_detected(cat, found1);
    lemma_present_only_all_found(present_only(cat, found1));
}

/// An install path that holds the user placeholder once is checked as the
/// same path with the user's name in its place; an unknown user, passed as
/// the empty name, leaves only the text around the placeholder.
pub proof fn username_substituted_in_place(
    v: AppView,
    before: Seq<char>,
    after: Seq<char>,
    user: Seq<char>,
)
    requires
        v.exec_path == before + username_placeholder() + after,
        forall|i: int| 0 <= i < before.len() ==> !occurs_at(v.exec_path, username_placeholder(), i),
        !has_infix(after, username_placeholder()),
    ensures
        for_user(v, user).exec_path == before + user + after,
        for_user(v, Seq::<char>::empty()).exec_path == before + after,
{
    reveal_strlit("%USERNAME%");
    replace_single_occurrence(before, username_placeholder(), after, user);
    replace_single_occurrence(before, username_placeholder(), after, Seq::<char>::empty());
    assert(before + Seq::<char>::empty() + after =~= before + after);
}

/// The Fusion 360 entry of the Windows catalog is checked at the user's
/// profile path, with the user's name where the placeholder stood; an
/// unknown user gives that path with an empty name.
pub proof fn fusion_path_for_user(user: Seq<char>)
    ensures
        for_user(windows_catalog_spec()[9], user).exec_path == "C:\\Users\\"@ + user
            + "\\AppData\\Local\\Autodesk\\webdeploy\\production\\Fusion360.exe"@,
{
    let v = windows_catalog_spec()[9];
    let before = "C:\\Users\\"@;
    let after = "\\AppData\\Local\\Autodesk\\webdeploy\\production\\Fusion360.exe"@;
    let p = username_placeholder();
    reveal_strlit("C:\\Users\\%USERNAME%\\AppData\\Local\\Autodesk\\webdeploy\\production\\Fusion360.exe");
    reveal_strlit("C:\\Users\\");
    reveal_strlit("\\AppData\\Local\\Autodesk\\webdeploy\\production\\Fusion360.exe");
    reveal_strlit("%USERNAME%");
    assert(v.exec_path =~= before + p + after);
    assert forall|i: int| 0 <= i < before.len() implies !occurs_at(v.exec_path, p, i) by {
        assert(v.exec_path.subrange(i, i + p.len())[0] == v.exec_path[i]);
    }
    assert forall|i: int| !occurs_at(after, p, i) by {
        if 0 <= i && i + p.len() <= after.len() {
            assert(after.subrange(i, i + p.len())[0] == after[i]);
            assert(after[i] != '%');
        }
    }
    username_substituted_in_place(v, before, after, user);
}

} // verus!
