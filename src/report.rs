//! The detection report and the summaries derived from it.
use vstd::prelude::*;
use crate::model::{software_views, texts_view, CADSoftware, DetectionResult, AppView};

verus! {

/// `acc` followed by the members of `exts` it lacks, each once, in order.
pub open spec fn add_missing(acc: Seq<Seq<char>>, exts: Seq<Seq<char>>) -> Seq<Seq<char>>
    decreases exts.len(),
{
    if exts.len() == 0 {
        acc
    } else {
        let a = add_missing(acc, exts.drop_last());
        if a.contains(exts.last()) {
            a
        } else {
            a.push(exts.last())
        }
    }
}

/// The extensions of the detected entries of `sw`, each once, in order of
/// first appearance.
pub open spec fn extension_union(sw: Seq<AppView>) -> Seq<Seq<char>>
    decreases sw.len(),
{
    if sw.len() == 0 {
        seq![]
    } else {
        let a = extension_union(sw.drop_last());
        if sw.last().detected {
            add_missing(a, sw.last().extensions)
        } else {
            a
        }
    }
}

/// Some detected entry of `sw` opens files with extension `e`.
pub open spec fn detected_supports(sw: Seq<AppView>, e: Seq<char>) -> bool {
    exists|i: int| 0 <= i < sw.len() && sw[i].detected && #[trigger] sw[i].extensions.contains(e)
}

proof fn lemma_add_missing(acc: Seq<Seq<char>>, exts: Seq<Seq<char>>)
    requires
        acc.no_duplicates(),
    ensures
        add_missing(acc, exts).no_duplicates(),
        forall|e: Seq<char>| #[trigger]
            add_missing(acc, exts).contains(e) <==> (acc.contains(e) || exts.contains(e)),
    decreases exts.len(),
{
    if exts.len() > 0 {
        lemma_add_missing(acc, exts.drop_last());
        let a = add_missing(acc, exts.drop_last());
        assert forall|e: Seq<char>| exts.contains(e) <==> (exts.drop_last().contains(e) || e
            == exts.last()) by {
            if exts.contains(e) {
                let k = choose|k: int| 0 <= k < exts.len() && exts[k] == e;
                if k < exts.len() - 1 {
                    assert(exts.drop_last()[k] == e);
                }
            }
            if exts.drop_last().contains(e) {
                let k = choose|k: int| 0 <= k < exts.drop_last().len() && exts.drop_last()[k] == e;
                assert(exts[k] == e);
            }
            if e == exts.last() {
                assert(exts[exts.len() - 1] == e);
            }
        }
        if !a.contains(exts.last()) {
            let b = a.push(exts.last());
            assert forall|e: Seq<char>| b.contains(e) <==> (a.contains(e) || e == exts.last()) by {
                if b.contains(e) {
                    let k = choose|k: int| 0 <= k < b.len() && b[k] == e;
                    if k < a.len() {
                        assert(a[k] == e);
                    }
                }
                if a.contains(e) {
                    let k = choose|k: int| 0 <= k < a.len() && a[k] == e;
                    assert(b[k] == e);
                }
                if e == exts.last() {
                    assert(b[a.len() as int] == e);
                }
            }
            assert forall|x: int, y: int| 0 <= x < b.len() && 0 <= y < b.len() && x != y implies b[x]
                != b[y] by {
                if x < a.len() && y == a.len() {
                    assert(a.contains(a[x]));
                }
                if y < a.len() && x == a.len() {
                    assert(a.contains(a[y]));
                }
            }
        }
    }
}

/// The union of the extensions of the detected entries: each extension
/// once, and exactly those that some detected entry opens.
pub proof fn extension_union_is_exact(sw: Seq<AppView>)
    ensures
        extension_union(sw).no_duplicates(),
        forall|e: Seq<char>| #[trigger]
            extension_union(sw).contains(e) <==> detected_supports(sw, e),
    decreases sw.len(),
{
    if sw.len() > 0 {
        let init = sw.drop_last();
        extension_union_is_exact(init);
        let a = extension_union(init);
        if sw.last().detected {
            lemma_add_missing(a, sw.last().extensions);
        }
        assert forall|e: Seq<char>| #[trigger]
            extension_union(sw).contains(e) <==> detected_supports(sw, e) by {
            if detected_supports(sw, e) {
                let i = choose|i: int|
                    0 <= i < sw.len() && sw[i].detected && #[trigger] sw[i].extensions.contains(e);
                if i < sw.len() - 1 {
                    assert(init[i] == sw[i]);
                    assert(detected_supports(init, e));
                }
            }
            if detected_supports(init, e) {
                let i = choose|i: int|
                    0 <= i < init.len() && init[i].detected && #[trigger] init[i].extensions.contains(
                        e,
                    );
                assert(sw[i] == init[i]);
            }
            if sw.last().detected && sw.last().extensions.contains(e) {
                assert(sw[sw.len() - 1].extensions.contains(e));
            }
        }
    }
}

fn contains_string(v: &Vec<String>, x: &String) -> (r: bool)
    ensures
        r == texts_view(v@).contains(x@),
{
    let mut i: usize = 0;
    while i < v.len()
        invariant
            i <= v@.len(),
            forall|k: int| 0 <= k < i ==> v@[k]@ != x@,
        decreases v@.len() - i,
    {
        if v[i] == *x {
            assert(texts_view(v@)[i as int] == x@);
            return true;
        }
        i = i + 1;
    }
    assert forall|k: int| 0 <= k < texts_view(v@).len() implies texts_view(v@)[k] != x@ by {
        assert(texts_view(v@)[k] == v@[k]@);
    }
    false
}

/// The extensions opened by the detected entries of `software`, each once,
/// in order of first appearance.
pub fn supported_extensions(software: &Vec<CADSoftware>) -> (r: Vec<String>)
    ensures
        texts_view(r@) == extension_union(software_views(software@)),
{
    let ghost sw = software_views(software@);
    let mut out: Vec<String> = Vec::new();
    let mut i: usize = 0;
    proof {
        assert(sw.subrange(0, 0) =~= Seq::<AppView>::empty());
    }
    while i < software.len()
        invariant
            sw == software_views(software@),
            i <= software@.len(),
            texts_view(out@) == extension_union(sw.subrange(0, i as int)),
        decreases software@.len() - i,
    {
        let entry = &software[i];
        proof {
            assert(sw.subrange(0, i + 1).drop_last() =~= sw.subrange(0, i as int));
            assert(sw[i as int] == entry@);
            assert(sw.subrange(0, i + 1).last() == entry@);
        }
        if entry.detected {
            let ghost acc = texts_view(out@);
            let exts = &entry.extensions;
            let mut j: usize = 0;
            proof {
                assert(texts_view(exts@).subrange(0, 0) =~= Seq::<Seq<char>>::empty());
            }
            while j < exts.len()
                invariant
                    j <= exts@.len(),
                    exts@ == software@[i as int].extensions@,
                    texts_view(out@) == add_missing(acc, texts_view(exts@).subrange(0, j as int)),
                decreases exts@.len() - j,
            {
                let ghost pre = texts_view(exts@).subrange(0, j + 1);
                proof {
                    assert(pre.drop_last() =~= texts_view(exts@).subrange(0, j as int));
                    assert(pre.last() == exts@[j as int]@);
                }
                if !contains_string(&out, &exts[j]) {
                    let ghost before = out@;
                    out.push(exts[j].clone());
                    proof {
                        assert(texts_view(out@) =~= texts_view(before).push(exts@[j as int]@));
                    }
                }
                j = j + 1;
            }
            proof {
                assert(texts_view(exts@).subrange(0, exts@.len() as int) =~= texts_view(exts@));
            }
        }
        i = i + 1;
    }
    proof {
        assert(sw.subrange(0, software@.len() as int) =~= sw);
    }
    out
}

/// A successful report holding `software` as given and the extensions its
/// detected entries open.
pub fn build_detection_report(software: Vec<CADSoftware>) -> (r: DetectionResult)
    ensures
        r.success,
        r.software@ == software@,
        texts_view(r.supported_extensions@) == extension_union(software_views(software@)),
{
    let supported = supported_extensions(&software);
    DetectionResult { success: true, software, supported_extensions: supported }
}

/// The first detected entry of `sw`.
pub open spec fn first_detected(sw: Seq<AppView>) -> Option<AppView>
    decreases sw.len(),
{
    if sw.len() == 0 {
        None
    } else if sw[0].detected {
        Some(sw[0])
    } else {
        first_detected(sw.drop_first())
    }
}

/// The path of the first detected application of the report, or the empty
/// string when there is none.
pub fn first_detected_path(report: &DetectionResult) -> (r: String)
    ensures
        r@ == match first_detected(software_views(report.software@)) {
            Some(v) => v.exec_path,
            None => Seq::<char>::empty(),
        },
{
    let ghost sw = software_views(report.software@);
    let n = report.software.len();
    let mut i: usize = 0;
    proof {
        assert(sw.subrange(0, n as int) =~= sw);
    }
    while i < n
        invariant
            sw == software_views(report.software@),
            n == sw.len(),
            i <= n,
            first_detected(sw) == first_detected(sw.subrange(i as int, n as int)),
        decreases n - i,
    {
        let entry = &report.software[i];
        proof {
            assert(sw[i as int] == entry@);
            assert(sw.subrange(i as int, n as int)[0] == sw[i as int]);
            assert(sw.subrange(i as int, n as int).drop_first() =~= sw.subrange(i + 1, n as int));
        }
        if entry.detected {
            return entry.exec_path.clone();
        }
        i = i + 1;
    }
    String::new()
}

/// `name (path)`, the way an application is shown to the user.
pub open spec fn display_line(v: AppView) -> Seq<char> {
    v.name + " ("@ + v.exec_path + ")"@
}

/// One display line per detected entry, in order.
pub open spec fn display_lines(sw: Seq<AppView>) -> Seq<Seq<char>>
    decreases sw.len(),
{
    if sw.len() == 0 {
        seq![]
    } else {
        let a = display_lines(sw.drop_last());
        if sw.last().detected {
            a.push(display_line(sw.last()))
        } else {
            a
        }
    }
}

/// `name (path)` for each detected application of the report, in order.
pub fn available_applications(report: &DetectionResult) -> (r: Vec<String>)
    ensures
        texts_view(r@) == display_lines(software_views(report.software@)),
{
    let ghost sw = software_views(report.software@);
    let mut out: Vec<String> = Vec::new();
    let mut i: usize = 0;
    proof {
        assert(sw.subrange(0, 0) =~= Seq::<AppView>::empty());
    }
    while i < report.software.len()
        invariant
            sw == software_views(report.software@),
            i <= sw.len(),
            texts_view(out@) == display_lines(sw.subrange(0, i as int)),
        decreases sw.len() - i,
    {
        let entry = &report.software[i];
        proof {
            assert(sw.subrange(0, i + 1).drop_last() =~= sw.subrange(0, i as int));
            assert(sw[i as int] == entry@);
            assert(sw.subrange(0, i + 1).last() == entry@);
        }
        if entry.detected {
            let mut line = entry.name.clone();
            line.append(" (");
            line.append(entry.exec_path.as_str());
            line.append(")");
            let ghost before = out@;
            out.push(line);
            proof {
                assert(texts_view(out@) =~= texts_view(before).push(display_line(entry@)));
            }
        }
        i = i + 1;
    }
    proof {
        assert(sw.subrange(0, sw.len() as int) =~= sw);
    }
    out
}

} // verus!
