//! The decisions of an open request: whether to download first, which
//! extension the file has, which detected application opens it, and the
//! outcome reported for each way the request can end.
use vstd::prelude::*;
use crate::model::{owned, software_views, texts_view, AppView, CADResult, CADSoftware, ResultView};
use crate::text::{has_infix, has_prefix, occurs_at, starts_with_text};

verus! {

/// A path that names a remote resource rather than a local file.
pub open spec fn is_url_spec(path: Seq<char>) -> bool {
    has_prefix(path, "http"@)
}

/// Whether `path` is fetched over HTTP(S) before it is opened.
pub fn is_url(path: &str) -> (r: bool)
    ensures
        r == is_url_spec(path@),
{
    starts_with_text(path, "http")
}

/// Name of what `std::path::Path::extension` returns for a path.
pub uninterp spec fn extension_of(path: Seq<char>) -> Option<Seq<char>>;

/// Name of what `str::to_lowercase` returns.
pub uninterp spec fn lower_of(s: Seq<char>) -> Seq<char>;

/// Relies on `std::path::Path::extension`: the text after the last dot of
/// the final component, if there is one. The input is UTF-8, so the
/// extension is too.
#[verifier::external_body]
fn path_extension(path: &str) -> (r: Option<String>)
    ensures
        match extension_of(path@) {
            Some(e) => r is Some && r->0@ == e,
            None => r is None,
        },
{
    std::path::Path::new(path).extension().and_then(|s| s.to_str()).map(|s| s.to_string())
}

/// Relies on `str::to_lowercase`: the lowercase mapping of each character.
#[verifier::external_body]
fn lowercase(s: &str) -> (r: String)
    ensures
        r@ == lower_of(s@),
{
    s.to_lowercase()
}

pub open spec fn dotted(ext: Option<Seq<char>>) -> Seq<char> {
    match ext {
        Some(e) => "."@ + e,
        None => Seq::<char>::empty(),
    }
}

/// `.` followed by the lowercased extension, or the empty string when the
/// path has none.
pub fn dotted_extension(lowered: Option<String>) -> (r: String)
    ensures
        r@ == dotted(
            match lowered {
                Some(e) => Some(e@),
                None => None,
            },
        ),
{
    match lowered {
        Some(e) => {
            let mut r = owned(".");
            r.append(e.as_str());
            r
        },
        None => String::new(),
    }
}

/// The lowercase extension of `path`, with its leading dot.
pub fn file_extension(path: &str) -> (r: String)
    ensures
        r@ == dotted(
            match extension_of(path@) {
                Some(e) => Some(lower_of(e)),
                None => None,
            },
        ),
{
    let lowered = match path_extension(path) {
        Some(e) => Some(lowercase(e.as_str())),
        None => None,
    };
    dotted_extension(lowered)
}

/// `v` is present and lists `ext` among the extensions it opens.
pub open spec fn supports(v: AppView, ext: Seq<char>) -> bool {
    v.detected && v.extensions.contains(ext)
}

/// Index of the first entry of `sw` that supports `ext`.
pub open spec fn first_supporting(sw: Seq<AppView>, ext: Seq<char>) -> Option<int>
    decreases sw.len(),
{
    if sw.len() == 0 {
        None
    } else if supports(sw[0], ext) {
        Some(0)
    } else {
        match first_supporting(sw.drop_first(), ext) {
            Some(i) => Some(i + 1),
            None => None,
        }
    }
}

/// The selection is the first compatible application in catalog order: it
/// supports the extension and none before it does; there is none exactly
/// when no entry supports it.
pub proof fn first_supporting_is_first(sw: Seq<AppView>, ext: Seq<char>)
    ensures
        match first_supporting(sw, ext) {
            Some(i) => 0 <= i < sw.len() && supports(sw[i], ext) && forall|j: int|
                0 <= j < i ==> !supports(#[trigger] sw[j], ext),
            None => forall|j: int| 0 <= j < sw.len() ==> !supports(#[trigger] sw[j], ext),
        },
    decreases sw.len(),
{
    if sw.len() > 0 {
        let rest = sw.drop_first();
        first_supporting_is_first(rest, ext);
        if !supports(sw[0], ext) {
            match first_supporting(rest, ext) {
                Some(i) => {
                    assert forall|j: int| 0 <= j < i + 1 implies !supports(#[trigger] sw[j], ext) by {
                        if j > 0 {
                            assert(sw[j] == rest[j - 1]);
                        }
                    }
                },
                None => {
                    assert forall|j: int| 0 <= j < sw.len() implies !supports(#[trigger] sw[j], ext) by {
                        if j > 0 {
                            assert(sw[j] == rest[j - 1]);
                        }
                    }
                },
            }
        }
    }
}

/// With two present applications of which only the second opens `ext`, the
/// second is chosen.
pub proof fn second_chosen_when_only_it_supports(sw: Seq<AppView>, ext: Seq<char>)
    requires
        sw.len() == 2,
        !supports(sw[0], ext),
        supports(sw[1], ext),
    ensures
        first_supporting(sw, ext) == Some(1int),
{
    first_supporting_is_first(sw, ext);
}

fn contains_extension(exts: &Vec<String>, ext: &str) -> (r: bool)
    ensures
        r == texts_view(exts@).contains(ext@),
{
    let target = owned(ext);
    let mut i: usize = 0;
    while i < exts.len()
        invariant
            i <= exts@.len(),
            target@ == ext@,
            forall|k: int| 0 <= k < i ==> exts@[k]@ != ext@,
        decreases exts@.len() - i,
    {
        if exts[i] == target {
            assert(texts_view(exts@)[i as int] == ext@);
            return true;
        }
        i = i + 1;
    }
    assert forall|k: int| 0 <= k < texts_view(exts@).len() implies texts_view(
        exts@,
    )[k] != ext@ by {
        assert(texts_view(exts@)[k] == exts@[k]@);
    }
    false
}

/// Index of the first present application that opens files with `extension`.
pub fn select_software(software: &Vec<CADSoftware>, extension: &str) -> (r: Option<usize>)
    ensures
        match first_supporting(software_views(software@), extension@) {
            Some(i) => r == Some(i as usize),
            None => r is None,
        },
{
    let ghost sw = software_views(software@);
    let n = software.len();
    let mut i: usize = 0;
    proof {
        assert(sw.subrange(0, n as int) =~= sw);
    }
    while i < n
        invariant
            sw == software_views(software@),
            n == sw.len(),
            i <= n,
            first_supporting(sw, extension@) == match first_supporting(
                sw.subrange(i as int, n as int),
                extension@,
            ) {
                Some(k) => Some(k + i),
                None => None,
            },
        decreases n - i,
    {
        let entry = &software[i];
        proof {
            assert(sw[i as int] == entry@);
            assert(sw.subrange(i as int, n as int)[0] == sw[i as int]);
            assert(sw.subrange(i as int, n as int).drop_first() =~= sw.subrange(i + 1, n as int));
        }
        if entry.detected && contains_extension(&entry.extensions, extension) {
            return Some(i);
        }
        i = i + 1;
    }
    None
}

pub open spec fn unsupported_message(ext: Seq<char>) -> Seq<char> {
    "no CAD software found that supports "@ + ext + " files"@
}

pub open spec fn unsupported_spec(ext: Seq<char>) -> ResultView {
    ResultView {
        success: false,
        software: None,
        message: unsupported_message(ext),
        error: Some("No compatible CAD software found"@),
    }
}

/// The failed outcome when no present application opens `extension`.
pub fn unsupported_result(extension: &str) -> (r: CADResult)
    ensures
        r@ == unsupported_spec(extension@),
{
    let mut message = owned("no CAD software found that supports ");
    message.append(extension);
    message.append(" files");
    CADResult {
        success: false,
        software: None,
        message,
        error: Some(owned("No compatible CAD software found")),
    }
}

/// The failure message names the extension that nothing opens.
pub proof fn unsupported_message_names_extension(ext: Seq<char>)
    ensures
        has_infix(unsupported_message(ext), ext),
{
    let p = "no CAD software found that supports "@;
    let m = unsupported_message(ext);
    assert(m.subrange(p.len() as int, (p.len() + ext.len()) as int) =~= ext);
    assert(occurs_at(m, ext, p.len() as int));
}

/// The failed outcome of a request whose download failed with `err`.
pub fn download_failed_result(err: String) -> (r: CADResult)
    ensures
        r@ == (ResultView {
            success: false,
            software: None,
            message: "download failed"@,
            error: Some(err@),
        }),
{
    CADResult { success: false, software: None, message: owned("download failed"), error: Some(err) }
}

/// The failed outcome of a request for a caller-chosen application whose
/// download failed with `err`: the message carries the reason.
pub fn path_download_failed_result(err: String) -> (r: CADResult)
    ensures
        r@ == (ResultView {
            success: false,
            software: None,
            message: "download failed: "@ + err@,
            error: Some(err@),
        }),
{
    let mut message = owned("download failed: ");
    message.append(err.as_str());
    CADResult { success: false, software: None, message, error: Some(err) }
}

/// The outcome of launching application `name`.
pub fn launch_result(name: &str, outcome: Result<(), String>) -> (r: CADResult)
    ensures
        r.software is Some && r.software->0@ == name@,
        r.success == outcome is Ok,
        match outcome {
            Ok(()) => r.message@ == "opened the file with "@ + name@ && r.error is None,
            Err(e) => r.message@ == "failed to open the file with "@ + name@ && r.error is Some
                && r.error->0@ == e@,
        },
{
    match outcome {
        Ok(()) => {
            let mut message = owned("opened the file with ");
            message.append(name);
            CADResult { success: true, software: Some(owned(name)), message, error: None }
        },
        Err(e) => {
            let mut message = owned("failed to open the file with ");
            message.append(name);
            CADResult { success: false, software: Some(owned(name)), message, error: Some(e) }
        },
    }
}

/// The outcome of launching the application at `cad_path` chosen by the
/// caller.
pub fn path_launch_result(cad_path: &str, outcome: Result<(), String>) -> (r: CADResult)
    ensures
        r.software is Some && r.software->0@ == cad_path@,
        r.success == outcome is Ok,
        match outcome {
            Ok(()) => r.message@ == "CAD file opened"@ && r.error is None,
            Err(e) => r.message@ == "failed to open CAD file: "@ + e@ && r.error is Some
                && r.error->0@ == e@,
        },
{
    match outcome {
        Ok(()) => CADResult {
            success: true,
            software: Some(owned(cad_path)),
            message: owned("CAD file opened"),
            error: None,
        },
        Err(e) => {
            let mut message = owned("failed to open CAD file: ");
            message.append(e.as_str());
            CADResult { success: false, software: Some(owned(cad_path)), message, error: Some(e) }
        },
    }
}

/// How an open request goes on once the extension and the detected
/// applications are known.
pub enum OpenDecision {
    /// Launch the application at this index of the detected list.
    Launch(usize),
    /// End without launching anything, with this outcome.
    Finish(CADResult),
}

/// Launch the first present application that opens `extension`; with none,
/// finish with a failure that names the extension and launch nothing.
pub fn open_decision(software: &Vec<CADSoftware>, extension: &str) -> (r: OpenDecision)
    ensures
        match first_supporting(software_views(software@), extension@) {
            Some(i) => r == OpenDecision::Launch(i as usize),
            None => r matches OpenDecision::Finish(res) && res@ == unsupported_spec(extension@),
        },
{
    match select_software(software, extension) {
        Some(i) => OpenDecision::Launch(i),
        None => OpenDecision::Finish(unsupported_result(extension)),
    }
}

} // verus!
