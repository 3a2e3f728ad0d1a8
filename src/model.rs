//! The records exchanged with callers: application descriptors, detection
//! reports and the outcome of an open request.
use vstd::prelude::*;

verus! {

/// One CAD application candidate and whether it was found on this machine.
#[derive(Debug)]
pub struct CADSoftware {
    pub name: String,
    pub exec_path: String,
    pub extensions: Vec<String>,
    pub software_type: String,
    pub detected: bool,
    pub method: String,
}

/// Mathematical view of a [`CADSoftware`].
pub struct AppView {
    pub name: Seq<char>,
    pub exec_path: Seq<char>,
    pub extensions: Seq<Seq<char>>,
    pub software_type: Seq<char>,
    pub detected: bool,
    pub method: Seq<char>,
}

pub open spec fn texts_view(v: Seq<String>) -> Seq<Seq<char>> {
    v.map_values(|s: String| s@)
}

pub open spec fn strs_view(v: Seq<&str>) -> Seq<Seq<char>> {
    v.map_values(|s: &str| s@)
}

impl View for CADSoftware {
    type V = AppView;

    open spec fn view(&self) -> AppView {
        AppView {
            name: self.name@,
            exec_path: self.exec_path@,
            extensions: texts_view(self.extensions@),
            software_type: self.software_type@,
            detected: self.detected,
            method: self.method@,
        }
    }
}

pub open spec fn software_views(v: Seq<CADSoftware>) -> Seq<AppView> {
    v.map_values(|s: CADSoftware| s@)
}

/// Outcome of one request to open a drawing.
#[derive(Debug)]
pub struct CADResult {
    pub success: bool,
    pub software: Option<String>,
    pub message: String,
    pub error: Option<String>,
}

/// Mathematical view of a [`CADResult`].
pub struct ResultView {
    pub success: bool,
    pub software: Option<Seq<char>>,
    pub message: Seq<char>,
    pub error: Option<Seq<char>>,
}

pub open spec fn opt_view(o: Option<String>) -> Option<Seq<char>> {
    match o {
        Some(s) => Some(s@),
        None => None,
    }
}

impl View for CADResult {
    type V = ResultView;

    open spec fn view(&self) -> ResultView {
        ResultView {
            success: self.success,
            software: opt_view(self.software),
            message: self.message@,
            error: opt_view(self.error),
        }
    }
}

/// The applications found on this machine and the extensions they open.
#[derive(Debug)]
pub struct DetectionResult {
    pub success: bool,
    pub software: Vec<CADSoftware>,
    pub supported_extensions: Vec<String>,
}

/// An owned copy of `s`.
pub fn owned(s: &str) -> (r: String)
    ensures
        r@ == s@,
{
    String::from_str(s)
}

/// Owned copies of the given extensions, in order.
pub fn owned_list(items: Vec<&str>) -> (r: Vec<String>)
    ensures
        texts_view(r@) == strs_view(items@),
{
    let mut r: Vec<String> = Vec::new();
    let mut i: usize = 0;
    while i < items.len()
        invariant
            i <= items@.len(),
            texts_view(r@) =~= strs_view(items@.subrange(0, i as int)),
        decreases items@.len() - i,
    {
        let ghost before = r@;
        r.push(owned(items[i]));
        proof {
            assert(texts_view(r@) =~= texts_view(before).push(items@[i as int]@));
            assert(strs_view(items@.subrange(0, i + 1)) =~= strs_view(items@.subrange(0, i as int)).push(items@[i as int]@));
            assert(items@.subrange(0, i + 1) =~= items@.subrange(0, i as int).push(items@[i as int]));
        }
        i = i + 1;
    }
    proof {
        assert(items@.subrange(0, i as int) =~= items@);
    }
    r
}

} // verus!
