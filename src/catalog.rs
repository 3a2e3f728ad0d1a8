//! The tables of known CAD applications for each platform.
use vstd::prelude::*;
use crate::model::{owned, owned_list, software_views, strs_view, CADSoftware, AppView};

verus! {

pub open spec fn catalog_entry(
    name: &str,
    path: &str,
    extensions: Seq<&str>,
    software_type: &str,
    method: &str,
) -> AppView {
    AppView {
        name: name@,
        exec_path: path@,
        extensions: strs_view(extensions),
        software_type: software_type@,
        detected: false,
        method: method@,
    }
}

fn entry(name: &str, path: &str, extensions: Vec<&str>, software_type: &str, method: &str) -> (r:
    CADSoftware)
    ensures
        r@ == catalog_entry(name, path, extensions@, software_type, method),
{
    CADSoftware {
        name: owned(name),
        exec_path: owned(path),
        extensions: owned_list(extensions),
        software_type: owned(software_type),
        detected: false,
        method: owned(method),
    }
}

pub open spec fn macos_catalog_spec() -> Seq<AppView> {
    seq![
        catalog_entry("AutoCAD for Mac", "/Applications/Autodesk/AutoCAD.app", seq![".dwg", ".dxf"], "autocad", "application_bundle"),
        catalog_entry("Fusion 360", "/Applications/Autodesk Fusion 360.app", seq![".f3d", ".step", ".dwg", ".dxf"], "fusion360", "application_bundle"),
        catalog_entry("SolidWorks", "/Applications/SOLIDWORKS.app", seq![".sldprt", ".sldasm", ".slddrw"], "solidworks", "application_bundle"),
        catalog_entry("FreeCAD", "/Applications/FreeCAD.app", seq![".fcstd", ".step", ".iges"], "freecad", "application_bundle"),
    ]
}

/// The application bundles looked for on macOS, in order of preference.
pub fn macos_catalog() -> (r: Vec<CADSoftware>)
    ensures
        software_views(r@) == macos_catalog_spec(),
{
    let r = vec![
        entry("AutoCAD for Mac", "/Applications/Autodesk/AutoCAD.app", vec![".dwg", ".dxf"], "autocad", "application_bundle"),
        entry("Fusion 360", "/Applications/Autodesk Fusion 360.app", vec![".f3d", ".step", ".dwg", ".dxf"], "fusion360", "application_bundle"),
        entry("SolidWorks", "/Applications/SOLIDWORKS.app", vec![".sldprt", ".sldasm", ".slddrw"], "solidworks", "application_bundle"),
        entry("FreeCAD", "/Applications/FreeCAD.app", vec![".fcstd", ".step", ".iges"], "freecad", "application_bundle"),
    ];
    assert(software_views(r@) =~= macos_catalog_spec());
    r
}

/// Install paths looked for on Windows, in order of preference. A path may
/// hold the placeholder `%USERNAME%` for the current user's name.
pub open spec fn windows_catalog_spec() -> Seq<AppView> {
    seq![
        catalog_entry("AutoCAD 2024", "C:\\Program Files\\Autodesk\\AutoCAD 2024\\acad.exe", seq![".dwg", ".dxf"], "autocad", "file_check"),
        catalog_entry("AutoCAD 2023", "C:\\Program Files\\Autodesk\\AutoCAD 2023\\acad.exe", seq![".dwg", ".dxf"], "autocad", "file_check"),
        catalog_entry("AutoCAD 2022", "C:\\Program Files\\Autodesk\\AutoCAD 2022\\acad.exe", seq![".dwg", ".dxf"], "autocad", "file_check"),
        catalog_entry("AutoCAD 2021", "C:\\Program Files\\Autodesk\\AutoCAD 2021\\acad.exe", seq![".dwg", ".dxf"], "autocad", "file_check"),
        catalog_entry("AutoCAD 2020", "C:\\Program Files\\Autodesk\\AutoCAD 2020\\acad.exe", seq![".dwg", ".dxf"], "autocad", "file_check"),
        catalog_entry("CAXA CAD电子图板", "C:\\CAXA\\CAD电子图板\\CAD.exe", seq![".exb", ".dwg", ".dxf"], "caxa", "file_check"),
        catalog_entry("CAXA CAD 2020", "C:\\CAXA\\CAD2020\\CAD.exe", seq![".exb", ".dwg", ".dxf"], "caxa", "file_check"),
        catalog_entry("CAXA CAD 2019", "C:\\CAXA\\CAD2019\\CAD.exe", seq![".exb", ".dwg", ".dxf"], "caxa", "file_check"),
        catalog_entry("SolidWorks", "C:\\Program Files\\SOLIDWORKS Corp\\SOLIDWORKS\\SLDWORKS.exe", seq![".sldprt", ".sldasm", ".slddrw", ".dwg", ".dxf"], "solidworks", "file_check"),
        catalog_entry("Fusion 360", "C:\\Users\\%USERNAME%\\AppData\\Local\\Autodesk\\webdeploy\\production\\Fusion360.exe", seq![".f3d", ".step", ".dwg", ".dxf"], "fusion360", "file_check"),
    ]
}

/// The install paths looked for on Windows, placeholders not yet expanded.
pub fn windows_catalog() -> (r: Vec<CADSoftware>)
    ensures
        software_views(r@) == windows_catalog_spec(),
{
    let r = vec![
        entry("AutoCAD 2024", "C:\\Program Files\\Autodesk\\AutoCAD 2024\\acad.exe", vec![".dwg", ".dxf"], "autocad", "file_check"),
        entry("AutoCAD 2023", "C:\\Program Files\\Autodesk\\AutoCAD 2023\\acad.exe", vec![".dwg", ".dxf"], "autocad", "file_check"),
        entry("AutoCAD 2022", "C:\\Program Files\\Autodesk\\AutoCAD 2022\\acad.exe", vec![".dwg", ".dxf"], "autocad", "file_check"),
        entry("AutoCAD 2021", "C:\\Program Files\\Autodesk\\AutoCAD 2021\\acad.exe", vec![".dwg", ".dxf"], "autocad", "file_check"),
        entry("AutoCAD 2020", "C:\\Program Files\\Autodesk\\AutoCAD 2020\\acad.exe", vec![".dwg", ".dxf"], "autocad", "file_check"),
        entry("CAXA CAD电子图板", "C:\\CAXA\\CAD电子图板\\CAD.exe", vec![".exb", ".dwg", ".dxf"], "caxa", "file_check"),
        entry("CAXA CAD 2020", "C:\\CAXA\\CAD2020\\CAD.exe", vec![".exb", ".dwg", ".dxf"], "caxa", "file_check"),
        entry("CAXA CAD 2019", "C:\\CAXA\\CAD2019\\CAD.exe", vec![".exb", ".dwg", ".dxf"], "caxa", "file_check"),
        entry("SolidWorks", "C:\\Program Files\\SOLIDWORKS Corp\\SOLIDWORKS\\SLDWORKS.exe", vec![".sldprt", ".sldasm", ".slddrw", ".dwg", ".dxf"], "solidworks", "file_check"),
        entry("Fusion 360", "C:\\Users\\%USERNAME%\\AppData\\Local\\Autodesk\\webdeploy\\production\\Fusion360.exe", vec![".f3d", ".step", ".dwg", ".dxf"], "fusion360", "file_check"),
    ];
    assert(software_views(r@) =~= windows_catalog_spec());
    r
}

/// Commands looked up on the executable search path on Linux; the command
/// name is both the path and the type tag.
pub open spec fn linux_catalog_spec() -> Seq<AppView> {
    seq![
        catalog_entry("FreeCAD", "freecad", seq![".fcstd", ".step"], "freecad", "command_line"),
        catalog_entry("LibreCAD", "librecad", seq![".dxf"], "librecad", "command_line"),
        catalog_entry("QCAD", "qcad", seq![".dxf"], "qcad", "command_line"),
    ]
}

/// The commands looked for on Linux, in order of preference.
pub fn linux_catalog() -> (r: Vec<CADSoftware>)
    ensures
        software_views(r@) == linux_catalog_spec(),
{
    let r = vec![
        entry("FreeCAD", "freecad", vec![".fcstd", ".step"], "freecad", "command_line"),
        entry("LibreCAD", "librecad", vec![".dxf"], "librecad", "command_line"),
        entry("QCAD", "qcad", vec![".dxf"], "qcad", "command_line"),
    ];
    assert(r@[1]@.extensions =~= linux_catalog_spec()[1].extensions);
    assert(r@[2]@.extensions =~= linux_catalog_spec()[2].extensions);
    assert(software_views(r@) =~= linux_catalog_spec());
    r
}

} // verus!
