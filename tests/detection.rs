use cad_launcher::catalog::{linux_catalog, macos_catalog, windows_catalog};
use cad_launcher::detect::{
    detect_linux_cad, detect_macos_cad, detect_windows_cad, expand_username, select_present,
    windows_catalog_for,
};
use cad_launcher::report::{
    available_applications, build_detection_report, first_detected_path, supported_extensions,
};
use cad_launcher::CADSoftware;

fn app(name: &str, path: &str, exts: &[&str], detected: bool) -> CADSoftware {
    CADSoftware {
        name: name.to_string(),
        exec_path: path.to_string(),
        extensions: exts.iter().map(|e| e.to_string()).collect(),
        software_type: "test".to_string(),
        detected,
        method: "file_check".to_string(),
    }
}

#[test]
fn catalogs_have_expected_entries() {
    let mac = macos_catalog();
    assert_eq!(mac.len(), 4);
    assert_eq!(mac[0].name, "AutoCAD for Mac");
    assert_eq!(mac[0].exec_path, "/Applications/Autodesk/AutoCAD.app");
    assert_eq!(mac[3].extensions, vec![".fcstd", ".step", ".iges"]);
    assert!(mac.iter().all(|s| !s.detected && s.method == "application_bundle"));
    let win = windows_catalog();
    assert_eq!(win.len(), 10);
    assert_eq!(win[8].extensions, vec![".sldprt", ".sldasm", ".slddrw", ".dwg", ".dxf"]);
    let lin = linux_catalog();
    assert_eq!(lin.len(), 3);
    assert_eq!(lin[1].name, "LibreCAD");
    assert_eq!(lin[1].exec_path, "librecad");
    assert_eq!(lin[1].software_type, "librecad");
}

#[test]
fn username_placeholder_is_expanded() {
    assert_eq!(
        expand_username("C:\\Users\\%USERNAME%\\AppData\\Fusion360.exe", "alice"),
        "C:\\Users\\alice\\AppData\\Fusion360.exe"
    );
    assert_eq!(expand_username("C:\\Users\\%USERNAME%\\x", ""), "C:\\Users\\\\x");
    assert_eq!(expand_username("%USERNAME%/%USERNAME%", "b"), "b/b");
    assert_eq!(expand_username("no placeholder", "bob"), "no placeholder");
}

#[test]
fn windows_catalog_expands_before_checking() {
    let cat = windows_catalog_for("carol");
    assert_eq!(
        cat[9].exec_path,
        "C:\\Users\\carol\\AppData\\Local\\Autodesk\\webdeploy\\production\\Fusion360.exe"
    );
    assert_eq!(cat[0].exec_path, "C:\\Program Files\\Autodesk\\AutoCAD 2024\\acad.exe");
    let unknown = windows_catalog_for("");
    assert!(unknown[9].exec_path.starts_with("C:\\Users\\\\AppData"));
}

#[test]
fn select_present_keeps_found_entries_in_order() {
    let entries = vec![
        app("A", "/a", &[".dwg"], false),
        app("B", "/b", &[".dxf"], false),
        app("C", "/c", &[".step"], false),
    ];
    let out = select_present(entries, &vec![true, false, true]);
    assert_eq!(out.len(), 2);
    assert_eq!(out[0].name, "A");
    assert_eq!(out[1].name, "C");
    assert!(out.iter().all(|s| s.detected));
}

#[test]
fn linux_detection_uses_lookup_results() {
    let out = detect_linux_cad(&vec![false, true, true]);
    let names: Vec<&str> = out.iter().map(|s| s.name.as_str()).collect();
    assert_eq!(names, vec!["LibreCAD", "QCAD"]);
    assert!(detect_linux_cad(&vec![false, false, false]).is_empty());
}

#[test]
fn detection_on_this_host_only_reports_present_entries() {
    let first = detect_macos_cad();
    let second = detect_macos_cad();
    assert!(first.iter().all(|s| s.detected));
    let a: Vec<&String> = first.iter().map(|s| &s.name).collect();
    let b: Vec<&String> = second.iter().map(|s| &s.name).collect();
    assert_eq!(a, b);
    let w1 = detect_windows_cad("nobody");
    let w2 = detect_windows_cad("nobody");
    assert_eq!(w1.len(), w2.len());
}

#[test]
fn report_unions_extensions_of_present_entries() {
    let software = vec![
        app("A", "/a", &[".dwg", ".dxf"], true),
        app("B", "/b", &[".exb"], false),
        app("C", "/c", &[".dxf", ".step"], true),
    ];
    assert_eq!(supported_extensions(&software), vec![".dwg", ".dxf", ".step"]);
    let report = build_detection_report(software);
    assert!(report.success);
    assert_eq!(report.software.len(), 3);
    assert_eq!(report.supported_extensions, vec![".dwg", ".dxf", ".step"]);
}

#[test]
fn empty_detection_is_a_successful_report() {
    let report = build_detection_report(Vec::new());
    assert!(report.success);
    assert!(report.software.is_empty());
    assert!(report.supported_extensions.is_empty());
    assert_eq!(first_detected_path(&report), "");
    assert!(available_applications(&report).is_empty());
}

#[test]
fn first_path_and_display_lines() {
    let report = build_detection_report(vec![
        app("A", "/a", &[".dwg"], false),
        app("B", "/b", &[".dxf"], true),
        app("C", "/c", &[".dxf"], true),
    ]);
    assert_eq!(first_detected_path(&report), "/b");
    assert_eq!(available_applications(&report), vec!["B (/b)", "C (/c)"]);
}
