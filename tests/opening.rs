use cad_launcher::launch::{
    app_name_from_stem, begin_launch, first_action, launch_request, next_action, Attempt,
    LaunchAction, Platform,
};
use cad_launcher::orchestrate::{
    download_failed_result, dotted_extension, file_extension, is_url, launch_result,
    open_decision, path_download_failed_result, path_launch_result, select_software, unsupported_result, OpenDecision,
};
use cad_launcher::CADSoftware;

fn app(name: &str, exts: &[&str], detected: bool) -> CADSoftware {
    CADSoftware {
        name: name.to_string(),
        exec_path: format!("/apps/{}", name),
        extensions: exts.iter().map(|e| e.to_string()).collect(),
        software_type: "test".to_string(),
        detected,
        method: "file_check".to_string(),
    }
}

fn run_parts(a: &LaunchAction) -> (Attempt, String, Vec<String>, u64) {
    match a {
        LaunchAction::Run { attempt, command, pause_secs } => {
            (*attempt, command.program.clone(), command.args.clone(), *pause_secs)
        }
        LaunchAction::Done(r) => panic!("expected a spawn, got {:?}", r),
    }
}

#[test]
fn urls_are_recognised() {
    assert!(is_url("https://h/x.dxf"));
    assert!(is_url("http://h/x.dxf"));
    assert!(!is_url("/tmp/x.dxf"));
    assert!(!is_url("ftp://h/x"));
}

#[test]
fn extension_is_lowercased_with_dot() {
    assert_eq!(file_extension("/tmp/Plan.DXF"), ".dxf");
    assert_eq!(file_extension("/tmp/drawing_42.dwg"), ".dwg");
    assert_eq!(file_extension("/tmp/noext"), "");
    assert_eq!(dotted_extension(Some("exb".to_string())), ".exb");
    assert_eq!(dotted_extension(None), "");
}

#[test]
fn second_application_chosen_when_only_it_supports() {
    let software = vec![app("First", &[".dwg"], true), app("Second", &[".dxf"], true)];
    assert_eq!(select_software(&software, ".dxf"), Some(1));
    assert!(matches!(open_decision(&software, ".dxf"), OpenDecision::Launch(1)));
}

#[test]
fn first_compatible_wins_and_absent_ones_are_skipped() {
    let software = vec![
        app("Absent", &[".dxf"], false),
        app("One", &[".dxf"], true),
        app("Two", &[".dxf"], true),
    ];
    assert_eq!(select_software(&software, ".dxf"), Some(1));
}

#[test]
fn unsupported_extension_finishes_without_launch() {
    let software = vec![app("A", &[".dwg"], true), app("B", &[".exb"], false)];
    match open_decision(&software, ".exb") {
        OpenDecision::Finish(res) => {
            assert!(!res.success);
            assert!(res.software.is_none());
            assert!(res.message.contains(".exb"));
            assert_eq!(res.error.as_deref(), Some("No compatible CAD software found"));
        }
        OpenDecision::Launch(i) => panic!("launched {}", i),
    }
    assert!(matches!(open_decision(&Vec::new(), ".dxf"), OpenDecision::Finish(_)));
    assert_eq!(
        unsupported_result(".step").message,
        "no CAD software found that supports .step files"
    );
}

#[test]
fn outcomes_carry_name_and_reason() {
    let ok = launch_result("AutoCAD 2024", Ok(()));
    assert!(ok.success);
    assert_eq!(ok.software.as_deref(), Some("AutoCAD 2024"));
    assert_eq!(ok.message, "opened the file with AutoCAD 2024");
    let bad = launch_result("QCAD", Err("no such file".to_string()));
    assert!(!bad.success);
    assert_eq!(bad.message, "failed to open the file with QCAD");
    assert_eq!(bad.error.as_deref(), Some("no such file"));
    let dl = download_failed_result("HTTP error: 500 - x".to_string());
    assert!(!dl.success);
    assert_eq!(dl.message, "download failed");
    assert_eq!(dl.error.as_deref(), Some("HTTP error: 500 - x"));
    let pd = path_download_failed_result("HTTP error: 404 - nf".to_string());
    assert!(!pd.success);
    assert!(pd.software.is_none());
    assert_eq!(pd.message, "download failed: HTTP error: 404 - nf");
    assert_eq!(pd.error.as_deref(), Some("HTTP error: 404 - nf"));
    let p = path_launch_result("/opt/cad", Err("denied".to_string()));
    assert_eq!(p.message, "failed to open CAD file: denied");
    assert_eq!(p.software.as_deref(), Some("/opt/cad"));
    assert!(path_launch_result("/opt/cad", Ok(())).success);
}

#[test]
fn windows_and_linux_spawn_the_executable() {
    for platform in [Platform::Windows, Platform::Linux] {
        let req = launch_request(platform, "C:\\cad\\acad.exe", "C:\\tmp\\a.dwg");
        let (attempt, program, args, pause) = run_parts(&first_action(&req, false));
        assert_eq!(attempt, Attempt::Executable);
        assert_eq!(program, "C:\\cad\\acad.exe");
        assert_eq!(args, vec!["C:\\tmp\\a.dwg"]);
        assert_eq!(pause, 0);
        match next_action(&req, attempt, Err("not found".to_string())) {
            LaunchAction::Done(Err(e)) => assert_eq!(e, "failed to start application: not found"),
            _ => panic!("expected failure"),
        }
        assert!(matches!(next_action(&req, attempt, Ok(())), LaunchAction::Done(Ok(()))));
    }
}

#[test]
fn vendor_bundle_chain_on_success() {
    let cad = "/Applications/Autodesk/AutoCAD.app";
    let req = launch_request(Platform::MacOS, cad, "/tmp/drawing_1.dxf");
    assert_eq!(req.app_name, "AutoCAD");
    let first = begin_launch(&req);
    let (attempt, program, args, _) = run_parts(&first);
    assert_eq!(attempt, Attempt::VendorLaunch);
    assert_eq!(program, "open");
    assert_eq!(args, vec!["-a", cad]);
    let (attempt, program, args, pause) = run_parts(&next_action(&req, attempt, Ok(())));
    assert_eq!(attempt, Attempt::Automation);
    assert_eq!(program, "osascript");
    assert_eq!(pause, 2);
    assert_eq!(args[0], "-e");
    assert!(args[1].contains("tell application \"AutoCAD\""));
    assert!(args[1].contains("open POSIX file \"/tmp/drawing_1.dxf\""));
    let (attempt, program, args, _) =
        run_parts(&next_action(&req, attempt, Err("spawn".to_string())));
    assert_eq!(attempt, Attempt::FallbackOpen);
    assert_eq!(program, "open");
    assert_eq!(args, vec!["/tmp/drawing_1.dxf"]);
}

#[test]
fn vendor_launch_failure_tries_combined_open() {
    let cad = "/Applications/Autodesk/AutoCAD.app";
    let req = launch_request(Platform::MacOS, cad, "/tmp/a.dxf");
    let next = next_action(&req, Attempt::VendorLaunch, Err("denied".to_string()));
    let (attempt, program, args, _) = run_parts(&next);
    assert_eq!(attempt, Attempt::CombinedOpen);
    assert_eq!(program, "open");
    assert_eq!(args, vec!["-a", cad, "/tmp/a.dxf"]);
    match next_action(&req, attempt, Err("again".to_string())) {
        LaunchAction::Done(Err(e)) => assert_eq!(e, "direct open failed: again"),
        _ => panic!("expected failure"),
    }
}

#[test]
fn other_macos_paths() {
    let req = launch_request(Platform::MacOS, "/Applications/FreeCAD.app", "/tmp/a.step");
    let (attempt, program, args, _) = run_parts(&first_action(&req, false));
    assert_eq!(attempt, Attempt::StandardOpen);
    assert_eq!(program, "open");
    assert_eq!(args, vec!["-a", "/Applications/FreeCAD.app", "/tmp/a.step"]);
    let exe = launch_request(Platform::MacOS, "/usr/local/bin/qcad", "/tmp/a.dxf");
    let (attempt, program, _, _) = run_parts(&first_action(&exe, true));
    assert_eq!(attempt, Attempt::ExecutableFile);
    assert_eq!(program, "/usr/local/bin/qcad");
    let missing = launch_request(Platform::MacOS, "/nowhere/cad-bin", "/tmp/a.dxf");
    let (attempt, program, args, _) = run_parts(&begin_launch(&missing));
    assert_eq!(attempt, Attempt::DefaultOpen);
    assert_eq!(program, "open");
    assert_eq!(args, vec!["/tmp/a.dxf"]);
}

#[test]
fn app_name_falls_back_without_stem() {
    assert_eq!(app_name_from_stem(None), "AutoCAD 2026");
    assert_eq!(app_name_from_stem(Some("AutoCAD 2025".to_string())), "AutoCAD 2025");
}
