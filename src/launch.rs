//! The steps that start a CAD application on a local file: which process to
//! spawn first, and what to do after each spawn succeeds or fails.
use vstd::prelude::*;
use crate::detect::path_exists;
use crate::model::{owned, texts_view};
use crate::text::{contains_text, ends_with_text, has_infix, has_suffix};

verus! {

/// The operating system whose launch conventions apply.
#[derive(Debug, Clone, Copy, PartialEq, Eq, Structural)]
pub enum Platform {
    Windows,
    MacOS,
    Linux,
}

/// One process spawn in a launch.
#[derive(Debug, Clone, Copy, PartialEq, Eq, Structural)]
pub enum Attempt {
    /// The application's executable, given the file (Windows, Linux).
    Executable,
    /// `open -a <bundle> <file>` for a bundle without special handling.
    StandardOpen,
    /// A plain executable on macOS, given the file.
    ExecutableFile,
    /// `open <file>` when the application path names nothing on disk.
    DefaultOpen,
    /// `open -a <bundle>` for an AutoCAD bundle, before the file is sent.
    VendorLaunch,
    /// AppleScript telling the running AutoCAD to open the file.
    Automation,
    /// `open <file>` after the AppleScript could not be started.
    FallbackOpen,
    /// `open -a <bundle> <file>` after the bundle itself could not be started.
    CombinedOpen,
}

/// A program and its arguments.
pub struct ProcessCommand {
    pub program: String,
    pub args: Vec<String>,
}

pub struct CommandView {
    pub program: Seq<char>,
    pub args: Seq<Seq<char>>,
}

impl View for ProcessCommand {
    type V = CommandView;

    open spec fn view(&self) -> CommandView {
        CommandView { program: self.program@, args: texts_view(self.args@) }
    }
}

/// What to do next in a launch.
pub enum LaunchAction {
    /// Wait `pause_secs` seconds, then spawn `command` without waiting for it.
    Run { attempt: Attempt, command: ProcessCommand, pause_secs: u64 },
    /// The launch is over, with this outcome.
    Done(Result<(), String>),
}

pub enum ActionView {
    Run { attempt: Attempt, command: CommandView, pause_secs: u64 },
    Done(Result<(), Seq<char>>),
}

impl View for LaunchAction {
    type V = ActionView;

    open spec fn view(&self) -> ActionView {
        match self {
            LaunchAction::Run { attempt, command, pause_secs } => ActionView::Run {
                attempt: *attempt,
                command: command@,
                pause_secs: *pause_secs,
            },
            LaunchAction::Done(Ok(())) => ActionView::Done(Ok(())),
            LaunchAction::Done(Err(e)) => ActionView::Done(Err(e@)),
        }
    }
}

/// One launch: where the application is, which file it opens, and the name
/// AppleScript addresses it by.
pub struct LaunchRequest {
    pub platform: Platform,
    pub cad_path: String,
    pub file_path: String,
    pub app_name: String,
}

/// Name of what `std::path::Path::file_stem` returns for a path.
pub uninterp spec fn file_stem_of(path: Seq<char>) -> Option<Seq<char>>;

/// Relies on `std::path::Path::file_stem`: the final component of the path
/// without its last extension. The input is UTF-8, so the stem is too.
#[verifier::external_body]
fn file_stem(path: &str) -> (r: Option<String>)
    ensures
        match file_stem_of(path@) {
            Some(s) => r is Some && r->0@ == s,
            None => r is None,
        },
{
    std::path::Path::new(path).file_stem().and_then(|s| s.to_str()).map(|s| s.to_string())
}

pub open spec fn app_name_for(stem: Option<Seq<char>>) -> Seq<char> {
    match stem {
        Some(s) => s,
        None => "AutoCAD 2026"@,
    }
}

/// The application name AppleScript uses: the bundle's file stem, or
/// `AutoCAD 2026` when the path has none.
pub fn app_name_from_stem(stem: Option<String>) -> (r: String)
    ensures
        r@ == app_name_for(
            match stem {
                Some(s) => Some(s@),
                None => None,
            },
        ),
{
    match stem {
        Some(s) => s,
        None => owned("AutoCAD 2026"),
    }
}

/// The request to launch `cad_path` on `file_path`.
pub fn launch_request(platform: Platform, cad_path: &str, file_path: &str) -> (r: LaunchRequest)
    ensures
        r.platform == platform,
        r.cad_path@ == cad_path@,
        r.file_path@ == file_path@,
        r.app_name@ == app_name_for(file_stem_of(cad_path@)),
{
    let stem = file_stem(cad_path);
    LaunchRequest {
        platform,
        cad_path: owned(cad_path),
        file_path: owned(file_path),
        app_name: app_name_from_stem(stem),
    }
}

pub open spec fn cmd(program: Seq<char>, args: Seq<Seq<char>>) -> CommandView {
    CommandView { program, args }
}

pub open spec fn run(attempt: Attempt, command: CommandView, pause_secs: u64) -> ActionView {
    ActionView::Run { attempt, command, pause_secs }
}

pub open spec fn is_bundle(path: Seq<char>) -> bool {
    has_suffix(path, ".app"@)
}

pub open spec fn is_vendor_bundle(path: Seq<char>) -> bool {
    has_infix(path, "AutoCAD"@)
}

/// The first spawn of a launch; `executable_exists` tells whether the
/// application path names a file, which matters only for a macOS path that
/// is not a bundle.
pub open spec fn first_action_spec(
    platform: Platform,
    cad: Seq<char>,
    file: Seq<char>,
    executable_exists: bool,
) -> ActionView {
    match platform {
        Platform::MacOS => if is_bundle(cad) {
            if is_vendor_bundle(cad) {
                run(Attempt::VendorLaunch, cmd("open"@, seq!["-a"@, cad]), 0)
            } else {
                run(Attempt::StandardOpen, cmd("open"@, seq!["-a"@, cad, file]), 0)
            }
        } else if executable_exists {
            run(Attempt::ExecutableFile, cmd(cad, seq![file]), 0)
        } else {
            run(Attempt::DefaultOpen, cmd("open"@, seq![file]), 0)
        },
        _ => run(Attempt::Executable, cmd(cad, seq![file]), 0),
    }
}

/// The AppleScript that makes application `app` open `file`.
pub open spec fn open_script(app: Seq<char>, file: Seq<char>) -> Seq<char> {
    "tell application \""@ + app + "\"\n    activate\n    open POSIX file \""@ + file
        + "\"\nend tell"@
}

/// Seconds to wait after starting AutoCAD before asking it to open the file.
pub open spec fn startup_pause() -> u64 {
    2
}

pub open spec fn failure_prefix(attempt: Attempt) -> Seq<char> {
    match attempt {
        Attempt::Executable => "failed to start application: "@,
        Attempt::StandardOpen => "standard launch failed: "@,
        Attempt::ExecutableFile => "executable launch failed: "@,
        Attempt::DefaultOpen => "default open failed: "@,
        Attempt::FallbackOpen => "fallback open failed: "@,
        Attempt::CombinedOpen => "direct open failed: "@,
        Attempt::VendorLaunch => "AutoCAD launch failed: "@,
        Attempt::Automation => "AppleScript failed: "@,
    }
}

/// What follows `attempt` once its spawn gave `outcome`. Starting AutoCAD
/// is followed by the AppleScript, or by `open -a <bundle> <file>` if it
/// could not be started; an AppleScript that could not be started is
/// followed by `open <file>`. Every other spawn ends the launch.
pub open spec fn next_action_spec(
    attempt: Attempt,
    req_cad: Seq<char>,
    req_file: Seq<char>,
    app_name: Seq<char>,
    outcome: Result<(), Seq<char>>,
) -> ActionView {
    match (attempt, outcome) {
        (Attempt::VendorLaunch, Ok(())) => run(
            Attempt::Automation,
            cmd("osascript"@, seq!["-e"@, open_script(app_name, req_file)]),
            startup_pause(),
        ),
        (Attempt::VendorLaunch, Err(_)) => run(
            Attempt::CombinedOpen,
            cmd("open"@, seq!["-a"@, req_cad, req_file]),
            0,
        ),
        (Attempt::Automation, Err(_)) => run(Attempt::FallbackOpen, cmd("open"@, seq![req_file]), 0),
        (_, Ok(())) => ActionView::Done(Ok(())),
        (a, Err(e)) => ActionView::Done(Err(failure_prefix(a) + e)),
    }
}

fn args1(a: &str) -> (r: Vec<String>)
    ensures
        texts_view(r@) == seq![a@],
{
    let r = vec![owned(a)];
    assert(texts_view(r@) =~= seq![a@]);
    r
}

fn args2(a: &str, b: &str) -> (r: Vec<String>)
    ensures
        texts_view(r@) == seq![a@, b@],
{
    let r = vec![owned(a), owned(b)];
    assert(texts_view(r@) =~= seq![a@, b@]);
    r
}

fn args3(a: &str, b: &str, c: &str) -> (r: Vec<String>)
    ensures
        texts_view(r@) == seq![a@, b@, c@],
{
    let r = vec![owned(a), owned(b), owned(c)];
    assert(texts_view(r@) =~= seq![a@, b@, c@]);
    r
}

fn command(program: &str, args: Vec<String>) -> (r: ProcessCommand)
    ensures
        r@ == cmd(program@, texts_view(args@)),
{
    ProcessCommand { program: owned(program), args }
}

/// The first spawn of `req`, given whether its application path names a file.
pub fn first_action(req: &LaunchRequest, executable_exists: bool) -> (r: LaunchAction)
    ensures
        r@ == first_action_spec(req.platform, req.cad_path@, req.file_path@, executable_exists),
{
    let cad = req.cad_path.as_str();
    let file = req.file_path.as_str();
    match req.platform {
        Platform::MacOS => {
            if ends_with_text(cad, ".app") {
                if contains_text(cad, "AutoCAD") {
                    LaunchAction::Run {
                        attempt: Attempt::VendorLaunch,
                        command: command("open", args2("-a", cad)),
                        pause_secs: 0,
                    }
                } else {
                    LaunchAction::Run {
                        attempt: Attempt::StandardOpen,
                        command: command("open", args3("-a", cad, file)),
                        pause_secs: 0,
                    }
                }
            } else if executable_exists {
                LaunchAction::Run {
                    attempt: Attempt::ExecutableFile,
                    command: command(cad, args1(file)),
                    pause_secs: 0,
                }
            } else {
                LaunchAction::Run {
                    attempt: Attempt::DefaultOpen,
                    command: command("open", args1(file)),
                    pause_secs: 0,
                }
            }
        },
        _ => LaunchAction::Run {
            attempt: Attempt::Executable,
            command: command(cad, args1(file)),
            pause_secs: 0,
        },
    }
}

/// The first spawn of `req`; for a macOS path that is not a bundle this
/// checks whether the path exists.
pub fn begin_launch(req: &LaunchRequest) -> (r: LaunchAction)
    ensures
        exists|found: bool|
            r@ == first_action_spec(req.platform, req.cad_path@, req.file_path@, found),
{
    let exists = if req.platform == Platform::MacOS && !ends_with_text(
        req.cad_path.as_str(),
        ".app",
    ) {
        path_exists(req.cad_path.as_str())
    } else {
        false
    };
    first_action(req, exists)
}

fn open_script_text(app: &str, file: &str) -> (r: String)
    ensures
        r@ == open_script(app@, file@),
{
    let mut s = owned("tell application \"");
    s.append(app);
    s.append("\"\n    activate\n    open POSIX file \"");
    s.append(file);
    s.append("\"\nend tell");
    s
}

fn failure_prefix_text(attempt: Attempt) -> (r: String)
    ensures
        r@ == failure_prefix(attempt),
{
    match attempt {
        Attempt::Executable => owned("failed to start application: "),
        Attempt::StandardOpen => owned("standard launch failed: "),
        Attempt::ExecutableFile => owned("executable launch failed: "),
        Attempt::DefaultOpen => owned("default open failed: "),
        Attempt::FallbackOpen => owned("fallback open failed: "),
        Attempt::CombinedOpen => owned("direct open failed: "),
        Attempt::VendorLaunch => owned("AutoCAD launch failed: "),
        Attempt::Automation => owned("AppleScript failed: "),
    }
}

/// What follows `attempt` of `req` once its spawn gave `outcome` (the
/// operating system's error text on failure).
pub fn next_action(req: &LaunchRequest, attempt: Attempt, outcome: Result<(), String>) -> (r:
    LaunchAction)
    ensures
        r@ == next_action_spec(
            attempt,
            req.cad_path@,
            req.file_path@,
            req.app_name@,
            match outcome {
                Ok(()) => Ok(()),
                Err(e) => Err(e@),
            },
        ),
{
    let cad = req.cad_path.as_str();
    let file = req.file_path.as_str();
    match (attempt, outcome) {
        (Attempt::VendorLaunch, Ok(())) => {
            let script = open_script_text(req.app_name.as_str(), file);
            LaunchAction::Run {
                attempt: Attempt::Automation,
                command: command("osascript", args2("-e", script.as_str())),
                pause_secs: 2,
            }
        },
        (Attempt::VendorLaunch, Err(_)) => LaunchAction::Run {
            attempt: Attempt::CombinedOpen,
            command: command("open", args3("-a", cad, file)),
            pause_secs: 0,
        },
        (Attempt::Automation, Err(_)) => LaunchAction::Run {
            attempt: Attempt::FallbackOpen,
            command: command("open", args1(file)),
            pause_secs: 0,
        },
        (_, Ok(())) => LaunchAction::Done(Ok(())),
        (a, Err(e)) => {
            let mut m = failure_prefix_text(a);
            m.append(e.as_str());
            LaunchAction::Done(Err(m))
        },
    }
}

/// When starting the AutoCAD bundle fails, the launch goes on with
/// `open -a <bundle> <file>` rather than failing at once, and only a failure
/// of that spawn ends it with an error.
pub proof fn vendor_launch_failure_tries_combined_open(
    cad: Seq<char>,
    file: Seq<char>,
    app_name: Seq<char>,
    e: Seq<char>,
    e2: Seq<char>,
)
    ensures
        next_action_spec(Attempt::VendorLaunch, cad, file, app_name, Err(e)) == run(
            Attempt::CombinedOpen,
            cmd("open"@, seq!["-a"@, cad, file]),
            0,
        ),
        next_action_spec(Attempt::CombinedOpen, cad, file, app_name, Err(e2)) == ActionView::Done(
            Err(failure_prefix(Attempt::CombinedOpen) + e2),
        ),
{
}

} // verus!
