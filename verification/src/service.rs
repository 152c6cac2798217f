//! The launch agent: its property list, and what the service commands do.
use vstd::prelude::*;

use crate::text;

verus! {

/// Where the property list is, in a home directory.
pub open spec fn plist_path_text(home: Seq<char>) -> Seq<char> {
    home + (if home.last() == '/' {
        ""@
    } else {
        "/"@
    }) + "Library/LaunchAgents/com.asmvik.yabai.plist"@
}

/// Where the property list is; nothing without a home directory.
pub fn plist_path(home: Option<&str>) -> (r: Option<String>)
    ensures
        match home {
            Some(dir) => if dir@.len() == 0 {
                r is None
            } else {
                r is Some && r->0@ == plist_path_text(dir@)
            },
            None => r is None,
        },
{
    match home {
        Some(dir) => {
            let chars = text::chars_of(dir);
            if chars.len() == 0 {
                return None;
            }
            let mut out = dir.to_owned();
            out.append(
                if chars[chars.len() - 1] == '/' {
                    ""
                } else {
                    "/"
                },
            );
            out.append("Library/LaunchAgents/com.asmvik.yabai.plist");
            Some(out)
        },
        None => None,
    }
}

/// The first half of the property list, up to the search path.
pub open spec fn plist_start(exe: Seq<char>, path: Seq<char>) -> Seq<char> {
    "<?xml version=\"1.0\" encoding=\"UTF-8\"?>\n<!DOCTYPE plist PUBLIC \"-//Apple//DTD PLIST 1.0//EN\" \"http://www.apple.com/DTDs/PropertyList-1.0.dtd\">\n<plist version=\"1.0\">\n<dict>\n    <key>Label</key>\n    <string>com.asmvik.yabai</string>\n    <key>ProgramArguments</key>\n    <array>\n        <string>"@
        + exe
        + "</string>\n    </array>\n    <key>EnvironmentVariables</key>\n    <dict>\n        <key>PATH</key>\n        <string>"@
        + path
}

/// The property list of the launch agent.
pub open spec fn plist_text(exe: Seq<char>, path: Seq<char>, user: Seq<char>) -> Seq<char> {
    plist_start(exe, path)
        + "</string>\n    </dict>\n    <key>RunAtLoad</key>\n    <true/>\n    <key>KeepAlive</key>\n    <dict>\n        <key>SuccessfulExit</key>\n        <false/>\n        <key>Crashed</key>\n        <true/>\n    </dict>\n    <key>StandardOutPath</key>\n    <string>/tmp/yabai_"@
        + user + ".out.log</string>\n    <key>StandardErrorPath</key>\n    <string>/tmp/yabai_"@
        + user
        + ".err.log</string>\n    <key>ProcessType</key>\n    <string>Interactive</string>\n    <key>Nice</key>\n    <integer>-20</integer>\n</dict>\n</plist>"@
}

/// The property list of the launch agent; nothing without a user or an
/// executable. Without a search path it is empty.
pub fn plist_contents(user: Option<&str>, path: Option<&str>, exe: Option<&str>) -> (r: Option<
    String,
>)
    ensures
        match (user, exe) {
            (Some(user), Some(exe)) => if user@.len() == 0 {
                r is None
            } else {
                r is Some && r->0@ == plist_text(
                    exe@,
                    match path {
                        Some(p) => p@,
                        None => ""@,
                    },
                    user@,
                )
            },
            _ => r is None,
        },
{
    let user = match user {
        Some(user) => user,
        None => {
            return None;
        },
    };
    if text::chars_of(user).len() == 0 {
        return None;
    }
    let exe = match exe {
        Some(exe) => exe,
        None => {
            return None;
        },
    };
    let path = match path {
        Some(path) => path,
        None => "",
    };
    let mut out =
        "<?xml version=\"1.0\" encoding=\"UTF-8\"?>\n<!DOCTYPE plist PUBLIC \"-//Apple//DTD PLIST 1.0//EN\" \"http://www.apple.com/DTDs/PropertyList-1.0.dtd\">\n<plist version=\"1.0\">\n<dict>\n    <key>Label</key>\n    <string>com.asmvik.yabai</string>\n    <key>ProgramArguments</key>\n    <array>\n        <string>".to_owned();
    out.append(exe);
    out.append(
        "</string>\n    </array>\n    <key>EnvironmentVariables</key>\n    <dict>\n        <key>PATH</key>\n        <string>",
    );
    out.append(path);
    out.append(
        "</string>\n    </dict>\n    <key>RunAtLoad</key>\n    <true/>\n    <key>KeepAlive</key>\n    <dict>\n        <key>SuccessfulExit</key>\n        <false/>\n        <key>Crashed</key>\n        <true/>\n    </dict>\n    <key>StandardOutPath</key>\n    <string>/tmp/yabai_",
    );
    out.append(user);
    out.append(
        ".out.log</string>\n    <key>StandardErrorPath</key>\n    <string>/tmp/yabai_",
    );
    out.append(user);
    out.append(
        ".err.log</string>\n    <key>ProcessType</key>\n    <string>Interactive</string>\n    <key>Nice</key>\n    <integer>-20</integer>\n</dict>\n</plist>",
    );
    Some(out)
}

/// The launchd domain of a user.
pub open spec fn domain_text(uid: u32) -> Seq<char> {
    "gui/"@ + text::decimal(uid as nat)
}

/// The launchd name of a user's service.
pub open spec fn service_text(uid: u32) -> Seq<char> {
    "gui/"@ + text::decimal(uid as nat) + "/com.asmvik.yabai"@
}

/// The launchd domain of a user.
pub fn domain_target(uid: u32) -> (r: String)
    ensures
        r@ == domain_text(uid),
{
    let mut out = "gui/".to_owned();
    text::push_decimal(&mut out, uid as u64);
    out
}

/// The launchd name of a user's service.
pub fn service_target(uid: u32) -> (r: String)
    ensures
        r@ == service_text(uid),
{
    let mut out = "gui/".to_owned();
    text::push_decimal(&mut out, uid as u64);
    out.append("/com.asmvik.yabai");
    out
}

/// A service command.
#[derive(Debug, Clone, Copy, PartialEq, Eq, Structural)]
pub enum ServiceCommand {
    Install,
    Uninstall,
    Start,
    Restart,
    Stop,
}

/// What a service command does first.
#[derive(Debug)]
pub enum ServiceStep {
    /// Stop with exit code one, with a complaint or without.
    Refuse(Option<String>),
    WritePlist,
    RemovePlist,
    /// Ask launchd whether the service is loaded.
    Probe,
    /// Restart the service.
    Kickstart,
}

/// A complaint about the service file.
pub open spec fn file_complaint(path: Seq<char>, what: Seq<char>) -> Seq<char> {
    "yabai: service file '"@ + path + "' "@ + what
}

fn file_error(path: &str, what: &str) -> (r: String)
    ensures
        r@ == file_complaint(path@, what@),
{
    let mut out = "yabai: service file '".to_owned();
    out.append(path);
    out.append("' ");
    out.append(what);
    out
}

/// Whether a step is the first one of a service command.
pub open spec fn is_first_step(
    step: ServiceStep,
    command: ServiceCommand,
    path: Option<&str>,
    exists: bool,
) -> bool {
    match (path, command) {
        (None, ServiceCommand::Install) => step matches ServiceStep::Refuse(Some(e)) && e@
            == "yabai: could not resolve LaunchAgents path (env HOME not set)!"@,
        (None, _) => step matches ServiceStep::Refuse(None),
        (Some(path), ServiceCommand::Install) => if exists {
            step matches ServiceStep::Refuse(Some(e)) && e@ == file_complaint(
                path@,
                "is already installed!"@,
            )
        } else {
            step is WritePlist
        },
        (Some(path), ServiceCommand::Start) => if exists {
            step is Probe
        } else {
            step is WritePlist
        },
        (Some(path), _) => if !exists {
            step matches ServiceStep::Refuse(Some(e)) && e@ == file_complaint(
                path@,
                "is not installed!"@,
            )
        } else {
            match command {
                ServiceCommand::Uninstall => step is RemovePlist,
                ServiceCommand::Restart => step is Kickstart,
                _ => step is Probe,
            }
        },
    }
}

/// The first step of a service command. `path` is that of the service file.
pub fn first_step(command: ServiceCommand, path: Option<&str>, exists: bool) -> (r: ServiceStep)
    ensures
        is_first_step(r, command, path, exists),
{
    let path = match path {
        Some(path) => path,
        None => {
            return match command {
                ServiceCommand::Install => ServiceStep::Refuse(
                    Some(
                        "yabai: could not resolve LaunchAgents path (env HOME not set)!".to_owned(),
                    ),
                ),
                _ => ServiceStep::Refuse(None),
            };
        },
    };
    match command {
        ServiceCommand::Install => if exists {
            ServiceStep::Refuse(Some(file_error(path, "is already installed!")))
        } else {
            ServiceStep::WritePlist
        },
        ServiceCommand::Start => if exists {
            ServiceStep::Probe
        } else {
            ServiceStep::WritePlist
        },
        _ => if !exists {
            ServiceStep::Refuse(Some(file_error(path, "is not installed!")))
        } else {
            match command {
                ServiceCommand::Uninstall => ServiceStep::RemovePlist,
                ServiceCommand::Restart => ServiceStep::Kickstart,
                _ => ServiceStep::Probe,
            }
        },
    }
}

/// What `--start-service` answers when the service file could not be written.
pub fn start_error(path: &str) -> (r: String)
    ensures
        r@ == file_complaint(path@, "could not be installed!"@),
{
    file_error(path, "could not be installed!")
}

/// The calls of launchctl that start or stop the service. The exit code of the
/// last one decides.
pub open spec fn launch_calls(
    start: bool,
    loaded: bool,
    uid: u32,
    path: Seq<char>,
) -> Seq<Seq<Seq<char>>> {
    if start {
        if loaded {
            seq![seq!["kickstart"@, service_text(uid)]]
        } else {
            seq![
                seq!["enable"@, service_text(uid)],
                seq!["bootstrap"@, domain_text(uid), path],
            ]
        }
    } else {
        if loaded {
            seq![seq!["bootout"@, domain_text(uid), path], seq!["disable"@, service_text(uid)]]
        } else {
            seq![seq!["kill"@, "SIGTERM"@, service_text(uid)]]
        }
    }
}

/// The arguments of launchctl calls.
pub open spec fn call_words(calls: Seq<Vec<String>>) -> Seq<Seq<Seq<char>>> {
    calls.map_values(|words: Vec<String>| text::texts(words@))
}

/// The calls of launchctl that start or stop the service.
pub fn plan_launch(start: bool, loaded: bool, uid: u32, path: &str) -> (r: Vec<Vec<String>>)
    ensures
        call_words(r@) == launch_calls(start, loaded, uid, path@),
{
    let r = if start {
        if loaded {
            vec![vec!["kickstart".to_owned(), service_target(uid)]]
        } else {
            vec![
                vec!["enable".to_owned(), service_target(uid)],
                vec!["bootstrap".to_owned(), domain_target(uid), path.to_owned()],
            ]
        }
    } else {
        if loaded {
            vec![
                vec!["bootout".to_owned(), domain_target(uid), path.to_owned()],
                vec!["disable".to_owned(), service_target(uid)],
            ]
        } else {
            vec![vec!["kill".to_owned(), "SIGTERM".to_owned(), service_target(uid)]]
        }
    };
    proof {
        let goal = launch_calls(start, loaded, uid, path@);
        assert(call_words(r@).len() == goal.len());
        assert(call_words(r@)[0] =~= goal[0]);
        if goal.len() == 2 {
            assert(call_words(r@)[1] =~= goal[1]);
        }
        assert(call_words(r@) =~= goal);
    }
    r
}

/// The call of launchctl that restarts the service.
pub fn restart_call(uid: u32) -> (r: Vec<String>)
    ensures
        text::texts(r@) == seq!["kickstart"@, "-k"@, service_text(uid)],
{
    let r = vec!["kickstart".to_owned(), "-k".to_owned(), service_target(uid)];
    assert(text::texts(r@) =~= seq!["kickstart"@, "-k"@, service_text(uid)]);
    r
}

/// The property list is under the home directory, with one slash between, whether the
/// directory ends with one or not.
pub proof fn law_place_of_the_list(home: Seq<char>)
    requires
        home.len() > 0,
    ensures
        home[home.len() - 1] != '/' ==> plist_path_text(home) == home
            + "/Library/LaunchAgents/com.asmvik.yabai.plist"@,
        home[home.len() - 1] == '/' ==> plist_path_text(home) == home
            + "Library/LaunchAgents/com.asmvik.yabai.plist"@,
{
    reveal_strlit("/");
    reveal_strlit("");
    reveal_strlit("Library/LaunchAgents/com.asmvik.yabai.plist");
    reveal_strlit("/Library/LaunchAgents/com.asmvik.yabai.plist");
    let rest = "Library/LaunchAgents/com.asmvik.yabai.plist"@;
    if home[home.len() - 1] == '/' {
        assert(home + ""@ + rest =~= home + rest);
    } else {
        assert("/"@ + rest =~= "/Library/LaunchAgents/com.asmvik.yabai.plist"@);
        assert(home + "/"@ + rest =~= home + ("/"@ + rest));
    }
}

/// A service stands under the domain of its user.
pub proof fn law_service_stands_in_its_domain(uid: u32)
    ensures
        domain_text(uid) == "gui/"@ + text::decimal(uid as nat),
        service_text(uid) == domain_text(uid) + "/com.asmvik.yabai"@,
{
}

/// A service command begins as its name says: an installation is refused if there is
/// one, a start installs first if there is none, and the others need one.
pub proof fn law_first_steps(step: ServiceStep, path: &str, command: ServiceCommand)
    ensures
        is_first_step(step, ServiceCommand::Install, Some(path), false) ==> step is WritePlist,
        is_first_step(step, ServiceCommand::Install, Some(path), true) ==> {
            &&& step matches ServiceStep::Refuse(Some(e))
            &&& e@ == "yabai: service file '"@ + path@ + "' "@ + "is already installed!"@
        },
        is_first_step(step, ServiceCommand::Start, Some(path), false) ==> step is WritePlist,
        is_first_step(step, ServiceCommand::Start, Some(path), true) ==> step is Probe,
        is_first_step(step, ServiceCommand::Stop, Some(path), true) ==> step is Probe,
        is_first_step(step, ServiceCommand::Uninstall, Some(path), true) ==> step is RemovePlist,
        is_first_step(step, ServiceCommand::Restart, Some(path), true) ==> step is Kickstart,
        (command == ServiceCommand::Uninstall || command == ServiceCommand::Restart || command
            == ServiceCommand::Stop) && is_first_step(step, command, Some(path), false) ==> {
            &&& step matches ServiceStep::Refuse(Some(e))
            &&& e@ == "yabai: service file '"@ + path@ + "' "@ + "is not installed!"@
        },
        is_first_step(step, command, None, true) ==> step is Refuse,
        is_first_step(step, command, None, false) ==> step is Refuse,
{
}

/// A service that is loaded is started again or taken out of its domain; one that is
/// not is enabled and put in, or its process is ended.
pub proof fn law_launch_calls(uid: u32, path: Seq<char>)
    ensures
        launch_calls(true, true, uid, path) == seq![seq!["kickstart"@, service_text(uid)]],
        launch_calls(true, false, uid, path) == seq![
            seq!["enable"@, service_text(uid)],
            seq!["bootstrap"@, domain_text(uid), path],
        ],
        launch_calls(false, true, uid, path) == seq![
            seq!["bootout"@, domain_text(uid), path],
            seq!["disable"@, service_text(uid)],
        ],
        launch_calls(false, false, uid, path) == seq![
            seq!["kill"@, "SIGTERM"@, service_text(uid)],
        ],
{
}

#[verifier::spinoff_prover]
proof fn lemma_first_piece()
    ensures
        "<?xml version=\"1.0\" encoding=\"UTF-8\"?>\n<!DOCTYPE plist PUBLIC \"-//Apple//DTD PLIST 1.0//EN\" \"http://www.apple.com/DTDs/PropertyList-1.0.dtd\">\n<plist version=\"1.0\">\n<dict>\n    <key>Label</key>\n    <string>com.asmvik.yabai</string>\n    <key>ProgramArguments</key>\n    <array>\n        <string>"@
            == "<?xml version=\"1.0\" encoding=\"UTF-8\"?>\n<!DOCTYPE plist PUBLIC \"-//Apple//DTD PLIST 1.0//EN\" \"http://www.apple.com/DTDs/PropertyList-1.0.dtd\">\n<plist version=\"1.0\">\n<dict>\n    <key>Label</key>\n    <string>com.asmvik.yabai</string>\n    "@
            + "<key>ProgramArguments</key>\n    <array>\n        <string>"@,
{
    reveal_strlit("<?xml version=\"1.0\" encoding=\"UTF-8\"?>\n<!DOCTYPE plist PUBLIC \"-//Apple//DTD PLIST 1.0//EN\" \"http://www.apple.com/DTDs/PropertyList-1.0.dtd\">\n<plist version=\"1.0\">\n<dict>\n    <key>Label</key>\n    <string>com.asmvik.yabai</string>\n    <key>ProgramArguments</key>\n    <array>\n        <string>");
    reveal_strlit("<?xml version=\"1.0\" encoding=\"UTF-8\"?>\n<!DOCTYPE plist PUBLIC \"-//Apple//DTD PLIST 1.0//EN\" \"http://www.apple.com/DTDs/PropertyList-1.0.dtd\">\n<plist version=\"1.0\">\n<dict>\n    <key>Label</key>\n    <string>com.asmvik.yabai</string>\n    ");
    reveal_strlit("<key>ProgramArguments</key>\n    <array>\n        <string>");
    assert("<?xml version=\"1.0\" encoding=\"UTF-8\"?>\n<!DOCTYPE plist PUBLIC \"-//Apple//DTD PLIST 1.0//EN\" \"http://www.apple.com/DTDs/PropertyList-1.0.dtd\">\n<plist version=\"1.0\">\n<dict>\n    <key>Label</key>\n    <string>com.asmvik.yabai</string>\n    <key>ProgramArguments</key>\n    <array>\n        <string>"@
        =~= "<?xml version=\"1.0\" encoding=\"UTF-8\"?>\n<!DOCTYPE plist PUBLIC \"-//Apple//DTD PLIST 1.0//EN\" \"http://www.apple.com/DTDs/PropertyList-1.0.dtd\">\n<plist version=\"1.0\">\n<dict>\n    <key>Label</key>\n    <string>com.asmvik.yabai</string>\n    "@
        + "<key>ProgramArguments</key>\n    <array>\n        <string>"@);
}

#[verifier::spinoff_prover]
proof fn lemma_path_piece()
    ensures
        "</string>\n    </array>\n    <key>EnvironmentVariables</key>\n    <dict>\n        <key>PATH</key>\n        <string>"@
            == "</string>"@
            + "\n    </array>\n    <key>EnvironmentVariables</key>\n    <dict>\n        "@
            + "<key>PATH</key>\n        <string>"@,
{
    reveal_strlit("</string>\n    </array>\n    <key>EnvironmentVariables</key>\n    <dict>\n        <key>PATH</key>\n        <string>");
    reveal_strlit("</string>");
    reveal_strlit("\n    </array>\n    <key>EnvironmentVariables</key>\n    <dict>\n        ");
    reveal_strlit("<key>PATH</key>\n        <string>");
    assert("</string>\n    </array>\n    <key>EnvironmentVariables</key>\n    <dict>\n        <key>PATH</key>\n        <string>"@
        =~= "</string>"@
        + "\n    </array>\n    <key>EnvironmentVariables</key>\n    <dict>\n        "@
        + "<key>PATH</key>\n        <string>"@);
}

#[verifier::spinoff_prover]
proof fn lemma_out_piece()
    ensures
        "</string>\n    </dict>\n    <key>RunAtLoad</key>\n    <true/>\n    <key>KeepAlive</key>\n    <dict>\n        <key>SuccessfulExit</key>\n        <false/>\n        <key>Crashed</key>\n        <true/>\n    </dict>\n    <key>StandardOutPath</key>\n    <string>/tmp/yabai_"@
            == "</string>"@
            + "\n    </dict>\n    <key>RunAtLoad</key>\n    <true/>\n    <key>KeepAlive</key>\n    <dict>\n        <key>SuccessfulExit</key>\n        <false/>\n        <key>Crashed</key>\n        <true/>\n    </dict>\n    "@
            + "<key>StandardOutPath</key>\n    <string>/tmp/yabai_"@,
{
    reveal_strlit("</string>\n    </dict>\n    <key>RunAtLoad</key>\n    <true/>\n    <key>KeepAlive</key>\n    <dict>\n        <key>SuccessfulExit</key>\n        <false/>\n        <key>Crashed</key>\n        <true/>\n    </dict>\n    <key>StandardOutPath</key>\n    <string>/tmp/yabai_");
    reveal_strlit("</string>");
    reveal_strlit("\n    </dict>\n    <key>RunAtLoad</key>\n    <true/>\n    <key>KeepAlive</key>\n    <dict>\n        <key>SuccessfulExit</key>\n        <false/>\n        <key>Crashed</key>\n        <true/>\n    </dict>\n    ");
    reveal_strlit("<key>StandardOutPath</key>\n    <string>/tmp/yabai_");
    assert("</string>\n    </dict>\n    <key>RunAtLoad</key>\n    <true/>\n    <key>KeepAlive</key>\n    <dict>\n        <key>SuccessfulExit</key>\n        <false/>\n        <key>Crashed</key>\n        <true/>\n    </dict>\n    <key>StandardOutPath</key>\n    <string>/tmp/yabai_"@
        =~= "</string>"@
        + "\n    </dict>\n    <key>RunAtLoad</key>\n    <true/>\n    <key>KeepAlive</key>\n    <dict>\n        <key>SuccessfulExit</key>\n        <false/>\n        <key>Crashed</key>\n        <true/>\n    </dict>\n    "@
        + "<key>StandardOutPath</key>\n    <string>/tmp/yabai_"@);
}

#[verifier::spinoff_prover]
proof fn lemma_err_piece()
    ensures
        ".out.log</string>\n    <key>StandardErrorPath</key>\n    <string>/tmp/yabai_"@
            == ".out.log</string>"@
            + "\n    "@
            + "<key>StandardErrorPath</key>\n    <string>/tmp/yabai_"@,
{
    reveal_strlit(".out.log</string>\n    <key>StandardErrorPath</key>\n    <string>/tmp/yabai_");
    reveal_strlit(".out.log</string>");
    reveal_strlit("\n    ");
    reveal_strlit("<key>StandardErrorPath</key>\n    <string>/tmp/yabai_");
    assert(".out.log</string>\n    <key>StandardErrorPath</key>\n    <string>/tmp/yabai_"@
        =~= ".out.log</string>"@
        + "\n    "@
        + "<key>StandardErrorPath</key>\n    <string>/tmp/yabai_"@);
}

#[verifier::spinoff_prover]
proof fn lemma_last_piece()
    ensures
        ".err.log</string>\n    <key>ProcessType</key>\n    <string>Interactive</string>\n    <key>Nice</key>\n    <integer>-20</integer>\n</dict>\n</plist>"@
            == ".err.log</string>"@
            + "\n    <key>ProcessType</key>\n    <string>Interactive</string>\n    <key>Nice</key>\n    <integer>-20</integer>\n</dict>\n</plist>"@,
{
    reveal_strlit(".err.log</string>\n    <key>ProcessType</key>\n    <string>Interactive</string>\n    <key>Nice</key>\n    <integer>-20</integer>\n</dict>\n</plist>");
    reveal_strlit(".err.log</string>");
    reveal_strlit("\n    <key>ProcessType</key>\n    <string>Interactive</string>\n    <key>Nice</key>\n    <integer>-20</integer>\n</dict>\n</plist>");
    assert(".err.log</string>\n    <key>ProcessType</key>\n    <string>Interactive</string>\n    <key>Nice</key>\n    <integer>-20</integer>\n</dict>\n</plist>"@
        =~= ".err.log</string>"@
        + "\n    <key>ProcessType</key>\n    <string>Interactive</string>\n    <key>Nice</key>\n    <integer>-20</integer>\n</dict>\n</plist>"@);
}

/// The property list names the executable as the program, the search path as the path,
/// and the two logs of the user as where output and errors go.
pub proof fn law_list_names_its_parts(exe: Seq<char>, path: Seq<char>, user: Seq<char>) -> (r: (
    Seq<char>,
    Seq<char>,
    Seq<char>,
    Seq<char>,
    Seq<char>,
))
    ensures
        plist_text(exe, path, user) == r.0
            + "<key>ProgramArguments</key>\n    <array>\n        <string>"@ + exe + "</string>"@ + r.1
            + "<key>PATH</key>\n        <string>"@ + path + "</string>"@ + r.2
            + "<key>StandardOutPath</key>\n    <string>/tmp/yabai_"@ + user + ".out.log</string>"@
            + r.3 + "<key>StandardErrorPath</key>\n    <string>/tmp/yabai_"@ + user
            + ".err.log</string>"@ + r.4,
{
    lemma_first_piece();
    lemma_path_piece();
    lemma_out_piece();
    lemma_err_piece();
    lemma_last_piece();
    let r0 = "<?xml version=\"1.0\" encoding=\"UTF-8\"?>\n<!DOCTYPE plist PUBLIC \"-//Apple//DTD PLIST 1.0//EN\" \"http://www.apple.com/DTDs/PropertyList-1.0.dtd\">\n<plist version=\"1.0\">\n<dict>\n    <key>Label</key>\n    <string>com.asmvik.yabai</string>\n    "@;
    let r1 = "\n    </array>\n    <key>EnvironmentVariables</key>\n    <dict>\n        "@;
    let r2 = "\n    </dict>\n    <key>RunAtLoad</key>\n    <true/>\n    <key>KeepAlive</key>\n    <dict>\n        <key>SuccessfulExit</key>\n        <false/>\n        <key>Crashed</key>\n        <true/>\n    </dict>\n    "@;
    let r3 = "\n    "@;
    let r4 = "\n    <key>ProcessType</key>\n    <string>Interactive</string>\n    <key>Nice</key>\n    <integer>-20</integer>\n</dict>\n</plist>"@;
    let k0 = "<key>ProgramArguments</key>\n    <array>\n        <string>"@;
    let k1 = "<key>PATH</key>\n        <string>"@;
    let k2 = "<key>StandardOutPath</key>\n    <string>/tmp/yabai_"@;
    let k3 = "<key>StandardErrorPath</key>\n    <string>/tmp/yabai_"@;
    let end = "</string>"@;
    let out = ".out.log</string>"@;
    let err = ".err.log</string>"@;
    lemma_regrouped(r0, k0, exe, end, r1, k1, path, r2, k2, user, out, r3, k3, err, r4);
    (r0, r1, r2, r3, r4)
}

proof fn lemma_regrouped(
    r0: Seq<char>,
    k0: Seq<char>,
    exe: Seq<char>,
    end: Seq<char>,
    r1: Seq<char>,
    k1: Seq<char>,
    path: Seq<char>,
    r2: Seq<char>,
    k2: Seq<char>,
    user: Seq<char>,
    out: Seq<char>,
    r3: Seq<char>,
    k3: Seq<char>,
    err: Seq<char>,
    r4: Seq<char>,
)
    ensures
        (r0 + k0) + exe + (end + r1 + k1) + path + (end + r2 + k2) + user + (out + r3 + k3) + user + (
        err + r4) == r0 + k0 + exe + end + r1 + k1 + path + end + r2 + k2 + user + out + r3 + k3
            + user + err + r4,
{
    let a = r0 + k0 + exe;
    assert(a + (end + r1 + k1) =~= a + end + r1 + k1);
    let b = a + end + r1 + k1 + path;
    assert(b + (end + r2 + k2) =~= b + end + r2 + k2);
    let c = b + end + r2 + k2 + user;
    assert(c + (out + r3 + k3) =~= c + out + r3 + k3);
    let d = c + out + r3 + k3 + user;
    assert(d + (err + r4) =~= d + err + r4);
}

} // verus!
