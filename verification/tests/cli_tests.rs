use adguard_cli_gui::cli::{
    activate_license, activation_verdict, begin_filters, begin_license, begin_start, begin_status,
    check_update, configured_from, export_logs, get_license, get_status,
    get_version, is_configured, is_installed, job_verdict, license_label_from, list_filters,
    parse_filters, protection_from, reset_license, reset_verdict, start, stop, stop_verdict,
    strip_ansi, truncate_msg, update, CmdResult, FiltersStage, LicenseStage, ProtectionStatus,
    Request, StartStage, StatusStage, Step,
};

fn reply(ok: bool, out: &str, err: &str) -> CmdResult {
    CmdResult { exit_success: ok, stdout: out.to_string(), stderr: err.to_string() }
}

#[test]
fn strip_ansi_removes_colour_codes() {
    assert_eq!(strip_ansi("\x1b[32mProxy is running\x1b[0m"), "Proxy is running");
    assert_eq!(strip_ansi("\x1b[1;31mError\x1b[K!\x1b[2J"), "Error!\x1b[2J");
    assert_eq!(strip_ansi("\x1b[H\x1b[2;5fx\x1b[F"), "\x1b[2;5fx");
    assert_eq!(strip_ansi("plain [0m text"), "plain [0m text");
    assert_eq!(strip_ansi("\x1b[12X kept"), "\x1b[12X kept");
}

#[test]
fn combined_joins_streams() {
    assert_eq!(reply(true, "out", "err").combined(), "out\nerr");
    assert_eq!(reply(true, "", "err").combined(), "err");
    assert_eq!(reply(true, "out", "").combined(), "out");
    assert_eq!(reply(true, "", "").combined(), "");
}

#[test]
fn first_line_is_trimmed_and_clean() {
    assert_eq!(reply(false, "  \x1b[31mYou need to activate\x1b[0m  \nmore", "").first_line(), "You need to activate");
    assert_eq!(reply(false, "", "").first_line(), "");
    assert_eq!(reply(false, "\n   \n  second line  \nthird", "").first_line(), "second line");
    assert_eq!(reply(false, " \n ", "\t").first_line(), "");
}

#[test]
fn truncate_keeps_first_nonblank_line() {
    assert_eq!(truncate_msg("\n   \n  Done here  \nnext"), "Done here");
    assert_eq!(truncate_msg("   "), "   ");
    let long = "x".repeat(250);
    let cut = truncate_msg(&long);
    assert_eq!(cut, format!("{}…", "x".repeat(197)));
    assert_eq!(cut.len(), 200);
    let exact = "y".repeat(200);
    assert_eq!(truncate_msg(&exact), exact);
}

#[test]
fn truncate_cuts_at_last_boundary_within_197_bytes() {
    // 196 ASCII bytes then a two-byte letter: byte 197 falls inside it, so
    // the cut keeps 196 bytes.
    let s = format!("{}é{}", "a".repeat(196), "b".repeat(10));
    let cut = truncate_msg(&s);
    assert_eq!(cut, format!("{}…", "a".repeat(196)));
    assert!(cut.len() <= 200);
    let ok = format!("{}é{}", "a".repeat(195), "b".repeat(10));
    assert_eq!(truncate_msg(&ok), format!("{}é…", "a".repeat(195)));
    let wide = "🛡".repeat(60);
    let cut = truncate_msg(&wide);
    assert_eq!(cut, format!("{}…", "🛡".repeat(49)));
    assert!(cut.len() <= 200);
}

#[test]
fn truncate_twice_is_truncate_once() {
    for s in ["short", "  x  \nmore", &"w".repeat(300), &format!("{}é{}", "a".repeat(196), "b".repeat(10))] {
        let once = truncate_msg(s);
        assert_eq!(truncate_msg(&once), once);
    }
}

#[test]
fn argv_of_requests() {
    assert_eq!(Request::Which.argv(), vec!["which", "adguard-cli"]);
    assert_eq!(Request::ListFilters.argv(), vec!["adguard-cli", "filters", "list", "--all"]);
    assert_eq!(Request::Activate("KEY-1".to_string()).argv(), vec!["adguard-cli", "activate", "KEY-1"]);
    assert_eq!(Request::ExportLogs("/h/a.zip".to_string()).argv(), vec!["adguard-cli", "export-logs", "-o", "/h/a.zip"]);
    assert_eq!(Request::ResetLicense.argv(), vec!["adguard-cli", "reset-license"]);
}

#[test]
fn protection_classification() {
    assert_eq!(protection_from(true, "proxy is running on 127.0.0.1"), ProtectionStatus::Running);
    assert_eq!(protection_from(true, "protection is enabled"), ProtectionStatus::Running);
    assert_eq!(protection_from(true, "proxy is not running"), ProtectionStatus::Stopped);
    assert_eq!(protection_from(true, "filtering disabled"), ProtectionStatus::Stopped);
    assert_eq!(protection_from(true, "hello"), ProtectionStatus::Unknown);
    assert_eq!(protection_from(false, "you need to activate an adguard license"), ProtectionStatus::NoLicense);
    assert_eq!(protection_from(false, "proxy is running"), ProtectionStatus::Stopped);
}

#[test]
fn installation_and_configuration() {
    assert!(is_installed(&reply(true, "/usr/bin/adguard-cli", "")));
    assert!(!is_installed(&reply(false, "", "")));
    assert!(configured_from("proxy mode: auto"));
    assert!(!configured_from("no configuration yaml found"));
    assert!(!is_configured(&reply(false, "", "Please RUN `ADGUARD-CLI CONFIGURE` first")));
    assert!(is_configured(&reply(true, "listen_port: 3129", "")));
}

#[test]
fn version_is_trimmed_stdout() {
    assert_eq!(get_version(&reply(true, "  \x1b[1mAdGuard CLI v1.1.12\x1b[0m\n", "ignored")), "AdGuard CLI v1.1.12");
}

fn run_status(replies: &[CmdResult]) -> (Vec<Request>, adguard_cli_gui::cli::Status) {
    let mut asked = Vec::new();
    let mut step = begin_status();
    let mut i = 0;
    loop {
        match step {
            Step::Run(req, stage) => {
                asked.push(req);
                let r = &replies[i];
                i += 1;
                step = get_status(stage, r);
            }
            Step::Done(s) => return (asked, s),
        }
    }
}

#[test]
fn status_when_not_installed() {
    let (asked, s) = run_status(&[reply(false, "", "")]);
    assert_eq!(asked.len(), 1);
    assert!(matches!(asked[0], Request::Which));
    assert_eq!(s.protection, ProtectionStatus::NotInstalled);
    assert_eq!(s.version, "");
    assert_eq!(s.raw, "");
}

#[test]
fn status_when_not_configured() {
    let (asked, s) = run_status(&[
        reply(true, "/usr/bin/adguard-cli", ""),
        reply(false, "", "No configuration YAML"),
        reply(true, "v1.2\n", ""),
    ]);
    assert_eq!(asked.len(), 3);
    assert!(matches!(asked[2], Request::Version));
    assert_eq!(s.protection, ProtectionStatus::NotConfigured);
    assert_eq!(s.version, "v1.2");
    assert_eq!(s.raw, "");
}

#[test]
fn status_when_running() {
    let (asked, s) = run_status(&[
        reply(true, "/usr/bin/adguard-cli", ""),
        reply(true, "mode: auto", ""),
        reply(true, "\x1b[32mProxy is RUNNING\x1b[0m", ""),
        reply(true, "v1.2", ""),
    ]);
    assert!(matches!(asked[2], Request::Status));
    assert_eq!(s.protection, ProtectionStatus::Running);
    assert_eq!(s.raw, "Proxy is RUNNING");
    assert_eq!(s.version, "v1.2");
}

#[test]
fn status_without_license() {
    let (_, s) = run_status(&[
        reply(true, "/usr/bin/adguard-cli", ""),
        reply(true, "mode: auto", ""),
        reply(false, "", "You need to activate an AdGuard license to use this command"),
        reply(true, "v1.2", ""),
    ]);
    assert_eq!(s.protection, ProtectionStatus::NoLicense);
}

#[test]
fn start_confirmed_directly() {
    assert!(matches!(begin_start(), Step::Run(Request::Start, StartStage::Launched)));
    match start(StartStage::Launched, &reply(true, "Proxy started successfully", "")) {
        Step::Done(Ok(m)) => assert_eq!(m, "Protection started"),
        _ => panic!("expected success"),
    }
}

#[test]
fn start_failure_and_verification() {
    match start(StartStage::Launched, &reply(false, "", "Cannot bind port\nmore")) {
        Step::Done(Err(m)) => assert_eq!(m, "Cannot bind port"),
        _ => panic!("expected error"),
    }
    match start(StartStage::Launched, &reply(true, "ok?", "")) {
        Step::Run(Request::Status, StartStage::Verifying) => {}
        _ => panic!("expected a status check"),
    }
    match start(StartStage::Verifying, &reply(true, "Proxy is running", "")) {
        Step::Done(Ok(m)) => assert_eq!(m, "Protection started"),
        _ => panic!("expected success"),
    }
    match start(StartStage::Verifying, &reply(true, "Proxy is stopped", "")) {
        Step::Done(Err(m)) => assert_eq!(m, "Proxy is stopped"),
        _ => panic!("expected error"),
    }
}

#[test]
fn stop_outcomes() {
    assert_eq!(stop(&reply(true, "Proxy stopped", "")), Ok("Protection stopped".to_string()));
    assert_eq!(stop(&reply(false, "", "Proxy is NOT RUNNING")), Ok("Protection stopped".to_string()));
    assert_eq!(stop(&reply(false, "", "Permission denied")), Err("Permission denied".to_string()));
    assert_eq!(stop(&reply(true, "Error: socket", "")), Err("Error: socket".to_string()));
    assert_eq!(stop_verdict(true, "x", "failed to stop"), Err("x".to_string()));
}

#[test]
fn activation_outcomes() {
    assert_eq!(activate_license(&reply(true, "License activated", "")), Ok("License activated successfully".to_string()));
    assert_eq!(activate_license(&reply(true, "The key is INVALID", "")), Err("The key is INVALID".to_string()));
    assert_eq!(activate_license(&reply(true, "Hmm", "")), Err("Hmm".to_string()));
    assert_eq!(activate_license(&reply(false, "activated", "")), Err("activated".to_string()));
    assert_eq!(activation_verdict(true, "Success", "success"), Ok("License activated successfully".to_string()));
}

#[test]
fn reset_and_maintenance_outcomes() {
    assert_eq!(reset_license(&reply(true, "\nLicense reset\n", "")), Ok("License reset".to_string()));
    assert_eq!(reset_license(&reply(true, "Error!", "")), Err("Error!".to_string()));
    assert_eq!(reset_verdict(false, "bye", "bye"), Err("bye".to_string()));
    assert_eq!(export_logs(&reply(true, "Logs saved to /tmp/x.zip", "")), Ok("Logs saved to /tmp/x.zip".to_string()));
    assert_eq!(export_logs(&reply(true, "Operation FAIL", "")), Err("Operation FAIL".to_string()));
    assert_eq!(update(&reply(false, "Already up to date", "")), Err("Already up to date".to_string()));
    assert_eq!(job_verdict(true, "fine", "fine"), Ok("fine".to_string()));
    let long = format!("{}é", "z".repeat(196)) + &"q".repeat(20);
    assert_eq!(update(&reply(false, &long, "")), Err(format!("{}…", "z".repeat(196))));
}

#[test]
fn check_update_shows_clean_text() {
    assert_eq!(check_update(&reply(true, "\x1b[33mNew version 1.3\x1b[0m", "warn")), "New version 1.3\nwarn");
}

#[test]
fn license_labels() {
    assert_eq!(license_label_from("status: app_active"), "Active ✓");
    assert_eq!(license_label_from("trial period"), "Trial");
    assert_eq!(license_label_from("free"), "Free");
    assert_eq!(license_label_from("expired on"), "Expired");
    assert_eq!(license_label_from("???"), "Unknown");
}

#[test]
fn license_details() {
    assert!(matches!(begin_license(), Step::Run(Request::Which, LicenseStage::Installed)));
    match get_license(LicenseStage::Installed, &reply(false, "", "")) {
        Step::Done(info) => {
            assert_eq!(info.status, "Not installed");
            assert_eq!(info.raw, "");
        }
        _ => panic!("expected a result"),
    }
    let out = "\x1b[1mLicense type:\x1b[0m Personal\nStatus: ACTIVE\nLicense key: ABCD-1234 \nOwner:  jane@example.com\n";
    match get_license(LicenseStage::Shown, &reply(true, out, "")) {
        Step::Done(info) => {
            assert_eq!(info.status, "Active ✓");
            assert_eq!(info.key, "ABCD-1234");
            assert_eq!(info.expires, "jane@example.com");
            assert_eq!(info.raw, "License type: Personal\nStatus: ACTIVE\nLicense key: ABCD-1234 \nOwner:  jane@example.com\n");
        }
        _ => panic!("expected a result"),
    }
    match get_license(LicenseStage::Shown, &reply(false, "", " You need to activate a license \nsee docs")) {
        Step::Done(info) => {
            assert_eq!(info.status, "No license");
            assert_eq!(info.key, "");
            assert_eq!(info.raw, "You need to activate a license");
        }
        _ => panic!("expected a result"),
    }
}

const LISTING: &str = "\
ID | Title                     | Status
---|---------------------------|------
[x] 2 | AdGuard Base filter     last update 2024
[x] 4 | AdGuard Social | is not added
x | y | ID 5
x | y | Title bar
x|y|ab
[x] 9 |z| é1
no bar here
";

#[test]
fn filter_listing_is_parsed() {
    let fs = parse_filters(LISTING);
    let names: Vec<&str> = fs.iter().map(|f| f.name.as_str()).collect();
    assert_eq!(names, vec!["Status", "------", "is not added", "é1"]);
    let ids: Vec<&str> = fs.iter().map(|f| f.id.as_str()).collect();
    assert_eq!(ids, vec!["0", "1", "2", "3"]);
    let on: Vec<bool> = fs.iter().map(|f| f.enabled).collect();
    assert_eq!(on, vec![false, false, false, true]);
    assert!(fs.iter().all(|f| f.url.is_empty()));
}

#[test]
fn filter_rows_need_two_bars() {
    let fs = parse_filters("[x] 1 | Base | AdGuard Base filter  (enabled)\n[ ] 2 | x | EasyList\nsingle | bar\n");
    assert_eq!(fs.len(), 2);
    assert_eq!(fs[0].name, "AdGuard Base filter");
    assert!(fs[0].enabled);
    assert_eq!(fs[1].name, "EasyList");
    assert!(!fs[1].enabled);
    assert_eq!(fs[1].id, "1");
}

#[test]
fn listing_steps() {
    assert!(matches!(begin_filters(), Step::Run(Request::Which, FiltersStage::Installed)));
    match list_filters(FiltersStage::Installed, &reply(false, "", "")) {
        Step::Done(fs) => assert!(fs.is_empty()),
        _ => panic!("expected a result"),
    }
    assert!(matches!(
        list_filters(FiltersStage::Installed, &reply(true, "/bin/adguard-cli", "")),
        Step::Run(Request::ListFilters, FiltersStage::Listed)
    ));
    match list_filters(FiltersStage::Listed, &reply(false, "[x] 1 | a | Something", "")) {
        Step::Done(fs) => assert!(fs.is_empty()),
        _ => panic!("expected a result"),
    }
    match list_filters(FiltersStage::Listed, &reply(true, "\x1b[32m[x] 1 | a | Something\x1b[0m", "ignored | x | Other")) {
        Step::Done(fs) => {
            assert_eq!(fs.len(), 1);
            assert_eq!(fs[0].name, "Something");
            assert!(fs[0].enabled);
        }
        _ => panic!("expected a result"),
    }
}

#[test]
fn status_stage_carries_known_values() {
    match get_status(StatusStage::Version { protection: ProtectionStatus::Stopped, raw: "r".to_string() }, &reply(true, " v9 ", "")) {
        Step::Done(s) => {
            assert_eq!(s.protection, ProtectionStatus::Stopped);
            assert_eq!(s.raw, "r");
            assert_eq!(s.version, "v9");
        }
        _ => panic!("expected a result"),
    }
}

#[test]
fn joined_listings_concatenate_filters() {
    let a = "ID | Title | Status\n[x] 1 | a | First filter\r";
    let b = "[ ] 2 | b | Second filter  (not added)\nx | y | Third";
    let x = parse_filters(a);
    let y = parse_filters(b);
    let z = parse_filters(&format!("{a}\n{b}"));
    assert_eq!(z.len(), x.len() + y.len());
    for (i, f) in x.iter().enumerate() {
        assert_eq!((z[i].id.as_str(), z[i].name.as_str(), z[i].enabled), (f.id.as_str(), f.name.as_str(), f.enabled));
    }
    for (j, f) in y.iter().enumerate() {
        let g = &z[x.len() + j];
        assert_eq!(g.id, (x.len() + j).to_string());
        assert_eq!((g.name.as_str(), g.enabled), (f.name.as_str(), f.enabled));
    }
}

#[test]
fn listing_without_bar_has_no_filters() {
    assert!(parse_filters("no bars here\nat all\r\n").is_empty());
    assert!(parse_filters("").is_empty());
}
