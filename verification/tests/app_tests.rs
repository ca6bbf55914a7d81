use adguard_cli_gui::app::{logs_archive_path, AppState, Effect, Message, Tab};
use adguard_cli_gui::cli::{Filter, LicenseInfo, ProtectionStatus, Status};
use adguard_cli_gui::present::{
    banner, check_caption, notice_tone, FiltersPanel, LicensePanel, filter_marker, license_tone, notification_text,
    status_badge, toggle_caption, toggle_tone, version_caption, Screen, Tone,
};

fn status(p: ProtectionStatus) -> Status {
    Status { protection: p, version: "v1".to_string(), raw: "raw".to_string() }
}

#[test]
fn fresh_window() {
    let s = AppState::default();
    assert_eq!(s.tab, Tab::Status);
    assert_eq!(s.status.protection, ProtectionStatus::Unknown);
    assert!(s.notification.is_none());
    assert!(!s.loading && !s.toggling && !s.license_loading && !s.filters_loading && !s.update_loading);
    assert!(s.filters.is_empty());
}

#[test]
fn tabs_load_their_data() {
    let mut s = AppState::default();
    assert!(matches!(s.update(Message::TabSelected(Tab::License)), Effect::LoadLicense));
    assert!(s.license_loading);
    assert_eq!(s.tab, Tab::License);
    assert!(matches!(s.update(Message::TabSelected(Tab::Filters)), Effect::LoadFilters));
    assert!(s.filters_loading);
    assert!(matches!(s.update(Message::TabSelected(Tab::Updates)), Effect::Idle));
    assert_eq!(s.tab, Tab::Updates);
}

#[test]
fn status_round_trip() {
    let mut s = AppState::default();
    assert!(matches!(s.update(Message::RefreshStatus), Effect::LoadStatus));
    assert!(s.loading);
    assert!(matches!(s.update(Message::StatusLoaded(status(ProtectionStatus::Running))), Effect::Idle));
    assert!(!s.loading);
    assert_eq!(s.status.protection, ProtectionStatus::Running);
}

#[test]
fn toggle_stops_running_protection() {
    let mut s = AppState::default();
    s.update(Message::StatusLoaded(status(ProtectionStatus::Running)));
    assert!(matches!(s.update(Message::ToggleProtection), Effect::Toggle { stop: true }));
    assert!(s.toggling);
    let e = s.update(Message::ToggleDone(Ok("Protection stopped".to_string())));
    assert!(matches!(e, Effect::Dispatch(Message::RefreshStatus)));
    assert!(!s.toggling);
    assert_eq!(s.notification, Some(("Protection stopped".to_string(), false)));
}

#[test]
fn toggle_starts_stopped_protection() {
    let mut s = AppState::default();
    s.update(Message::StatusLoaded(status(ProtectionStatus::Stopped)));
    assert!(matches!(s.update(Message::ToggleProtection), Effect::Toggle { stop: false }));
    s.update(Message::ToggleDone(Err("Cannot start".to_string())));
    assert_eq!(s.notification, Some(("Cannot start".to_string(), true)));
}

#[test]
fn activation_needs_a_key() {
    let mut s = AppState::default();
    assert!(matches!(s.update(Message::ActivateLicense), Effect::Idle));
    assert_eq!(s.notification, Some(("Please enter a license key".to_string(), true)));
    assert!(!s.license_loading);
    s.update(Message::LicenseKeyChanged("KEY-9".to_string()));
    match s.update(Message::ActivateLicense) {
        Effect::Activate(k) => assert_eq!(k, "KEY-9"),
        _ => panic!("expected activation"),
    }
    assert!(s.license_loading);
    assert!(matches!(s.update(Message::LicenseActionDone(Ok("License activated successfully".to_string()))), Effect::LoadLicense));
    assert_eq!(s.license_key_input, "");
    assert!(!s.license_loading);
}

#[test]
fn failed_license_action_keeps_key() {
    let mut s = AppState::default();
    s.update(Message::LicenseKeyChanged("BAD".to_string()));
    s.update(Message::ActivateLicense);
    s.update(Message::LicenseActionDone(Err("Invalid key".to_string())));
    assert_eq!(s.license_key_input, "BAD");
    assert_eq!(s.notification, Some(("Invalid key".to_string(), true)));
    assert!(matches!(s.update(Message::ResetLicense), Effect::ResetLicense));
    let info = LicenseInfo { status: "Free".to_string(), key: String::new(), expires: String::new(), raw: "x".to_string() };
    s.update(Message::LicenseLoaded(info));
    assert_eq!(s.license_info.status, "Free");
    assert!(!s.license_loading);
}

#[test]
fn filters_and_updates() {
    let mut s = AppState::default();
    assert!(matches!(s.update(Message::RefreshFilters), Effect::LoadFilters));
    let f = Filter { id: "0".to_string(), name: "Base".to_string(), enabled: true, url: String::new() };
    s.update(Message::FiltersLoaded(vec![f]));
    assert_eq!(s.filters.len(), 1);
    assert!(!s.filters_loading);
    assert!(matches!(s.update(Message::CheckUpdate), Effect::CheckUpdate));
    assert!(s.update_loading);
    s.update(Message::UpdateChecked("No updates".to_string()));
    assert_eq!(s.update_info, "No updates");
    assert!(matches!(s.update(Message::RunUpdate), Effect::RunUpdate));
    s.update(Message::UpdateDone(Ok("Updated".to_string())));
    assert!(!s.update_loading);
    assert_eq!(s.notification, Some(("Updated".to_string(), false)));
}

#[test]
fn logs_download_configure_and_dismiss() {
    let mut s = AppState::default();
    assert!(matches!(s.update(Message::ExportLogs), Effect::ExportLogs));
    s.update(Message::LogsExported(Err("failed".to_string())));
    assert_eq!(s.notification, Some(("failed".to_string(), true)));
    assert!(matches!(s.update(Message::OpenDownloadPage), Effect::OpenDownloadPage));
    assert!(s.loading);
    assert_eq!(s.notification, Some(("Opening download page...".to_string(), false)));
    s.update(Message::DownloadPageResult(Ok("Opened".to_string())));
    assert!(!s.loading);
    assert!(matches!(s.update(Message::OpenConfigure), Effect::OpenConfigureTerminal));
    assert_eq!(s.notification, Some(("Opening terminal with 'adguard-cli configure'...".to_string(), false)));
    assert!(matches!(s.update(Message::DismissNotification), Effect::Idle));
    assert!(s.notification.is_none());
}

#[test]
fn message_clone_keeps_payload() {
    let m = Message::ToggleDone(Err("e".to_string()));
    match m.clone() {
        Message::ToggleDone(Err(e)) => assert_eq!(e, "e"),
        _ => panic!("clone changed the message"),
    }
}

#[test]
fn logs_archive_location() {
    assert_eq!(logs_archive_path(Some("/home/jane")), "/home/jane/adguard-logs.zip");
    assert_eq!(logs_archive_path(None), "/tmp/adguard-logs.zip");
}

#[test]
fn screens_and_captions() {
    let mut s = AppState::default();
    s.update(Message::TabSelected(Tab::Updates));
    assert_eq!(s.screen(), Screen::Tab(Tab::Updates));
    s.update(Message::StatusLoaded(status(ProtectionStatus::NotConfigured)));
    assert_eq!(s.screen(), Screen::NotConfigured);
    s.update(Message::StatusLoaded(status(ProtectionStatus::NotInstalled)));
    assert_eq!(s.screen(), Screen::NotInstalled);
    assert_eq!(status_badge(ProtectionStatus::Running), ("● Running", Tone::Green));
    assert_eq!(status_badge(ProtectionStatus::NotConfigured), ("● Not configured", Tone::Peach));
    assert_eq!(status_badge(ProtectionStatus::Unknown), ("● Unknown", Tone::Overlay0));
    assert_eq!(version_caption(""), "");
    assert_eq!(version_caption("v1.1"), "  v1.1");
    assert_eq!(toggle_caption(true, true), "Stopping...");
    assert_eq!(toggle_caption(false, false), "Start Protection");
    assert_eq!(toggle_tone(true), Tone::Red);
    assert_eq!(banner(ProtectionStatus::NoLicense), ("⚠ No License", Tone::Yellow));
    assert_eq!(banner(ProtectionStatus::Stopped), ("🔴 Protection OFF", Tone::Red));
    assert_eq!(filter_marker(false), ("○", Tone::Red));
    assert_eq!(check_caption(true), "Checking...");
}

#[test]
fn license_colours() {
    assert_eq!(license_tone("Active ✓"), Tone::Green);
    assert_eq!(license_tone("TRIAL"), Tone::Yellow);
    assert_eq!(license_tone("Free"), Tone::Blue);
    assert_eq!(license_tone("No license"), Tone::Yellow);
    assert_eq!(license_tone("Unknown"), Tone::Subtext0);
}

#[test]
fn notification_bar_text() {
    assert_eq!(notification_text("short"), "short");
    let long = "m".repeat(130);
    assert_eq!(notification_text(&long), "m".repeat(120));
    let split = format!("{}é", "m".repeat(119));
    assert_eq!(notification_text(&split), "m".repeat(119));
    assert_eq!(notification_text(&"ж".repeat(70)), "ж".repeat(60));
    assert_eq!(notice_tone(true), Tone::Red);
    assert_eq!(notice_tone(false), Tone::Green);
}

#[test]
fn panels_and_controls() {
    let mut s = AppState::default();
    assert_eq!(s.license_panel(), LicensePanel::Blank);
    s.update(Message::TabSelected(Tab::License));
    assert_eq!(s.license_panel(), LicensePanel::Loading);
    let info = LicenseInfo { status: "Free".to_string(), key: "K".to_string(), expires: String::new(), raw: "x".to_string() };
    s.update(Message::LicenseLoaded(info));
    assert_eq!(s.license_panel(), LicensePanel::Details);
    assert_eq!(s.license_rows(), (true, false));
    assert!(s.tab_active(Tab::License));
    assert!(!s.tab_active(Tab::Status));
    s.update(Message::RefreshFilters);
    assert_eq!(s.filters_panel(), FiltersPanel::Loading);
    s.update(Message::FiltersLoaded(vec![]));
    assert_eq!(s.filters_panel(), FiltersPanel::Empty);
    assert!(s.toggle_enabled());
    s.update(Message::ToggleProtection);
    assert!(!s.toggle_enabled());
    assert!(s.update_buttons_enabled());
    s.update(Message::CheckUpdate);
    assert!(!s.update_buttons_enabled());
    assert!(!s.shows_update_output());
    s.update(Message::UpdateChecked("out".to_string()));
    assert!(s.shows_update_output());
    assert!(!s.shows_status_output());
    assert!(s.download_enabled());
    s.update(Message::OpenDownloadPage);
    assert!(!s.download_enabled());
}
