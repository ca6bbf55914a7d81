//! The state machine of the user interface: what each message does to the
//! state, and which background work it asks for.

use vstd::prelude::*;
use crate::cli::{Filter, LicenseInfo, ProtectionStatus, Status};

verus! {

/// The tabs of the window.
#[derive(Debug, Clone, Copy, PartialEq, Eq, Structural)]
pub enum Tab {
    Status,
    License,
    Filters,
    Updates,
}

/// What the user or a finished background job tells the interface.
#[derive(Debug)]
pub enum Message {
    // Navigation
    TabSelected(Tab),
    // Status tab
    RefreshStatus,
    StatusLoaded(Status),
    ToggleProtection,
    ToggleDone(Result<String, String>),
    // License tab
    LicenseKeyChanged(String),
    ActivateLicense,
    ResetLicense,
    LicenseLoaded(LicenseInfo),
    LicenseActionDone(Result<String, String>),
    // Filters tab
    FiltersLoaded(Vec<Filter>),
    RefreshFilters,
    // Updates tab
    CheckUpdate,
    UpdateChecked(String),
    RunUpdate,
    UpdateDone(Result<String, String>),
    ExportLogs,
    LogsExported(Result<String, String>),
    // Install / download
    OpenDownloadPage,
    DownloadPageResult(Result<String, String>),
    // Configure
    OpenConfigure,
    // Notification dismiss
    DismissNotification,
}

/// A copy of an action's result.
fn copy_result(r: &Result<String, String>) -> (res: Result<String, String>)
    ensures
        res == *r,
{
    match r {
        Ok(m) => Ok(m.clone()),
        Err(e) => Err(e.clone()),
    }
}

impl Clone for Message {
    fn clone(&self) -> Self {
        match self {
            Message::TabSelected(t) => Message::TabSelected(*t),
            Message::RefreshStatus => Message::RefreshStatus,
            Message::StatusLoaded(s) => Message::StatusLoaded(s.clone()),
            Message::ToggleProtection => Message::ToggleProtection,
            Message::ToggleDone(r) => Message::ToggleDone(copy_result(r)),
            Message::LicenseKeyChanged(k) => Message::LicenseKeyChanged(k.clone()),
            Message::ActivateLicense => Message::ActivateLicense,
            Message::ResetLicense => Message::ResetLicense,
            Message::LicenseLoaded(i) => Message::LicenseLoaded(i.clone()),
            Message::LicenseActionDone(r) => Message::LicenseActionDone(copy_result(r)),
            Message::FiltersLoaded(f) => Message::FiltersLoaded(f.clone()),
            Message::RefreshFilters => Message::RefreshFilters,
            Message::CheckUpdate => Message::CheckUpdate,
            Message::UpdateChecked(s) => Message::UpdateChecked(s.clone()),
            Message::RunUpdate => Message::RunUpdate,
            Message::UpdateDone(r) => Message::UpdateDone(copy_result(r)),
            Message::ExportLogs => Message::ExportLogs,
            Message::LogsExported(r) => Message::LogsExported(copy_result(r)),
            Message::OpenDownloadPage => Message::OpenDownloadPage,
            Message::DownloadPageResult(r) => Message::DownloadPageResult(copy_result(r)),
            Message::OpenConfigure => Message::OpenConfigure,
            Message::DismissNotification => Message::DismissNotification,
        }
    }
}

/// The background work a message asks for; each job, once done, comes back
/// as the message named here.
pub enum Effect {
    /// Nothing to do.
    Idle,
    /// Read the protection status; comes back as `StatusLoaded`.
    LoadStatus,
    /// Read the licence; comes back as `LicenseLoaded`.
    LoadLicense,
    /// List the filters; comes back as `FiltersLoaded`.
    LoadFilters,
    /// Stop protection (`stop`) or start it; comes back as `ToggleDone`.
    Toggle { stop: bool },
    /// Activate this key; comes back as `LicenseActionDone`.
    Activate(String),
    /// Reset the licence; comes back as `LicenseActionDone`.
    ResetLicense,
    /// Check for updates; comes back as `UpdateChecked`.
    CheckUpdate,
    /// Run the update; comes back as `UpdateDone`.
    RunUpdate,
    /// Export the logs to the archive path; comes back as `LogsExported`.
    ExportLogs,
    /// Open the download page; comes back as `DownloadPageResult`.
    OpenDownloadPage,
    /// Open a terminal running `adguard-cli configure`; nothing comes back.
    OpenConfigureTerminal,
    /// Handle this message next.
    Dispatch(Message),
}

/// Everything the window shows.
pub struct AppState {
    pub tab: Tab,
    // Status
    pub status: Status,
    pub toggling: bool,
    // License
    pub license_key_input: String,
    pub license_info: LicenseInfo,
    pub license_loading: bool,
    // Filters
    pub filters: Vec<Filter>,
    pub filters_loading: bool,
    // Updates
    pub update_info: String,
    pub update_loading: bool,
    /// The message shown at the bottom, and whether it is an error.
    pub notification: Option<(String, bool)>,
    // Loading flags
    pub loading: bool,
}

/// The state of a fresh window: the status tab, protection unknown, every
/// text empty, nothing loading and no notification.
pub open spec fn is_initial(s: AppState) -> bool {
    &&& s.tab == Tab::Status
    &&& s.status.protection == ProtectionStatus::Unknown
    &&& s.status.version@.len() == 0
    &&& s.status.raw@.len() == 0
    &&& !s.toggling
    &&& s.license_key_input@.len() == 0
    &&& s.license_info.status@.len() == 0
    &&& s.license_info.key@.len() == 0
    &&& s.license_info.expires@.len() == 0
    &&& s.license_info.raw@.len() == 0
    &&& !s.license_loading
    &&& s.filters@.len() == 0
    &&& !s.filters_loading
    &&& s.update_info@.len() == 0
    &&& !s.update_loading
    &&& s.notification is None
    &&& !s.loading
}

impl Default for AppState {
    fn default() -> (res: Self)
        ensures
            is_initial(res),
    {
        AppState {
            tab: Tab::Status,
            status: Status {
                protection: ProtectionStatus::Unknown,
                version: String::new(),
                raw: String::new(),
            },
            toggling: false,
            license_key_input: String::new(),
            license_info: LicenseInfo {
                status: String::new(),
                key: String::new(),
                expires: String::new(),
                raw: String::new(),
            },
            license_loading: false,
            filters: Vec::new(),
            filters_loading: false,
            update_info: String::new(),
            update_loading: false,
            notification: None,
            loading: false,
        }
    }
}

/// `post` shows `result` as its notification: the message of `Ok` as news,
/// the message of `Err` as an error.
pub open spec fn notifies(post: AppState, result: Result<String, String>) -> bool {
    match result {
        Ok(m) => post.notification == Some((m, false)),
        Err(e) => post.notification == Some((e, true)),
    }
}

/// `post.notification` is the given text, marked as error or not.
pub open spec fn notice_is(post: AppState, text: Seq<char>, is_error: bool) -> bool {
    post.notification matches Some((m, e)) && m@ == text && e == is_error
}

/// What handling `msg` in state `pre` leads to: the state `post` and the work `eff`.
pub open spec fn update_post(pre: AppState, msg: Message, post: AppState, eff: Effect) -> bool {
    match msg {
        Message::TabSelected(tab) => match tab {
            Tab::License => post == AppState { tab, license_loading: true, ..pre } && eff
                == Effect::LoadLicense,
            Tab::Filters => post == AppState { tab, filters_loading: true, ..pre } && eff
                == Effect::LoadFilters,
            _ => post == AppState { tab, ..pre } && eff == Effect::Idle,
        },
        Message::RefreshStatus => post == AppState { loading: true, ..pre } && eff
            == Effect::LoadStatus,
        Message::StatusLoaded(status) => post == AppState { loading: false, status, ..pre } && eff
            == Effect::Idle,
        Message::ToggleProtection => post == AppState { toggling: true, ..pre } && eff
            == Effect::Toggle { stop: pre.status.protection == ProtectionStatus::Running },
        Message::ToggleDone(result) => {
            &&& post == AppState { toggling: false, notification: post.notification, ..pre }
            &&& notifies(post, result)
            &&& eff == Effect::Dispatch(Message::RefreshStatus)
        },
        Message::LicenseKeyChanged(key) => post == AppState { license_key_input: key, ..pre }
            && eff == Effect::Idle,
        Message::ActivateLicense => if pre.license_key_input@.len() == 0 {
            &&& post == AppState { notification: post.notification, ..pre }
            &&& notice_is(post, "Please enter a license key"@, true)
            &&& eff == Effect::Idle
        } else {
            post == AppState { license_loading: true, ..pre } && eff == Effect::Activate(
                pre.license_key_input,
            )
        },
        Message::ResetLicense => post == AppState { license_loading: true, ..pre } && eff
            == Effect::ResetLicense,
        Message::LicenseLoaded(info) => post == AppState {
            license_loading: false,
            license_info: info,
            ..pre
        } && eff == Effect::Idle,
        Message::LicenseActionDone(result) => {
            &&& eff == Effect::LoadLicense
            &&& notifies(post, result)
            &&& match result {
                Ok(_) => post == AppState {
                    license_loading: false,
                    notification: post.notification,
                    license_key_input: post.license_key_input,
                    ..pre
                } && post.license_key_input@.len() == 0,
                Err(_) => post == AppState {
                    license_loading: false,
                    notification: post.notification,
                    ..pre
                },
            }
        },
        Message::FiltersLoaded(filters) => post == AppState {
            filters_loading: false,
            filters,
            ..pre
        } && eff == Effect::Idle,
        Message::RefreshFilters => post == AppState { filters_loading: true, ..pre } && eff
            == Effect::LoadFilters,
        Message::CheckUpdate => post == AppState { update_loading: true, ..pre } && eff
            == Effect::CheckUpdate,
        Message::UpdateChecked(info) => post == AppState {
            update_loading: false,
            update_info: info,
            ..pre
        } && eff == Effect::Idle,
        Message::RunUpdate => post == AppState { update_loading: true, ..pre } && eff
            == Effect::RunUpdate,
        Message::UpdateDone(result) => {
            &&& post == AppState { update_loading: false, notification: post.notification, ..pre }
            &&& notifies(post, result)
            &&& eff == Effect::Idle
        },
        Message::ExportLogs => post == pre && eff == Effect::ExportLogs,
        Message::LogsExported(result) => {
            &&& post == AppState { notification: post.notification, ..pre }
            &&& notifies(post, result)
            &&& eff == Effect::Idle
        },
        Message::OpenDownloadPage => {
            &&& post == AppState { loading: true, notification: post.notification, ..pre }
            &&& notice_is(post, "Opening download page..."@, false)
            &&& eff == Effect::OpenDownloadPage
        },
        Message::DownloadPageResult(result) => {
            &&& post == AppState { loading: false, notification: post.notification, ..pre }
            &&& notifies(post, result)
            &&& eff == Effect::Idle
        },
        Message::OpenConfigure => {
            &&& post == AppState { notification: post.notification, ..pre }
            &&& notice_is(post, "Opening terminal with 'adguard-cli configure'..."@, false)
            &&& eff == Effect::OpenConfigureTerminal
        },
        Message::DismissNotification => post == AppState { notification: None, ..pre } && eff
            == Effect::Idle,
    }
}

/// The notification for a finished action.
fn notice_of(result: Result<String, String>) -> (res: Option<(String, bool)>)
    ensures
        match result {
            Ok(m) => res == Some((m, false)),
            Err(e) => res == Some((e, true)),
        },
{
    match result {
        Ok(msg) => Some((msg, false)),
        Err(e) => Some((e, true)),
    }
}

impl AppState {
    /// Handles one message and names the background work it starts.
    pub fn update(&mut self, message: Message) -> (res: Effect)
        ensures
            update_post(*old(self), message, *final(self), res),
    {
        match message {
            Message::TabSelected(tab) => {
                self.tab = tab;
                match tab {
                    Tab::License => {
                        self.license_loading = true;
                        Effect::LoadLicense
                    },
                    Tab::Filters => {
                        self.filters_loading = true;
                        Effect::LoadFilters
                    },
                    _ => Effect::Idle,
                }
            },
            Message::RefreshStatus => {
                self.loading = true;
                Effect::LoadStatus
            },
            Message::StatusLoaded(status) => {
                self.loading = false;
                self.status = status;
                Effect::Idle
            },
            Message::ToggleProtection => {
                self.toggling = true;
                let is_running = self.status.protection == ProtectionStatus::Running;
                Effect::Toggle { stop: is_running }
            },
            Message::ToggleDone(result) => {
                self.toggling = false;
                self.notification = notice_of(result);
                Effect::Dispatch(Message::RefreshStatus)
            },
            Message::LicenseKeyChanged(key) => {
                self.license_key_input = key;
                Effect::Idle
            },
            Message::ActivateLicense => {
                let key = self.license_key_input.clone();
                if key.as_str().is_empty() {
                    self.notification = Some(("Please enter a license key".to_owned(), true));
                    return Effect::Idle;
                }
                self.license_loading = true;
                Effect::Activate(key)
            },
            Message::ResetLicense => {
                self.license_loading = true;
                Effect::ResetLicense
            },
            Message::LicenseLoaded(info) => {
                self.license_loading = false;
                self.license_info = info;
                Effect::Idle
            },
            Message::LicenseActionDone(result) => {
                self.license_loading = false;
                match result {
                    Ok(msg) => {
                        self.notification = Some((msg, false));
                        self.license_key_input = String::new();
                    },
                    Err(e) => self.notification = Some((e, true)),
                }
                Effect::LoadLicense
            },
            Message::FiltersLoaded(filters) => {
                self.filters_loading = false;
                self.filters = filters;
                Effect::Idle
            },
            Message::RefreshFilters => {
                self.filters_loading = true;
                Effect::LoadFilters
            },
            Message::CheckUpdate => {
                self.update_loading = true;
                Effect::CheckUpdate
            },
            Message::UpdateChecked(info) => {
                self.update_loading = false;
                self.update_info = info;
                Effect::Idle
            },
            Message::RunUpdate => {
                self.update_loading = true;
                Effect::RunUpdate
            },
            Message::UpdateDone(result) => {
                self.update_loading = false;
                self.notification = notice_of(result);
                Effect::Idle
            },
            Message::ExportLogs => Effect::ExportLogs,
            Message::LogsExported(result) => {
                self.notification = notice_of(result);
                Effect::Idle
            },
            Message::OpenDownloadPage => {
                self.loading = true;
                self.notification = Some(("Opening download page...".to_owned(), false));
                Effect::OpenDownloadPage
            },
            Message::DownloadPageResult(result) => {
                self.loading = false;
                self.notification = notice_of(result);
                Effect::Idle
            },
            Message::OpenConfigure => {
                self.notification = Some(
                    ("Opening terminal with 'adguard-cli configure'...".to_owned(), false),
                );
                Effect::OpenConfigureTerminal
            },
            Message::DismissNotification => {
                self.notification = None;
                Effect::Idle
            },
        }
    }
}

/// Where exported logs go: `adguard-logs.zip` in the home directory, or in
/// `/tmp` when the home directory is not known.
pub fn logs_archive_path(home: Option<&str>) -> (res: String)
    ensures
        res@ == (match home {
            Some(h) => h@,
            None => "/tmp"@,
        }) + "/adguard-logs.zip"@,
{
    let base = match home {
        Some(h) => h,
        None => "/tmp",
    };
    let mut res = base.to_owned();
    let tail = crate::text::chars_of("/adguard-logs.zip");
    let mut i: usize = 0;
    let ghost start = res@;
    while i < tail.len()
        invariant
            i <= tail@.len(),
            res@ == start + tail@.take(i as int),
        decreases tail@.len() - i,
    {
        res.push(tail[i]);
        i = i + 1;
        assert(tail@.take(i as int) =~= tail@.take(i - 1).push(tail@[i - 1]));
    }
    assert(tail@.take(tail@.len() as int) =~= tail@);
    res
}


// ---------------------------------------------------------------------------
// Laws

/// Refreshing the filters and receiving the list leaves the state as it was
/// but for the new list, with nothing loading; the refresh asks for the
/// listing and the answer asks for nothing.
pub proof fn law_filters_round_trip(
    s0: AppState,
    s1: AppState,
    s2: AppState,
    e1: Effect,
    e2: Effect,
    filters: Vec<Filter>,
)
    requires
        !s0.filters_loading,
        update_post(s0, Message::RefreshFilters, s1, e1),
        update_post(s1, Message::FiltersLoaded(filters), s2, e2),
    ensures
        e1 == Effect::LoadFilters,
        s1.filters_loading,
        e2 == Effect::Idle,
        s2 == (AppState { filters, ..s0 }),
{
}

/// Refreshing the status and receiving it leaves the state as it was but for
/// the new status, with the loading flag down again.
pub proof fn law_status_round_trip(
    s0: AppState,
    s1: AppState,
    s2: AppState,
    e1: Effect,
    e2: Effect,
    status: Status,
)
    requires
        !s0.loading,
        update_post(s0, Message::RefreshStatus, s1, e1),
        update_post(s1, Message::StatusLoaded(status), s2, e2),
    ensures
        e1 == Effect::LoadStatus,
        s1.loading,
        e2 == Effect::Idle,
        s2 == (AppState { status, ..s0 }),
{
}

/// Toggling stops protection exactly when it runs; when the toggle is done
/// the button is free again, its result is shown, and the status is read anew.
pub proof fn law_toggle(
    s0: AppState,
    s1: AppState,
    s2: AppState,
    e1: Effect,
    e2: Effect,
    result: Result<String, String>,
)
    requires
        update_post(s0, Message::ToggleProtection, s1, e1),
        update_post(s1, Message::ToggleDone(result), s2, e2),
    ensures
        e1 == (Effect::Toggle { stop: s0.status.protection == ProtectionStatus::Running }),
        s1.toggling,
        !s2.toggling,
        notifies(s2, result),
        e2 == Effect::Dispatch(Message::RefreshStatus),
        s2.status == s0.status,
{
}

/// Typing a key and pressing "Activate" activates exactly that key; an empty
/// key runs nothing and shows an error instead.
pub proof fn law_activate_typed_key(
    s0: AppState,
    s1: AppState,
    s2: AppState,
    e1: Effect,
    e2: Effect,
    key: String,
)
    requires
        update_post(s0, Message::LicenseKeyChanged(key), s1, e1),
        update_post(s1, Message::ActivateLicense, s2, e2),
    ensures
        e1 == Effect::Idle,
        key@.len() > 0 ==> e2 == Effect::Activate(key) && s2.license_loading,
        key@.len() == 0 ==> e2 == Effect::Idle && notice_is(s2, "Please enter a license key"@, true),
{
}

/// Whatever a message showed, dismissing it leaves no notification and
/// changes nothing else.
pub proof fn law_dismiss(s0: AppState, s1: AppState, e: Effect)
    requires
        update_post(s0, Message::DismissNotification, s1, e),
    ensures
        s1.notification is None,
        s1 == (AppState { notification: None, ..s0 }),
        e == Effect::Idle,
{
}

/// Choosing a tab shows it; the licence and filters tabs start reading
/// their data, the other tabs change nothing else.
pub proof fn law_tab_selection(s0: AppState, s1: AppState, e: Effect, tab: Tab)
    requires
        update_post(s0, Message::TabSelected(tab), s1, e),
    ensures
        s1.tab == tab,
        tab == Tab::License ==> e == Effect::LoadLicense && s1.license_loading && s1 == (AppState {
            tab,
            license_loading: true,
            ..s0
        }),
        tab == Tab::Filters ==> e == Effect::LoadFilters && s1.filters_loading && s1 == (AppState {
            tab,
            filters_loading: true,
            ..s0
        }),
        tab == Tab::Status || tab == Tab::Updates ==> e == Effect::Idle && s1 == (AppState { tab, ..s0 }),
{
}

/// Each request raises its loading flag and asks for its job.
pub proof fn law_requests(s0: AppState, s1: AppState, e: Effect, m: Message)
    requires
        update_post(s0, m, s1, e),
    ensures
        m is RefreshStatus ==> s1.loading && e == Effect::LoadStatus,
        m is RefreshFilters ==> s1.filters_loading && e == Effect::LoadFilters,
        m is ResetLicense ==> s1.license_loading && e == Effect::ResetLicense,
        m is CheckUpdate ==> s1.update_loading && e == Effect::CheckUpdate,
        m is RunUpdate ==> s1.update_loading && e == Effect::RunUpdate,
        m is ToggleProtection ==> s1.toggling && e == (Effect::Toggle {
            stop: s0.status.protection == ProtectionStatus::Running,
        }),
        m is ExportLogs ==> s1 == s0 && e == Effect::ExportLogs,
{
}

/// Each answer stores its data, lowers its loading flag and asks for nothing.
pub proof fn law_answers(s0: AppState, s1: AppState, e: Effect, m: Message)
    requires
        update_post(s0, m, s1, e),
    ensures
        m matches Message::StatusLoaded(st) ==> s1 == (AppState { status: st, loading: false, ..s0 })
            && e == Effect::Idle,
        m matches Message::LicenseLoaded(info) ==> s1 == (AppState {
            license_info: info,
            license_loading: false,
            ..s0
        }) && e == Effect::Idle,
        m matches Message::FiltersLoaded(fs) ==> s1 == (AppState {
            filters: fs,
            filters_loading: false,
            ..s0
        }) && e == Effect::Idle,
        m matches Message::UpdateChecked(info) ==> s1 == (AppState {
            update_info: info,
            update_loading: false,
            ..s0
        }) && e == Effect::Idle,
{
}

/// A finished action shows its message, as news for `Ok` and as an error
/// for `Err`, and lowers the flag of its job; a finished licence action
/// reads the licence again and clears the typed key only on success; a
/// finished toggle reads the status again.
pub proof fn law_results(s0: AppState, s1: AppState, e: Effect, m: Message)
    requires
        update_post(s0, m, s1, e),
    ensures
        m matches Message::ToggleDone(r) ==> !s1.toggling && e == Effect::Dispatch(
            Message::RefreshStatus,
        ) && s1.status == s0.status && (r matches Ok(t) ==> s1.notification == Some((t, false)))
            && (r matches Err(t) ==> s1.notification == Some((t, true))),
        m matches Message::LicenseActionDone(r) ==> !s1.license_loading && e == Effect::LoadLicense
            && (r matches Ok(t) ==> s1.notification == Some((t, false))
            && s1.license_key_input@.len() == 0) && (r matches Err(t) ==> s1.notification == Some(
            (t, true),
        ) && s1.license_key_input == s0.license_key_input),
        m matches Message::UpdateDone(r) ==> !s1.update_loading && e == Effect::Idle && (
        r matches Ok(t) ==> s1.notification == Some((t, false))) && (r matches Err(t)
            ==> s1.notification == Some((t, true))),
        m matches Message::LogsExported(r) ==> e == Effect::Idle && (r matches Ok(t)
            ==> s1.notification == Some((t, false))) && (r matches Err(t) ==> s1.notification
            == Some((t, true))),
        m matches Message::DownloadPageResult(r) ==> !s1.loading && e == Effect::Idle && (
        r matches Ok(t) ==> s1.notification == Some((t, false))) && (r matches Err(t)
            ==> s1.notification == Some((t, true))),
{
}

} // verus!
