//! What the window shows for a state: which screen, which captions and
//! which colours. The drawing itself is left to the caller.

use vstd::prelude::*;
use crate::app::{AppState, Tab};
use crate::cli::ProtectionStatus;
use crate::text::{
    chars_of, chars_within_exec, copy_range, has_substr, lemma_prefix_within, prefix_within,
    str_contains, string_of, utf8_len, utf8_longer_than,
};

verus! {

/// The palette entries the window draws text and badges in.
#[derive(Debug, Clone, Copy, PartialEq, Eq, Structural)]
pub enum Tone {
    Green,
    Red,
    Yellow,
    Peach,
    Blue,
    Subtext0,
    Overlay0,
}

/// What fills the window below the tabs.
#[derive(Debug, Clone, Copy, PartialEq, Eq, Structural)]
pub enum Screen {
    /// The CLI is missing: offer the download page.
    NotInstalled,
    /// The CLI is not configured: offer the configuration wizard.
    NotConfigured,
    /// The chosen tab.
    Tab(Tab),
}

/// The screen for a protection state and tab: the install and configure
/// screens take precedence over every tab.
pub open spec fn screen_of(p: ProtectionStatus, tab: Tab) -> Screen {
    if p == ProtectionStatus::NotInstalled {
        Screen::NotInstalled
    } else if p == ProtectionStatus::NotConfigured {
        Screen::NotConfigured
    } else {
        Screen::Tab(tab)
    }
}

impl AppState {
    /// The screen the window shows now.
    pub fn screen(&self) -> (res: Screen)
        ensures
            res == screen_of(self.status.protection, self.tab),
    {
        match self.status.protection {
            ProtectionStatus::NotInstalled => Screen::NotInstalled,
            ProtectionStatus::NotConfigured => Screen::NotConfigured,
            _ => Screen::Tab(self.tab),
        }
    }
}

/// The badge in the header: a label and its colour.
pub fn status_badge(p: ProtectionStatus) -> (res: (&'static str, Tone))
    ensures
        res.0@ == match p {
            ProtectionStatus::Running => "● Running"@,
            ProtectionStatus::Stopped => "● Stopped"@,
            ProtectionStatus::NotInstalled => "● Not installed"@,
            ProtectionStatus::NotConfigured => "● Not configured"@,
            ProtectionStatus::NoLicense => "● No license"@,
            ProtectionStatus::Unknown => "● Unknown"@,
        },
        res.1 == match p {
            ProtectionStatus::Running => Tone::Green,
            ProtectionStatus::Stopped => Tone::Red,
            ProtectionStatus::NotInstalled => Tone::Yellow,
            ProtectionStatus::NotConfigured => Tone::Peach,
            ProtectionStatus::NoLicense => Tone::Yellow,
            ProtectionStatus::Unknown => Tone::Overlay0,
        },
{
    match p {
        ProtectionStatus::Running => ("● Running", Tone::Green),
        ProtectionStatus::Stopped => ("● Stopped", Tone::Red),
        ProtectionStatus::NotInstalled => ("● Not installed", Tone::Yellow),
        ProtectionStatus::NotConfigured => ("● Not configured", Tone::Peach),
        ProtectionStatus::NoLicense => ("● No license", Tone::Yellow),
        ProtectionStatus::Unknown => ("● Unknown", Tone::Overlay0),
    }
}

/// The version under the badge: nothing when unknown, else indented by two spaces.
pub fn version_caption(version: &str) -> (res: String)
    ensures
        res@ == if version@.len() == 0 {
            Seq::<char>::empty()
        } else {
            "  "@ + version@
        },
{
    if version.is_empty() {
        return String::new();
    }
    let mut res = "  ".to_owned();
    let v = chars_of(version);
    let mut i: usize = 0;
    let ghost start = res@;
    while i < v.len()
        invariant
            i <= v@.len(),
            res@ == start + v@.take(i as int),
        decreases v@.len() - i,
    {
        res.push(v[i]);
        i = i + 1;
        assert(v@.take(i as int) =~= v@.take(i - 1).push(v@[i - 1]));
    }
    assert(v@.take(v@.len() as int) =~= v@);
    res
}

/// The caption of the start/stop button.
pub fn toggle_caption(toggling: bool, running: bool) -> (res: &'static str)
    ensures
        res@ == if toggling {
            if running {
                "Stopping..."@
            } else {
                "Starting..."@
            }
        } else if running {
            "Stop Protection"@
        } else {
            "Start Protection"@
        },
{
    if toggling {
        if running {
            "Stopping..."
        } else {
            "Starting..."
        }
    } else if running {
        "Stop Protection"
    } else {
        "Start Protection"
    }
}

/// The colour of the start/stop button: red to stop, green to start.
pub fn toggle_tone(running: bool) -> (res: Tone)
    ensures
        res == if running {
            Tone::Red
        } else {
            Tone::Green
        },
{
    if running {
        Tone::Red
    } else {
        Tone::Green
    }
}

/// The large line of the status tab and its colour.
pub fn banner(p: ProtectionStatus) -> (res: (&'static str, Tone))
    ensures
        res.0@ == match p {
            ProtectionStatus::Running => "🛡️ Protection ON"@,
            ProtectionStatus::NoLicense => "⚠ No License"@,
            _ => "🔴 Protection OFF"@,
        },
        res.1 == match p {
            ProtectionStatus::Running => Tone::Green,
            ProtectionStatus::NoLicense => Tone::Yellow,
            _ => Tone::Red,
        },
{
    match p {
        ProtectionStatus::Running => ("🛡️ Protection ON", Tone::Green),
        ProtectionStatus::NoLicense => ("⚠ No License", Tone::Yellow),
        _ => ("🔴 Protection OFF", Tone::Red),
    }
}

/// The colour of the licence state, read from its lower-case form.
pub open spec fn license_tone_of(lower: Seq<char>) -> Tone {
    if has_substr(lower, "active"@) || has_substr(lower, "valid"@) || has_substr(
        lower,
        "premium"@,
    ) {
        Tone::Green
    } else if has_substr(lower, "trial"@) {
        Tone::Yellow
    } else if has_substr(lower, "free"@) {
        Tone::Blue
    } else if has_substr(lower, "no license"@) {
        Tone::Yellow
    } else {
        Tone::Subtext0
    }
}

/// The colour of a licence state given in lower case.
pub fn license_tone_from(lower: &str) -> (res: Tone)
    ensures
        res == license_tone_of(lower@),
{
    if str_contains(lower, "active") || str_contains(lower, "valid") || str_contains(
        lower,
        "premium",
    ) {
        Tone::Green
    } else if str_contains(lower, "trial") {
        Tone::Yellow
    } else if str_contains(lower, "free") {
        Tone::Blue
    } else if str_contains(lower, "no license") {
        Tone::Yellow
    } else {
        Tone::Subtext0
    }
}

/// The colour of a licence state as shown on the licence tab.
pub fn license_tone(status: &str) -> (res: Tone)
    ensures
        res == license_tone_of(crate::cli::lowercase(status@)),
{
    let lower = crate::cli::to_lowercase(status);
    license_tone_from(lower.as_str())
}

/// The mark in front of a filter and its colour.
pub fn filter_marker(enabled: bool) -> (res: (&'static str, Tone))
    ensures
        res.0@ == if enabled {
            "●"@
        } else {
            "○"@
        },
        res.1 == if enabled {
            Tone::Green
        } else {
            Tone::Red
        },
{
    if enabled {
        ("●", Tone::Green)
    } else {
        ("○", Tone::Red)
    }
}

/// The caption of the update-check button.
pub fn check_caption(update_loading: bool) -> (res: &'static str)
    ensures
        res@ == if update_loading {
            "Checking..."@
        } else {
            "Check for updates"@
        },
{
    if update_loading {
        "Checking..."
    } else {
        "Check for updates"
    }
}

/// The most bytes of a notification the bar shows.
pub const NOTICE_BYTES: usize = 120;

/// The text the notification bar shows: the message, or, when it is longer
/// than 120 bytes, the message cut at the last character boundary within them.
pub open spec fn notice_text(msg: Seq<char>) -> Seq<char> {
    if utf8_len(msg) > NOTICE_BYTES {
        prefix_within(msg, NOTICE_BYTES as nat)
    } else {
        msg
    }
}

/// The text the notification bar shows for `msg`.
pub fn notification_text(msg: &str) -> (res: String)
    ensures
        res@ == notice_text(msg@),
{
    let m = chars_of(msg);
    if utf8_longer_than(m.as_slice(), NOTICE_BYTES) {
        let k = chars_within_exec(m.as_slice(), NOTICE_BYTES);
        proof {
            lemma_prefix_within(m@, NOTICE_BYTES as nat);
        }
        let cut = copy_range(m.as_slice(), 0, k);
        assert(m@.subrange(0, k as int) =~= m@.take(k as int));
        string_of(cut.as_slice())
    } else {
        msg.to_owned()
    }
}

/// The colour of the notification bar: red for an error, green otherwise.
pub fn notice_tone(is_error: bool) -> (res: Tone)
    ensures
        res == if is_error {
            Tone::Red
        } else {
            Tone::Green
        },
{
    if is_error {
        Tone::Red
    } else {
        Tone::Green
    }
}

/// What the licence tab shows above the activation form.
#[derive(Debug, Clone, Copy, PartialEq, Eq, Structural)]
pub enum LicensePanel {
    /// The licence details (status, and key and owner where known).
    Details,
    /// A line saying the licence is being read.
    Loading,
    /// Nothing.
    Blank,
}

/// What the filters tab shows under its header.
#[derive(Debug, Clone, Copy, PartialEq, Eq, Structural)]
pub enum FiltersPanel {
    /// A line saying the filters are being read.
    Loading,
    /// A note that no filter was found.
    Empty,
    /// The list of filters.
    List,
}

impl AppState {
    /// Whether the start/stop button reacts: not while a toggle runs.
    pub fn toggle_enabled(&self) -> (res: bool)
        ensures
            res == !self.toggling,
    {
        !self.toggling
    }

    /// Whether the update buttons react: not while an update job runs.
    pub fn update_buttons_enabled(&self) -> (res: bool)
        ensures
            res == !self.update_loading,
    {
        !self.update_loading
    }

    /// Whether the download button reacts: not while something loads.
    pub fn download_enabled(&self) -> (res: bool)
        ensures
            res == !self.loading,
    {
        !self.loading
    }

    /// Whether `tab` is the chosen tab (drawn highlighted).
    pub fn tab_active(&self, tab: Tab) -> (res: bool)
        ensures
            res == (self.tab == tab),
    {
        self.tab == tab
    }

    /// Whether the status tab shows the text of the last status reply.
    pub fn shows_status_output(&self) -> (res: bool)
        ensures
            res == (self.status.raw@.len() > 0),
    {
        !self.status.raw.as_str().is_empty()
    }

    /// Whether the updates tab shows the output of the last update check.
    pub fn shows_update_output(&self) -> (res: bool)
        ensures
            res == (self.update_info@.len() > 0),
    {
        !self.update_info.as_str().is_empty()
    }

    /// What the licence tab shows: the details once a licence reply is
    /// known, else a loading line while it is read, else nothing.
    pub fn license_panel(&self) -> (res: LicensePanel)
        ensures
            res == if self.license_info.raw@.len() > 0 {
                LicensePanel::Details
            } else if self.license_loading {
                LicensePanel::Loading
            } else {
                LicensePanel::Blank
            },
    {
        if !self.license_info.raw.as_str().is_empty() {
            LicensePanel::Details
        } else if self.license_loading {
            LicensePanel::Loading
        } else {
            LicensePanel::Blank
        }
    }

    /// Whether the licence details show a key row and an owner row.
    pub fn license_rows(&self) -> (res: (bool, bool))
        ensures
            res.0 == (self.license_info.key@.len() > 0),
            res.1 == (self.license_info.expires@.len() > 0),
    {
        (!self.license_info.key.as_str().is_empty(), !self.license_info.expires.as_str().is_empty())
    }

    /// What the filters tab shows: a loading line while the list is read,
    /// else a note when there is none, else the list.
    pub fn filters_panel(&self) -> (res: FiltersPanel)
        ensures
            res == if self.filters_loading {
                FiltersPanel::Loading
            } else if self.filters@.len() == 0 {
                FiltersPanel::Empty
            } else {
                FiltersPanel::List
            },
    {
        if self.filters_loading {
            FiltersPanel::Loading
        } else if self.filters.len() == 0 {
            FiltersPanel::Empty
        } else {
            FiltersPanel::List
        }
    }
}

/// The notification bar never shows more than 120 bytes.
pub proof fn law_notice_fits(msg: Seq<char>)
    ensures
        utf8_len(notice_text(msg)) <= NOTICE_BYTES,
{
    if utf8_len(msg) > NOTICE_BYTES {
        lemma_prefix_within(msg, NOTICE_BYTES as nat);
    }
}

/// A missing CLI shows the install screen and an unconfigured one the
/// configuration screen, whatever the tab; otherwise the chosen tab shows.
pub proof fn law_screen(p: ProtectionStatus, tab: Tab)
    ensures
        p == ProtectionStatus::NotInstalled ==> screen_of(p, tab) == Screen::NotInstalled,
        p == ProtectionStatus::NotConfigured ==> screen_of(p, tab) == Screen::NotConfigured,
        p != ProtectionStatus::NotInstalled && p != ProtectionStatus::NotConfigured ==> screen_of(
            p,
            tab,
        ) == Screen::Tab(tab),
{
}

/// The licence colour: green when the state mentions "active", "valid" or
/// "premium"; else yellow for "trial", blue for "free", yellow for "no
/// license"; else the muted text colour.
pub proof fn law_license_tone(lower: Seq<char>)
    ensures
        has_substr(lower, "active"@) || has_substr(lower, "valid"@) || has_substr(
            lower,
            "premium"@,
        ) ==> license_tone_of(lower) == Tone::Green,
        !has_substr(lower, "active"@) && !has_substr(lower, "valid"@) && !has_substr(
            lower,
            "premium"@,
        ) && has_substr(lower, "trial"@) ==> license_tone_of(lower) == Tone::Yellow,
        !has_substr(lower, "active"@) && !has_substr(lower, "valid"@) && !has_substr(
            lower,
            "premium"@,
        ) && !has_substr(lower, "trial"@) && has_substr(lower, "free"@) ==> license_tone_of(lower)
            == Tone::Blue,
        !has_substr(lower, "active"@) && !has_substr(lower, "valid"@) && !has_substr(
            lower,
            "premium"@,
        ) && !has_substr(lower, "trial"@) && !has_substr(lower, "free"@) && has_substr(
            lower,
            "no license"@,
        ) ==> license_tone_of(lower) == Tone::Yellow,
        !has_substr(lower, "active"@) && !has_substr(lower, "valid"@) && !has_substr(
            lower,
            "premium"@,
        ) && !has_substr(lower, "trial"@) && !has_substr(lower, "free"@) && !has_substr(
            lower,
            "no license"@,
        ) ==> license_tone_of(lower) == Tone::Subtext0,
{
}

/// The notification bar shows a message of at most 120 bytes whole, and of
/// a longer one the most leading characters that fit in 120 bytes.
pub proof fn law_notice_cut(msg: Seq<char>)
    ensures
        utf8_len(msg) <= NOTICE_BYTES ==> notice_text(msg) == msg,
        utf8_len(msg) > NOTICE_BYTES ==> exists|k: int|
            0 <= k < msg.len() && notice_text(msg) == #[trigger] msg.take(k) && utf8_len(msg.take(k))
                <= NOTICE_BYTES && utf8_len(msg.take(k + 1)) > NOTICE_BYTES,
{
    if utf8_len(msg) > NOTICE_BYTES {
        lemma_prefix_within(msg, NOTICE_BYTES as nat);
        let k = crate::text::chars_within(msg, NOTICE_BYTES as nat);
        assert(msg.take(msg.len() as int) =~= msg);
        assert(k < msg.len());
    }
}

} // verus!
