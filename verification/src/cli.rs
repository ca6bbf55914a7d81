//! What the replies of `adguard-cli` mean: protection state, licence details,
//! filter lists and the outcome of each action.
//!
//! The commands themselves are run by the caller. Each operation here takes
//! the reply of a command (exit status and both output streams) and either
//! names the next command to run or returns the result.

use vstd::prelude::*;
use crate::text::{
    after_first, after_first_exec, chars_of, chars_within_exec, contains, copy_range, decimal,
    decimal_exec, find, find_exec, has_substr, lemma_find, lemma_prefix_within, lemma_utf8_len_concat,
    lemma_lines_no_newline, lemma_lines_single, lemma_trim_fixed, lemma_trim_idempotent,
    lemma_trim_props, lines, no_newline, avoids, lemma_after_first_push, lemma_lines_avoid,
    lemma_lines_concat, lemma_occurs_at_push, lemma_pieces_nonempty, lemma_substr_char,
    chars_within, lemma_substr_at, occurs_at, lemma_substr_push, lemma_substr_trans, lemma_trim_push_space, lemma_trim_start_push, pieces, strip_cr, prefix_within, utf8_width, is_whitespace,
    lines_exec, starts_with, starts_with_exec, str_contains, string_of, trim, trim_exec,
    trim_start, trim_start_exec, utf8_len, utf8_longer_than,
};
use vstd::slice::slice_to_vec;

verus! {

// ---------------------------------------------------------------------------
// Outside calls

/// What `regex::Regex::new(pattern)` followed by `Regex::replace_all(haystack,
/// replacement)` produces, or `None` when `pattern` does not compile.
pub uninterp spec fn regex_replaced(
    pattern: Seq<char>,
    haystack: Seq<char>,
    replacement: Seq<char>,
) -> Option<Seq<char>>;

/// Compiles `pattern` with `regex::Regex::new` and replaces every match in
/// `haystack` with `replacement` through `Regex::replace_all`. The contract
/// claims only that the result depends on the three texts alone; what the
/// replacement is, is left to the `regex` crate and not stated here.
#[verifier::external_body]
fn regex_replace_all(pattern: &str, haystack: &str, replacement: &str) -> (res: Option<String>)
    ensures
        match res {
            Some(r) => regex_replaced(pattern@, haystack@, replacement@) == Some(r@),
            None => regex_replaced(pattern@, haystack@, replacement@) is None,
        },
{
    match regex::Regex::new(pattern) {
        Ok(re) => Some(re.replace_all(haystack, replacement).into_owned()),
        Err(_) => None,
    }
}

/// The Unicode lower-case form of a text, as `str::to_lowercase` computes it.
pub uninterp spec fn lowercase(s: Seq<char>) -> Seq<char>;

/// `str::to_lowercase`: the contract claims only that the result is a
/// function of the text; the Unicode case mapping itself is not stated.
#[verifier::external_body]
pub(crate) fn to_lowercase(s: &str) -> (res: String)
    ensures
        res@ == lowercase(s@),
{
    s.to_lowercase()
}

/// The lower-case form of the characters `s`.
fn lowercase_chars(s: &[char]) -> (res: Vec<char>)
    ensures
        res@ == lowercase(s@),
{
    let st = string_of(s);
    let low = to_lowercase(st.as_str());
    chars_of(low.as_str())
}

// ---------------------------------------------------------------------------
// Terminal colour codes

/// The pattern of the terminal escape sequences the CLI colours its output with.
pub const ANSI_ESCAPE: &'static str = "\x1b\\[[0-9;]*[mGKHF]";

/// `s` with every match of [`ANSI_ESCAPE`] removed. The pattern is a fixed,
/// valid one; were it refused, the text would be kept as it is.
pub open spec fn ansi_stripped(s: Seq<char>) -> Seq<char> {
    match regex_replaced(ANSI_ESCAPE@, s, ""@) {
        Some(r) => r,
        None => s,
    }
}

/// Removes the terminal escape sequences (colours, cursor moves) from `s`.
pub fn strip_ansi(s: &str) -> (res: String)
    ensures
        res@ == ansi_stripped(s@),
{
    match regex_replace_all(ANSI_ESCAPE, s, "") {
        Some(r) => r,
        None => s.to_owned(),
    }
}

// ---------------------------------------------------------------------------
// Command replies

/// What a finished command left behind.
pub struct CmdResult {
    pub exit_success: bool,
    pub stdout: String,
    pub stderr: String,
}

/// Standard output, then standard error on a line of its own when both hold text.
pub open spec fn combined_text(out: Seq<char>, err: Seq<char>) -> Seq<char> {
    if err.len() == 0 {
        out
    } else if out.len() == 0 {
        err
    } else {
        out.push('\n') + err
    }
}

/// The cleaned text of a reply: both streams, without escape sequences.
pub open spec fn clean_reply(r: CmdResult) -> Seq<char> {
    ansi_stripped(combined_text(r.stdout@, r.stderr@))
}

/// The lower-case form of [`clean_reply`], which the phrase checks read.
pub open spec fn lower_reply(r: CmdResult) -> Seq<char> {
    lowercase(clean_reply(r))
}

impl CmdResult {
    /// Both output streams in one text.
    pub fn combined(&self) -> (res: String)
        ensures
            res@ == combined_text(self.stdout@, self.stderr@),
    {
        let mut s = self.stdout.clone();
        if !self.stderr.as_str().is_empty() {
            if !s.as_str().is_empty() {
                s.push('\n');
            }
            let err = chars_of(self.stderr.as_str());
            let mut i: usize = 0;
            let ghost base = s@;
            while i < err.len()
                invariant
                    i <= err@.len(),
                    err@ == self.stderr@,
                    s@ == base + err@.take(i as int),
                decreases err@.len() - i,
            {
                s.push(err[i]);
                i = i + 1;
                assert(err@.take(i as int) =~= err@.take(i - 1).push(err@[i - 1]));
            }
            assert(err@.take(err@.len() as int) =~= err@);
        }
        s
    }

    /// The first non-empty line of the combined output, trimmed and without
    /// escape sequences (what a notification shows); empty when every line is blank.
    pub fn first_line(&self) -> (res: String)
        ensures
            res@ == ansi_stripped(
                match first_nonblank(lines(combined_text(self.stdout@, self.stderr@))) {
                    Some(l) => l,
                    None => Seq::<char>::empty(),
                },
            ),
    {
        let c = self.combined();
        let cv = chars_of(c.as_str());
        let first: Vec<char> = match first_nonblank_exec(cv.as_slice()) {
            Some(l) => l,
            None => Vec::new(),
        };
        let fs = string_of(first.as_slice());
        strip_ansi(fs.as_str())
    }

    /// The cleaned text of this reply and its lower-case form.
    fn cleaned(&self) -> (res: (String, String))
        ensures
            res.0@ == clean_reply(*self),
            res.1@ == lower_reply(*self),
    {
        let c = self.combined();
        let clean = strip_ansi(c.as_str());
        let lower = to_lowercase(clean.as_str());
        (clean, lower)
    }
}


// ---------------------------------------------------------------------------
// Notification messages

/// The first of `ls` that is not blank, trimmed.
pub open spec fn first_nonblank(ls: Seq<Seq<char>>) -> Option<Seq<char>>
    decreases ls.len(),
{
    if ls.len() == 0 {
        None
    } else if trim(ls[0]).len() > 0 {
        Some(trim(ls[0]))
    } else {
        first_nonblank(ls.drop_first())
    }
}

/// The line a message is reduced to: its first non-blank line, trimmed, or
/// the whole text when every line is blank.
pub open spec fn headline(s: Seq<char>) -> Seq<char> {
    match first_nonblank(lines(s)) {
        Some(l) => l,
        None => s,
    }
}

/// The longest headline, in UTF-8 bytes, that is shown whole.
pub const MAX_MESSAGE_BYTES: usize = 200;

/// The number of bytes of a headline kept before the ellipsis when it is cut.
pub const CUT_MESSAGE_BYTES: usize = 197;

/// A message shortened for a notification: the headline, or, when it is
/// longer than 200 bytes, the headline cut at the last character boundary
/// within its first 197 bytes, followed by `…`.
pub open spec fn truncated(s: Seq<char>) -> Seq<char> {
    let h = headline(s);
    if utf8_len(h) > MAX_MESSAGE_BYTES {
        prefix_within(h, CUT_MESSAGE_BYTES as nat) + "…"@
    } else {
        h
    }
}

/// The first non-blank line of `s`, trimmed.
fn first_nonblank_exec(s: &[char]) -> (res: Option<Vec<char>>)
    ensures
        match first_nonblank(lines(s@)) {
            Some(l) => res matches Some(v) && v@ == l,
            None => res is None,
        },
{
    let ls = lines_exec(s);
    let ghost all = lines(s@);
    let mut i: usize = 0;
    assert(all.skip(0) =~= all);
    while i < ls.len()
        invariant
            i <= ls@.len(),
            all == lines(s@),
            ls@.len() == all.len(),
            forall|k: int| 0 <= k < ls@.len() ==> #[trigger] ls@[k]@ == all[k],
            first_nonblank(all) == first_nonblank(all.skip(i as int)),
        decreases ls@.len() - i,
    {
        let t = trim_exec(ls[i].as_slice());
        assert(all.skip(i as int)[0] == all[i as int]);
        if t.len() > 0 {
            assert(ls@[i as int]@ == all[i as int]);
            assert(all.skip(i as int).len() > 0);
            assert(first_nonblank(all.skip(i as int)) == Some(trim(all[i as int])));
            return Some(t);
        }
        assert(all.skip(i as int).drop_first() =~= all.skip(i + 1));
        i = i + 1;
    }
    assert(all.skip(i as int).len() == 0);
    None
}

/// The headline of `s`.
fn headline_exec(s: &[char]) -> (res: Vec<char>)
    ensures
        res@ == headline(s@),
{
    match first_nonblank_exec(s) {
        Some(l) => l,
        None => slice_to_vec(s),
    }
}

/// Shortens a reply to the message a notification shows: its first
/// non-blank line, trimmed, and when that is longer than 200 bytes, cut at
/// the last character boundary within 197 bytes and followed by `…`.
pub fn truncate_msg(s: &str) -> (res: String)
    ensures
        res@ == truncated(s@),
{
    let sv = chars_of(s);
    let h = headline_exec(sv.as_slice());
    if utf8_longer_than(h.as_slice(), MAX_MESSAGE_BYTES) {
        let k = chars_within_exec(h.as_slice(), CUT_MESSAGE_BYTES);
        proof {
            lemma_prefix_within(h@, CUT_MESSAGE_BYTES as nat);
        }
        let mut cut = copy_range(h.as_slice(), 0, k);
        let dots = chars_of("…");
        let mut j: usize = 0;
        let ghost base = cut@;
        while j < dots.len()
            invariant
                j <= dots@.len(),
                cut@ == base + dots@.take(j as int),
            decreases dots@.len() - j,
        {
            cut.push(dots[j]);
            j = j + 1;
            assert(dots@.take(j as int) =~= dots@.take(j - 1).push(dots@[j - 1]));
        }
        assert(dots@.take(dots@.len() as int) =~= dots@);
        assert(h@.subrange(0, k as int) =~= h@.take(k as int));
        string_of(cut.as_slice())
    } else {
        string_of(h.as_slice())
    }
}

// ---------------------------------------------------------------------------
// Commands

/// A command the library asks its caller to run.
pub enum Request {
    /// `which adguard-cli`: is the CLI installed?
    Which,
    /// `adguard-cli config show`
    ShowConfig,
    /// `adguard-cli status`
    Status,
    /// `adguard-cli --version`
    Version,
    /// `adguard-cli start`
    Start,
    /// `adguard-cli stop`
    Stop,
    /// `adguard-cli license`
    ShowLicense,
    /// `adguard-cli activate <key>`
    Activate(String),
    /// `adguard-cli reset-license`
    ResetLicense,
    /// `adguard-cli filters list --all`
    ListFilters,
    /// `adguard-cli export-logs -o <path>`
    ExportLogs(String),
    /// `adguard-cli check-update`
    CheckUpdate,
    /// `adguard-cli update`
    Update,
}

/// The program and arguments of a request.
pub open spec fn argv_of(r: Request) -> Seq<Seq<char>> {
    match r {
        Request::Which => seq!["which"@, "adguard-cli"@],
        Request::ShowConfig => seq!["adguard-cli"@, "config"@, "show"@],
        Request::Status => seq!["adguard-cli"@, "status"@],
        Request::Version => seq!["adguard-cli"@, "--version"@],
        Request::Start => seq!["adguard-cli"@, "start"@],
        Request::Stop => seq!["adguard-cli"@, "stop"@],
        Request::ShowLicense => seq!["adguard-cli"@, "license"@],
        Request::Activate(key) => seq!["adguard-cli"@, "activate"@, key@],
        Request::ResetLicense => seq!["adguard-cli"@, "reset-license"@],
        Request::ListFilters => seq!["adguard-cli"@, "filters"@, "list"@, "--all"@],
        Request::ExportLogs(path) => seq!["adguard-cli"@, "export-logs"@, "-o"@, path@],
        Request::CheckUpdate => seq!["adguard-cli"@, "check-update"@],
        Request::Update => seq!["adguard-cli"@, "update"@],
    }
}

impl Request {
    /// The program to run, then its arguments.
    pub fn argv(&self) -> (res: Vec<String>)
        ensures
            res@.len() == argv_of(*self).len(),
            forall|i: int| 0 <= i < res@.len() ==> #[trigger] res@[i]@ == argv_of(*self)[i],
    {
        let res = match self {
            Request::Which => vec!["which".to_owned(), "adguard-cli".to_owned()],
            Request::ShowConfig => vec![
                "adguard-cli".to_owned(),
                "config".to_owned(),
                "show".to_owned(),
            ],
            Request::Status => vec!["adguard-cli".to_owned(), "status".to_owned()],
            Request::Version => vec!["adguard-cli".to_owned(), "--version".to_owned()],
            Request::Start => vec!["adguard-cli".to_owned(), "start".to_owned()],
            Request::Stop => vec!["adguard-cli".to_owned(), "stop".to_owned()],
            Request::ShowLicense => vec!["adguard-cli".to_owned(), "license".to_owned()],
            Request::Activate(key) => vec![
                "adguard-cli".to_owned(),
                "activate".to_owned(),
                key.clone(),
            ],
            Request::ResetLicense => vec!["adguard-cli".to_owned(), "reset-license".to_owned()],
            Request::ListFilters => vec![
                "adguard-cli".to_owned(),
                "filters".to_owned(),
                "list".to_owned(),
                "--all".to_owned(),
            ],
            Request::ExportLogs(path) => vec![
                "adguard-cli".to_owned(),
                "export-logs".to_owned(),
                "-o".to_owned(),
                path.clone(),
            ],
            Request::CheckUpdate => vec!["adguard-cli".to_owned(), "check-update".to_owned()],
            Request::Update => vec!["adguard-cli".to_owned(), "update".to_owned()],
        };
        res
    }
}

/// One move of a multi-command operation: run a command and come back with
/// its reply in the given stage, or the operation's result.
pub enum Step<S, T> {
    Run(Request, S),
    Done(T),
}

/// What an action reports: a message for a notification, as success or error.
pub type Outcome = Result<String, String>;

/// An action's report as plain text.
pub open spec fn outcome_view(o: Outcome) -> Result<Seq<char>, Seq<char>> {
    match o {
        Ok(m) => Ok(m@),
        Err(m) => Err(m@),
    }
}

/// The error report carrying the shortened reply.
pub open spec fn failure(clean: Seq<char>) -> Result<Seq<char>, Seq<char>> {
    Err(truncated(clean))
}

/// The success report carrying the shortened reply.
pub open spec fn echoed(clean: Seq<char>) -> Result<Seq<char>, Seq<char>> {
    Ok(truncated(clean))
}

fn fail_with(clean: &str) -> (res: Outcome)
    ensures
        outcome_view(res) == failure(clean@),
{
    Err(truncate_msg(clean))
}

fn echo(clean: &str) -> (res: Outcome)
    ensures
        outcome_view(res) == echoed(clean@),
{
    Ok(truncate_msg(clean))
}

fn succeed(msg: &str) -> (res: Outcome)
    ensures
        outcome_view(res) == Ok::<Seq<char>, Seq<char>>(msg@),
{
    Ok(msg.to_owned())
}

/// Whether `s` contains `t`.
fn mentions(s: &str, t: &str) -> (res: bool)
    ensures
        res == has_substr(s@, t@),
{
    str_contains(s, t)
}

// ---------------------------------------------------------------------------
// Stopping protection

/// `adguard-cli stop` failed: the reply does not say protection was already
/// not running, and the command exited with an error or mentions one.
pub open spec fn stop_refused(exit_success: bool, lower: Seq<char>) -> bool {
    &&& !has_substr(lower, "not running"@)
    &&& (!exit_success || has_substr(lower, "error"@) || has_substr(lower, "failed"@))
}

/// The report of `adguard-cli stop`.
pub open spec fn stop_outcome(exit_success: bool, clean: Seq<char>, lower: Seq<char>) -> Result<Seq<char>, Seq<char>> {
    if stop_refused(exit_success, lower) {
        failure(clean)
    } else {
        Ok("Protection stopped"@)
    }
}

/// Reads the reply of `adguard-cli stop` from its exit status, cleaned text
/// and lower-case text.
pub fn stop_verdict(exit_success: bool, clean: &str, lower: &str) -> (res: Outcome)
    ensures
        outcome_view(res) == stop_outcome(exit_success, clean@, lower@),
{
    let not_running = mentions(lower, "not running");
    if !exit_success && !not_running {
        return fail_with(clean);
    }
    if (mentions(lower, "error") || mentions(lower, "failed")) && !not_running {
        fail_with(clean)
    } else {
        succeed("Protection stopped")
    }
}

/// The report of `adguard-cli stop`, from its reply.
pub fn stop(reply: &CmdResult) -> (res: Outcome)
    ensures
        outcome_view(res) == stop_outcome(reply.exit_success, clean_reply(*reply), lower_reply(*reply)),
{
    let (clean, lower) = reply.cleaned();
    stop_verdict(reply.exit_success, clean.as_str(), lower.as_str())
}

// ---------------------------------------------------------------------------
// Licence actions

/// Phrases by which `adguard-cli activate` turns a key down.
pub open spec fn activation_rejected(lower: Seq<char>) -> bool {
    ||| has_substr(lower, "does not exist"@)
    ||| has_substr(lower, "not found"@)
    ||| has_substr(lower, "not valid"@)
    ||| has_substr(lower, "invalid"@)
    ||| has_substr(lower, "error"@)
    ||| has_substr(lower, "failed"@)
    ||| has_substr(lower, "expired"@)
    ||| has_substr(lower, "you need to activate"@)
}

/// Phrases by which `adguard-cli activate` confirms a key.
pub open spec fn activation_confirmed(lower: Seq<char>) -> bool {
    has_substr(lower, "activated"@) || has_substr(lower, "success"@)
}

/// The report of `adguard-cli activate`: success only on a clean exit that
/// confirms the key and names no failure; any other reply is an error.
pub open spec fn activation_outcome(exit_success: bool, clean: Seq<char>, lower: Seq<char>) -> Result<Seq<char>, Seq<char>> {
    if exit_success && !activation_rejected(lower) && activation_confirmed(lower) {
        Ok("License activated successfully"@)
    } else {
        failure(clean)
    }
}

/// Reads the reply of `adguard-cli activate`.
pub fn activation_verdict(exit_success: bool, clean: &str, lower: &str) -> (res: Outcome)
    ensures
        outcome_view(res) == activation_outcome(exit_success, clean@, lower@),
{
    if !exit_success {
        return fail_with(clean);
    }
    if mentions(lower, "does not exist") || mentions(lower, "not found") || mentions(lower, "not valid") || mentions(
        lower,
        "invalid",
    ) || mentions(lower, "error") || mentions(lower, "failed") || mentions(lower, "expired") || mentions(
        lower,
        "you need to activate",
    ) {
        fail_with(clean)
    } else if mentions(lower, "activated") || mentions(lower, "success") {
        succeed("License activated successfully")
    } else {
        fail_with(clean)
    }
}

/// The report of `adguard-cli activate <key>`, from its reply.
pub fn activate_license(reply: &CmdResult) -> (res: Outcome)
    ensures
        outcome_view(res) == activation_outcome(
            reply.exit_success,
            clean_reply(*reply),
            lower_reply(*reply),
        ),
{
    let (clean, lower) = reply.cleaned();
    activation_verdict(reply.exit_success, clean.as_str(), lower.as_str())
}

/// `adguard-cli reset-license` failed.
pub open spec fn reset_refused(exit_success: bool, lower: Seq<char>) -> bool {
    ||| !exit_success
    ||| has_substr(lower, "you need to activate"@)
    ||| has_substr(lower, "error"@)
    ||| has_substr(lower, "failed"@)
}

/// The report of `adguard-cli reset-license`: the shortened reply, as error or success.
pub open spec fn reset_outcome(exit_success: bool, clean: Seq<char>, lower: Seq<char>) -> Result<Seq<char>, Seq<char>> {
    if reset_refused(exit_success, lower) {
        failure(clean)
    } else {
        echoed(clean)
    }
}

/// Reads the reply of `adguard-cli reset-license`.
pub fn reset_verdict(exit_success: bool, clean: &str, lower: &str) -> (res: Outcome)
    ensures
        outcome_view(res) == reset_outcome(exit_success, clean@, lower@),
{
    if !exit_success || mentions(lower, "you need to activate") || mentions(lower, "error") || mentions(
        lower,
        "failed",
    ) {
        fail_with(clean)
    } else {
        echo(clean)
    }
}

/// The report of `adguard-cli reset-license`, from its reply.
pub fn reset_license(reply: &CmdResult) -> (res: Outcome)
    ensures
        outcome_view(res) == reset_outcome(reply.exit_success, clean_reply(*reply), lower_reply(*reply)),
{
    let (clean, lower) = reply.cleaned();
    reset_verdict(reply.exit_success, clean.as_str(), lower.as_str())
}

// ---------------------------------------------------------------------------
// Updates and logs

/// A maintenance command (`export-logs`, `update`) failed.
pub open spec fn job_refused(exit_success: bool, lower: Seq<char>) -> bool {
    ||| !exit_success
    ||| has_substr(lower, "error"@)
    ||| has_substr(lower, "failed"@)
    ||| has_substr(lower, "fail"@)
}

/// The report of a maintenance command: the shortened reply, as error or success.
pub open spec fn job_outcome(exit_success: bool, clean: Seq<char>, lower: Seq<char>) -> Result<Seq<char>, Seq<char>> {
    if job_refused(exit_success, lower) {
        failure(clean)
    } else {
        echoed(clean)
    }
}

/// Reads the reply of a maintenance command.
pub fn job_verdict(exit_success: bool, clean: &str, lower: &str) -> (res: Outcome)
    ensures
        outcome_view(res) == job_outcome(exit_success, clean@, lower@),
{
    if !exit_success || mentions(lower, "error") || mentions(lower, "failed") || mentions(lower, "fail") {
        fail_with(clean)
    } else {
        echo(clean)
    }
}

/// The report of `adguard-cli export-logs -o <path>`, from its reply.
pub fn export_logs(reply: &CmdResult) -> (res: Outcome)
    ensures
        outcome_view(res) == job_outcome(reply.exit_success, clean_reply(*reply), lower_reply(*reply)),
{
    let (clean, lower) = reply.cleaned();
    job_verdict(reply.exit_success, clean.as_str(), lower.as_str())
}

/// The report of `adguard-cli update`, from its reply.
pub fn update(reply: &CmdResult) -> (res: Outcome)
    ensures
        outcome_view(res) == job_outcome(reply.exit_success, clean_reply(*reply), lower_reply(*reply)),
{
    let (clean, lower) = reply.cleaned();
    job_verdict(reply.exit_success, clean.as_str(), lower.as_str())
}

/// What `adguard-cli check-update` says, without escape sequences.
pub fn check_update(reply: &CmdResult) -> (res: String)
    ensures
        res@ == clean_reply(*reply),
{
    let c = reply.combined();
    strip_ansi(c.as_str())
}


// ---------------------------------------------------------------------------
// Starting protection

/// Where [`start`] stands: the reply it is given answers the request of this stage.
pub enum StartStage {
    /// The reply of `adguard-cli start`.
    Launched,
    /// The reply of `adguard-cli status`, asked when the start reply was unclear.
    Verifying,
}

/// Phrases by which `adguard-cli start` confirms that protection runs.
pub open spec fn start_confirmed(lower: Seq<char>) -> bool {
    ||| has_substr(lower, "successfully"@)
    ||| has_substr(lower, "is running"@)
    ||| has_substr(lower, "listening"@)
}

/// Phrases by which `adguard-cli start` reports a failure.
pub open spec fn start_refused(lower: Seq<char>) -> bool {
    ||| has_substr(lower, "error"@)
    ||| has_substr(lower, "failed"@)
    ||| has_substr(lower, "can't"@)
    ||| has_substr(lower, "cannot"@)
}

/// A step of starting protection, with its report as plain text.
pub open spec fn start_model(stage: StartStage, exit_success: bool, clean: Seq<char>, lower: Seq<char>) -> Step<
    StartStage,
    Result<Seq<char>, Seq<char>>,
> {
    match stage {
        StartStage::Launched => if !exit_success {
            Step::Done(failure(clean))
        } else if start_confirmed(lower) {
            Step::Done(Ok("Protection started"@))
        } else if start_refused(lower) {
            Step::Done(failure(clean))
        } else {
            Step::Run(Request::Status, StartStage::Verifying)
        },
        StartStage::Verifying => if exit_success && has_substr(lower, "is running"@) {
            Step::Done(Ok("Protection started"@))
        } else {
            Step::Done(failure(clean))
        },
    }
}

/// A step of starting protection as plain text.
pub open spec fn start_step_view(s: Step<StartStage, Outcome>) -> Step<
    StartStage,
    Result<Seq<char>, Seq<char>>,
> {
    match s {
        Step::Run(r, st) => Step::Run(r, st),
        Step::Done(o) => Step::Done(outcome_view(o)),
    }
}

/// The first step of starting protection: run `adguard-cli start`.
pub fn begin_start() -> (res: Step<StartStage, Outcome>)
    ensures
        res == Step::<StartStage, Outcome>::Run(Request::Start, StartStage::Launched),
{
    Step::Run(Request::Start, StartStage::Launched)
}

/// Reads a reply while starting protection.
pub fn start_verdict(stage: StartStage, exit_success: bool, clean: &str, lower: &str) -> (res: Step<
    StartStage,
    Outcome,
>)
    ensures
        start_step_view(res) == start_model(stage, exit_success, clean@, lower@),
{
    match stage {
        StartStage::Launched => {
            if !exit_success {
                return Step::Done(fail_with(clean));
            }
            if mentions(lower, "successfully") || mentions(lower, "is running") || mentions(lower, "listening") {
                Step::Done(succeed("Protection started"))
            } else if mentions(lower, "error") || mentions(lower, "failed") || mentions(lower, "can't") || mentions(
                lower,
                "cannot",
            ) {
                Step::Done(fail_with(clean))
            } else {
                Step::Run(Request::Status, StartStage::Verifying)
            }
        },
        StartStage::Verifying => {
            if exit_success && mentions(lower, "is running") {
                Step::Done(succeed("Protection started"))
            } else {
                Step::Done(fail_with(clean))
            }
        },
    }
}

/// Starts protection, one reply at a time: `adguard-cli start`, and when its
/// reply is unclear, `adguard-cli status` to check.
pub fn start(stage: StartStage, reply: &CmdResult) -> (res: Step<StartStage, Outcome>)
    ensures
        start_step_view(res) == start_model(
            stage,
            reply.exit_success,
            clean_reply(*reply),
            lower_reply(*reply),
        ),
{
    let (clean, lower) = reply.cleaned();
    start_verdict(stage, reply.exit_success, clean.as_str(), lower.as_str())
}

// ---------------------------------------------------------------------------
// Protection status

/// The state of protection as the GUI shows it.
#[derive(Debug, Clone, Copy, PartialEq, Eq, Structural)]
pub enum ProtectionStatus {
    Running,
    Stopped,
    Unknown,
    NotInstalled,
    NotConfigured,
    NoLicense,
}

/// Protection state, CLI version and the status text it was read from.
#[derive(Debug, Clone)]
pub struct Status {
    pub protection: ProtectionStatus,
    pub version: String,
    pub raw: String,
}

/// `which adguard-cli` found the CLI.
pub fn is_installed(which_reply: &CmdResult) -> (res: bool)
    ensures
        res == which_reply.exit_success,
{
    which_reply.exit_success
}

/// The CLI has a configuration: `config show` does not ask to run the wizard.
pub open spec fn configured_text(lower: Seq<char>) -> bool {
    &&& !has_substr(lower, "no configuration yaml"@)
    &&& !has_substr(lower, "run `adguard-cli configure`"@)
}

/// Reads the lower-case reply of `adguard-cli config show`.
pub fn configured_from(lower: &str) -> (res: bool)
    ensures
        res == configured_text(lower@),
{
    !mentions(lower, "no configuration yaml") && !mentions(lower, "run `adguard-cli configure`")
}

/// Whether the reply of `adguard-cli config show` shows a configuration.
pub fn is_configured(reply: &CmdResult) -> (res: bool)
    ensures
        res == configured_text(lower_reply(*reply)),
{
    let (_clean, lower) = reply.cleaned();
    configured_from(lower.as_str())
}

/// The protection state told by the reply of `adguard-cli status`. A failed
/// command never means protection runs: it is a missing licence when the
/// reply speaks of one, and stopped otherwise.
pub open spec fn protection_of(exit_success: bool, lower: Seq<char>) -> ProtectionStatus {
    if !exit_success {
        if has_substr(lower, "you need to activate"@) || has_substr(lower, "license"@) {
            ProtectionStatus::NoLicense
        } else {
            ProtectionStatus::Stopped
        }
    } else if has_substr(lower, "proxy is running"@) || has_substr(lower, "protection is running"@)
        || has_substr(lower, "is running"@) || has_substr(lower, "protection is enabled"@) {
        ProtectionStatus::Running
    } else if has_substr(lower, "stopped"@) || has_substr(lower, "not running"@) || has_substr(
        lower,
        "disabled"@,
    ) || has_substr(lower, "is not running"@) {
        ProtectionStatus::Stopped
    } else {
        ProtectionStatus::Unknown
    }
}

/// Reads the lower-case reply of `adguard-cli status`.
pub fn protection_from(exit_success: bool, lower: &str) -> (res: ProtectionStatus)
    ensures
        res == protection_of(exit_success, lower@),
        !exit_success ==> res != ProtectionStatus::Running,
{
    if !exit_success {
        if mentions(lower, "you need to activate") || mentions(lower, "license") {
            ProtectionStatus::NoLicense
        } else {
            ProtectionStatus::Stopped
        }
    } else if mentions(lower, "proxy is running") || mentions(lower, "protection is running") || mentions(
        lower,
        "is running",
    ) || mentions(lower, "protection is enabled") {
        ProtectionStatus::Running
    } else if mentions(lower, "stopped") || mentions(lower, "not running") || mentions(lower, "disabled") || mentions(
        lower,
        "is not running",
    ) {
        ProtectionStatus::Stopped
    } else {
        ProtectionStatus::Unknown
    }
}

/// The CLI version printed by `adguard-cli --version`.
pub fn get_version(reply: &CmdResult) -> (res: String)
    ensures
        res@ == trim(ansi_stripped(reply.stdout@)),
{
    let clean = strip_ansi(reply.stdout.as_str());
    let cv = chars_of(clean.as_str());
    let t = trim_exec(cv.as_slice());
    string_of(t.as_slice())
}

/// Where [`get_status`] stands: the reply it is given answers the request of this stage.
pub enum StatusStage {
    /// The reply of `which adguard-cli`.
    Installed,
    /// The reply of `adguard-cli config show`.
    Configured,
    /// The reply of `adguard-cli status`.
    Protection,
    /// The reply of `adguard-cli --version`, with what is known so far.
    Version { protection: ProtectionStatus, raw: String },
}

/// The first step of reading the status: look for the CLI.
pub fn begin_status() -> (res: Step<StatusStage, Status>)
    ensures
        res == Step::<StatusStage, Status>::Run(Request::Which, StatusStage::Installed),
{
    Step::Run(Request::Which, StatusStage::Installed)
}

/// Reads the protection status, one reply at a time: is the CLI installed,
/// is it configured, what does `status` say, and which version is it. Without
/// the CLI nothing else is asked; without a configuration `status` is not asked.
pub fn get_status(stage: StatusStage, reply: &CmdResult) -> (res: Step<StatusStage, Status>)
    ensures
        match stage {
            StatusStage::Installed => if reply.exit_success {
                res == Step::<StatusStage, Status>::Run(Request::ShowConfig, StatusStage::Configured)
            } else {
                res matches Step::Done(st) && st.protection == ProtectionStatus::NotInstalled
                    && st.version@.len() == 0 && st.raw@.len() == 0
            },
            StatusStage::Configured => if configured_text(lower_reply(*reply)) {
                res == Step::<StatusStage, Status>::Run(Request::Status, StatusStage::Protection)
            } else {
                res matches Step::Run(Request::Version, StatusStage::Version { protection, raw })
                    && protection == ProtectionStatus::NotConfigured && raw@.len() == 0
            },
            StatusStage::Protection => res matches Step::Run(
                Request::Version,
                StatusStage::Version { protection, raw },
            ) && protection == protection_of(reply.exit_success, lower_reply(*reply)) && raw@
                == clean_reply(*reply),
            StatusStage::Version { protection, raw } => res matches Step::Done(st)
                && st.protection == protection && st.raw == raw && st.version@ == trim(
                ansi_stripped(reply.stdout@),
            ),
        },
{
    match stage {
        StatusStage::Installed => {
            if !is_installed(reply) {
                Step::Done(
                    Status {
                        protection: ProtectionStatus::NotInstalled,
                        version: String::new(),
                        raw: String::new(),
                    },
                )
            } else {
                Step::Run(Request::ShowConfig, StatusStage::Configured)
            }
        },
        StatusStage::Configured => {
            if !is_configured(reply) {
                Step::Run(
                    Request::Version,
                    StatusStage::Version {
                        protection: ProtectionStatus::NotConfigured,
                        raw: String::new(),
                    },
                )
            } else {
                Step::Run(Request::Status, StatusStage::Protection)
            }
        },
        StatusStage::Protection => {
            let (clean, lower) = reply.cleaned();
            let protection = protection_from(reply.exit_success, lower.as_str());
            Step::Run(Request::Version, StatusStage::Version { protection, raw: clean })
        },
        StatusStage::Version { protection, raw } => {
            let version = get_version(reply);
            Step::Done(Status { protection, version, raw })
        },
    }
}


// ---------------------------------------------------------------------------
// Licence details

/// The licence as the GUI shows it; `expires` holds the owner or expiry line.
#[derive(Debug, Clone)]
pub struct LicenseInfo {
    pub status: String,
    pub key: String,
    pub expires: String,
    pub raw: String,
}

/// The licence state named by the lower-case reply of `adguard-cli license`.
pub open spec fn license_label(lower: Seq<char>) -> Seq<char> {
    if has_substr(lower, "app_active"@) || has_substr(lower, "activated"@) || has_substr(
        lower,
        "active"@,
    ) {
        "Active ✓"@
    } else if has_substr(lower, "trial"@) {
        "Trial"@
    } else if has_substr(lower, "free"@) {
        "Free"@
    } else if has_substr(lower, "expired"@) {
        "Expired"@
    } else {
        "Unknown"@
    }
}

/// Names the licence state from the lower-case reply of `adguard-cli license`.
pub fn license_label_from(lower: &str) -> (res: String)
    ensures
        res@ == license_label(lower@),
{
    if mentions(lower, "app_active") || mentions(lower, "activated") || mentions(lower, "active") {
        "Active ✓".to_owned()
    } else if mentions(lower, "trial") {
        "Trial".to_owned()
    } else if mentions(lower, "free") {
        "Free".to_owned()
    } else if mentions(lower, "expired") {
        "Expired".to_owned()
    } else {
        "Unknown".to_owned()
    }
}

/// A licence line holds the key when its lower-case form mentions "license key".
pub open spec fn is_key_line(l: Seq<char>) -> bool {
    has_substr(lowercase(l), "license key"@)
}

/// A licence line holds the owner or expiry when its lower-case form
/// mentions "owner" or "expir".
pub open spec fn is_owner_line(l: Seq<char>) -> bool {
    has_substr(lowercase(l), "owner"@) || has_substr(lowercase(l), "expir"@)
}

/// The first of `ls` that holds the key (`owner == false`) or the owner (`owner == true`).
pub open spec fn field_line(ls: Seq<Seq<char>>, owner: bool) -> Option<Seq<char>>
    decreases ls.len(),
{
    if ls.len() == 0 {
        None
    } else if (if owner {
        is_owner_line(ls[0])
    } else {
        is_key_line(ls[0])
    }) {
        Some(ls[0])
    } else {
        field_line(ls.drop_first(), owner)
    }
}

/// The value of a `Name: value` line: what follows its first colon, trimmed;
/// empty when there is no such line or it has no colon.
pub open spec fn field_value(line: Option<Seq<char>>) -> Seq<char> {
    match line {
        Some(l) => match after_first(l, ':') {
            Some(v) => trim(v),
            None => Seq::<char>::empty(),
        },
        None => Seq::<char>::empty(),
    }
}

/// The key (`owner == false`) or owner (`owner == true`) shown in a licence reply.
pub fn license_field(raw: &[char], owner: bool) -> (res: Vec<char>)
    ensures
        res@ == field_value(field_line(lines(raw@), owner)),
{
    let ls = lines_exec(raw);
    let ghost all = lines(raw@);
    let mut i: usize = 0;
    assert(all.skip(0) =~= all);
    while i < ls.len()
        invariant
            i <= ls@.len(),
            all == lines(raw@),
            ls@.len() == all.len(),
            forall|k: int| 0 <= k < ls@.len() ==> #[trigger] ls@[k]@ == all[k],
            field_line(all, owner) == field_line(all.skip(i as int), owner),
        decreases ls@.len() - i,
    {
        let low = lowercase_chars(ls[i].as_slice());
        let low_s = string_of(low.as_slice());
        let hit = if owner {
            mentions(low_s.as_str(), "owner") || mentions(low_s.as_str(), "expir")
        } else {
            mentions(low_s.as_str(), "license key")
        };
        assert(all.skip(i as int)[0] == all[i as int]);
        if hit {
            assert(field_line(all.skip(i as int), owner) == Some(all[i as int]));
            let v = match after_first_exec(ls[i].as_slice(), ':') {
                Some(v) => trim_exec(v.as_slice()),
                None => Vec::new(),
            };
            assert(v@ =~= field_value(Some(all[i as int])));
            return v;
        }
        assert(all.skip(i as int).drop_first() =~= all.skip(i + 1));
        i = i + 1;
    }
    assert(all.skip(i as int).len() == 0);
    Vec::new()
}

/// Where [`get_license`] stands: the reply it is given answers the request of this stage.
pub enum LicenseStage {
    /// The reply of `which adguard-cli`.
    Installed,
    /// The reply of `adguard-cli license`.
    Shown,
}

/// The first step of reading the licence: look for the CLI.
pub fn begin_license() -> (res: Step<LicenseStage, LicenseInfo>)
    ensures
        res == Step::<LicenseStage, LicenseInfo>::Run(Request::Which, LicenseStage::Installed),
{
    Step::Run(Request::Which, LicenseStage::Installed)
}

/// The licence is missing: `adguard-cli license` failed or asks for activation.
pub open spec fn license_missing(r: CmdResult) -> bool {
    !r.exit_success || has_substr(lower_reply(r), "you need to activate"@)
}

/// Reads the licence, one reply at a time: is the CLI installed, and what
/// does `adguard-cli license` say.
pub fn get_license(stage: LicenseStage, reply: &CmdResult) -> (res: Step<LicenseStage, LicenseInfo>)
    ensures
        match stage {
            LicenseStage::Installed => if reply.exit_success {
                res == Step::<LicenseStage, LicenseInfo>::Run(Request::ShowLicense, LicenseStage::Shown)
            } else {
                res matches Step::Done(info) && info.status@ == "Not installed"@ && info.key@.len()
                    == 0 && info.expires@.len() == 0 && info.raw@.len() == 0
            },
            LicenseStage::Shown => res matches Step::Done(info) && if license_missing(*reply) {
                &&& info.status@ == "No license"@
                &&& info.key@.len() == 0
                &&& info.expires@.len() == 0
                &&& info.raw@ == ansi_stripped(
                    match first_nonblank(lines(combined_text(reply.stdout@, reply.stderr@))) {
                        Some(l) => l,
                        None => Seq::<char>::empty(),
                    },
                )
            } else {
                &&& info.status@ == license_label(lower_reply(*reply))
                &&& info.key@ == field_value(field_line(lines(clean_reply(*reply)), false))
                &&& info.expires@ == field_value(field_line(lines(clean_reply(*reply)), true))
                &&& info.raw@ == clean_reply(*reply)
            },
        },
{
    match stage {
        LicenseStage::Installed => {
            if !is_installed(reply) {
                Step::Done(
                    LicenseInfo {
                        status: "Not installed".to_owned(),
                        key: String::new(),
                        expires: String::new(),
                        raw: String::new(),
                    },
                )
            } else {
                Step::Run(Request::ShowLicense, LicenseStage::Shown)
            }
        },
        LicenseStage::Shown => {
            let (clean, lower) = reply.cleaned();
            if !reply.exit_success || mentions(lower.as_str(), "you need to activate") {
                return Step::Done(
                    LicenseInfo {
                        status: "No license".to_owned(),
                        key: String::new(),
                        expires: String::new(),
                        raw: reply.first_line(),
                    },
                );
            }
            let status = license_label_from(lower.as_str());
            let cv = chars_of(clean.as_str());
            let key = license_field(cv.as_slice(), false);
            let expires = license_field(cv.as_slice(), true);
            Step::Done(
                LicenseInfo {
                    status,
                    key: string_of(key.as_slice()),
                    expires: string_of(expires.as_slice()),
                    raw: clean,
                },
            )
        },
    }
}

// ---------------------------------------------------------------------------
// Filters

/// A filter list as the GUI shows it.
#[derive(Debug, Clone)]
pub struct Filter {
    pub id: String,
    pub name: String,
    pub enabled: bool,
    pub url: String,
}

/// The name in the third column of a filter row: trimmed, and cut before the
/// first double space (where the next column starts).
pub open spec fn filter_name(column: Seq<char>) -> Seq<char> {
    let t = trim(column);
    match find(t, "  "@) {
        Some(k) => trim(t.take(k)),
        None => t,
    }
}

/// A line of `adguard-cli filters list` read as a filter: its name and
/// whether it is on. Lines without `|`, with fewer than three columns, or
/// whose name is shorter than 3 bytes or is a header (`ID…`, `Title…`) are
/// not filters.
pub open spec fn parse_line(line: Seq<char>) -> Option<(Seq<char>, bool)> {
    let enabled = starts_with(trim_start(line), "[x]"@);
    let not_added = has_substr(line, "not added"@) || has_substr(line, "is not added"@);
    if !has_substr(line, seq!['|']) {
        None
    } else {
        match after_first(line, '|') {
            None => None,
            Some(rest) => match after_first(rest, '|') {
                None => None,
                Some(column) => {
                    let name = filter_name(column);
                    if utf8_len(name) < 3 || starts_with(name, "ID"@) || starts_with(name, "Title"@) {
                        None
                    } else {
                        Some((name, enabled && !not_added))
                    }
                },
            },
        }
    }
}

/// The filters found in `ls`, in order.
pub open spec fn filter_rows(ls: Seq<Seq<char>>) -> Seq<(Seq<char>, bool)>
    decreases ls.len(),
{
    if ls.len() == 0 {
        Seq::empty()
    } else {
        let before = filter_rows(ls.drop_last());
        match parse_line(ls.last()) {
            Some(row) => before.push(row),
            None => before,
        }
    }
}

/// Reads one line of a filter list.
pub fn parse_line_exec(line: &[char]) -> (res: Option<(Vec<char>, bool)>)
    ensures
        match parse_line(line@) {
            Some((name, on)) => res matches Some((n, e)) && n@ == name && e == on,
            None => res is None,
        },
{
    let bar = vec!['|'];
    assert(bar@ =~= seq!['|']);
    if !contains(line, bar.as_slice()) {
        return None;
    }
    let front = trim_start_exec(line);
    let mark = chars_of("[x]");
    let enabled = starts_with_exec(front.as_slice(), mark.as_slice());
    let na1 = chars_of("not added");
    let na2 = chars_of("is not added");
    let not_added = contains(line, na1.as_slice()) || contains(line, na2.as_slice());
    let rest = match after_first_exec(line, '|') {
        Some(r) => r,
        None => return None,
    };
    let column = match after_first_exec(rest.as_slice(), '|') {
        Some(c) => c,
        None => return None,
    };
    let t = trim_exec(column.as_slice());
    let gap = chars_of("  ");
    let name = match find_exec(t.as_slice(), gap.as_slice()) {
        Some(k) => {
            proof {
                lemma_find(t@, gap@);
            }
            let cut = copy_range(t.as_slice(), 0, k);
            assert(t@.subrange(0, k as int) =~= t@.take(k as int));
            trim_exec(cut.as_slice())
        },
        None => t,
    };
    assert(name@ == filter_name(column@));
    let id_mark = chars_of("ID");
    let title_mark = chars_of("Title");
    if !utf8_longer_than(name.as_slice(), 2) || starts_with_exec(name.as_slice(), id_mark.as_slice())
        || starts_with_exec(name.as_slice(), title_mark.as_slice()) {
        return None;
    }
    Some((name, enabled && !not_added))
}

/// Reads the output of `adguard-cli filters list --all` (without escape
/// sequences): one filter per filter row, numbered from 0 in order.
pub fn parse_filters(raw: &str) -> (res: Vec<Filter>)
    ensures
        res@.len() == filter_rows(lines(raw@)).len(),
        forall|i: int|
            0 <= i < res@.len() ==> {
                &&& (#[trigger] res@[i]).id@ == decimal(i as nat)
                &&& res@[i].name@ == filter_rows(lines(raw@))[i].0
                &&& res@[i].enabled == filter_rows(lines(raw@))[i].1
                &&& res@[i].url@.len() == 0
            },
{
    let rv = chars_of(raw);
    let ls = lines_exec(rv.as_slice());
    let ghost all = lines(raw@);
    let mut filters: Vec<Filter> = Vec::new();
    let mut i: usize = 0;
    assert(all.take(0) =~= Seq::<Seq<char>>::empty());
    while i < ls.len()
        invariant
            i <= ls@.len(),
            all == lines(raw@),
            ls@.len() == all.len(),
            forall|k: int| 0 <= k < ls@.len() ==> #[trigger] ls@[k]@ == all[k],
            filters@.len() == filter_rows(all.take(i as int)).len(),
            forall|k: int|
                0 <= k < filters@.len() ==> {
                    &&& (#[trigger] filters@[k]).id@ == decimal(k as nat)
                    &&& filters@[k].name@ == filter_rows(all.take(i as int))[k].0
                    &&& filters@[k].enabled == filter_rows(all.take(i as int))[k].1
                    &&& filters@[k].url@.len() == 0
                },
        decreases ls@.len() - i,
    {
        assert(all.take(i + 1).drop_last() =~= all.take(i as int));
        assert(all.take(i + 1).last() == all[i as int]);
        match parse_line_exec(ls[i].as_slice()) {
            Some((name, enabled)) => {
                let id = decimal_exec(filters.len());
                filters.push(
                    Filter { id: string_of(id.as_slice()), name: string_of(name.as_slice()), enabled, url: String::new() },
                );
            },
            None => {},
        }
        i = i + 1;
    }
    assert(all.take(ls@.len() as int) =~= all);
    filters
}

/// Where [`list_filters`] stands: the reply it is given answers the request of this stage.
pub enum FiltersStage {
    /// The reply of `which adguard-cli`.
    Installed,
    /// The reply of `adguard-cli filters list --all`.
    Listed,
}

/// The first step of listing filters: look for the CLI.
pub fn begin_filters() -> (res: Step<FiltersStage, Vec<Filter>>)
    ensures
        res == Step::<FiltersStage, Vec<Filter>>::Run(Request::Which, FiltersStage::Installed),
{
    Step::Run(Request::Which, FiltersStage::Installed)
}

/// Lists the filters, one reply at a time: none without the CLI or when the
/// listing fails (for example for want of a licence), else the filters of its
/// standard output.
pub fn list_filters(stage: FiltersStage, reply: &CmdResult) -> (res: Step<FiltersStage, Vec<Filter>>)
    ensures
        match stage {
            FiltersStage::Installed => if reply.exit_success {
                res == Step::<FiltersStage, Vec<Filter>>::Run(Request::ListFilters, FiltersStage::Listed)
            } else {
                res matches Step::Done(fs) && fs@.len() == 0
            },
            FiltersStage::Listed => res matches Step::Done(fs) && if reply.exit_success {
                let rows = filter_rows(lines(ansi_stripped(reply.stdout@)));
                &&& fs@.len() == rows.len()
                &&& forall|i: int|
                    0 <= i < fs@.len() ==> {
                        &&& (#[trigger] fs@[i]).id@ == decimal(i as nat)
                        &&& fs@[i].name@ == rows[i].0
                        &&& fs@[i].enabled == rows[i].1
                        &&& fs@[i].url@.len() == 0
                    }
            } else {
                fs@.len() == 0
            },
        },
{
    match stage {
        FiltersStage::Installed => {
            if !is_installed(reply) {
                Step::Done(Vec::new())
            } else {
                Step::Run(Request::ListFilters, FiltersStage::Listed)
            }
        },
        FiltersStage::Listed => {
            if !reply.exit_success {
                return Step::Done(Vec::new());
            }
            let raw = strip_ansi(reply.stdout.as_str());
            Step::Done(parse_filters(raw.as_str()))
        },
    }
}


// ---------------------------------------------------------------------------
// Laws

/// A notification message is never longer than 200 bytes.
pub proof fn law_truncated_fits(s: Seq<char>)
    ensures
        utf8_len(truncated(s)) <= MAX_MESSAGE_BYTES,
{
    let h = headline(s);
    if utf8_len(h) > MAX_MESSAGE_BYTES {
        reveal_strlit("…");
        lemma_prefix_within(h, CUT_MESSAGE_BYTES as nat);
        lemma_utf8_len_concat(prefix_within(h, CUT_MESSAGE_BYTES as nat), "…"@);
        let dots = "…"@;
        assert(dots.len() == 1);
        assert(dots.last() == '\u{2026}');
        assert(('\u{2026}' as u32) == 0x2026);
        assert(dots.drop_last() =~= Seq::<char>::empty());
        assert(utf8_len(Seq::<char>::empty()) == 0);
        assert(utf8_width('\u{2026}') == 3);
        assert(utf8_len(dots) == utf8_len(dots.drop_last()) + utf8_width(dots.last()));
        assert(utf8_len(dots) == 3);
    }
}

/// What `first_nonblank` finds is a non-empty line that is its own trim and
/// holds no line break, when no line of the list holds one.
proof fn lemma_first_nonblank(ls: Seq<Seq<char>>)
    requires
        forall|k: int| 0 <= k < ls.len() ==> no_newline(#[trigger] ls[k]),
    ensures
        first_nonblank(ls) matches Some(l) ==> l.len() > 0 && trim(l) == l && no_newline(l),
    decreases ls.len(),
{
    if ls.len() > 0 {
        assert(no_newline(ls[0]));
        if trim(ls[0]).len() > 0 {
            lemma_trim_idempotent(ls[0]);
            lemma_trim_props(ls[0]);
        } else {
            assert forall|k: int| 0 <= k < ls.drop_first().len() implies no_newline(
                #[trigger] ls.drop_first()[k],
            ) by {
                assert(ls.drop_first()[k] == ls[k + 1]);
            }
            lemma_first_nonblank(ls.drop_first());
        }
    }
}

/// Shortening a message that has a non-blank line a second time changes
/// nothing; a message whose lines are all blank and that fits in 200 bytes
/// is kept exactly as it is, untrimmed.
pub proof fn law_truncate_idempotent(s: Seq<char>)
    ensures
        first_nonblank(lines(s)) is Some ==> truncated(truncated(s)) == truncated(s),
        first_nonblank(lines(s)) is None && utf8_len(s) <= MAX_MESSAGE_BYTES ==> truncated(s) == s,
{
    if first_nonblank(lines(s)) is Some {
        lemma_lines_no_newline(s);
        lemma_first_nonblank(lines(s));
        let h = headline(s);
        lemma_trim_props(h);
        let t = truncated(s);
        if utf8_len(h) > MAX_MESSAGE_BYTES {
            lemma_prefix_within(h, CUT_MESSAGE_BYTES as nat);
            law_truncated_fits(s);
            reveal_strlit("…");
            let p = prefix_within(h, CUT_MESSAGE_BYTES as nat);
            let dots = "…"@;
            assert(dots.len() == 1 && dots[0] == '\u{2026}');
            assert(('\u{2026}' as u32) == 0x2026);
            assert(t == p + dots);
            assert(p[0] == h[0]);
            assert(no_newline(t)) by {
                assert forall|i: int| 0 <= i < t.len() implies t[i] != '\n' by {
                    if i < p.len() {
                        assert(t[i] == h[i]);
                    } else {
                        assert(t[i] == dots[0]);
                    }
                }
            }
            assert(!is_whitespace(t[0]));
            assert(t.last() == dots[0]);
            assert(!is_whitespace(t.last()));
            lemma_trim_fixed(t);
            lemma_lines_single(t);
            assert(first_nonblank(seq![t]) == Some(t));
        } else {
            lemma_trim_fixed(h);
            lemma_lines_single(h);
            assert(first_nonblank(seq![h]) == Some(h));
        }
    }
}

/// Stopping protection that is not running succeeds: a reply that says
/// "not running" is reported as stopped, whatever the exit status.
pub proof fn law_stop_when_not_running(exit_success: bool, clean: Seq<char>, lower: Seq<char>)
    requires
        has_substr(lower, "not running"@),
    ensures
        stop_outcome(exit_success, clean, lower) == Ok::<Seq<char>, Seq<char>>("Protection stopped"@),
{
}

/// A licence key is reported activated only after a clean exit whose reply
/// confirms it and names no failure; an unclear reply is an error.
pub proof fn law_activation_needs_confirmation(exit_success: bool, clean: Seq<char>, lower: Seq<char>)
    ensures
        activation_outcome(exit_success, clean, lower) is Ok ==> exit_success
            && activation_confirmed(lower) && !activation_rejected(lower),
        !activation_confirmed(lower) ==> activation_outcome(exit_success, clean, lower) == failure(
            clean,
        ),
{
}

/// A failed `status` command never reports protection as running.
pub proof fn law_failed_status_not_running(lower: Seq<char>)
    ensures
        protection_of(false, lower) != ProtectionStatus::Running,
{
}

/// Every filter read from a listing has a name of at least 3 bytes that is
/// not a header (`ID…`, `Title…`), and there are no more filters than lines.
pub proof fn law_filter_rows(ls: Seq<Seq<char>>)
    ensures
        filter_rows(ls).len() <= ls.len(),
        forall|i: int|
            0 <= i < filter_rows(ls).len() ==> {
                let name = (#[trigger] filter_rows(ls)[i]).0;
                &&& utf8_len(name) >= 3
                &&& !starts_with(name, "ID"@)
                &&& !starts_with(name, "Title"@)
            },
    decreases ls.len(),
{
    if ls.len() > 0 {
        law_filter_rows(ls.drop_last());
        let before = filter_rows(ls.drop_last());
        assert forall|i: int| 0 <= i < filter_rows(ls).len() implies {
            let name = (#[trigger] filter_rows(ls)[i]).0;
            &&& utf8_len(name) >= 3
            &&& !starts_with(name, "ID"@)
            &&& !starts_with(name, "Title"@)
        } by {
            if i < before.len() {
                assert(filter_rows(ls)[i] == before[i]);
            }
        }
    }
}

/// A `'\r'` ending a line does not change how the line reads as a filter.
pub proof fn lemma_parse_line_cr(l: Seq<char>)
    ensures
        parse_line(strip_cr(l)) == parse_line(l),
{
    if l.len() > 0 && l.last() == '\r' {
        let m = l.drop_last();
        assert(m.push('\r') =~= l);
        reveal_strlit("not added");
        reveal_strlit("is not added");
        reveal_strlit("[x]");
        assert(is_whitespace('\r'));
        lemma_substr_push(m, '\r', seq!['|']);
        lemma_substr_push(m, '\r', "not added"@);
        lemma_substr_push(m, '\r', "is not added"@);
        lemma_trim_start_push(m, '\r');
        if trim_start(m).len() > 0 {
            lemma_occurs_at_push(trim_start(m), '\r', "[x]"@, 0);
        }
        lemma_after_first_push(m, '\r', '|');
        if let Some(rest) = after_first(m, '|') {
            lemma_after_first_push(rest, '\r', '|');
            if let Some(column) = after_first(rest, '|') {
                lemma_trim_push_space(column, '\r');
                assert(filter_name(column.push('\r')) == filter_name(column));
            }
        }
    }
}

/// The filters of two lists of lines, one after the other, are the filters
/// of the first followed by those of the second.
pub proof fn lemma_filter_rows_concat(x: Seq<Seq<char>>, y: Seq<Seq<char>>)
    ensures
        filter_rows(x + y) == filter_rows(x) + filter_rows(y),
    decreases y.len(),
{
    if y.len() == 0 {
        assert(x + y =~= x);
        assert(filter_rows(x) + filter_rows(y) =~= filter_rows(x));
    } else {
        lemma_filter_rows_concat(x, y.drop_last());
        assert((x + y).drop_last() =~= x + y.drop_last());
        assert((x + y).last() == y.last());
        match parse_line(y.last()) {
            Some(row) => {
                assert((filter_rows(x) + filter_rows(y.drop_last())).push(row) =~= filter_rows(x)
                    + filter_rows(y.drop_last()).push(row));
            },
            None => {},
        }
    }
}

/// The filters of two listings joined by a line break are the filters of the
/// first listing followed by those of the second ([`parse_filters`] then
/// numbers them on from 0 in that order).
pub proof fn law_filter_rows_join(a: Seq<char>, b: Seq<char>)
    ensures
        filter_rows(lines(a + seq!['\n'] + b)) == filter_rows(lines(a)) + filter_rows(lines(b)),
{
    lemma_lines_concat(a, b);
    lemma_pieces_nonempty(a);
    let p = pieces(a);
    let x = p.drop_last().map_values(|l: Seq<char>| strip_cr(l));
    let last = p.last();
    assert(p.map_values(|l: Seq<char>| strip_cr(l)) =~= x.push(strip_cr(last)));
    lemma_filter_rows_concat(x.push(strip_cr(last)), lines(b));
    lemma_parse_line_cr(last);
    assert(x.push(strip_cr(last)).drop_last() =~= x);
    if last.len() == 0 {
        assert(strip_cr(last) == last);
        lemma_substr_char(last, '|');
        assert(parse_line(last) is None);
        assert(lines(a) == x);
    } else {
        assert(lines(a) == x.push(last));
        assert(x.push(last).drop_last() =~= x);
    }
}

/// A listing without `|` holds no filter.
pub proof fn law_filter_rows_without_bar(r: Seq<char>)
    requires
        !has_substr(r, seq!['|']),
    ensures
        filter_rows(lines(r)).len() == 0,
{
    lemma_substr_char(r, '|');
    lemma_lines_avoid(r, '|');
    lemma_no_rows(lines(r));
}

proof fn lemma_no_rows(ls: Seq<Seq<char>>)
    requires
        forall|k: int| 0 <= k < ls.len() ==> avoids(#[trigger] ls[k], '|'),
    ensures
        filter_rows(ls).len() == 0,
    decreases ls.len(),
{
    if ls.len() > 0 {
        assert forall|k: int| 0 <= k < ls.drop_last().len() implies avoids(
            #[trigger] ls.drop_last()[k],
            '|',
        ) by {
            assert(ls.drop_last()[k] == ls[k]);
        }
        lemma_no_rows(ls.drop_last());
        assert(avoids(ls.last(), '|'));
        lemma_substr_char(ls.last(), '|');
    }
}

/// Phrases of the CLI that contain shorter phrases the readings look for.
proof fn lemma_phrase_facts()
    ensures
        has_substr("is not added"@, "not added"@),
        has_substr("proxy is running"@, "is running"@),
        has_substr("protection is running"@, "is running"@),
        has_substr("is not running"@, "not running"@),
        has_substr("app_active"@, "active"@),
        has_substr("failed"@, "fail"@),
{
    reveal_strlit("is not added");
    reveal_strlit("not added");
    reveal_strlit("proxy is running");
    reveal_strlit("protection is running");
    reveal_strlit("is running");
    reveal_strlit("is not running");
    reveal_strlit("not running");
    reveal_strlit("app_active");
    reveal_strlit("active");
    reveal_strlit("failed");
    reveal_strlit("fail");
    lemma_substr_at("is not added"@, "not added"@, 3);
    lemma_substr_at("proxy is running"@, "is running"@, 6);
    lemma_substr_at("protection is running"@, "is running"@, 11);
    lemma_substr_at("is not running"@, "not running"@, 3);
    lemma_substr_at("app_active"@, "active"@, 4);
    lemma_substr_at("failed"@, "fail"@, 0);
}

/// A filter row is on exactly when its line, trimmed at the start, begins
/// with `[x]` and the line does not say "not added"; a filter that is not
/// added is never reported on.
pub proof fn law_filter_enabled(l: Seq<char>)
    ensures
        parse_line(l) matches Some(row) ==> row.1 == (starts_with(trim_start(l), "[x]"@)
            && !has_substr(l, "not added"@)),
        has_substr(l, "not added"@) ==> !(parse_line(l) matches Some(row) && row.1),
{
    lemma_phrase_facts();
    if has_substr(l, "is not added"@) {
        lemma_substr_trans(l, "is not added"@, "not added"@);
    }
}

/// The licence label: "Active ✓" whenever the reply mentions "active"
/// (which covers "app_active") or "activated"; otherwise "Trial", "Free" or
/// "Expired" by the first of these words it mentions; otherwise "Unknown".
pub proof fn law_license_label(lower: Seq<char>)
    ensures
        has_substr(lower, "app_active"@) ==> license_label(lower) == "Active ✓"@,
        has_substr(lower, "activated"@) || has_substr(lower, "active"@) ==> license_label(lower)
            == "Active ✓"@,
        !has_substr(lower, "activated"@) && !has_substr(lower, "active"@) && has_substr(
            lower,
            "trial"@,
        ) ==> license_label(lower) == "Trial"@,
        !has_substr(lower, "activated"@) && !has_substr(lower, "active"@) && !has_substr(
            lower,
            "trial"@,
        ) && has_substr(lower, "free"@) ==> license_label(lower) == "Free"@,
        !has_substr(lower, "activated"@) && !has_substr(lower, "active"@) && !has_substr(
            lower,
            "trial"@,
        ) && !has_substr(lower, "free"@) && has_substr(lower, "expired"@) ==> license_label(lower)
            == "Expired"@,
        !has_substr(lower, "activated"@) && !has_substr(lower, "active"@) && !has_substr(
            lower,
            "trial"@,
        ) && !has_substr(lower, "free"@) && !has_substr(lower, "expired"@) ==> license_label(
            lower,
        ) == "Unknown"@,
{
    lemma_phrase_facts();
    if has_substr(lower, "app_active"@) {
        lemma_substr_trans(lower, "app_active"@, "active"@);
    }
}

/// The protection state a `status` reply gives. After a failure: no licence
/// when the reply mentions a licence or asks for activation, else stopped.
/// After success: running when it says "is running" or "protection is
/// enabled"; else stopped when it says "stopped", "not running" or
/// "disabled"; else unknown.
pub proof fn law_protection(exit_success: bool, lower: Seq<char>)
    ensures
        !exit_success && (has_substr(lower, "license"@) || has_substr(
            lower,
            "you need to activate"@,
        )) ==> protection_of(exit_success, lower) == ProtectionStatus::NoLicense,
        !exit_success && !has_substr(lower, "license"@) && !has_substr(
            lower,
            "you need to activate"@,
        ) ==> protection_of(exit_success, lower) == ProtectionStatus::Stopped,
        exit_success && (has_substr(lower, "is running"@) || has_substr(
            lower,
            "protection is enabled"@,
        )) ==> protection_of(exit_success, lower) == ProtectionStatus::Running,
        exit_success && !has_substr(lower, "is running"@) && !has_substr(
            lower,
            "protection is enabled"@,
        ) && (has_substr(lower, "stopped"@) || has_substr(lower, "not running"@) || has_substr(
            lower,
            "disabled"@,
        )) ==> protection_of(exit_success, lower) == ProtectionStatus::Stopped,
        exit_success && !has_substr(lower, "is running"@) && !has_substr(
            lower,
            "protection is enabled"@,
        ) && !has_substr(lower, "stopped"@) && !has_substr(lower, "not running"@) && !has_substr(
            lower,
            "disabled"@,
        ) ==> protection_of(exit_success, lower) == ProtectionStatus::Unknown,
{
    lemma_phrase_facts();
    if has_substr(lower, "proxy is running"@) {
        lemma_substr_trans(lower, "proxy is running"@, "is running"@);
    }
    if has_substr(lower, "protection is running"@) {
        lemma_substr_trans(lower, "protection is running"@, "is running"@);
    }
    if has_substr(lower, "is not running"@) {
        lemma_substr_trans(lower, "is not running"@, "not running"@);
    }
}

/// Starting protection. The start reply settles it when the command failed
/// (an error), or when it says "successfully", "is running" or "listening"
/// (started), or names a failure (an error); only otherwise is the status
/// asked. From the status reply, starting succeeds exactly when the status
/// command succeeded and says "is running"; so a status that says "not
/// running" and not "is running" is an error.
pub proof fn law_start(exit_success: bool, clean: Seq<char>, lower: Seq<char>)
    ensures
        !exit_success ==> start_model(StartStage::Launched, exit_success, clean, lower)
            == Step::<StartStage, Result<Seq<char>, Seq<char>>>::Done(Err(truncated(clean))),
        exit_success && (has_substr(lower, "successfully"@) || has_substr(lower, "is running"@)
            || has_substr(lower, "listening"@)) ==> start_model(
            StartStage::Launched,
            exit_success,
            clean,
            lower,
        ) == Step::<StartStage, Result<Seq<char>, Seq<char>>>::Done(Ok("Protection started"@)),
        start_model(StartStage::Launched, exit_success, clean, lower) matches Step::Run(req, st)
            ==> req == Request::Status && st == StartStage::Verifying && exit_success
            && !has_substr(lower, "is running"@),
        start_model(StartStage::Verifying, exit_success, clean, lower) matches Step::Done(r),
        start_model(StartStage::Verifying, exit_success, clean, lower) matches Step::Done(r) ==> (
        r is Ok <==> exit_success && has_substr(lower, "is running"@)),
        start_model(StartStage::Verifying, exit_success, clean, lower) matches Step::Done(Ok(m))
            ==> m == "Protection started"@,
        start_model(StartStage::Verifying, exit_success, clean, lower) matches Step::Done(Err(m))
            ==> m == truncated(clean),
        has_substr(lower, "not running"@) && !has_substr(lower, "is running"@) ==> start_model(
            StartStage::Verifying,
            exit_success,
            clean,
            lower,
        ) matches Step::Done(Err(_)),
{
}

/// Activating a key succeeds exactly after a clean exit whose reply says
/// "activated" or "success" and mentions none of "does not exist", "not
/// found", "not valid", "invalid", "error", "failed", "expired" or "you
/// need to activate"; the success message is fixed, the error message is
/// the shortened reply.
pub proof fn law_activation(exit_success: bool, clean: Seq<char>, lower: Seq<char>)
    ensures
        activation_outcome(exit_success, clean, lower) is Ok <==> exit_success && (has_substr(
            lower,
            "activated"@,
        ) || has_substr(lower, "success"@)) && !has_substr(lower, "does not exist"@)
            && !has_substr(lower, "not found"@) && !has_substr(lower, "not valid"@) && !has_substr(
            lower,
            "invalid"@,
        ) && !has_substr(lower, "error"@) && !has_substr(lower, "failed"@) && !has_substr(
            lower,
            "expired"@,
        ) && !has_substr(lower, "you need to activate"@),
        activation_outcome(exit_success, clean, lower) matches Ok(m) ==> m
            == "License activated successfully"@,
        activation_outcome(exit_success, clean, lower) matches Err(m) ==> m == truncated(clean),
{
}

/// Stopping protection fails exactly when the reply does not say "not
/// running" and the command failed or the reply says "error" or "failed".
pub proof fn law_stop(exit_success: bool, clean: Seq<char>, lower: Seq<char>)
    ensures
        stop_outcome(exit_success, clean, lower) is Err <==> !has_substr(lower, "not running"@) && (
        !exit_success || has_substr(lower, "error"@) || has_substr(lower, "failed"@)),
        stop_outcome(exit_success, clean, lower) matches Ok(m) ==> m == "Protection stopped"@,
        stop_outcome(exit_success, clean, lower) matches Err(m) ==> m == truncated(clean),
{
}

/// Resetting the licence fails exactly when the command failed or the reply
/// asks for activation or says "error" or "failed"; either way the message
/// is the shortened reply.
pub proof fn law_reset(exit_success: bool, clean: Seq<char>, lower: Seq<char>)
    ensures
        reset_outcome(exit_success, clean, lower) is Err <==> !exit_success || has_substr(
            lower,
            "you need to activate"@,
        ) || has_substr(lower, "error"@) || has_substr(lower, "failed"@),
        reset_outcome(exit_success, clean, lower) matches Ok(m) ==> m == truncated(clean),
        reset_outcome(exit_success, clean, lower) matches Err(m) ==> m == truncated(clean),
{
}

/// Exporting logs or updating fails exactly when the command failed or the
/// reply says "error" or "fail" (which covers "failed"); either way the
/// message is the shortened reply.
pub proof fn law_job(exit_success: bool, clean: Seq<char>, lower: Seq<char>)
    ensures
        job_outcome(exit_success, clean, lower) is Err <==> !exit_success || has_substr(
            lower,
            "error"@,
        ) || has_substr(lower, "fail"@),
        job_outcome(exit_success, clean, lower) matches Ok(m) ==> m == truncated(clean),
        job_outcome(exit_success, clean, lower) matches Err(m) ==> m == truncated(clean),
{
    lemma_phrase_facts();
    if has_substr(lower, "failed"@) {
        lemma_substr_trans(lower, "failed"@, "fail"@);
    }
}

/// The CLI counts as configured exactly when `config show` mentions neither
/// "no configuration yaml" nor "run `adguard-cli configure`".
pub proof fn law_configured(lower: Seq<char>)
    ensures
        configured_text(lower) <==> !has_substr(lower, "no configuration yaml"@) && !has_substr(
            lower,
            "run `adguard-cli configure`"@,
        ),
{
}

/// What `first_nonblank` picks: the trim of the first line whose trim is
/// not empty; nothing when every line is blank.
pub proof fn law_first_nonblank(ls: Seq<Seq<char>>)
    ensures
        first_nonblank(ls) matches Some(l) ==> exists|i: int|
            0 <= i < ls.len() && l == trim(#[trigger] ls[i]) && l.len() > 0 && forall|j: int|
                0 <= j < i ==> trim(#[trigger] ls[j]).len() == 0,
        first_nonblank(ls) is None ==> forall|i: int|
            0 <= i < ls.len() ==> trim(#[trigger] ls[i]).len() == 0,
    decreases ls.len(),
{
    if ls.len() > 0 {
        law_first_nonblank(ls.drop_first());
        if trim(ls[0]).len() > 0 {
            assert(trim(ls[0]).len() > 0);
        } else {
            if let Some(l) = first_nonblank(ls.drop_first()) {
                let i = choose|i: int|
                    0 <= i < ls.drop_first().len() && l == trim(#[trigger] ls.drop_first()[i])
                        && l.len() > 0 && forall|j: int|
                        0 <= j < i ==> trim(#[trigger] ls.drop_first()[j]).len() == 0;
                assert(ls[i + 1] == ls.drop_first()[i]);
                assert forall|j: int| 0 <= j < i + 1 implies trim(#[trigger] ls[j]).len() == 0 by {
                    if j > 0 {
                        assert(ls[j] == ls.drop_first()[j - 1]);
                    }
                }
            } else {
                assert forall|i: int| 0 <= i < ls.len() implies trim(#[trigger] ls[i]).len() == 0 by {
                    if i > 0 {
                        assert(ls[i] == ls.drop_first()[i - 1]);
                    }
                }
            }
        }
    }
}

/// A shortened message: a headline of at most 200 bytes is kept whole;
/// a longer one keeps the most leading characters that fit in 197 bytes,
/// then `…`.
pub proof fn law_truncated_cut(s: Seq<char>)
    ensures
        utf8_len(headline(s)) <= MAX_MESSAGE_BYTES ==> truncated(s) == headline(s),
        utf8_len(headline(s)) > MAX_MESSAGE_BYTES ==> exists|k: int|
            0 <= k < headline(s).len() && truncated(s) == headline(s).take(k) + "…"@ && utf8_len(
                #[trigger] headline(s).take(k),
            ) <= CUT_MESSAGE_BYTES && utf8_len(headline(s).take(k + 1)) > CUT_MESSAGE_BYTES,
{
    let h = headline(s);
    if utf8_len(h) > MAX_MESSAGE_BYTES {
        lemma_prefix_within(h, CUT_MESSAGE_BYTES as nat);
        let k = chars_within(h, CUT_MESSAGE_BYTES as nat);
        assert(h.take(h.len() as int) =~= h);
        assert(k < h.len());
        assert(utf8_len(h.take(k)) <= CUT_MESSAGE_BYTES);
    }
}

/// The filter a line gives, if any. A line needs two `|`; the name is the
/// third column, trimmed, cut before its first double space and trimmed
/// again; the line is a filter exactly when that name takes at least 3
/// bytes and starts with neither "ID" nor "Title".
pub proof fn law_filter_name(l: Seq<char>)
    ensures
        after_first(l, '|') is None ==> parse_line(l) is None,
        after_first(l, '|') matches Some(r) ==> (after_first(r, '|') is None ==> parse_line(l)
            is None),
        after_first(l, '|') matches Some(r) ==> (after_first(r, '|') matches Some(col) ==> {
            let t = trim(col);
            let n = match find(t, "  "@) {
                Some(k) => trim(t.take(k)),
                None => t,
            };
            &&& (parse_line(l) is Some <==> utf8_len(n) >= 3 && !starts_with(n, "ID"@)
                && !starts_with(n, "Title"@))
            &&& (parse_line(l) matches Some(row) ==> row.0 == n)
        }),
{
    lemma_find(l, seq!['|']);
}

/// The line the licence key is read from: the first whose lower-case form
/// mentions "license key"; none when no line does.
pub proof fn law_key_line(ls: Seq<Seq<char>>)
    ensures
        field_line(ls, false) matches Some(l) ==> exists|i: int|
            0 <= i < ls.len() && l == #[trigger] ls[i] && has_substr(lowercase(l), "license key"@)
                && forall|j: int|
                0 <= j < i ==> !has_substr(lowercase(#[trigger] ls[j]), "license key"@),
        field_line(ls, false) is None ==> forall|i: int|
            0 <= i < ls.len() ==> !has_substr(lowercase(#[trigger] ls[i]), "license key"@),
    decreases ls.len(),
{
    if ls.len() > 0 {
        law_key_line(ls.drop_first());
        if !has_substr(lowercase(ls[0]), "license key"@) {
            if let Some(l) = field_line(ls.drop_first(), false) {
                let i = choose|i: int|
                    0 <= i < ls.drop_first().len() && l == #[trigger] ls.drop_first()[i]
                        && has_substr(lowercase(l), "license key"@) && forall|j: int|
                        0 <= j < i ==> !has_substr(
                            lowercase(#[trigger] ls.drop_first()[j]),
                            "license key"@,
                        );
                assert(ls[i + 1] == ls.drop_first()[i]);
                assert forall|j: int| 0 <= j < i + 1 implies !has_substr(
                    lowercase(#[trigger] ls[j]),
                    "license key"@,
                ) by {
                    if j > 0 {
                        assert(ls[j] == ls.drop_first()[j - 1]);
                    }
                }
            } else {
                assert forall|i: int| 0 <= i < ls.len() implies !has_substr(
                    lowercase(#[trigger] ls[i]),
                    "license key"@,
                ) by {
                    if i > 0 {
                        assert(ls[i] == ls.drop_first()[i - 1]);
                    }
                }
            }
        }
    }
}

/// The line the owner or expiry is read from: the first whose lower-case
/// form mentions "owner" or "expir"; none when no line does.
pub proof fn law_owner_line(ls: Seq<Seq<char>>)
    ensures
        field_line(ls, true) matches Some(l) ==> exists|i: int|
            0 <= i < ls.len() && l == #[trigger] ls[i] && (has_substr(lowercase(l), "owner"@)
                || has_substr(lowercase(l), "expir"@)) && forall|j: int|
                0 <= j < i ==> !has_substr(lowercase(#[trigger] ls[j]), "owner"@) && !has_substr(
                    lowercase(ls[j]),
                    "expir"@,
                ),
        field_line(ls, true) is None ==> forall|i: int|
            0 <= i < ls.len() ==> !has_substr(lowercase(#[trigger] ls[i]), "owner"@) && !has_substr(
                lowercase(ls[i]),
                "expir"@,
            ),
    decreases ls.len(),
{
    if ls.len() > 0 {
        law_owner_line(ls.drop_first());
        if !(has_substr(lowercase(ls[0]), "owner"@) || has_substr(lowercase(ls[0]), "expir"@)) {
            if let Some(l) = field_line(ls.drop_first(), true) {
                let i = choose|i: int|
                    0 <= i < ls.drop_first().len() && l == #[trigger] ls.drop_first()[i] && (
                    has_substr(lowercase(l), "owner"@) || has_substr(lowercase(l), "expir"@))
                        && forall|j: int|
                        0 <= j < i ==> !has_substr(
                            lowercase(#[trigger] ls.drop_first()[j]),
                            "owner"@,
                        ) && !has_substr(lowercase(ls.drop_first()[j]), "expir"@);
                assert(ls[i + 1] == ls.drop_first()[i]);
                assert forall|j: int| 0 <= j < i + 1 implies !has_substr(
                    lowercase(#[trigger] ls[j]),
                    "owner"@,
                ) && !has_substr(lowercase(ls[j]), "expir"@) by {
                    if j > 0 {
                        assert(ls[j] == ls.drop_first()[j - 1]);
                    }
                }
            } else {
                assert forall|i: int| 0 <= i < ls.len() implies !has_substr(
                    lowercase(#[trigger] ls[i]),
                    "owner"@,
                ) && !has_substr(lowercase(ls[i]), "expir"@) by {
                    if i > 0 {
                        assert(ls[i] == ls.drop_first()[i - 1]);
                    }
                }
            }
        }
    }
}

/// The value of a licence line: what follows its first colon, trimmed;
/// empty when the line has no colon or there is no line.
pub proof fn law_field_value(l: Seq<char>)
    ensures
        field_value(None) == Seq::<char>::empty(),
        avoids(l, ':') ==> field_value(Some(l)) == Seq::<char>::empty(),
        !avoids(l, ':') ==> exists|k: int|
            0 <= k < l.len() && l[k] == ':' && avoids(#[trigger] l.take(k), ':') && field_value(
                Some(l),
            ) == trim(l.skip(k + 1)),
{
    lemma_find(l, seq![':']);
    lemma_substr_char(l, ':');
    if let Some(k) = find(l, seq![':']) {
        assert(l.subrange(k, k + 1)[0] == l[k]);
        assert forall|j: int| 0 <= j < l.take(k).len() implies l.take(k)[j] != ':' by {
            if l[j] == ':' {
                assert(l.subrange(j, j + 1) =~= seq![':']);
                assert(occurs_at(l, seq![':'], j));
            }
        }
        assert(avoids(l.take(k), ':'));
        assert(after_first(l, ':') == Some(l.skip(k + 1)));
        assert(field_value(Some(l)) == trim(l.skip(k + 1)));
        assert(0 <= k < l.len() && l[k] == ':');
    }
}

} // verus!
