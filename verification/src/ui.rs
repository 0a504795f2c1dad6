//! Notifications and the small texts the task list shows.

use crate::text::{
    chars_eq, chars_of, dec, lemma_trim_window, parse_unsigned, spec_parse_unsigned, spec_trim, trim_bounds,
    u64_to_dec,
};
use crate::config::OutputDirState;
use crate::runner::RunGate;
use crate::transcoder::Status;
use vstd::prelude::*;
use vstd::string::*;

verus! {

#[derive(Debug, Clone, Copy, PartialEq, Eq, Structural)]
pub enum ToastKind {
    Success,
    Error,
    Warn,
    Info,
}

impl ToastKind {
    pub open spec fn spec_class(self) -> Seq<char> {
        match self {
            ToastKind::Success => "toast success"@,
            ToastKind::Error => "toast error"@,
            ToastKind::Warn => "toast warn"@,
            ToastKind::Info => "toast info"@,
        }
    }

    /// CSS classes of a toast of this kind.
    pub fn class(self) -> (r: &'static str)
        ensures
            r@ == self.spec_class(),
    {
        match self {
            ToastKind::Success => "toast success",
            ToastKind::Error => "toast error",
            ToastKind::Warn => "toast warn",
            ToastKind::Info => "toast info",
        }
    }

    pub open spec fn spec_label(self) -> Seq<char> {
        match self {
            ToastKind::Success => "Done"@,
            ToastKind::Error => "Error"@,
            ToastKind::Warn => "Warning"@,
            ToastKind::Info => "Info"@,
        }
    }

    /// The bracketed tag in front of a toast's text.
    pub fn label(self) -> (r: &'static str)
        ensures
            r@ == self.spec_label(),
    {
        match self {
            ToastKind::Success => "Done",
            ToastKind::Error => "Error",
            ToastKind::Warn => "Warning",
            ToastKind::Info => "Info",
        }
    }
}

/// A notification in the bottom-right stack.
#[derive(Debug, Clone, PartialEq)]
pub struct Toast {
    pub id: u64,
    pub kind: ToastKind,
    pub text: String,
    /// Fading out (set by the toast's timer just before removal).
    pub leaving: bool,
    /// Carries the Undo button of a removal.
    pub undo: bool,
}

/// The stack with the Undo button on toast `id` alone.
pub open spec fn undo_marked(s: Seq<Toast>, id: u64) -> Seq<Toast> {
    Seq::new(s.len(), |i: int| Toast { undo: s[i].id == id, ..s[i] })
}

/// Only toast `id` keeps an Undo button: there is one undo slot, so an
/// older removal's button would undo the wrong thing.
pub fn mark_undo_owner(toasts: &mut Vec<Toast>, id: u64)
    ensures
        final(toasts)@ == undo_marked(old(toasts)@, id),
{
    let ghost orig = toasts@;
    let n = toasts.len();
    let mut i: usize = 0;
    while i < n
        invariant
            n == orig.len(),
            i <= n,
            toasts@.len() == n,
            forall|j: int| 0 <= j < i ==> (#[trigger] toasts@[j]) == (Toast { undo: orig[j].id == id, ..orig[j] }),
            forall|j: int| i <= j < n ==> #[trigger] toasts@[j] == orig[j],
        decreases n - i,
    {
        let t = toasts.remove(i);
        let owner = t.id == id;
        let marked = Toast { undo: owner, ..t };
        toasts.insert(i, marked);
        proof {
            assert forall|j: int| 0 <= j < i + 1 implies (#[trigger] toasts@[j]) == (Toast {
                undo: orig[j].id == id,
                ..orig[j]
            }) by {}
        }
        i = i + 1;
    }
    assert(toasts@ =~= undo_marked(orig, id));
}

/// The stack without toast `id`.
pub open spec fn without_toast(s: Seq<Toast>, id: u64) -> Seq<Toast>
    decreases s.len(),
{
    if s.len() == 0 {
        s
    } else {
        let rest = without_toast(s.drop_last(), id);
        if s.last().id == id {
            rest
        } else {
            rest.push(s.last())
        }
    }
}

/// Removes toast `id` from the stack (after its fade-out, or on undo).
pub fn remove_toast(toasts: &mut Vec<Toast>, id: u64)
    ensures
        final(toasts)@ == without_toast(old(toasts)@, id),
{
    let ghost orig = toasts@;
    let n = toasts.len();
    let mut kept: Vec<Toast> = Vec::new();
    let mut i: usize = 0;
    while i < n
        invariant
            n == orig.len(),
            i <= n,
            toasts@ == orig.subrange(i as int, n as int),
            kept@ == without_toast(orig.subrange(0, i as int), id),
        decreases n - i,
    {
        let t = toasts.remove(0);
        proof {
            let s1 = orig.subrange(0, i + 1);
            assert(s1.drop_last() =~= orig.subrange(0, i as int));
            assert(s1.last() == orig[i as int]);
        }
        if t.id != id {
            kept.push(t);
        }
        i = i + 1;
        assert(toasts@ =~= orig.subrange(i as int, n as int));
    }
    assert(orig.subrange(0, n as int) =~= orig);
    *toasts = kept;
}

/// Starts the fade-out of toast `id`.
pub fn set_leaving(toasts: &mut Vec<Toast>, id: u64)
    ensures
        final(toasts)@.len() == old(toasts)@.len(),
        forall|i: int|
            0 <= i < old(toasts)@.len() ==> (#[trigger] final(toasts)@[i]) == (if old(toasts)@[i].id
                == id && (forall|j: int| 0 <= j < i ==> old(toasts)@[j].id != id) {
                Toast { leaving: true, ..old(toasts)@[i] }
            } else {
                old(toasts)@[i]
            }),
{
    let ghost orig = toasts@;
    let n = toasts.len();
    let mut i: usize = 0;
    while i < n
        invariant
            n == orig.len(),
            i <= n,
            toasts@ == orig,
            orig == old(toasts)@,
            forall|j: int| 0 <= j < i ==> orig[j].id != id,
        decreases n - i,
    {
        if toasts[i].id == id {
            let t = toasts.remove(i);
            let faded = Toast { leaving: true, ..t };
            toasts.insert(i, faded);
            proof {
                assert forall|k: int| 0 <= k < n implies (#[trigger] toasts@[k]) == (if orig[k].id == id
                    && (forall|j: int| 0 <= j < k ==> orig[j].id != id) {
                    Toast { leaving: true, ..orig[k] }
                } else {
                    orig[k]
                }) by {
                    if k > i {
                        assert(orig[i as int].id == id);
                    }
                }
            }
            return;
        }
        i = i + 1;
    }
}

// ------------------------------------------------------------ texts

/// `n` with at least two digits (`{:02}`).
pub open spec fn pad2(n: nat) -> Seq<char> {
    if n < 10 {
        seq!['0'] + dec(n)
    } else {
        dec(n)
    }
}

/// A task's elapsed time: `XmYYs` from one minute on, `S.Ds` below.
pub open spec fn spec_format_elapsed(ms: nat) -> Seq<char> {
    let secs = ms / 1000;
    if secs >= 60 {
        dec(secs / 60) + seq!['m'] + pad2(secs % 60) + seq!['s']
    } else {
        dec(secs) + seq!['.'] + dec((ms % 1000) / 100) + seq!['s']
    }
}

pub fn format_elapsed(ms: u64) -> (r: String)
    ensures
        r@ == spec_format_elapsed(ms as nat),
{
    let secs = ms / 1000;
    if secs >= 60 {
        let mut r = u64_to_dec(secs / 60);
        r.push('m');
        let s = secs % 60;
        if s < 10 {
            r.push('0');
        }
        let d = u64_to_dec(s);
        r.append(d.as_str());
        r.push('s');
        r
    } else {
        let mut r = u64_to_dec(secs);
        r.push('.');
        let d = u64_to_dec((ms % 1000) / 100);
        r.append(d.as_str());
        r.push('s');
        r
    }
}

/// The warning for files dropped because their type is unsupported: the
/// file itself when one, else the count and the first.
pub open spec fn spec_skipped_message(skipped: Seq<String>) -> Option<Seq<char>> {
    if skipped.len() == 0 {
        None
    } else if skipped.len() == 1 {
        Some("Skipped unsupported file: "@ + skipped[0]@)
    } else {
        Some("Skipped "@ + dec(skipped.len()) + " unsupported files (e.g. "@ + skipped[0]@ + ")"@)
    }
}

pub fn skipped_message(skipped: &Vec<String>) -> (r: Option<String>)
    ensures
        match spec_skipped_message(skipped@) {
            Some(m) => r matches Some(x) && x@ == m,
            None => r is None,
        },
{
    let n = skipped.len();
    if n == 0 {
        None
    } else if n == 1 {
        let mut r = String::from_str("Skipped unsupported file: ");
        r.append(skipped[0].as_str());
        Some(r)
    } else {
        let mut r = String::from_str("Skipped ");
        let count = u64_to_dec(n as u64);
        r.append(count.as_str());
        r.append(" unsupported files (e.g. ");
        r.append(skipped[0].as_str());
        r.append(")");
        Some(r)
    }
}

/// The status badge's CSS classes in the task list.
pub open spec fn spec_status_class(status: Status) -> Seq<char> {
    match status {
        Status::Probing => "badge probing"@,
        Status::Processing => "badge processing"@,
        Status::Done => "badge done"@,
        Status::Alert => "badge alert"@,
        Status::SizeExcess => "badge size-excess"@,
        Status::Pending => "badge"@,
    }
}

pub fn status_class(status: Status) -> (r: &'static str)
    ensures
        r@ == spec_status_class(status),
{
    match status {
        Status::Probing => "badge probing",
        Status::Processing => "badge processing",
        Status::Done => "badge done",
        Status::Alert => "badge alert",
        Status::SizeExcess => "badge size-excess",
        Status::Pending => "badge",
    }
}

/// A task row's hover text: the full input path, and the error on the
/// next line when there is one.
pub open spec fn spec_row_tooltip(path: Seq<char>, error: Option<Seq<char>>) -> Seq<char> {
    match error {
        Some(e) => path + "\n"@ + e,
        None => path,
    }
}

pub fn row_tooltip(path: &str, error: Option<&str>) -> (r: String)
    ensures
        r@ == spec_row_tooltip(
            path@,
            match error {
                Some(e) => Some(e@),
                None => None,
            },
        ),
{
    match error {
        Some(e) => {
            let mut r = String::from_str(path);
            r.append("\n");
            r.append(e);
            r
        },
        None => String::from_str(path),
    }
}

/// How long a toast stays before fading: longer when it carries Undo.
pub fn toast_hold_ms(undo: bool) -> (r: u64)
    ensures
        r == (if undo {
            6000u64
        } else {
            3600u64
        }),
{
    if undo {
        6000
    } else {
        3600
    }
}

/// How long a toast takes to fade out before it is removed; the stylesheet's
/// transition on `.toast` lasts exactly as long.
pub const TOAST_FADE_MS: u64 = 350;

/// The summary under the task list.
#[derive(Debug, Clone, Copy, PartialEq, Eq, Structural)]
pub struct Tally {
    pub total: usize,
    pub done: usize,
    pub over: usize,
    pub failed: usize,
    /// Output bytes of the finished tasks (done or over the limit).
    pub bytes: u64,
}

/// Done, over-limit and failed counts and the finished tasks' output
/// bytes, of `tasks` given as (status, output size).
pub open spec fn spec_tally(tasks: Seq<(Status, Option<u64>)>) -> (nat, nat, nat, nat)
    decreases tasks.len(),
{
    if tasks.len() == 0 {
        (0, 0, 0, 0)
    } else {
        let (d, o, f, b) = spec_tally(tasks.drop_last());
        let (status, size) = tasks.last();
        let s: nat = match size {
            Some(n) => n as nat,
            None => 0,
        };
        match status {
            Status::Done => (d + 1, o, f, b + s),
            Status::SizeExcess => (d, o + 1, f, b + s),
            Status::Alert => (d, o, f + 1, b),
            _ => (d, o, f, b),
        }
    }
}

proof fn lemma_tally_bytes_grow(tasks: Seq<(Status, Option<u64>)>, i: int)
    requires
        0 <= i <= tasks.len(),
    ensures
        spec_tally(tasks.subrange(0, i)).3 <= spec_tally(tasks).3,
    decreases tasks.len() - i,
{
    if i < tasks.len() {
        lemma_tally_bytes_grow(tasks, i + 1);
        let s1 = tasks.subrange(0, i + 1);
        assert(s1.drop_last() =~= tasks.subrange(0, i));
    } else {
        assert(tasks.subrange(0, i) =~= tasks);
    }
}

/// Counts the finished, over-limit and failed tasks and sums the finished
/// outputs' sizes (an unknown size counts as 0).
pub fn tally(tasks: &Vec<(Status, Option<u64>)>) -> (r: Tally)
    requires
        spec_tally(tasks@).3 <= u64::MAX,
    ensures
        r.total == tasks@.len(),
        (r.done as nat, r.over as nat, r.failed as nat, r.bytes as nat) == spec_tally(tasks@),
{
    let n = tasks.len();
    let mut done: usize = 0;
    let mut over: usize = 0;
    let mut failed: usize = 0;
    let mut bytes: u64 = 0;
    let mut i: usize = 0;
    while i < n
        invariant
            n == tasks@.len(),
            i <= n,
            spec_tally(tasks@).3 <= u64::MAX,
            (done as nat, over as nat, failed as nat, bytes as nat) == spec_tally(tasks@.subrange(0, i as int)),
            done + over + failed <= i,
        decreases n - i,
    {
        let (status, size) = tasks[i];
        let s: u64 = match size {
            Some(v) => v,
            None => 0,
        };
        proof {
            let s1 = tasks@.subrange(0, i + 1);
            assert(s1.drop_last() =~= tasks@.subrange(0, i as int));
            assert(s1.last() == tasks@[i as int]);
            lemma_tally_bytes_grow(tasks@, i + 1);
        }
        match status {
            Status::Done => {
                done = done + 1;
                bytes = bytes + s;
            },
            Status::SizeExcess => {
                over = over + 1;
                bytes = bytes + s;
            },
            Status::Alert => {
                failed = failed + 1;
            },
            _ => {},
        }
        i = i + 1;
    }
    assert(tasks@.subrange(0, n as int) =~= tasks@);
    Tally { total: n, done, over, failed, bytes }
}

/// A number field's text read as an unsigned integer at most `max`
/// (surrounding whitespace ignored; a leading `+` allowed).
pub fn parse_number_field(text: &str, max: u64) -> (r: Option<u64>)
    ensures
        r == (match spec_parse_unsigned(spec_trim(text@)) {
            Some(v) => if v <= max {
                Some(v as u64)
            } else {
                None::<u64>
            },
            None => None::<u64>,
        }),
{
    let cs = chars_of(text);
    let (a, b) = trim_bounds(&cs, 0, cs.len());
    proof {
        lemma_trim_window(cs@, 0, cs@.len() as int);
        assert(cs@.subrange(0, cs@.len() as int) =~= text@);
    }
    parse_unsigned(&cs, a, b, max)
}

/// What a message from the window's key listener asks for.
#[derive(Debug, Clone, Copy, PartialEq, Eq, Structural)]
pub enum KeyCommand {
    /// Ctrl+Enter: start the run, or cancel the one under way.
    RunOrCancel,
    /// The listener is installed.
    Ready,
    /// Ctrl+O (desktop): pick input files.
    OpenFiles,
    Ignore,
}

pub open spec fn spec_key_command(message: Seq<char>, modal_open: bool, desktop: bool) -> KeyCommand {
    if modal_open {
        KeyCommand::Ignore
    } else if message == "run"@ {
        KeyCommand::RunOrCancel
    } else if message == "ready"@ {
        KeyCommand::Ready
    } else if desktop && message == "open"@ {
        KeyCommand::OpenFiles
    } else {
        KeyCommand::Ignore
    }
}

/// The command for a key listener message. While a dialog is open no
/// shortcut acts (the Run button is disabled then too); Ctrl+O is the
/// desktop's alone, the browser keeps its own.
pub fn key_command(message: &str, modal_open: bool, desktop: bool) -> (r: KeyCommand)
    ensures
        r == spec_key_command(message@, modal_open, desktop),
{
    if modal_open {
        return KeyCommand::Ignore;
    }
    let cs = chars_of(message);
    let n = cs.len();
    assert(cs@.subrange(0, n as int) =~= message@);
    if chars_eq(&cs, 0, n, "run") {
        KeyCommand::RunOrCancel
    } else if chars_eq(&cs, 0, n, "ready") {
        KeyCommand::Ready
    } else if desktop && chars_eq(&cs, 0, n, "open") {
        KeyCommand::OpenFiles
    } else {
        KeyCommand::Ignore
    }
}

/// The `data-theme` attribute for a theme setting: none for "system" (the
/// page follows the system's scheme), "dark" for "dark", and "light" for
/// anything else.
pub open spec fn spec_theme_attribute(theme: Seq<char>) -> Option<Seq<char>> {
    if theme == "system"@ {
        None
    } else if theme == "dark"@ {
        Some("dark"@)
    } else {
        Some("light"@)
    }
}

pub fn theme_attribute(theme: &str) -> (r: Option<&'static str>)
    ensures
        match spec_theme_attribute(theme@) {
            Some(a) => r matches Some(x) && x@ == a,
            None => r is None,
        },
{
    let cs = chars_of(theme);
    let n = cs.len();
    assert(cs@.subrange(0, n as int) =~= theme@);
    if chars_eq(&cs, 0, n, "system") {
        None
    } else if chars_eq(&cs, 0, n, "dark") {
        Some("dark")
    } else {
        Some("light")
    }
}

/// The notice a refused Run request shows, if any.
pub open spec fn spec_run_gate_notice(gate: RunGate) -> Option<Seq<char>> {
    match gate {
        RunGate::NothingToRun => Some("Nothing to run — every task is done (use Re-run to redo one)"@),
        RunGate::WaitForProbing => Some("Waiting for probing to finish"@),
        RunGate::Ignore => None,
        RunGate::Start => None,
    }
}

/// The information toast for a Run request that does not start the queue:
/// all done, or still probing; nothing when it is ignored or starts.
pub fn run_gate_notice(gate: RunGate) -> (r: Option<&'static str>)
    ensures
        match spec_run_gate_notice(gate) {
            Some(t) => r matches Some(x) && x@ == t,
            None => r is None,
        },
{
    match gate {
        RunGate::NothingToRun => Some("Nothing to run — every task is done (use Re-run to redo one)"),
        RunGate::WaitForProbing => Some("Waiting for probing to finish"),
        RunGate::Ignore => None,
        RunGate::Start => None,
    }
}

/// The notice of one task's removal (it carries Undo).
pub fn removed_message(name: &str) -> (r: String)
    ensures
        r@ == "Removed "@ + name@,
{
    let mut r = String::from_str("Removed ");
    r.append(name);
    r
}

/// The notice of clearing the finished tasks (it carries Undo).
pub fn cleared_message(count: usize) -> (r: String)
    ensures
        r@ == "Removed "@ + dec(count as nat) + " finished task(s)"@,
{
    let mut r = String::from_str("Removed ");
    let n = u64_to_dec(count as u64);
    r.append(n.as_str());
    r.append(" finished task(s)");
    r
}

/// The one error notice after downloading every output, for those that failed.
pub fn download_failed_message(failed: usize) -> (r: String)
    ensures
        r@ == "Download failed for "@ + dec(failed as nat) + " file(s)"@,
{
    let mut r = String::from_str("Download failed for ");
    let n = u64_to_dec(failed as u64);
    r.append(n.as_str());
    r.append(" file(s)");
    r
}

/// The notice when saving the settings failed.
pub fn save_failed_message(error: &str) -> (r: String)
    ensures
        r@ == "Failed to save settings: "@ + error@,
{
    let mut r = String::from_str("Failed to save settings: ");
    r.append(error);
    r
}

/// Whether a toast with exactly this text is already showing (a failure
/// that repeats on every keystroke is shown once).
pub fn has_toast_text(toasts: &Vec<Toast>, text: &str) -> (r: bool)
    ensures
        r == exists|i: int| 0 <= i < toasts@.len() && (#[trigger] toasts@[i]).text@ == text@,
{
    let cs = chars_of(text);
    let m = cs.len();
    assert(cs@.subrange(0, m as int) =~= text@);
    let mut i: usize = 0;
    while i < toasts.len()
        invariant
            i <= toasts@.len(),
            cs@ == text@,
            m == cs@.len(),
            forall|j: int| 0 <= j < i ==> (#[trigger] toasts@[j]).text@ != text@,
        decreases toasts@.len() - i,
    {
        let t = chars_of(toasts[i].text.as_str());
        let k = t.len();
        if k == m {
            assert(t@.subrange(0, k as int) =~= t@);
            let mut same = true;
            let mut j: usize = 0;
            while j < k
                invariant
                    j <= k,
                    k == m,
                    k == t@.len(),
                    m == cs@.len(),
                    same == (forall|q: int| 0 <= q < j ==> t@[q] == cs@[q]),
                decreases k - j,
            {
                if t[j] != cs[j] {
                    same = false;
                }
                j = j + 1;
            }
            if same {
                assert(t@ =~= cs@);
                return true;
            } else {
                assert(t@ != cs@) by {
                    let q = choose|q: int| 0 <= q < k && t@[q] != cs@[q];
                }
            }
        }
        i = i + 1;
    }
    false
}

/// The summary never counts more finished, over-limit and failed tasks
/// than there are tasks.
pub proof fn tally_counts_within_total(tasks: Seq<(Status, Option<u64>)>)
    ensures
        spec_tally(tasks).0 + spec_tally(tasks).1 + spec_tally(tasks).2 <= tasks.len(),
    decreases tasks.len(),
{
    if tasks.len() > 0 {
        tally_counts_within_total(tasks.drop_last());
    }
}

/// After removing toast `id` none with that id is left, every other toast
/// is still there, and the stack does not grow.
pub proof fn removed_toast_is_gone(s: Seq<Toast>, id: u64)
    ensures
        forall|i: int| 0 <= i < without_toast(s, id).len() ==> (#[trigger] without_toast(s, id)[i]).id != id,
        forall|i: int| 0 <= i < s.len() && s[i].id != id ==> without_toast(s, id).contains(#[trigger] s[i]),
        without_toast(s, id).len() <= s.len(),
    decreases s.len(),
{
    if s.len() > 0 {
        removed_toast_is_gone(s.drop_last(), id);
        let rest = without_toast(s.drop_last(), id);
        assert forall|i: int| 0 <= i < s.len() && s[i].id != id implies without_toast(s, id).contains(
            #[trigger] s[i],
        ) by {
            if i < s.len() - 1 {
                assert(s.drop_last()[i] == s[i]);
                assert(rest.contains(s[i]));
                let k = choose|k: int| 0 <= k < rest.len() && rest[k] == s[i];
                if s.last().id != id {
                    assert(rest.push(s.last())[k] == s[i]);
                }
            } else {
                assert(s.last() == s[i]);
                assert(rest.push(s.last())[rest.len() as int] == s[i]);
            }
        }
    }
}

/// Toast ids are distinct.
pub open spec fn distinct_ids(s: Seq<Toast>) -> bool {
    forall|i: int, j: int| 0 <= i < j < s.len() ==> #[trigger] s[i].id != #[trigger] s[j].id
}

/// Marking the owner of the undo slot leaves every toast as it was but for
/// the Undo button, and, where ids are distinct, at most one toast carries
/// it: the one with that id.
pub proof fn one_undo_button(s: Seq<Toast>, id: u64)
    requires
        distinct_ids(s),
    ensures
        undo_marked(s, id).len() == s.len(),
        forall|i: int| 0 <= i < s.len() ==> (#[trigger] undo_marked(s, id)[i]).undo == (s[i].id == id),
        forall|i: int| 0 <= i < s.len() ==> (#[trigger] undo_marked(s, id)[i]).id == s[i].id,
        forall|i: int, j: int|
            0 <= i < s.len() && 0 <= j < s.len() && (#[trigger] undo_marked(s, id)[i]).undo
                && (#[trigger] undo_marked(s, id)[j]).undo ==> i == j,
        distinct_ids(undo_marked(s, id)),
{
    let m = undo_marked(s, id);
    assert forall|i: int, j: int|
        0 <= i < s.len() && 0 <= j < s.len() && (#[trigger] m[i]).undo && (#[trigger] m[j]).undo implies i == j by {
        if i < j {
            assert(s[i].id != s[j].id);
        } else if j < i {
            assert(s[j].id != s[i].id);
        }
    }
    assert forall|i: int, j: int| 0 <= i < j < m.len() implies #[trigger] m[i].id != #[trigger] m[j].id by {
        assert(s[i].id != s[j].id);
    }
}

/// The output folder field's frame and hint.
#[derive(Debug, Clone, Copy, PartialEq, Eq)]
pub struct DirHint {
    /// Draw the field with the error frame.
    pub bad: bool,
    /// The hint under the field and its extra CSS class.
    pub hint: Option<(&'static str, &'static str)>,
}

/// The output folder field's frame and hint, from the folder's state and
/// what the last write test found (`None`: not tried since the last edit).
pub fn dir_hint(state: OutputDirState, write_ok: Option<bool>) -> (r: DirHint)
    ensures
        r.bad == (state == OutputDirState::Missing || (state == OutputDirState::Exists && write_ok
            == Some(false))),
        state == OutputDirState::Missing ==> (r.hint matches Some((t, c)) && t@ == "Folder not found"@
            && c@ == " danger"@),
        (state == OutputDirState::Exists && write_ok == Some(false)) ==> (r.hint matches Some((t, c))
            && t@ == "Folder is not writable"@ && c@ == " danger"@),
        state == OutputDirState::WillCreate ==> (r.hint matches Some((t, c)) && t@
            == "Will be created when you run"@ && c@ == ""@),
        (state == OutputDirState::Exists && write_ok != Some(false)) ==> r.hint is None,
{
    match state {
        OutputDirState::Missing => DirHint { bad: true, hint: Some(("Folder not found", " danger")) },
        OutputDirState::Exists => match write_ok {
            Some(false) => DirHint { bad: true, hint: Some(("Folder is not writable", " danger")) },
            _ => DirHint { bad: false, hint: None },
        },
        OutputDirState::WillCreate => DirHint {
            bad: false,
            hint: Some(("Will be created when you run", "")),
        },
    }
}

/// The toolbar's two flags: whether some task is done (Clear Done is
/// offered) and whether some task is not (Run is enabled).
pub fn toolbar_flags(statuses: &Vec<Status>) -> (r: (bool, bool))
    ensures
        r.0 == exists|i: int| 0 <= i < statuses@.len() && #[trigger] statuses@[i] == Status::Done,
        r.1 == exists|i: int| 0 <= i < statuses@.len() && #[trigger] statuses@[i] != Status::Done,
{
    let mut has_done = false;
    let mut runnable = false;
    let mut i: usize = 0;
    while i < statuses.len()
        invariant
            i <= statuses@.len(),
            has_done == exists|j: int| 0 <= j < i && #[trigger] statuses@[j] == Status::Done,
            runnable == exists|j: int| 0 <= j < i && #[trigger] statuses@[j] != Status::Done,
        decreases statuses@.len() - i,
    {
        if statuses[i] == Status::Done {
            has_done = true;
            assert(statuses@[i as int] == Status::Done);
        } else {
            runnable = true;
            assert(statuses@[i as int] != Status::Done);
        }
        i = i + 1;
    }
    (has_done, runnable)
}

} // verus!
