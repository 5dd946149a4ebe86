//! A write to a kernel attribute from a subprocess under a time limit.
//!
//! A driver can block such a write for ever, so the process itself must not
//! perform it: a shell does, and it is killed when it takes too long.

use vstd::prelude::*;

use crate::dialogue::{goes_on, group_in_step, in_step, Dialogue, Transcript};
use crate::fault::{outcome, Fault, FaultKind, FaultView};
use crate::text::{
    contains, decimal, decimal_text, glue4, glue5, has_part, lemma_replaced_front, replace_char,
    replaced, signed_decimal, signed_decimal_text,
};

verus! {

/// Time limit for a write to the running kernel's sysfs, in seconds.
pub const SYSFS_WRITE_TIMEOUT_SECS: u32 = 10;

/// Pause between two looks at the subprocess, in milliseconds.
pub const POLL_INTERVAL_MILLIS: u64 = 100;

/// One operation on the subprocess.
#[derive(Debug)]
pub enum ChildRequest {
    /// Start a shell on a script, with no input and its error output collected.
    Spawn { script: String },
    /// See whether the subprocess has ended.
    Poll,
    /// Read what the subprocess wrote to its error output.
    ReadStderr,
    /// Time since the subprocess was started.
    Elapsed,
    /// Kill the subprocess, without waiting for its end.
    Kill,
    /// Pause.
    Sleep { millis: u64 },
}

/// The view of a [`ChildRequest`].
pub enum ChildRequestView {
    Spawn { script: Seq<char> },
    Poll,
    ReadStderr,
    Elapsed,
    Kill,
    Sleep { millis: u64 },
}

impl View for ChildRequest {
    type V = ChildRequestView;

    open spec fn view(&self) -> ChildRequestView {
        match self {
            ChildRequest::Spawn { script } => ChildRequestView::Spawn { script: script@ },
            ChildRequest::Poll => ChildRequestView::Poll,
            ChildRequest::ReadStderr => ChildRequestView::ReadStderr,
            ChildRequest::Elapsed => ChildRequestView::Elapsed,
            ChildRequest::Kill => ChildRequestView::Kill,
            ChildRequest::Sleep { millis } => ChildRequestView::Sleep { millis: *millis },
        }
    }
}

/// The reply to a [`ChildRequest`].
#[derive(Debug)]
pub enum ChildReply {
    /// The operation was carried out.
    Done,
    /// The subprocess still runs.
    Running,
    /// The subprocess has ended with an exit code, or by a signal.
    Exited { code: Option<i32> },
    /// What was read.
    Text { text: String },
    /// A time span in nanoseconds.
    Nanos { nanos: u128 },
    /// The operation failed.
    Failed { kind: FaultKind, message: String },
}

/// The view of a [`ChildReply`].
pub enum ChildReplyView {
    Done,
    Running,
    Exited { code: Option<i32> },
    Text { text: Seq<char> },
    Nanos { nanos: u128 },
    Failed { kind: FaultKind, message: Seq<char> },
}

impl View for ChildReply {
    type V = ChildReplyView;

    open spec fn view(&self) -> ChildReplyView {
        match self {
            ChildReply::Done => ChildReplyView::Done,
            ChildReply::Running => ChildReplyView::Running,
            ChildReply::Exited { code } => ChildReplyView::Exited { code: *code },
            ChildReply::Text { text } => ChildReplyView::Text { text: text@ },
            ChildReply::Nanos { nanos } => ChildReplyView::Nanos { nanos: *nanos },
            ChildReply::Failed { kind, message } => ChildReplyView::Failed {
                kind: *kind,
                message: message@,
            },
        }
    }
}

pub type ChildDialogue = Dialogue<ChildRequest, ChildReply>;

pub type ChildTranscript = Transcript<ChildRequestView, ChildReplyView>;

/// The last reply of an exchange; one that is still awaited counts as a failure.
pub open spec fn child_answer(t: ChildTranscript) -> ChildReplyView {
    t.reply(ChildReplyView::Failed { kind: FaultKind::Other, message: Seq::empty() })
}

fn ask(d: &mut ChildDialogue, q: ChildRequest) -> (r: Option<ChildReply>)
    ensures
        final(d)@ == old(d)@.ask(q@),
        r is Some <==> final(d)@.live(),
        r is Some ==> r->0@ == child_answer(final(d)@),
{
    let at = d.ask(q)?;
    let copy = match d.reply(at) {
        ChildReply::Done => ChildReply::Done,
        ChildReply::Running => ChildReply::Running,
        ChildReply::Exited { code } => ChildReply::Exited { code: *code },
        ChildReply::Text { text } => ChildReply::Text { text: text.clone() },
        ChildReply::Nanos { nanos } => ChildReply::Nanos { nanos: *nanos },
        ChildReply::Failed { kind, message } => ChildReply::Failed {
            kind: *kind,
            message: message.clone(),
        },
    };
    Some(copy)
}

/// `s` as the inside of a single-quoted word of the shell: each quote ends the
/// word, stands escaped, and begins the word again.
pub open spec fn quoted(s: Seq<char>) -> Seq<char> {
    replaced(s, '\'', "'\\''"@)
}

/// The script that writes `data` to `path`.
pub open spec fn write_script(path: Seq<char>, data: Seq<char>) -> Seq<char> {
    "printf '%s' '"@ + quoted(data) + "' > '"@ + quoted(path) + "'"@
}

/// What the shell reads from a word made of single-quoted parts and escaped
/// characters, where `inside` says whether a quote is open. `None` where the word
/// is not of this form.
pub open spec fn shell_word(s: Seq<char>, inside: bool) -> Option<Seq<char>>
    decreases s.len(),
{
    if s.len() == 0 {
        if inside {
            None
        } else {
            Some(Seq::empty())
        }
    } else if s[0] == '\'' {
        shell_word(s.drop_first(), !inside)
    } else if inside {
        match shell_word(s.drop_first(), true) {
            Some(rest) => Some(seq![s[0]] + rest),
            None => None,
        }
    } else if s[0] == '\\' && s.len() > 1 {
        match shell_word(s.drop_first().drop_first(), false) {
            Some(rest) => Some(seq![s[1]] + rest),
            None => None,
        }
    } else {
        None
    }
}

proof fn lemma_quoted_inside(s: Seq<char>)
    ensures
        shell_word(quoted(s) + seq!['\''], true) == Some(s),
    decreases s.len(),
{
    reveal_strlit("'\\''");
    reveal_with_fuel(shell_word, 5);
    let word = quoted(s) + seq!['\''];
    if s.len() == 0 {
        assert(word =~= seq!['\'']);
        assert(word.drop_first() =~= Seq::empty());
        assert(s =~= Seq::empty());
    } else {
        let rest = s.drop_first();
        lemma_quoted_inside(rest);
        lemma_replaced_front(s, '\'', "'\\''"@);
        let tail = quoted(rest) + seq!['\''];
        assert(s =~= seq![s[0]] + rest);
        if s[0] == '\'' {
            assert(word =~= seq!['\'', '\\', '\'', '\''] + tail);
            let a = word.drop_first();
            let b = a.drop_first().drop_first();
            let c = b.drop_first();
            assert(a[0] == '\\' && a[1] == '\'');
            assert(b[0] == '\'');
            assert(c =~= tail);
            assert(shell_word(b, false) == shell_word(c, true));
            assert(shell_word(a, false) == Some(seq!['\''] + rest));
        } else {
            assert(word =~= seq![s[0]] + tail);
            assert(word.drop_first() =~= tail);
        }
    }
}

/// Whatever a text holds, the shell reads it back unchanged from between the
/// quotes that [`write_script`] puts around it.
pub proof fn law_shell_reads_quoted_text_back(s: Seq<char>)
    ensures
        shell_word(seq!['\''] + quoted(s) + seq!['\''], false) == Some(s),
{
    lemma_quoted_inside(s);
    let word = seq!['\''] + quoted(s) + seq!['\''];
    assert(word.drop_first() =~= quoted(s) + seq!['\'']);
}

/// The exit code as shown: -1 for an end by a signal.
pub open spec fn shown_code(code: Option<i32>) -> int {
    match code {
        Some(code) => code as int,
        None => -1,
    }
}

/// The advice that the error output of the shell calls for.
pub open spec fn stderr_hint(text: Seq<char>) -> Seq<char> {
    if has_part(text, "Permission denied"@) {
        " — run as root"@
    } else {
        Seq::empty()
    }
}

pub open spec fn spawn_fault(kind: FaultKind, message: Seq<char>, path: Seq<char>) -> FaultView {
    FaultView {
        kind,
        message: "failed to spawn sysfs write subprocess for "@ + path + ": "@ + message,
    }
}

pub open spec fn exit_fault(code: Option<i32>, text: Seq<char>, path: Seq<char>) -> FaultView {
    FaultView {
        kind: FaultKind::Other,
        message: "sysfs write to "@ + path + " failed (exit "@ + signed_decimal(shown_code(code))
            + ")"@ + stderr_hint(text) + ": "@ + text,
    }
}

pub open spec fn timeout_fault(path: Seq<char>, timeout_secs: u32) -> FaultView {
    FaultView {
        kind: FaultKind::TimedOut,
        message: "sysfs write to "@ + path + " timed out after "@ + decimal(timeout_secs as nat)
            + "s — possible nvidia driver deadlock. A reboot may be required."@,
    }
}

/// The time span that a reply gives.
pub open spec fn nanos_of(r: ChildReplyView) -> int {
    match r {
        ChildReplyView::Nanos { nanos } => nanos as int,
        _ => 0,
    }
}

/// The text that a reply gives.
pub open spec fn text_of_reply(r: ChildReplyView) -> Seq<char> {
    match r {
        ChildReplyView::Text { text } => text,
        _ => Seq::empty(),
    }
}

/// Watches the subprocess until it ends or the time is over.
pub open spec fn watch_run(t: ChildTranscript, path: Seq<char>, timeout_secs: u32) -> (
    ChildTranscript,
    Result<(), FaultView>,
)
    decreases t.replies.len() + 1 - t.asked.len(),
{
    if !t.live() {
        (t, Ok(()))
    } else {
        let t = t.ask(ChildRequestView::Poll);
        match child_answer(t) {
            ChildReplyView::Failed { kind, message } => (t, Err(FaultView { kind, message })),
            ChildReplyView::Exited { code } => if code == Some(0i32) {
                (t, Ok(()))
            } else {
                let t = t.ask(ChildRequestView::ReadStderr);
                (t, Err(exit_fault(code, text_of_reply(child_answer(t)), path)))
            },
            _ => {
                let t = t.ask(ChildRequestView::Elapsed);
                if nanos_of(child_answer(t)) > timeout_secs * 1_000_000_000 {
                    let t = t.ask(ChildRequestView::Kill);
                    (t, Err(timeout_fault(path, timeout_secs)))
                } else {
                    let t = t.ask(ChildRequestView::Sleep { millis: POLL_INTERVAL_MILLIS });
                    watch_run(t, path, timeout_secs)
                }
            },
        }
    }
}

proof fn lemma_watch_wait(t: ChildTranscript, path: Seq<char>, timeout_secs: u32)
    ensures
        !t.live() ==> watch_run(t, path, timeout_secs).0 == t,
{
}

pub open spec fn guarded_write_run(
    t: ChildTranscript,
    path: Seq<char>,
    data: Seq<char>,
    timeout_secs: u32,
) -> (ChildTranscript, Result<(), FaultView>) {
    let t = t.ask(ChildRequestView::Spawn { script: write_script(path, data) });
    match child_answer(t) {
        ChildReplyView::Failed { kind, message } => (t, Err(spawn_fault(kind, message, path))),
        _ => watch_run(t, path, timeout_secs),
    }
}

fn exit_fault_of(code: Option<i32>, text: &str, path: &str) -> (f: Fault)
    ensures
        f@ == exit_fault(code, text@, path@),
{
    let shown: i32 = match code {
        Some(code) => code,
        None => -1,
    };
    let number = signed_decimal_text(shown);
    let hint = if contains(text, "Permission denied") {
        " — run as root"
    } else {
        ""
    };
    proof {
        reveal_strlit("");
        assert(""@ =~= Seq::<char>::empty());
    }
    let mut message = glue5("sysfs write to ", path, " failed (exit ", number.as_str(), ")");
    message.append(hint);
    message.append(": ");
    message.append(text);
    Fault::new(FaultKind::Other, message)
}

/// Writes `data` to `path` from a shell, and gives up after `timeout_secs`
/// seconds: the shell is killed and the failure says so. Whether the shell ends is
/// not waited for: a driver that blocks the write can keep it alive.
pub fn sysfs_write_with_timeout(
    d: &mut ChildDialogue,
    path: &str,
    data: &str,
    timeout_secs: u32,
) -> (r: Option<Result<(), Fault>>)
    ensures
        final(d)@ == guarded_write_run(old(d)@, path@, data@, timeout_secs).0,
        r is Some <==> final(d)@.live(),
        r is Some ==> outcome(r->0) == guarded_write_run(old(d)@, path@, data@, timeout_secs).1,
{
    let safe_data = replace_char(data, '\'', "'\\''");
    let safe_path = replace_char(path, '\'', "'\\''");
    let script = glue5(
        "printf '%s' '",
        safe_data.as_str(),
        "' > '",
        safe_path.as_str(),
        "'",
    );
    match ask(d, ChildRequest::Spawn { script })? {
        ChildReply::Failed { kind, message } => {
            let text = glue4(
                "failed to spawn sysfs write subprocess for ",
                path,
                ": ",
                message.as_str(),
            );
            return Some(Err(Fault::new(kind, text)));
        },
        _ => {},
    }
    let limit: u128 = (timeout_secs as u128) * 1_000_000_000;
    loop
        invariant
            d@.live(),
            limit == timeout_secs * 1_000_000_000,
            watch_run(d@, path@, timeout_secs) == guarded_write_run(
                old(d)@,
                path@,
                data@,
                timeout_secs,
            ),
        decreases d@.replies.len() + 1 - d@.asked.len(),
    {
        match ask(d, ChildRequest::Poll)? {
            ChildReply::Failed { kind, message } => {
                return Some(Err(Fault::new(kind, message)));
            },
            ChildReply::Exited { code } => {
                if code == Some(0) {
                    return Some(Ok(()));
                }
                match ask(d, ChildRequest::ReadStderr)? {
                    ChildReply::Text { text } => {
                        return Some(Err(exit_fault_of(code, text.as_str(), path)));
                    },
                    _ => {
                        let none = String::new();
                        return Some(Err(exit_fault_of(code, none.as_str(), path)));
                    },
                }
            },
            _ => {},
        }
        let elapsed: u128 = match ask(d, ChildRequest::Elapsed) {
            Some(ChildReply::Nanos { nanos }) => nanos,
            Some(_) => 0,
            None => {
                proof {
                    lemma_watch_wait(d@, path@, timeout_secs);
                }
                return None;
            },
        };
        if elapsed > limit {
            let _ = ask(d, ChildRequest::Kill)?;
            let seconds = decimal_text(timeout_secs as u64);
            let message = glue5(
                "sysfs write to ",
                path,
                " timed out after ",
                seconds.as_str(),
                "s — possible nvidia driver deadlock. A reboot may be required.",
            );
            return Some(Err(Fault::new(FaultKind::TimedOut, message)));
        }
        match ask(d, ChildRequest::Sleep { millis: POLL_INTERVAL_MILLIS }) {
            Some(_) => {},
            None => {
                proof {
                    lemma_watch_wait(d@, path@, timeout_secs);
                }
                return None;
            },
        }
    }
}

broadcast proof fn go_watch(t: ChildTranscript, path: Seq<char>, timeout_secs: u32)
    ensures
        goes_on(t, (#[trigger] watch_run(t, path, timeout_secs)).0),
    decreases t.replies.len() + 1 - t.asked.len(),
{
    broadcast use group_in_step;

    if t.live() {
        let v = t.ask(ChildRequestView::Poll).ask(ChildRequestView::Elapsed).ask(
            ChildRequestView::Sleep { millis: POLL_INTERVAL_MILLIS },
        );
        go_watch(v, path, timeout_secs);
    }
}

broadcast proof fn step_watch(
    t: ChildTranscript,
    u: ChildTranscript,
    path: Seq<char>,
    timeout_secs: u32,
)
    requires
        t.replays_in(u),
    ensures
        in_step(
            #[trigger] watch_run(t, path, timeout_secs),
            #[trigger] watch_run(u, path, timeout_secs),
        ),
    decreases t.replies.len() + 1 - t.asked.len(),
{
    broadcast use group_in_step;

    go_watch(u, path, timeout_secs);
    if t.live() {
        let v = t.ask(ChildRequestView::Poll).ask(ChildRequestView::Elapsed).ask(
            ChildRequestView::Sleep { millis: POLL_INTERVAL_MILLIS },
        );
        let w = u.ask(ChildRequestView::Poll).ask(ChildRequestView::Elapsed).ask(
            ChildRequestView::Sleep { millis: POLL_INTERVAL_MILLIS },
        );
        step_watch(v, w, path, timeout_secs);
        go_watch(w, path, timeout_secs);
    }
}

/// A guarded write can be run again with more replies: it goes on where it waited,
/// and once it has come to an end, more replies change nothing.
pub proof fn law_guarded_write_is_replayed(
    t: ChildTranscript,
    fuller: ChildTranscript,
    path: Seq<char>,
    data: Seq<char>,
    timeout_secs: u32,
)
    requires
        t.replays_in(fuller),
    ensures
        in_step(
            guarded_write_run(t, path, data, timeout_secs),
            guarded_write_run(fuller, path, data, timeout_secs),
        ),
{
    broadcast use {group_in_step, go_watch, step_watch};

}

proof fn lemma_overdue(
    t: ChildTranscript,
    path: Seq<char>,
    timeout_secs: u32,
    k: int,
)
    requires
        watch_run(t, path, timeout_secs).0.live(),
        t.asked.len() <= k < watch_run(t, path, timeout_secs).0.asked.len(),
        watch_run(t, path, timeout_secs).0.asked[k] is Elapsed,
        nanos_of(watch_run(t, path, timeout_secs).0.replies[k]) > timeout_secs * 1_000_000_000,
    ensures
        ({
            let (end, r) = watch_run(t, path, timeout_secs);
            &&& r == Err::<(), FaultView>(timeout_fault(path, timeout_secs))
            &&& end.asked.len() == k + 2
            &&& end.asked[k + 1] is Kill
        }),
    decreases t.replies.len() + 1 - t.asked.len(),
{
    broadcast use {group_in_step, go_watch};

    let end = watch_run(t, path, timeout_secs).0;
    assert(goes_on(t, end));
    let polled = t.ask(ChildRequestView::Poll);
    let timed = polled.ask(ChildRequestView::Elapsed);
    let rested = timed.ask(ChildRequestView::Sleep { millis: POLL_INTERVAL_MILLIS });
    if child_answer(polled) is Failed || child_answer(polled) is Exited {
    } else if nanos_of(child_answer(timed)) > timeout_secs * 1_000_000_000 {
    } else {
        go_watch(rested, path, timeout_secs);
        if k < rested.asked.len() {
            assert(end.asked[k] == rested.asked[k]);
            assert(end.replies[k] == child_answer(timed));
        } else {
            lemma_overdue(rested, path, timeout_secs, k);
        }
    }
}

/// A write that takes too long is given up: as soon as the time is over the subprocess
/// is killed, and the failure says so without waiting for its end, which may never
/// come.
pub proof fn law_overdue_write_is_killed(
    t: ChildTranscript,
    path: Seq<char>,
    data: Seq<char>,
    timeout_secs: u32,
    k: int,
)
    requires
        guarded_write_run(t, path, data, timeout_secs).0.live(),
        t.asked.len() <= k < guarded_write_run(t, path, data, timeout_secs).0.asked.len(),
        guarded_write_run(t, path, data, timeout_secs).0.asked[k] is Elapsed,
        nanos_of(guarded_write_run(t, path, data, timeout_secs).0.replies[k]) > timeout_secs
            * 1_000_000_000,
    ensures
        ({
            let (end, r) = guarded_write_run(t, path, data, timeout_secs);
            &&& r == Err::<(), FaultView>(timeout_fault(path, timeout_secs))
            &&& end.asked.len() == k + 2
            &&& end.asked[k + 1] is Kill
        }),
{
    broadcast use {group_in_step, go_watch};

    let u = t.ask(ChildRequestView::Spawn { script: write_script(path, data) });
    let end = guarded_write_run(t, path, data, timeout_secs).0;
    assert(goes_on(u, end));
    if k < u.asked.len() {
        assert(end.asked[k] == u.asked[k]);
    } else {
        lemma_overdue(u, path, timeout_secs, k);
    }
}

/// What the subprocess is given to do: a shell is to print `data`, and nothing else, into
/// the file at `path`; whatever the two hold, the shell reads them as they are.
pub proof fn law_script_writes_the_data(
    t: ChildTranscript,
    path: Seq<char>,
    data: Seq<char>,
    timeout_secs: u32,
)
    requires
        t.live(),
    ensures
        ({
            let end = guarded_write_run(t, path, data, timeout_secs).0;
            let n = t.asked.len() as int;
            &&& end.asked.len() > n
            &&& end.asked[n] is Spawn
            &&& exists|what: Seq<char>, to: Seq<char>| #[trigger]
                end.asked[n]->Spawn_script == "printf '%s' "@ + what + " > "@ + to && shell_word(
                    what,
                    false,
                ) == Some(data) && shell_word(to, false) == Some(path)
            &&& forall|k: int| n < k < end.asked.len() ==> !((#[trigger] end.asked[k]) is Spawn)
        }),
{
    broadcast use {group_in_step, go_watch};

    let script = write_script(path, data);
    let u = t.ask(ChildRequestView::Spawn { script });
    let end = guarded_write_run(t, path, data, timeout_secs).0;
    let what = seq!['\''] + quoted(data) + seq!['\''];
    let to = seq!['\''] + quoted(path) + seq!['\''];
    law_shell_reads_quoted_text_back(data);
    law_shell_reads_quoted_text_back(path);
    reveal_strlit("printf '%s' '");
    reveal_strlit("printf '%s' ");
    reveal_strlit("' > '");
    reveal_strlit(" > ");
    reveal_strlit("'");
    assert(script =~= "printf '%s' "@ + what + " > "@ + to);
    assert(goes_on(u, end));
    assert(end.asked[t.asked.len() as int] == u.asked[t.asked.len() as int]);
    if !(child_answer(u) is Failed) {
        lemma_watch_ends(u, path, timeout_secs);
    }
}

/// Watching the subprocess, from `t` on, has come to an end in `end` with `r`.
pub open spec fn watched(
    t: ChildTranscript,
    end: ChildTranscript,
    r: Result<(), FaultView>,
    path: Seq<char>,
    timeout_secs: u32,
) -> bool {
    let n = end.asked.len() as int;
    let a = end.replies[n - 1];
    &&& n > t.asked.len()
    &&& match end.asked[n - 1] {
        ChildRequestView::Poll => {
            ||| a == (ChildReplyView::Exited { code: Some(0i32) }) && r is Ok
            ||| a is Failed && r == Err::<(), FaultView>(
                FaultView { kind: a->Failed_kind, message: a->Failed_message },
            )
        },
        ChildRequestView::ReadStderr => {
            let before = end.replies[n - 2];
            let text = match a {
                ChildReplyView::Text { text } => text,
                _ => Seq::empty(),
            };
            &&& n - 2 >= t.asked.len()
            &&& end.asked[n - 2] is Poll
            &&& before is Exited && before->code != Some(0i32)
            &&& r is Err && r->Err_0.kind == FaultKind::Other
            &&& r->Err_0.message == "sysfs write to "@ + path + " failed (exit "@
                + signed_decimal(
                match before->code {
                    Some(code) => code as int,
                    None => -1,
                },
            ) + ")"@ + (if has_part(text, "Permission denied"@) {
                " — run as root"@
            } else {
                Seq::empty()
            }) + ": "@ + text
        },
        ChildRequestView::Kill => {
            &&& n - 2 >= t.asked.len()
            &&& end.asked[n - 2] is Elapsed
            &&& end.replies[n - 2] is Nanos
            &&& end.replies[n - 2]->nanos > timeout_secs * 1_000_000_000
            &&& r is Err && r->Err_0.kind == FaultKind::TimedOut
            &&& r->Err_0.message == "sysfs write to "@ + path + " timed out after "@ + decimal(
                timeout_secs as nat,
            ) + "s — possible nvidia driver deadlock. A reboot may be required."@
        },
        _ => false,
    }
    &&& forall|k: int|
        t.asked.len() <= k < n - 1 ==> match #[trigger] end.asked[k] {
            ChildRequestView::Poll => {
                &&& !(end.replies[k] is Failed)
                &&& end.replies[k] is Exited ==> k == n - 2 && end.asked[n - 1] is ReadStderr
            },
            ChildRequestView::Elapsed => {
                end.replies[k] is Nanos && end.replies[k]->nanos > timeout_secs * 1_000_000_000
                    ==> k == n - 2 && end.asked[n - 1] is Kill
            },
            ChildRequestView::Sleep { millis } => millis == 100,
            _ => false,
        }
}

proof fn lemma_watch_ends(t: ChildTranscript, path: Seq<char>, timeout_secs: u32)
    ensures
        ({
            let (end, r) = watch_run(t, path, timeout_secs);
            &&& t.live() && end.live() ==> watched(t, end, r, path, timeout_secs)
            &&& forall|k: int|
                t.asked.len() <= k < end.asked.len() ==> !((#[trigger] end.asked[k]) is Spawn)
        }),
    decreases t.replies.len() + 1 - t.asked.len(),
{
    broadcast use {group_in_step, go_watch};

    if t.live() {
        let (end, r) = watch_run(t, path, timeout_secs);
        let polled = t.ask(ChildRequestView::Poll);
        let timed = polled.ask(ChildRequestView::Elapsed);
        let rested = timed.ask(ChildRequestView::Sleep { millis: POLL_INTERVAL_MILLIS });
        if child_answer(polled) is Failed {
        } else if child_answer(polled) is Exited {
            if child_answer(polled) != (ChildReplyView::Exited { code: Some(0i32) }) {
                assert(end == polled.ask(ChildRequestView::ReadStderr));
                if end.live() {
                    assert(end.asked[end.asked.len() - 2] == polled.asked.last());
                    assert(watched(t, end, r, path, timeout_secs));
                }
            }
        } else if nanos_of(child_answer(timed)) > timeout_secs * 1_000_000_000 {
            assert(end == timed.ask(ChildRequestView::Kill));
            if end.live() {
                assert(end.asked[end.asked.len() - 2] == timed.asked.last());
                assert(watched(t, end, r, path, timeout_secs));
            }
        } else {
            lemma_watch_ends(rested, path, timeout_secs);
            go_watch(rested, path, timeout_secs);
            assert(goes_on(rested, end));
            assert forall|k: int| t.asked.len() <= k < end.asked.len() implies !((
            #[trigger] end.asked[k]) is Spawn) by {
                if k < rested.asked.len() {
                    assert(end.asked[k] == rested.asked[k]);
                }
            }
            if end.live() {
                let n = end.asked.len() as int;
                assert(watched(rested, end, r, path, timeout_secs));
                assert forall|k: int| t.asked.len() <= k < n - 1 implies match
                #[trigger] end.asked[k] {
                    ChildRequestView::Poll => {
                        &&& !(end.replies[k] is Failed)
                        &&& end.replies[k] is Exited ==> k == n - 2
                            && end.asked[n - 1] is ReadStderr
                    },
                    ChildRequestView::Elapsed => {
                        end.replies[k] is Nanos && end.replies[k]->nanos > timeout_secs
                            * 1_000_000_000 ==> k == n - 2 && end.asked[n - 1] is Kill
                    },
                    ChildRequestView::Sleep { millis } => millis == 100,
                    _ => false,
                } by {
                    if k < rested.asked.len() {
                        assert(end.asked[k] == rested.asked[k]);
                        assert(end.replies[k] == rested.replies[k]);
                    }
                }
            }
        }
    }
}

/// How a guarded write ends: it succeeds where the shell has exited with code 0, and in no
/// other way; an exit with another code fails with that code and what the shell wrote, a
/// shell that could not be started or looked at fails as it was told, and only time that is
/// over ends the watch of a shell that still runs.
pub proof fn law_guarded_write_ends(
    t: ChildTranscript,
    path: Seq<char>,
    data: Seq<char>,
    timeout_secs: u32,
)
    requires
        t.live(),
        guarded_write_run(t, path, data, timeout_secs).0.live(),
    ensures
        ({
            let (end, r) = guarded_write_run(t, path, data, timeout_secs);
            let n = t.asked.len() as int;
            let spawned = end.replies[n];
            if spawned is Failed {
                &&& end.asked.len() == n + 1
                &&& r is Err && r->Err_0.kind == spawned->Failed_kind
                &&& r->Err_0.message == "failed to spawn sysfs write subprocess for "@ + path
                    + ": "@ + spawned->Failed_message
            } else {
                exists|started: ChildTranscript|
                    started.asked.len() == n + 1 && #[trigger] watched(
                        started,
                        end,
                        r,
                        path,
                        timeout_secs,
                    )
            }
        }),
{
    broadcast use {group_in_step, go_watch};

    let started = t.ask(ChildRequestView::Spawn { script: write_script(path, data) });
    let (end, r) = guarded_write_run(t, path, data, timeout_secs);
    assert(goes_on(started, end));
    assert(started.live());
    assert(child_answer(started) == end.replies[t.asked.len() as int]);
    if !(child_answer(started) is Failed) {
        lemma_watch_ends(started, path, timeout_secs);
        assert(watched(started, end, r, path, timeout_secs));
    }
}

} // verus!
