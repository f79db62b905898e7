//! Terminal sessions: what a session holds, the table of live sessions and
//! the operations a client issues against it, and the decisions of the loop
//! that drains a session's output.
//!
//! The pseudo-terminal handles themselves are opaque to this module: a
//! session carries them as `P` (master and writer) and `C` (the shell
//! process), and the caller performs the I/O on them.

use crate::buffer::{tail_window, OutputBuffer, MAX_BUFFER_SIZE};
use crate::registry::Registry;
use crate::transport::{base64_bytes, base64_text, decode_payload, encode_payload};
use vstd::prelude::*;

verus! {

/// Where and at what size a session's shell starts.
pub struct TerminalConfig {
    pub cwd: String,
    pub cols: u16,
    pub rows: u16,
}

/// A plain description of the process to spawn in a new pseudo-terminal.
pub struct ShellCommand {
    pub program: String,
    pub cwd: String,
    pub env: Vec<(String, String)>,
}

/// Environment given to every session's shell: a colour-capable terminal
/// type and a UTF-8 locale.
pub open spec fn shell_env() -> Seq<(Seq<char>, Seq<char>)> {
    seq![
        ("TERM"@, "xterm-256color"@),
        ("COLORTERM"@, "truecolor"@),
        ("LANG"@, "en_US.UTF-8"@),
    ]
}

fn env_pair(key: &str, value: &str) -> (r: (String, String))
    ensures
        r.0@ == key@,
        r.1@ == value@,
{
    (String::from_str(key), String::from_str(value))
}

/// The shell to start for `config`: an interactive `zsh` in `config.cwd`.
pub fn shell_command(config: &TerminalConfig) -> (r: ShellCommand)
    ensures
        r.program@ == "zsh"@,
        r.cwd@ == config.cwd@,
        r.env@.len() == shell_env().len(),
        forall|i: int|
            0 <= i < r.env@.len() ==> (#[trigger] r.env@[i]).0@ == shell_env()[i].0 && r.env@[i].1@
                == shell_env()[i].1,
{
    let mut env: Vec<(String, String)> = Vec::new();
    env.push(env_pair("TERM", "xterm-256color"));
    env.push(env_pair("COLORTERM", "truecolor"));
    env.push(env_pair("LANG", "en_US.UTF-8"));
    ShellCommand { program: String::from_str("zsh"), cwd: config.cwd.clone(), env }
}

/// One live session: its configuration, its pseudo-terminal handles, its
/// output history and, until terminated, its shell process.
pub struct TerminalSession<P, C> {
    pub config: TerminalConfig,
    pub pty: P,
    pub buffer: OutputBuffer,
    pub child: Option<C>,
}

impl<P, C> TerminalSession<P, C> {
    /// The shell process, while the session has not been terminated.
    pub open spec fn child_slot(&self) -> Option<C> {
        self.child
    }

    pub open spec fn wf(&self) -> bool {
        self.buffer.wf()
    }

    /// A session over freshly opened handles, with an empty history.
    pub fn new(config: TerminalConfig, pty: P, child: C) -> (r: TerminalSession<P, C>)
        ensures
            r.wf(),
            r.config == config,
            r.pty == pty,
            r.buffer@ == Seq::<u8>::empty(),
            r.child_slot() == Some(child),
    {
        TerminalSession { config, pty, buffer: OutputBuffer::new(), child: Some(child) }
    }

    /// Takes the shell process out of the session, exactly once: the caller
    /// kills what comes back. Later calls return `None`.
    pub fn terminate(&mut self) -> (r: Option<C>)
        ensures
            terminate_post(*old(self), *final(self), r),
    {
        self.child.take()
    }
}

/// What `terminate` does: it hands out the process slot's content and leaves
/// the slot empty, touching nothing else.
pub open spec fn terminate_post<P, C>(
    before: TerminalSession<P, C>,
    after: TerminalSession<P, C>,
    r: Option<C>,
) -> bool {
    &&& r == before.child_slot()
    &&& after.child_slot().is_none()
    &&& after.config == before.config
    &&& after.pty == before.pty
    &&& after.buffer == before.buffer
}

/// The table of live sessions, keyed by the caller's session id.
pub type SessionRegistry<P, C> = Registry<TerminalSession<P, C>>;

pub open spec fn registry_wf<P, C>(reg: &SessionRegistry<P, C>) -> bool {
    &&& reg.wf()
    &&& forall|k: Seq<char>| #[trigger] reg@.contains_key(k) ==> reg@[k].wf()
}

/// Why an operation on a session was refused.
pub enum TerminalError {
    /// No live session has this id.
    NotFound { session_id: String },
    /// The payload is not valid standard base64.
    InvalidPayload { reason: String },
}

impl TerminalError {
    /// A readable description of the error.
    pub fn message(&self) -> (r: String)
        ensures
            match self {
                TerminalError::NotFound { session_id } => r@ == "session not found: "@
                    + session_id@,
                TerminalError::InvalidPayload { reason } => r@ == "invalid payload: "@ + reason@,
            },
    {
        match self {
            TerminalError::NotFound { session_id } => {
                let mut m = String::from_str("session not found: ");
                m.append(session_id.as_str());
                m
            },
            TerminalError::InvalidPayload { reason } => {
                let mut m = String::from_str("invalid payload: ");
                m.append(reason.as_str());
                m
            },
        }
    }
}

fn not_found(session_id: &String) -> (r: TerminalError)
    ensures
        r matches TerminalError::NotFound { session_id: s } && s@ == session_id@,
{
    TerminalError::NotFound { session_id: session_id.clone() }
}

/// Registers a newly created session under `session_id`, replacing any
/// earlier entry of that id.
pub fn create_terminal_session<P, C>(
    reg: &mut SessionRegistry<P, C>,
    session_id: String,
    session: TerminalSession<P, C>,
) -> (r: String)
    requires
        registry_wf(old(reg)),
        session.wf(),
    ensures
        registry_wf(final(reg)),
        final(reg)@ == old(reg)@.insert(session_id@, session),
        r@ == session_id@,
{
    let id = session_id.clone();
    reg.insert(session_id, session);
    id
}

/// Checks a write request: the session must exist and the payload must be
/// valid base64. On success returns the raw bytes to send to the shell.
pub fn write_to_terminal<P, C>(reg: &SessionRegistry<P, C>, session_id: &String, data: &str) -> (r:
    Result<Vec<u8>, TerminalError>)
    requires
        registry_wf(reg),
    ensures
        !reg@.contains_key(session_id@) <==> r matches Err(TerminalError::NotFound { .. }),
        r matches Err(TerminalError::NotFound { session_id: s }) ==> s@ == session_id@,
        r matches Ok(v) <==> reg@.contains_key(session_id@) && base64_bytes(data@) is Some,
        r matches Ok(v) ==> base64_bytes(data@) == Some(v@),
{
    if !reg.contains_key(session_id) {
        return Err(not_found(session_id));
    }
    match decode_payload(data) {
        Ok(v) => Ok(v),
        Err(reason) => Err(TerminalError::InvalidPayload { reason }),
    }
}

/// `after` is `before` with the size changed to `cols` x `rows`.
pub open spec fn resized<P, C>(
    before: TerminalSession<P, C>,
    after: TerminalSession<P, C>,
    cols: u16,
    rows: u16,
) -> bool {
    &&& after.config.cwd == before.config.cwd
    &&& after.config.cols == cols
    &&& after.config.rows == rows
    &&& after.pty == before.pty
    &&& after.buffer == before.buffer
    &&& after.child_slot() == before.child_slot()
}

/// Records a new size for a session. The caller then applies it to the
/// session's pseudo-terminal.
pub fn resize_terminal<P, C>(
    reg: &mut SessionRegistry<P, C>,
    session_id: &String,
    cols: u16,
    rows: u16,
) -> (r: Result<(), TerminalError>)
    requires
        registry_wf(old(reg)),
    ensures
        registry_wf(final(reg)),
        r is Ok <==> old(reg)@.contains_key(session_id@),
        r matches Err(TerminalError::NotFound { session_id: s }) ==> s@ == session_id@,
        r is Err ==> final(reg)@ == old(reg)@,
        final(reg)@.remove(session_id@) == old(reg)@.remove(session_id@),
        r is Ok ==> final(reg)@.contains_key(session_id@) && resized(
            old(reg)@[session_id@],
            final(reg)@[session_id@],
            cols,
            rows,
        ),
{
    match reg.remove(session_id) {
        None => Err(not_found(session_id)),
        Some(s) => {
            let TerminalSession { config, pty, buffer, child } = s;
            let config = TerminalConfig { cwd: config.cwd, cols, rows };
            let updated = TerminalSession { config, pty, buffer, child };
            reg.insert(session_id.clone(), updated);
            proof {
                assert(final(reg)@.remove(session_id@) =~= old(reg)@.remove(session_id@));
            }
            Ok(())
        },
    }
}

/// What closing does to the table: the entry is gone, and the shell process
/// it still held, if any, is handed out to be killed.
pub open spec fn close_post<P, C>(
    before: Map<Seq<char>, TerminalSession<P, C>>,
    after: Map<Seq<char>, TerminalSession<P, C>>,
    id: Seq<char>,
    r: Option<C>,
) -> bool {
    &&& after == before.remove(id)
    &&& r == (if before.contains_key(id) {
        before[id].child_slot()
    } else {
        None
    })
}

/// Closes a session: removes it and terminates it. Closing an id that is
/// not (or no longer) registered is not an error and changes nothing.
pub fn close_terminal_session<P, C>(reg: &mut SessionRegistry<P, C>, session_id: &String) -> (r:
    Option<C>)
    requires
        registry_wf(old(reg)),
    ensures
        registry_wf(final(reg)),
        close_post(old(reg)@, final(reg)@, session_id@, r),
{
    match reg.remove(session_id) {
        None => None,
        Some(s) => {
            let mut s = s;
            s.terminate()
        },
    }
}

/// The session's history as transport text; `None` both when the session
/// does not exist and when it has produced no output yet.
pub fn get_terminal_buffer<P, C>(reg: &SessionRegistry<P, C>, session_id: &String) -> (r: Option<
    String,
>)
    requires
        registry_wf(reg),
    ensures
        r is None <==> !reg@.contains_key(session_id@) || reg@[session_id@].buffer@.len() == 0,
        r matches Some(t) ==> t@ == base64_text(reg@[session_id@].buffer@),
{
    match reg.get(session_id) {
        None => None,
        Some(s) => {
            if s.buffer.is_empty() {
                None
            } else {
                let bytes = s.buffer.snapshot();
                Some(encode_payload(bytes.as_slice()))
            }
        },
    }
}

/// Whether a session of this id is still registered.
pub fn ping_terminal_session<P, C>(reg: &SessionRegistry<P, C>, session_id: &String) -> (r: bool)
    requires
        registry_wf(reg),
    ensures
        r == reg@.contains_key(session_id@),
{
    reg.contains_key(session_id)
}

/// Name of the event that carries a session's output.
pub open spec fn output_event(id: Seq<char>) -> Seq<char> {
    "terminal-output-"@ + id
}

/// Name of the event that announces a session's end.
pub open spec fn closed_event(id: Seq<char>) -> Seq<char> {
    "terminal-closed-"@ + id
}

/// What one read from a session's pseudo-terminal gave.
pub enum ReadOutcome {
    /// Some bytes (never empty).
    Data(Vec<u8>),
    /// End of stream: the shell exited or the terminal was closed.
    End,
    /// The read failed; treated as the end of the stream.
    Failed,
}

/// What the output loop does next.
pub enum ReaderAction {
    /// Publish `payload` under the event name `event`, then read again.
    Emit { event: String, payload: String },
    /// Publish the closing event `event` and stop.
    Close { event: String },
}

/// `after` is `before` with `chunk` appended to its history.
pub open spec fn appended<P, C>(
    before: TerminalSession<P, C>,
    after: TerminalSession<P, C>,
    chunk: Seq<u8>,
) -> bool {
    &&& after.buffer@ == tail_window(before.buffer@ + chunk, MAX_BUFFER_SIZE as nat)
    &&& after.config == before.config
    &&& after.pty == before.pty
    &&& after.child_slot() == before.child_slot()
}

/// The decision of the output loop after one read: data goes into the
/// session's history (while it is registered) and out as an event; the end
/// of the stream, or a failed read, removes the session and announces it.
pub fn reader_step<P, C>(reg: &mut SessionRegistry<P, C>, session_id: &String, outcome: ReadOutcome) -> (r:
    ReaderAction)
    requires
        registry_wf(old(reg)),
        outcome matches ReadOutcome::Data(d) ==> d@.len() <= usize::MAX / 2,
    ensures
        registry_wf(final(reg)),
        final(reg)@.remove(session_id@) == old(reg)@.remove(session_id@),
        match outcome {
            ReadOutcome::Data(d) => {
                &&& r matches ReaderAction::Emit { event, payload } && event@ == output_event(
                    session_id@,
                ) && payload@ == base64_text(d@)
                &&& final(reg)@.contains_key(session_id@) == old(reg)@.contains_key(session_id@)
                &&& old(reg)@.contains_key(session_id@) ==> appended(
                    old(reg)@[session_id@],
                    final(reg)@[session_id@],
                    d@,
                )
            },
            _ => {
                &&& r matches ReaderAction::Close { event } && event@ == closed_event(session_id@)
                &&& final(reg)@ == old(reg)@.remove(session_id@)
            },
        },
{
    match outcome {
        ReadOutcome::Data(d) => {
            if let Some(s) = reg.remove(session_id) {
                let mut s = s;
                s.buffer.append(d.as_slice());
                reg.insert(session_id.clone(), s);
            } else {
                assert(old(reg)@.remove(session_id@) =~= old(reg)@);
            }
            proof {
                assert(final(reg)@.remove(session_id@) =~= old(reg)@.remove(session_id@));
            }
            let payload = encode_payload(d.as_slice());
            let mut event = String::from_str("terminal-output-");
            event.append(session_id.as_str());
            ReaderAction::Emit { event, payload }
        },
        _ => {
            reg.remove(session_id);
            proof {
                assert(final(reg)@.remove(session_id@) =~= old(reg)@.remove(session_id@));
            }
            let mut event = String::from_str("terminal-closed-");
            event.append(session_id.as_str());
            ReaderAction::Close { event }
        },
    }
}

/// Closing is idempotent: after one close of `id`, a second close changes
/// nothing and hands out no process. Closing an id that was never
/// registered likewise changes nothing.
pub proof fn lemma_close_idempotent<P, C>(
    m0: Map<Seq<char>, TerminalSession<P, C>>,
    m1: Map<Seq<char>, TerminalSession<P, C>>,
    m2: Map<Seq<char>, TerminalSession<P, C>>,
    id: Seq<char>,
    r1: Option<C>,
    r2: Option<C>,
)
    requires
        close_post(m0, m1, id, r1),
        close_post(m1, m2, id, r2),
    ensures
        m2 == m1,
        r2.is_none(),
        !m0.contains_key(id) ==> m1 == m0 && r1.is_none(),
{
    assert(m1.remove(id) =~= m1);
    if !m0.contains_key(id) {
        assert(m0.remove(id) =~= m0);
    }
}

/// Terminating twice hands the shell process out at most once: the second
/// call returns `None` and leaves the session as it was.
pub proof fn lemma_terminate_idempotent<P, C>(
    s0: TerminalSession<P, C>,
    s1: TerminalSession<P, C>,
    s2: TerminalSession<P, C>,
    r1: Option<C>,
    r2: Option<C>,
)
    requires
        terminate_post(s0, s1, r1),
        terminate_post(s1, s2, r2),
    ensures
        r2.is_none(),
        s2 == s1,
{
}

/// Operations on session `a` never touch session `b`: every operation keyed
/// by an id leaves the rest of the table as it was, so `b`'s entry, and with
/// it its history, is unchanged.
pub proof fn lemma_session_isolation<P, C>(
    before: Map<Seq<char>, TerminalSession<P, C>>,
    after: Map<Seq<char>, TerminalSession<P, C>>,
    a: Seq<char>,
    b: Seq<char>,
)
    requires
        after.remove(a) == before.remove(a),
        a != b,
    ensures
        after.contains_key(b) == before.contains_key(b),
        before.contains_key(b) ==> after[b] == before[b],
{
    assert(after.remove(a).contains_key(b) == after.contains_key(b));
    assert(before.remove(a).contains_key(b) == before.contains_key(b));
    if before.contains_key(b) {
        assert(after.remove(a)[b] == after[b]);
        assert(before.remove(a)[b] == before[b]);
    }
}

} // verus!
