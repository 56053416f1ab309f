//! The remote-shell feature: when a request to open a shell on another device
//! is refused, how the hosted shell is started, and when relaying between a
//! stream and the terminal ends.

use vstd::prelude::*;

use crate::error::{transport_error_text, TransportError};
use crate::ids::{uuid_text, DeviceId, FeatureId};
use crate::text::{owned, push_str, same_text};

verus! {

/// The feature's identifier.
pub open spec fn shell_id() -> Seq<char> {
    "shell"@
}

/// The shell feature, as the feature catalog lists it.
pub struct ShellFeatureSpec;

impl ShellFeatureSpec {
    /// The feature's identifier, "shell".
    pub fn id() -> (r: &'static str)
        ensures
            r@ == shell_id(),
    {
        "shell"
    }

    /// The feature's label, "Shell".
    pub fn label() -> (r: &'static str)
        ensures
            r@ == "Shell"@,
    {
        "Shell"
    }

    /// What the feature does.
    pub fn description() -> (r: &'static str)
        ensures
            r@ == "Accept remote terminal sessions from other devices"@,
    {
        "Accept remote terminal sessions from other devices"
    }

    /// The feature's id.
    pub fn feature_id() -> (r: FeatureId)
        ensures
            r.name@ == shell_id(),
    {
        FeatureId::from_static(Self::id())
    }
}

/// A request, from the local control socket, to open a shell on `target`.
#[derive(Debug, Clone)]
pub struct OpenShellRequest {
    pub target: DeviceId,
    pub rows: u16,
    pub cols: u16,
}

/// The answer written back on the control stream.
#[derive(Debug, Clone)]
pub enum ControlResponse {
    Error { message: String },
    Ready,
}

/// Some feature of `features` is named `name`.
pub open spec fn lists_feature(features: Seq<FeatureId>, name: Seq<char>) -> bool {
    exists|i: int| 0 <= i < features.len() && features[i].name@ == name
}

fn has_feature(features: &Vec<FeatureId>, name: &str) -> (r: bool)
    ensures
        r == lists_feature(features@, name@),
{
    let mut i: usize = 0;
    while i < features.len()
        invariant
            i <= features@.len(),
            forall|j: int| 0 <= j < i ==> features@[j].name@ != name@,
        decreases features.len() - i,
    {
        if same_text(features[i].name.as_str(), name) {
            return true;
        }
        i = i + 1;
    }
    false
}

/// The message when the shell is off on this device.
pub open spec fn local_disabled_message() -> Seq<char> {
    "shell is not enabled on this device; enable it in the web UI or with `failsafe devices features`, then wait for the daemon to sync"@
}

/// The message when the shell is off on the target.
pub open spec fn peer_disabled_message(target: DeviceId) -> Seq<char> {
    "shell is not enabled on device "@ + uuid_text(target.0) + "; enable it on both devices"@
}

/// The message when the target has no live session.
pub open spec fn offline_message(target: DeviceId) -> Seq<char> {
    "device "@ + uuid_text(target.0) + " is offline or unreachable"@
}

/// Why a request to open a shell on `target` is refused, if it is: the shell
/// must be on here (`local_features`), on the target (`peer_enabled`, from the
/// peer directory), and the target connected (`connected`).
pub open spec fn shell_refusal(
    local_features: Seq<FeatureId>,
    peer_enabled: bool,
    connected: Seq<DeviceId>,
    target: DeviceId,
) -> Option<Seq<char>> {
    if !lists_feature(local_features, shell_id()) {
        Some(local_disabled_message())
    } else if !peer_enabled {
        Some(peer_disabled_message(target))
    } else if !connected.contains(target) {
        Some(offline_message(target))
    } else {
        None
    }
}

/// Decides whether a shell may be opened on `target`; a refusal is the error
/// response to write back.
pub fn check_shell_request(
    local_features: &Vec<FeatureId>,
    peer_enabled: bool,
    connected: &Vec<DeviceId>,
    target: DeviceId,
) -> (r: Option<ControlResponse>)
    ensures
        match shell_refusal(local_features@, peer_enabled, connected@, target) {
            None => r is None,
            Some(m) => (r matches Some(ControlResponse::Error { message: t }) && t@ == m),
        },
{
    proof {
        reveal_strlit("shell");
    }
    if !has_feature(local_features, "shell") {
        return Some(ControlResponse::Error { message: String::from_str("shell is not enabled on this device; enable it in the web UI or with `failsafe devices features`, then wait for the daemon to sync") });
    }
    if !peer_enabled {
        let mut m = owned("shell is not enabled on device ");
        let t = target.to_text();
        push_str(&mut m, t.as_str());
        push_str(&mut m, "; enable it on both devices");
        proof {
            reveal_strlit("shell is not enabled on device ");
            reveal_strlit("; enable it on both devices");
        }
        return Some(ControlResponse::Error { message: m });
    }
    let mut found = false;
    let mut i: usize = 0;
    while i < connected.len()
        invariant
            i <= connected@.len(),
            found == exists|j: int| 0 <= j < i && connected@[j] == target,
        decreases connected.len() - i,
    {
        if connected[i] == target {
            found = true;
        }
        i = i + 1;
    }
    if !found {
        let mut m = owned("device ");
        let t = target.to_text();
        push_str(&mut m, t.as_str());
        push_str(&mut m, " is offline or unreachable");
        proof {
            reveal_strlit("device ");
            reveal_strlit(" is offline or unreachable");
        }
        return Some(ControlResponse::Error { message: m });
    }
    None
}

/// The response when the shell stream could not be opened.
pub fn open_failed_response(error: &TransportError) -> (r: ControlResponse)
    ensures
        (r matches ControlResponse::Error { message: m } && m@ == "failed to open shell: "@ + transport_error_text(
            *error,
        )),
{
    let mut m = owned("failed to open shell: ");
    let e = error.message();
    push_str(&mut m, e.as_str());
    proof {
        reveal_strlit("failed to open shell: ");
    }
    ControlResponse::Error { message: m }
}

/// `s` ends with `suffix`.
pub open spec fn ends_with(s: Seq<char>, suffix: Seq<char>) -> bool {
    s.len() >= suffix.len() && s.subrange(s.len() - suffix.len(), s.len() as int) == suffix
}

fn has_suffix(s: &str, suffix: &str) -> (r: bool)
    ensures
        r == ends_with(s@, suffix@),
{
    let a = crate::text::chars_of(s);
    let b = crate::text::chars_of(suffix);
    if a.len() < b.len() {
        return false;
    }
    let off = a.len() - b.len();
    let mut i: usize = 0;
    while i < b.len()
        invariant
            a@ == s@,
            b@ == suffix@,
            off == a@.len() - b@.len(),
            a@.len() >= b@.len(),
            a@.len() == a.len(),
            i <= b@.len(),
            forall|j: int| 0 <= j < i ==> a@[off + j] == b@[j],
        decreases b.len() - i,
    {
        if a[off + i] != b[i] {
            assert(s@.subrange(s@.len() - suffix@.len(), s@.len() as int)[i as int] != suffix@[i as int]);
            return false;
        }
        i = i + 1;
    }
    assert(s@.subrange(s@.len() - suffix@.len(), s@.len() as int) =~= suffix@);
    true
}

/// The arguments the hosted shell is started with: `-i` for bash and zsh, so
/// that they run interactively; none for other shells.
pub fn shell_args(shell: &str) -> (r: Vec<String>)
    ensures
        (ends_with(shell@, "bash"@) || ends_with(shell@, "zsh"@)) ==> (r@.len() == 1 && r@[0]@
            == "-i"@),
        !(ends_with(shell@, "bash"@) || ends_with(shell@, "zsh"@)) ==> r@.len() == 0,
{
    let mut r: Vec<String> = Vec::new();
    if has_suffix(shell, "bash") || has_suffix(shell, "zsh") {
        r.push(String::from_str("-i"));
    }
    r
}

/// The shell to host: the user's (`SHELL`, when set), else `/bin/sh`.
pub fn default_shell(env_shell: Option<String>) -> (r: String)
    ensures
        match env_shell {
            Some(s) => r@ == s@,
            None => r@ == "/bin/sh"@,
        },
{
    match env_shell {
        Some(s) => s,
        None => String::from_str("/bin/sh"),
    }
}

/// The terminal type the hosted shell sees: the caller's (`TERM`, when set),
/// else `xterm-256color`.
pub fn terminal_type(env_term: Option<String>) -> (r: String)
    ensures
        match env_term {
            Some(s) => r@ == s@,
            None => r@ == "xterm-256color"@,
        },
{
    match env_term {
        Some(s) => s,
        None => String::from_str("xterm-256color"),
    }
}

/// What happened while relaying between a stream and the terminal.
#[derive(Debug, Clone)]
pub enum RelayEvent {
    /// The terminal's output ended (the shell exited).
    PtyClosed,
    /// Bytes arrived from the stream.
    Input(Vec<u8>),
    /// The stream's input ended.
    InputClosed,
    /// The terminal's writer no longer takes bytes.
    WriterGone,
}

/// What the relay does next.
#[derive(Debug, Clone)]
pub enum RelayAction {
    /// Hand these bytes to the terminal's writer.
    Write(Vec<u8>),
    /// Keep waiting.
    Wait,
    /// Close the terminal's input and stop.
    Finish,
}

/// One step of the relay: `input_open` tells whether stream input is still
/// taken; the result is the new value and the action. The relay ends as soon
/// as the terminal's output ends, even while the stream's input stays open;
/// after the input ends it only waits for the terminal to close.
pub fn relay_step(input_open: bool, event: RelayEvent) -> (r: (bool, RelayAction))
    ensures
        match event {
            RelayEvent::PtyClosed => r.1 is Finish && r.0 == input_open,
            RelayEvent::Input(d) => if input_open {
                r.0 && (r.1 matches RelayAction::Write(w) && w@ == d@)
            } else {
                !r.0 && r.1 is Wait
            },
            RelayEvent::InputClosed => !r.0 && r.1 is Wait,
            RelayEvent::WriterGone => !r.0 && r.1 is Wait,
        },
{
    match event {
        RelayEvent::PtyClosed => (input_open, RelayAction::Finish),
        RelayEvent::Input(d) => if input_open {
            (true, RelayAction::Write(d))
        } else {
            (false, RelayAction::Wait)
        },
        RelayEvent::InputClosed => (false, RelayAction::Wait),
        RelayEvent::WriterGone => (false, RelayAction::Wait),
    }
}

/// Most bytes read from the terminal's output at once.
pub const PTY_READ_CHUNK: usize = 4096;

/// What a read of the terminal's output gave: a count of bytes read into the
/// buffer, or the read's error message.
#[derive(Debug, Clone)]
pub enum PtyRead {
    Read(usize),
    Failed(String),
}

/// What the relay from the terminal's output does after a read.
#[derive(Debug, Clone)]
pub enum PtyOutputAction {
    /// Send these bytes on the stream, then read again; stop if the stream
    /// no longer takes them.
    Send(Vec<u8>),
    /// The terminal's output ended: stop, without error.
    Stop,
    /// The read failed: stop with this error.
    Fail(String),
}

/// One step of the relay from the terminal's output to the stream, after a
/// read into `buf`: an empty read ends the relay, a failed one ends it with
/// the read's error, and otherwise exactly the bytes read are sent.
pub fn pty_output_step(buf: &[u8], read: PtyRead) -> (r: PtyOutputAction)
    requires
        read matches PtyRead::Read(n) ==> n <= buf@.len(),
    ensures
        match read {
            PtyRead::Read(n) => if n == 0 {
                r is Stop
            } else {
                r matches PtyOutputAction::Send(d) && d@ == buf@.subrange(0, n as int)
            },
            PtyRead::Failed(m) => r matches PtyOutputAction::Fail(e) && e@ == m@,
        },
{
    match read {
        PtyRead::Read(n) => {
            if n == 0 {
                PtyOutputAction::Stop
            } else {
                let mut d: Vec<u8> = Vec::new();
                let mut i: usize = 0;
                while i < n
                    invariant
                        i <= n,
                        n <= buf@.len(),
                        d@ == buf@.subrange(0, i as int),
                    decreases n - i,
                {
                    d.push(buf[i]);
                    i = i + 1;
                }
                PtyOutputAction::Send(d)
            }
        },
        PtyRead::Failed(m) => PtyOutputAction::Fail(m),
    }
}

/// The bytes the terminal's output gives before it ends, from what each read
/// gave in turn (`Ok` with the bytes read, none at the end of the output; or
/// `Err` with the read's error message).
pub open spec fn output_bytes(reads: Seq<Result<Seq<u8>, Seq<char>>>) -> Seq<u8>
    decreases reads.len(),
{
    if reads.len() == 0 {
        Seq::empty()
    } else {
        match reads[0] {
            Ok(b) => if b.len() == 0 {
                Seq::empty()
            } else {
                b + output_bytes(reads.drop_first())
            },
            Err(_) => Seq::empty(),
        }
    }
}

/// How the relay from the terminal's output ends, from what each read gave:
/// without error at the end of the output (or when no read is left), with
/// the first failed read's error otherwise.
pub open spec fn output_end(reads: Seq<Result<Seq<u8>, Seq<char>>>) -> Result<(), Seq<char>>
    decreases reads.len(),
{
    if reads.len() == 0 {
        Ok(())
    } else {
        match reads[0] {
            Ok(b) => if b.len() == 0 {
                Ok(())
            } else {
                output_end(reads.drop_first())
            },
            Err(m) => Err(m),
        }
    }
}

/// The reads as values.
pub open spec fn reads_view(reads: Seq<Result<Vec<u8>, String>>) -> Seq<Result<Seq<u8>, Seq<char>>> {
    reads.map_values(
        |x: Result<Vec<u8>, String>|
            match x {
                Ok(b) => Ok(b@),
                Err(m) => Err(m@),
            },
    )
}

/// Relays the terminal's output to the stream, given what each read of at
/// most `PTY_READ_CHUNK` bytes gave in turn, with a stream that takes every
/// chunk: gives the chunks sent, in order, and how the relay ended. Each
/// chunk is not empty and holds at most `PTY_READ_CHUNK` bytes; together,
/// in order, they are exactly the bytes the output gave before it ended;
/// and the relay ends with the first failed read's error, if any came before
/// the end.
pub fn relay_output(reads: &Vec<Result<Vec<u8>, String>>) -> (r: (Vec<Vec<u8>>, Result<(), String>))
    requires
        forall|i: int| 0 <= i < reads@.len() ==> (#[trigger] reads@[i] matches Ok(b) ==> b@.len() <= PTY_READ_CHUNK),
    ensures
        forall|i: int| 0 <= i < r.0@.len() ==> 0 < (#[trigger] r.0@[i])@.len() <= PTY_READ_CHUNK,
        r.0@.map_values(|c: Vec<u8>| c@).flatten() == output_bytes(reads_view(reads@)),
        match output_end(reads_view(reads@)) {
            Ok(()) => r.1 is Ok,
            Err(m) => r.1 matches Err(e) && e@ == m,
        },
{
    let ghost all = reads_view(reads@);
    let mut chunks: Vec<Vec<u8>> = Vec::new();
    let mut i: usize = 0;
    proof {
        assert(reads_view(reads@).subrange(0, reads@.len() as int) =~= all);
        assert(chunks@.map_values(|c: Vec<u8>| c@) =~= Seq::<Seq<u8>>::empty());
    }
    while i < reads.len()
        invariant
            i <= reads@.len(),
            all == reads_view(reads@),
            forall|k: int| 0 <= k < reads@.len() ==> (#[trigger] reads@[k] matches Ok(b) ==> b@.len() <= PTY_READ_CHUNK),
            forall|k: int| 0 <= k < chunks@.len() ==> 0 < (#[trigger] chunks@[k])@.len() <= PTY_READ_CHUNK,
            chunks@.map_values(|c: Vec<u8>| c@).flatten() + output_bytes(all.subrange(i as int, all.len() as int))
                == output_bytes(all),
            output_end(all.subrange(i as int, all.len() as int)) == output_end(all),
        decreases reads.len() - i,
    {
        let ghost rest = all.subrange(i as int, all.len() as int);
        proof {
            assert(rest.drop_first() =~= all.subrange(i + 1, all.len() as int));
            assert(rest[0] == all[i as int]);
        }
        let read = match &reads[i] {
            Ok(b) => PtyRead::Read(b.len()),
            Err(m) => PtyRead::Failed(m.clone()),
        };
        let empty: Vec<u8> = Vec::new();
        let buf: &[u8] = match &reads[i] {
            Ok(b) => b.as_slice(),
            Err(_) => empty.as_slice(),
        };
        match pty_output_step(buf, read) {
            PtyOutputAction::Send(d) => {
                let ghost before = chunks@.map_values(|c: Vec<u8>| c@);
                proof {
                    assert(d@ =~= buf@);
                }
                chunks.push(d);
                proof {
                    lemma_flatten_push(before, d@);
                    assert(chunks@.map_values(|c: Vec<u8>| c@) =~= before.push(d@));
                }
            },
            PtyOutputAction::Stop => {
                proof {
                    let f = chunks@.map_values(|c: Vec<u8>| c@).flatten();
                    assert(f + Seq::<u8>::empty() =~= f);
                }
                return (chunks, Ok(()));
            },
            PtyOutputAction::Fail(e) => {
                proof {
                    let f = chunks@.map_values(|c: Vec<u8>| c@).flatten();
                    assert(f + Seq::<u8>::empty() =~= f);
                }
                return (chunks, Err(e));
            },
        }
        i = i + 1;
    }
    proof {
        let f = chunks@.map_values(|c: Vec<u8>| c@).flatten();
        assert(f + Seq::<u8>::empty() =~= f);
    }
    (chunks, Ok(()))
}

proof fn lemma_flatten_push(s: Seq<Seq<u8>>, x: Seq<u8>)
    ensures
        s.push(x).flatten() == s.flatten() + x,
    decreases s.len(),
{
    if s.len() == 0 {
        assert(s.push(x).drop_first() =~= Seq::<Seq<u8>>::empty());
        assert(Seq::<Seq<u8>>::empty().flatten() =~= Seq::<u8>::empty());
        assert(s.push(x).first() == x);
        assert(s.flatten() =~= Seq::<u8>::empty());
        assert(s.push(x).flatten() =~= x);
    } else {
        lemma_flatten_push(s.drop_first(), x);
        assert(s.push(x).drop_first() =~= s.drop_first().push(x));
        assert(s.push(x).first() == s.first());
        assert(s.first() + (s.drop_first().flatten() + x) =~= (s.first() + s.drop_first().flatten()) + x);
    }
}

} // verus!
