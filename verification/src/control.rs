//! Runtime control: the operator's requested mode (active, paused, safe
//! mode), its generation counter, and the daemon's acknowledgement.
use vstd::prelude::*;

use crate::clock::now_epoch;
use crate::text::{
    byte_len, is_ws, lemma_take_bytes_len, lemma_take_bytes_prefix, lemma_trim_empty, lemma_trim_idempotent, lemma_trim_piece, trim_end, trim_start, blank_line_breaks, blank_line_breaks_exec, chars_of, decimal, owned, push_str, string_of,
    take_bytes, trim, trim_chars, truncatable, truncate_bytes, u32_to_string,
};

verus! {

/// Version of the control and acknowledgement documents.
pub const FORMAT_VERSION: u32 = 1;

/// Seconds a restoration waits for the daemon to acknowledge safe mode.
pub const ACK_TIMEOUT_SECONDS: u64 = 15;

#[derive(Debug, Clone, Copy, PartialEq, Eq, Structural)]
pub enum RuntimeMode {
    Active,
    Paused,
    SafeMode,
}

impl RuntimeMode {
    pub open spec fn name(self) -> Seq<char> {
        match self {
            RuntimeMode::Active => "active"@,
            RuntimeMode::Paused => "paused"@,
            RuntimeMode::SafeMode => "safe_mode"@,
        }
    }

    pub fn as_str(self) -> (r: &'static str)
        ensures
            r@ == self.name(),
    {
        match self {
            RuntimeMode::Active => "active",
            RuntimeMode::Paused => "paused",
            RuntimeMode::SafeMode => "safe_mode",
        }
    }

    /// Only the active mode lets the daemon write kernel settings.
    pub fn allows_writes(self) -> (r: bool)
        ensures
            r == (self == RuntimeMode::Active),
    {
        self == RuntimeMode::Active
    }
}

#[derive(Debug, Clone, Copy, PartialEq, Eq, Structural)]
pub enum RuntimeAction {
    Initial,
    Reload,
    Pause,
    Resume,
    EnterSafeMode,
    LeaveSafeMode,
    AutomaticSafeMode,
}

impl RuntimeAction {
    /// Actions after which the daemon re-applies its policy.
    pub fn requests_apply(self) -> (r: bool)
        ensures
            r == (self == RuntimeAction::Reload || self == RuntimeAction::Resume || self
                == RuntimeAction::LeaveSafeMode),
    {
        match self {
            RuntimeAction::Reload | RuntimeAction::Resume | RuntimeAction::LeaveSafeMode => true,
            _ => false,
        }
    }
}

#[derive(Debug, Clone, PartialEq, Eq)]
pub struct ControlState {
    pub format_version: u32,
    pub generation: u64,
    pub mode: RuntimeMode,
    pub requested_action: RuntimeAction,
    pub updated_at_epoch: u64,
    pub reason: String,
}

#[derive(Debug, Clone, PartialEq, Eq)]
pub struct ControlAck {
    pub format_version: u32,
    pub generation: u64,
    pub mode: RuntimeMode,
    pub daemon_pid: u32,
    pub acknowledged_at_epoch: u64,
}

/// Why a control document could not be used or changed.
#[derive(Debug, Clone, PartialEq, Eq)]
pub enum ControlError {
    /// The document exists but does not hold a usable state; the message.
    InvalidData(String),
    /// Reading or writing failed; the message of the I/O error.
    Io(String),
    /// A restoration holds the control lock.
    RestoreInProgress,
}

/// What reading the control document gave.
#[derive(Debug, Clone)]
pub enum StoredControl {
    /// The document does not exist.
    Missing,
    /// Reading failed for another reason; the message.
    Unreadable(String),
    /// The bytes are not a control document; the decoder's message.
    Malformed(String),
    /// A decoded document.
    Decoded(ControlState),
}

impl ControlState {
    /// The state that a missing document stands for: active, generation 0.
    pub open spec fn is_default(self) -> bool {
        &&& self.format_version == FORMAT_VERSION
        &&& self.generation == 0
        &&& self.mode == RuntimeMode::Active
        &&& self.requested_action == RuntimeAction::Initial
        &&& self.reason@ == "default-active"@
    }

    /// The state used when the control document cannot be trusted: safe mode
    /// with the largest generation, so that no stored state outranks it.
    pub fn safe_fallback(reason: &str) -> (r: Self)
        ensures
            r.format_version == FORMAT_VERSION,
            r.generation == u64::MAX,
            r.mode == RuntimeMode::SafeMode,
            r.requested_action == RuntimeAction::AutomaticSafeMode,
            r.reason@ == reason@,
    {
        ControlState {
            format_version: FORMAT_VERSION,
            generation: u64::MAX,
            mode: RuntimeMode::SafeMode,
            requested_action: RuntimeAction::AutomaticSafeMode,
            updated_at_epoch: now_epoch(),
            reason: owned(reason),
        }
    }
}

impl Default for ControlState {
    fn default() -> (r: Self)
        ensures
            r.is_default(),
    {
        ControlState {
            format_version: FORMAT_VERSION,
            generation: 0,
            mode: RuntimeMode::Active,
            requested_action: RuntimeAction::Initial,
            updated_at_epoch: now_epoch(),
            reason: owned("default-active"),
        }
    }
}

/// The acknowledgement that a daemon with process id `daemon_pid` writes for
/// the state it has applied.
pub fn acknowledge(state: &ControlState, daemon_pid: u32) -> (r: ControlAck)
    ensures
        r.format_version == FORMAT_VERSION,
        r.generation == state.generation,
        r.mode == state.mode,
        r.daemon_pid == daemon_pid,
{
    ControlAck {
        format_version: FORMAT_VERSION,
        generation: state.generation,
        mode: state.mode,
        daemon_pid,
        acknowledged_at_epoch: now_epoch(),
    }
}

pub open spec fn ack_matches_spec(ack: ControlAck, state: ControlState, daemon_pid: u32) -> bool {
    ack.format_version == FORMAT_VERSION && ack.generation == state.generation && ack.mode
        == state.mode && ack.daemon_pid == daemon_pid
}

/// The acknowledgement answers this state, from this daemon.
pub fn ack_matches(ack: &ControlAck, state: &ControlState, daemon_pid: u32) -> (r: bool)
    ensures
        r == ack_matches_spec(*ack, *state, daemon_pid),
{
    ack.format_version == FORMAT_VERSION && ack.generation == state.generation && ack.mode
        == state.mode && ack.daemon_pid == daemon_pid
}

pub open spec fn state_matches_spec(left: ControlState, right: ControlState) -> bool {
    left.format_version == right.format_version && left.generation == right.generation
        && left.mode == right.mode
}

/// Two states are the same transaction: same format, generation and mode.
pub fn state_matches(left: &ControlState, right: &ControlState) -> (r: bool)
    ensures
        r == state_matches_spec(*left, *right),
{
    left.format_version == right.format_version && left.generation == right.generation
        && left.mode == right.mode
}

/// Only automatic safe mode may change the control state while a
/// restoration runs.
pub fn action_allowed_while_restoring(action: RuntimeAction) -> (r: bool)
    ensures
        r == (action == RuntimeAction::AutomaticSafeMode),
{
    action == RuntimeAction::AutomaticSafeMode
}

/// Longest reason kept, in UTF-8 bytes.
pub const MAX_REASON_BYTES: usize = 240;

/// The stored form of an operator's reason: line breaks and NULs become
/// spaces, the text is cut to 240 bytes and trimmed; an empty result reads
/// "unspecified".
pub open spec fn sanitized_reason(reason: Seq<char>) -> Seq<char> {
    let clean = trim(take_bytes(blank_line_breaks(reason), 240));
    if clean.len() == 0 {
        "unspecified"@
    } else {
        clean
    }
}

/// Reasons that `String::truncate(240)` accepts after the line breaks are
/// blanked (the cut falls on a character boundary).
pub open spec fn reason_accepted(reason: Seq<char>) -> bool {
    truncatable(blank_line_breaks(reason), 240)
}

pub fn sanitize_reason(reason: &str) -> (r: String)
    requires
        reason_accepted(reason@),
    ensures
        r@ == sanitized_reason(reason@),
{
    let v = chars_of(reason);
    let blanked = blank_line_breaks_exec(v.as_slice());
    let cut = truncate_bytes(blanked.as_slice(), MAX_REASON_BYTES);
    let clean = trim_chars(cut.as_slice());
    if clean.len() == 0 {
        owned("unspecified")
    } else {
        string_of(clean.as_slice())
    }
}

/// The reason text of a state recovered from an invalid document.
pub open spec fn recovery_reason(message: Seq<char>) -> Seq<char> {
    sanitized_reason("recovered-invalid-control: "@ + message)
}

/// The state that replaces an invalid control document: safe mode, with the
/// generation reset to 0 and the decoder's message as the reason.
pub fn recovery_state(message: &str) -> (r: ControlState)
    requires
        reason_accepted("recovered-invalid-control: "@ + message@),
    ensures
        r.format_version == FORMAT_VERSION,
        r.generation == 0,
        r.mode == RuntimeMode::SafeMode,
        r.requested_action == RuntimeAction::AutomaticSafeMode,
        r.reason@ == recovery_reason(message@),
{
    let mut text = owned("recovered-invalid-control: ");
    push_str(&mut text, message);
    ControlState {
        format_version: FORMAT_VERSION,
        generation: 0,
        mode: RuntimeMode::SafeMode,
        requested_action: RuntimeAction::AutomaticSafeMode,
        updated_at_epoch: now_epoch(),
        reason: sanitize_reason(text.as_str()),
    }
}

/// The message of a document in an unsupported format.
pub open spec fn unsupported_format_message(version: u32) -> Seq<char> {
    "unsupported runtime control format "@ + decimal(version as nat)
}

/// The outcome of reading the control document: a missing document is the
/// default state, a decoded one must carry the current format.
pub open spec fn read_outcome(stored: StoredControl, r: Result<ControlState, ControlError>) -> bool {
    match stored {
        StoredControl::Missing => r matches Ok(s) && s.is_default(),
        StoredControl::Unreadable(m) => r matches Err(ControlError::Io(e)) && e@ == m@,
        StoredControl::Malformed(m) => r matches Err(ControlError::InvalidData(e)) && e@
            == "invalid runtime control state: "@ + m@,
        StoredControl::Decoded(s) => if s.format_version == FORMAT_VERSION {
            r == Ok::<ControlState, ControlError>(s)
        } else {
            r matches Err(ControlError::InvalidData(e)) && e@ == unsupported_format_message(
                s.format_version,
            )
        },
    }
}

/// Interprets what reading the control document gave.
pub fn read(stored: StoredControl) -> (r: Result<ControlState, ControlError>)
    ensures
        read_outcome(stored, r),
{
    match stored {
        StoredControl::Missing => Ok(ControlState::default()),
        StoredControl::Unreadable(m) => Err(ControlError::Io(m)),
        StoredControl::Malformed(m) => {
            let mut text = owned("invalid runtime control state: ");
            push_str(&mut text, m.as_str());
            Err(ControlError::InvalidData(text))
        },
        StoredControl::Decoded(s) => {
            if s.format_version != FORMAT_VERSION {
                let mut text = owned("unsupported runtime control format ");
                let number = u32_to_string(s.format_version);
                push_str(&mut text, number.as_str());
                Err(ControlError::InvalidData(text))
            } else {
                Ok(s)
            }
        },
    }
}

/// The state that an update starts from: the stored state, the recovery
/// state of an invalid document (whose generation is 0), or none when
/// reading failed otherwise.
pub open spec fn update_base(current: Result<ControlState, ControlError>) -> Option<(
    u32,
    u64,
    RuntimeMode,
)> {
    match current {
        Ok(s) => Some((s.format_version, s.generation, s.mode)),
        Err(ControlError::InvalidData(_)) => Some((FORMAT_VERSION, 0u64, RuntimeMode::SafeMode)),
        Err(_) => None,
    }
}

/// The message that an invalid document contributes to the recovery state.
pub open spec fn recovery_input(current: Result<ControlState, ControlError>) -> Seq<char> {
    match current {
        Err(ControlError::InvalidData(m)) => "recovered-invalid-control: "@ + m@,
        _ => seq![],
    }
}

/// The next control state after an operator action: refused while a
/// restoration runs (unless the action is automatic safe mode), refused when
/// the current state cannot be read, and otherwise the current state with
/// the generation incremented (saturating), the mode replaced where the
/// action names one, and the action and reason recorded.
pub open spec fn update_outcome(
    restoring: bool,
    current: Result<ControlState, ControlError>,
    mode: Option<RuntimeMode>,
    action: RuntimeAction,
    reason: Seq<char>,
    r: Result<ControlState, ControlError>,
) -> bool {
    if restoring && action != RuntimeAction::AutomaticSafeMode {
        r == Err::<ControlState, ControlError>(ControlError::RestoreInProgress)
    } else {
        match update_base(current) {
            None => r == current,
            Some((format, generation, old_mode)) => r matches Ok(s) && s.format_version
                == format && s.generation == (if generation == u64::MAX {
                u64::MAX
            } else {
                (generation + 1) as u64
            }) && s.mode == (match mode {
                Some(m) => m,
                None => old_mode,
            }) && s.requested_action == action && s.reason@ == sanitized_reason(reason),
        }
    }
}

/// Reasons that the update accepts, and the recovery message where the
/// current document is invalid.
pub open spec fn update_accepts(current: Result<ControlState, ControlError>, reason: Seq<char>) -> bool {
    &&& reason_accepted(reason)
    &&& (current matches Err(ControlError::InvalidData(_)) ==> reason_accepted(
        recovery_input(current),
    ))
}

/// What reading the acknowledgement document gave.
#[derive(Debug, Clone)]
pub enum StoredAck {
    /// Reading failed; the message of the I/O error.
    Unreadable(String),
    /// The bytes are not an acknowledgement; the decoder's message.
    Malformed(String),
    /// A decoded acknowledgement.
    Decoded(ControlAck),
}

/// Interprets what reading the acknowledgement gave: a decoded one must
/// carry the current format.
pub fn read_ack(stored: StoredAck) -> (r: Result<ControlAck, ControlError>)
    ensures
        match stored {
            StoredAck::Unreadable(m) => r matches Err(ControlError::Io(e)) && e@ == m@,
            StoredAck::Malformed(m) => r matches Err(ControlError::InvalidData(e)) && e@
                == "invalid runtime control acknowledgement: "@ + m@,
            StoredAck::Decoded(a) => if a.format_version == FORMAT_VERSION {
                r == Ok::<ControlAck, ControlError>(a)
            } else {
                r matches Err(ControlError::InvalidData(e)) && e@
                    == "unsupported runtime control acknowledgement format "@ + decimal(
                    a.format_version as nat,
                )
            },
        },
{
    match stored {
        StoredAck::Unreadable(m) => Err(ControlError::Io(m)),
        StoredAck::Malformed(m) => {
            let mut text = owned("invalid runtime control acknowledgement: ");
            push_str(&mut text, m.as_str());
            Err(ControlError::InvalidData(text))
        },
        StoredAck::Decoded(a) => {
            if a.format_version != FORMAT_VERSION {
                let mut text = owned("unsupported runtime control acknowledgement format ");
                let number = u32_to_string(a.format_version);
                push_str(&mut text, number.as_str());
                Err(ControlError::InvalidData(text))
            } else {
                Ok(a)
            }
        },
    }
}

/// Computes the next control state; the caller persists it.
pub fn update(
    restoring: bool,
    current: Result<ControlState, ControlError>,
    mode: Option<RuntimeMode>,
    action: RuntimeAction,
    reason: &str,
) -> (r: Result<ControlState, ControlError>)
    requires
        update_accepts(current, reason@),
    ensures
        update_outcome(restoring, current, mode, action, reason@, r),
{
    if restoring && !action_allowed_while_restoring(action) {
        return Err(ControlError::RestoreInProgress);
    }
    let ghost base = update_base(current);
    let mut state = match current {
        Ok(s) => s,
        Err(ControlError::InvalidData(m)) => recovery_state(m.as_str()),
        Err(e) => return Err(e),
    };
    assert(base == Some((state.format_version, state.generation, state.mode)));
    state.generation = if state.generation == u64::MAX {
        u64::MAX
    } else {
        state.generation + 1
    };
    match mode {
        Some(m) => {
            state.mode = m;
        },
        None => {},
    }
    state.requested_action = action;
    state.updated_at_epoch = now_epoch();
    state.reason = sanitize_reason(reason);
    Ok(state)
}

/// Ask the daemon to re-apply its policy; the mode is kept.
pub fn request_reload(
    restoring: bool,
    current: Result<ControlState, ControlError>,
    reason: &str,
) -> (r: Result<ControlState, ControlError>)
    requires
        update_accepts(current, reason@),
    ensures
        update_outcome(restoring, current, None, RuntimeAction::Reload, reason@, r),
{
    update(restoring, current, None, RuntimeAction::Reload, reason)
}

/// Stop policy writes until resumed.
pub fn pause(restoring: bool, current: Result<ControlState, ControlError>, reason: &str) -> (r:
    Result<ControlState, ControlError>)
    requires
        update_accepts(current, reason@),
    ensures
        update_outcome(
            restoring,
            current,
            Some(RuntimeMode::Paused),
            RuntimeAction::Pause,
            reason@,
            r,
        ),
{
    update(restoring, current, Some(RuntimeMode::Paused), RuntimeAction::Pause, reason)
}

/// Return to active mode.
pub fn resume(restoring: bool, current: Result<ControlState, ControlError>, reason: &str) -> (r:
    Result<ControlState, ControlError>)
    requires
        update_accepts(current, reason@),
    ensures
        update_outcome(
            restoring,
            current,
            Some(RuntimeMode::Active),
            RuntimeAction::Resume,
            reason@,
            r,
        ),
{
    update(restoring, current, Some(RuntimeMode::Active), RuntimeAction::Resume, reason)
}

/// Enter or leave safe mode at the operator's request.
pub fn set_safe_mode(
    enabled: bool,
    restoring: bool,
    current: Result<ControlState, ControlError>,
    reason: &str,
) -> (r: Result<ControlState, ControlError>)
    requires
        update_accepts(current, reason@),
    ensures
        enabled ==> update_outcome(
            restoring,
            current,
            Some(RuntimeMode::SafeMode),
            RuntimeAction::EnterSafeMode,
            reason@,
            r,
        ),
        !enabled ==> update_outcome(
            restoring,
            current,
            Some(RuntimeMode::Active),
            RuntimeAction::LeaveSafeMode,
            reason@,
            r,
        ),
{
    if enabled {
        update(restoring, current, Some(RuntimeMode::SafeMode), RuntimeAction::EnterSafeMode, reason)
    } else {
        update(restoring, current, Some(RuntimeMode::Active), RuntimeAction::LeaveSafeMode, reason)
    }
}

/// Safe mode entered by the module itself; allowed during restoration.
pub fn enter_automatic_safe_mode(
    restoring: bool,
    current: Result<ControlState, ControlError>,
    reason: &str,
) -> (r: Result<ControlState, ControlError>)
    requires
        update_accepts(current, reason@),
    ensures
        update_outcome(
            restoring,
            current,
            Some(RuntimeMode::SafeMode),
            RuntimeAction::AutomaticSafeMode,
            reason@,
            r,
        ),
{
    update(restoring, current, Some(RuntimeMode::SafeMode), RuntimeAction::AutomaticSafeMode, reason)
}

// ---------------------------------------------------------------------------
// Laws
/// A stored reason is never empty, holds no line break nor NUL, takes at
/// most 240 bytes and has no white space at either end; a reason that is
/// blank or only white space is stored as "unspecified".
pub proof fn lemma_sanitized_reason_is_clean(reason: Seq<char>)
    ensures
        sanitized_reason(reason).len() > 0,
        byte_len(sanitized_reason(reason)) <= 240,
        forall|i: int|
            0 <= i < sanitized_reason(reason).len() ==> sanitized_reason(reason)[i] != '\n'
                && sanitized_reason(reason)[i] != '\r' && sanitized_reason(reason)[i] != '\0',
        trim(sanitized_reason(reason)) == sanitized_reason(reason),
        trim(reason).len() == 0 ==> sanitized_reason(reason) == "unspecified"@,
{
    let b = blank_line_breaks(reason);
    let t = take_bytes(b, 240);
    lemma_take_bytes_prefix(b, 240);
    lemma_take_bytes_len(b, 240);
    let ij = lemma_trim_piece(t);
    let clean = trim(t);
    lemma_trim_idempotent(t);
    reveal_strlit("unspecified");
    assert(trim("unspecified"@) == "unspecified"@) by {
        let u = "unspecified"@;
        assert(!is_ws(u[0]));
        assert(!is_ws(u.last()));
        assert(trim_start(u) == u);
        assert(trim_end(u) == u);
    }
    if trim(reason).len() == 0 {
        lemma_trim_empty(reason);
        assert forall|i: int| 0 <= i < t.len() implies is_ws(#[trigger] t[i]) by {
            assert(t[i] == b[i]);
            assert(is_ws(reason[i]));
        }
        lemma_trim_empty(t);
    }
    if clean.len() == 0 {
        assert(byte_len("unspecified"@) <= 240) by {
            reveal_with_fuel(byte_len, 12);
        }
    } else {
        assert forall|i: int| 0 <= i < clean.len() implies clean[i] != '\n' && clean[i] != '\r'
            && clean[i] != '\0' by {
            assert(clean[i] == t[ij.0 + i]);
            assert(t[ij.0 + i] == b[ij.0 + i]);
        }
    }
}

/// While a restoration runs, every operator action is refused; only
/// automatic safe mode goes through.
pub proof fn lemma_restore_refuses_operator_actions(
    current: Result<ControlState, ControlError>,
    mode: Option<RuntimeMode>,
    action: RuntimeAction,
    reason: Seq<char>,
    r: Result<ControlState, ControlError>,
)
    requires
        update_outcome(true, current, mode, action, reason, r),
        action != RuntimeAction::AutomaticSafeMode,
    ensures
        r == Err::<ControlState, ControlError>(ControlError::RestoreInProgress),
{
}

/// An accepted change moves the generation forward (it only stays when it
/// has reached its largest value), so an acknowledgement of the previous
/// state no longer matches.
pub proof fn lemma_update_needs_new_ack(
    restoring: bool,
    current: ControlState,
    mode: Option<RuntimeMode>,
    action: RuntimeAction,
    reason: Seq<char>,
    next: ControlState,
    ack: ControlAck,
    daemon_pid: u32,
)
    requires
        update_outcome(
            restoring,
            Ok::<ControlState, ControlError>(current),
            mode,
            action,
            reason,
            Ok::<ControlState, ControlError>(next),
        ),
        current.generation < u64::MAX,
        ack_matches_spec(ack, current, daemon_pid),
    ensures
        next.generation == current.generation + 1,
        !ack_matches_spec(ack, next, daemon_pid),
{
}

/// Pausing gives the paused mode and resuming the active mode, whatever the
/// state was (when the change is accepted).
pub proof fn lemma_pause_and_resume_modes(
    current: Result<ControlState, ControlError>,
    reason: Seq<char>,
    paused: Result<ControlState, ControlError>,
    resumed: Result<ControlState, ControlError>,
)
    requires
        update_outcome(false, current, Some(RuntimeMode::Paused), RuntimeAction::Pause, reason, paused),
        update_outcome(false, current, Some(RuntimeMode::Active), RuntimeAction::Resume, reason, resumed),
        update_base(current) is Some,
    ensures
        paused matches Ok(p) && p.mode == RuntimeMode::Paused,
        resumed matches Ok(a) && a.mode == RuntimeMode::Active,
{
}

/// Automatic safe mode goes through even while a restoration holds the
/// lock, and the state it records is safe mode (whenever the current state
/// could be read or recovered).
pub proof fn lemma_automatic_safe_mode_always_applies(
    restoring: bool,
    current: Result<ControlState, ControlError>,
    reason: Seq<char>,
    r: Result<ControlState, ControlError>,
)
    requires
        update_outcome(
            restoring,
            current,
            Some(RuntimeMode::SafeMode),
            RuntimeAction::AutomaticSafeMode,
            reason,
            r,
        ),
        update_base(current) is Some,
    ensures
        r matches Ok(s) && s.mode == RuntimeMode::SafeMode && s.requested_action
            == RuntimeAction::AutomaticSafeMode,
{
}

} // verus!

