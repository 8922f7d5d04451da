//! The last-known-good policy checkpoint: what makes a checkpoint valid,
//! the read-back comparison after a restore, and the consecutive-failure
//! record that drives automatic safe mode.
use vstd::prelude::*;

use crate::clock::now_epoch;
use crate::config::{is_known_algorithm, is_known_qdisc, known_algorithm, known_qdisc};
use crate::control::ControlState;
use crate::daemon::ResolvedPolicy;
use crate::network::{iface_mode, mode_of, IfaceMode};
use crate::sysctl::{
    advanced_entry, advanced_line, advanced_overrides, advanced_scan, AdvancedLine, algo_available, find_advanced, configured_advanced_overrides, override_views,
    AdvancedOverride,
};
use crate::text::{
    blank_line_breaks, blank_line_breaks_exec, char_is_ascii_alnum, chars_of, decimal,
    is_ascii_alnum, owned, push_str, seq_has, str_eq, string_of, string_views, take_bytes,
    trim, trim_chars, truncatable, truncate_bytes, u32_to_string, words, contains_seq, occurs_at,
};

verus! {

/// Format of the checkpoint document.
pub const CHECKPOINT_FORMAT_VERSION: u32 = 2;

/// Format of the failure record.
pub const FAILURE_FORMAT_VERSION: u32 = 1;

/// Consecutive failures after which the daemon enters safe mode.
pub const AUTOMATIC_SAFE_MODE_THRESHOLD: u32 = 3;

/// Seconds a running daemon is given to notice safe mode before a restore.
pub const DAEMON_QUIESCE_SECONDS: u64 = 6;

/// Longest failure message kept, in UTF-8 bytes.
pub const MAX_FAILURE_MESSAGE_BYTES: usize = 320;

#[derive(Debug, Clone, PartialEq, Eq)]
pub struct CheckpointSysctl {
    pub key: String,
    pub path: String,
    pub value: u32,
}

#[derive(Debug, Clone, PartialEq, Eq)]
pub struct LastGoodPolicy {
    pub format_version: u32,
    pub captured_at_epoch: u64,
    pub interface: String,
    pub interface_mode: String,
    pub algorithm: String,
    pub qdisc: String,
    pub pacing_ca: u32,
    pub pacing_ss: u32,
    pub advanced_sysctls: Vec<CheckpointSysctl>,
}

#[derive(Debug, Clone, PartialEq, Eq)]
pub struct FailureState {
    pub format_version: u32,
    pub consecutive_failures: u32,
    pub updated_at_epoch: u64,
    pub last_error: String,
}

#[derive(Debug, Clone)]
pub struct CheckpointStatus {
    pub available: bool,
    pub checkpoint: Option<LastGoodPolicy>,
    pub consecutive_failures: u32,
    pub automatic_safe_mode_threshold: u32,
    pub failure_state_error: Option<String>,
}

#[derive(Debug, Clone)]
pub struct RestoreCheckpointReport {
    pub success: bool,
    pub rollback_attempted: bool,
    pub rollback_succeeded: bool,
    pub control: ControlState,
    pub checkpoint: LastGoodPolicy,
    pub errors: Vec<String>,
    pub rollback_errors: Vec<String>,
}

/// One advanced sysctl of a kernel state.
#[derive(Debug, Clone, PartialEq, Eq)]
pub struct RuntimeSysctlValue {
    pub key: String,
    pub path: String,
    pub value: u32,
}

/// The policy values of the kernel that a restore writes and checks.
#[derive(Debug, Clone, PartialEq, Eq)]
pub struct RuntimeKernelState {
    pub algorithm: String,
    pub default_qdisc: String,
    pub interface_qdisc: String,
    pub pacing_ca: u32,
    pub pacing_ss: u32,
    pub advanced_sysctls: Vec<RuntimeSysctlValue>,
}

/// What was read back from the kernel; `None` where a value could not be
/// read. `advanced[k]` belongs to the `k`-th advanced sysctl.
#[derive(Debug, Clone)]
pub struct RuntimeReadings {
    pub algorithm: Option<String>,
    pub default_qdisc: Option<String>,
    pub interface_qdisc: Option<String>,
    pub pacing_ca: Option<u32>,
    pub pacing_ss: Option<u32>,
    pub advanced: Vec<Option<u32>>,
}

/// Why a checkpoint or failure record is refused.
#[derive(Debug, Clone, PartialEq, Eq)]
pub enum CheckpointError {
    InvalidInterfaceName(String),
    UnsupportedFormat(u32),
    InvalidInterfaceMode(String),
    UnknownAlgorithm(String),
    UnknownQdisc(String),
    PacingOutOfRange,
    DuplicateSysctl(String),
    UnknownSysctl(String),
    SysctlMismatch(String),
    CannotCheckpoint(Vec<String>),
    UnsupportedFailureFormat(u32),
    AlgorithmUnavailable(String),
    ModeChanged(String, String),
    NoRootQdisc(String),
    SysctlUnavailable(String, String),
    ReadFailed(String),
}

// ---------------------------------------------------------------------------
// Interface names
/// Bytes an interface name may hold.
pub open spec fn iface_char(c: char) -> bool {
    is_ascii_alnum(c) || c == '_' || c == '-' || c == '.' || c == ':'
}

/// A name of 1 to 32 bytes, each an ASCII letter, digit, `_`, `-`, `.` or
/// `:` (so no path separator and no shell syntax).
pub open spec fn valid_iface_name(s: Seq<char>) -> bool {
    0 < s.len() <= 32 && forall|i: int| 0 <= i < s.len() ==> iface_char(s[i])
}

/// Checks that an interface name is safe to use in kernel paths and tool
/// arguments.
pub fn validate_iface_name(iface: &str) -> (r: Result<(), CheckpointError>)
    ensures
        r is Ok <==> valid_iface_name(iface@),
        r matches Err(e) ==> (e matches CheckpointError::InvalidInterfaceName(n) && n@ == iface@),
{
    let v = chars_of(iface);
    let mut ok = v.len() > 0 && v.len() <= 32;
    let mut i: usize = 0;
    while ok && i < v.len()
        invariant
            v@ == iface@,
            i <= v@.len(),
            ok ==> 0 < v@.len() <= 32,
            ok ==> forall|j: int| 0 <= j < i ==> iface_char(v@[j]),
            !ok ==> !valid_iface_name(iface@),
        decreases v@.len() - i,
    {
        let c = v[i];
        if !(char_is_ascii_alnum(c) || c == '_' || c == '-' || c == '.' || c == ':') {
            ok = false;
        }
        i += 1;
    }
    if ok {
        Ok(())
    } else {
        Err(CheckpointError::InvalidInterfaceName(owned(iface)))
    }
}

// ---------------------------------------------------------------------------
// Checkpoint validation
/// The reasons a checkpoint is refused, with the value they name.
pub enum CheckpointFault {
    Format(u32),
    Name(Seq<char>),
    Mode(Seq<char>),
    Algorithm(Seq<char>),
    Qdisc(Seq<char>),
    Pacing,
    Duplicate(Seq<char>),
    Unknown(Seq<char>),
    Mismatch(Seq<char>),
}

/// The fault an error reports.
pub open spec fn error_fault(e: CheckpointError) -> Option<CheckpointFault> {
    match e {
        CheckpointError::UnsupportedFormat(v) => Some(CheckpointFault::Format(v)),
        CheckpointError::InvalidInterfaceName(n) => Some(CheckpointFault::Name(n@)),
        CheckpointError::InvalidInterfaceMode(m) => Some(CheckpointFault::Mode(m@)),
        CheckpointError::UnknownAlgorithm(a) => Some(CheckpointFault::Algorithm(a@)),
        CheckpointError::UnknownQdisc(q) => Some(CheckpointFault::Qdisc(q@)),
        CheckpointError::PacingOutOfRange => Some(CheckpointFault::Pacing),
        CheckpointError::DuplicateSysctl(k) => Some(CheckpointFault::Duplicate(k@)),
        CheckpointError::UnknownSysctl(k) => Some(CheckpointFault::Unknown(k@)),
        CheckpointError::SysctlMismatch(k) => Some(CheckpointFault::Mismatch(k@)),
        _ => None,
    }
}

pub open spec fn item_view(i: CheckpointSysctl) -> (Seq<char>, Seq<char>, u32) {
    (i.key@, i.path@, i.value)
}

pub open spec fn items_view(v: Seq<CheckpointSysctl>) -> Seq<(Seq<char>, Seq<char>, u32)> {
    v.map_values(|i: CheckpointSysctl| item_view(i))
}

/// The configured overrides and parse failures of `advanced.conf`, from its
/// content when it could be read.
pub open spec fn configured_view(advanced_conf: Option<&str>) -> (
    Seq<(Seq<char>, Seq<char>, u32)>,
    Seq<Seq<char>>,
) {
    match advanced_conf {
        None => (seq![], seq![]),
        Some(c) => advanced_overrides(c@),
    }
}

pub open spec fn key_seen_before(items: Seq<(Seq<char>, Seq<char>, u32)>, i: int) -> bool {
    exists|j: int| 0 <= j < i && items[j].0 == items[i].0
}

/// What is wrong with the `i`-th recorded sysctl, if anything: a key seen
/// before, a key outside the advanced sysctl table, or a path or value that
/// the table does not allow for the key.
pub open spec fn item_fault(items: Seq<(Seq<char>, Seq<char>, u32)>, i: int) -> Option<CheckpointFault> {
    if key_seen_before(items, i) {
        Some(CheckpointFault::Duplicate(items[i].0))
    } else {
        match advanced_entry(items[i].0) {
            None => Some(CheckpointFault::Unknown(items[i].0)),
            Some(e) => if e.0 != items[i].1 || !(e.1 <= items[i].2 <= e.2) {
                Some(CheckpointFault::Mismatch(items[i].0))
            } else {
                None
            },
        }
    }
}

/// The first fault among the recorded sysctls from the `i`-th on.
pub open spec fn items_fault(items: Seq<(Seq<char>, Seq<char>, u32)>, i: int) -> Option<CheckpointFault>
    decreases items.len() - i,
{
    if i < 0 || i >= items.len() {
        None
    } else {
        match item_fault(items, i) {
            Some(f) => Some(f),
            None => items_fault(items, i + 1),
        }
    }
}

/// The first reason, in the order they are checked, to refuse a checkpoint
/// with these values; each advanced sysctl is checked against the fixed
/// table, so a checkpoint stays restorable after `advanced.conf` changes.
pub open spec fn checkpoint_fault(
    format_version: u32,
    interface: Seq<char>,
    interface_mode: Seq<char>,
    algorithm: Seq<char>,
    qdisc: Seq<char>,
    pacing_ca: u32,
    pacing_ss: u32,
    items: Seq<(Seq<char>, Seq<char>, u32)>,
) -> Option<CheckpointFault> {
    if format_version != CHECKPOINT_FORMAT_VERSION {
        Some(CheckpointFault::Format(format_version))
    } else if !valid_iface_name(interface) {
        Some(CheckpointFault::Name(interface))
    } else if !(interface_mode == "Wi-Fi"@ || interface_mode == "Cellular"@) {
        Some(CheckpointFault::Mode(interface_mode))
    } else if !known_algorithm(algorithm) {
        Some(CheckpointFault::Algorithm(algorithm))
    } else if !known_qdisc(qdisc) {
        Some(CheckpointFault::Qdisc(qdisc))
    } else if !(1 <= pacing_ca <= 1000) || !(1 <= pacing_ss <= 1000) {
        Some(CheckpointFault::Pacing)
    } else {
        items_fault(items, 0)
    }
}

pub open spec fn policy_fault(cp: LastGoodPolicy) -> Option<CheckpointFault> {
    checkpoint_fault(
        cp.format_version,
        cp.interface@,
        cp.interface_mode@,
        cp.algorithm@,
        cp.qdisc@,
        cp.pacing_ca,
        cp.pacing_ss,
        items_view(cp.advanced_sysctls@),
    )
}

fn seen_key_before(items: &Vec<CheckpointSysctl>, i: usize) -> (r: bool)
    requires
        i < items@.len(),
    ensures
        r == key_seen_before(items_view(items@), i as int),
{
    let ghost iv = items_view(items@);
    let mut j: usize = 0;
    while j < i
        invariant
            iv == items_view(items@),
            i < items@.len(),
            j <= i,
            forall|k: int| 0 <= k < j ==> iv[k].0 != iv[i as int].0,
        decreases i - j,
    {
        if str_eq(items[j].key.as_str(), items[i].key.as_str()) {
            assert(iv[j as int].0 == iv[i as int].0);
            return true;
        }
        j += 1;
    }
    false
}

fn check_items(items: &Vec<CheckpointSysctl>) -> (r: Result<(), CheckpointError>)
    ensures
        r is Ok <==> items_fault(items_view(items@), 0) is None,
        r matches Err(e) ==> error_fault(e) == items_fault(items_view(items@), 0),
{
    let ghost iv = items_view(items@);
    let mut i: usize = 0;
    while i < items.len()
        invariant
            iv == items_view(items@),
            i <= items@.len(),
            items_fault(iv, 0) == items_fault(iv, i as int),
        decreases items@.len() - i,
    {
        assert(iv[i as int] == item_view(items@[i as int]));
        if seen_key_before(items, i) {
            return Err(CheckpointError::DuplicateSysctl(owned(items[i].key.as_str())));
        }
        let key = chars_of(items[i].key.as_str());
        match find_advanced(key.as_slice()) {
            None => {
                return Err(CheckpointError::UnknownSysctl(owned(items[i].key.as_str())));
            },
            Some(entry) => {
                if !str_eq(entry.1, items[i].path.as_str()) || !(entry.2 <= items[i].value
                    && items[i].value <= entry.3) {
                    return Err(CheckpointError::SysctlMismatch(owned(items[i].key.as_str())));
                }
            },
        }
        i += 1;
    }
    Ok(())
}

fn check_fields(
    format_version: u32,
    interface: &str,
    interface_mode: &str,
    algorithm: &str,
    qdisc: &str,
    pacing_ca: u32,
    pacing_ss: u32,
) -> (r: Result<(), CheckpointError>)
    ensures
        r is Ok <==> checkpoint_fault(
            format_version,
            interface@,
            interface_mode@,
            algorithm@,
            qdisc@,
            pacing_ca,
            pacing_ss,
            seq![],
        ) is None,
        r matches Err(e) ==> error_fault(e) == checkpoint_fault(
            format_version,
            interface@,
            interface_mode@,
            algorithm@,
            qdisc@,
            pacing_ca,
            pacing_ss,
            seq![],
        ),
{
    if format_version != CHECKPOINT_FORMAT_VERSION {
        return Err(CheckpointError::UnsupportedFormat(format_version));
    }
    validate_iface_name(interface)?;
    if !(str_eq(interface_mode, "Wi-Fi") || str_eq(interface_mode, "Cellular")) {
        return Err(CheckpointError::InvalidInterfaceMode(owned(interface_mode)));
    }
    if !is_known_algorithm(algorithm) {
        return Err(CheckpointError::UnknownAlgorithm(owned(algorithm)));
    }
    if !is_known_qdisc(qdisc) {
        return Err(CheckpointError::UnknownQdisc(owned(qdisc)));
    }
    if !(1 <= pacing_ca && pacing_ca <= 1000) || !(1 <= pacing_ss && pacing_ss <= 1000) {
        return Err(CheckpointError::PacingOutOfRange);
    }
    Ok(())
}

/// Checks a checkpoint before it is restored or reported: format, a safe
/// interface name, a known mode, algorithm and queue discipline, pacing in
/// 1..=1000, and advanced sysctls each with a key, path and value that the
/// advanced sysctl table allows, no key twice.
pub fn validate_checkpoint(checkpoint: &LastGoodPolicy) -> (r: Result<(), CheckpointError>)
    ensures
        r is Ok <==> policy_fault(*checkpoint) is None,
        r matches Err(e) ==> error_fault(e) == policy_fault(*checkpoint),
{
    match check_fields(
        checkpoint.format_version,
        checkpoint.interface.as_str(),
        checkpoint.interface_mode.as_str(),
        checkpoint.algorithm.as_str(),
        checkpoint.qdisc.as_str(),
        checkpoint.pacing_ca,
        checkpoint.pacing_ss,
    ) {
        Err(e) => {
            return Err(e);
        },
        Ok(()) => {},
    }
    check_items(&checkpoint.advanced_sysctls)
}

// ---------------------------------------------------------------------------
// Read-back comparison
pub open spec fn opt_view(o: Option<String>) -> Option<Seq<char>> {
    match o {
        Some(s) => Some(s@),
        None => None,
    }
}

pub open spec fn opt_decimal(o: Option<u32>) -> Option<Seq<char>> {
    match o {
        Some(v) => Some(decimal(v as nat)),
        None => None,
    }
}

/// The message for one value read back, if it is not the expected one.
pub open spec fn comparison(name: Seq<char>, actual: Option<Seq<char>>, expected: Seq<char>) -> Option<
    Seq<char>,
> {
    match actual {
        Some(v) => if v == expected {
            None
        } else {
            Some(name + " verification failed: expected "@ + expected + ", found "@ + v)
        },
        None => Some(name + " verification is unavailable"@),
    }
}

pub open spec fn push_opt(s: Seq<Seq<char>>, m: Option<Seq<char>>) -> Seq<Seq<char>> {
    match m {
        Some(x) => s.push(x),
        None => s,
    }
}

/// Compares a value read back from the kernel with the expected one, and
/// records drift or an unreadable value.
pub fn compare_value(errors: &mut Vec<String>, name: &str, actual: Option<String>, expected: String)
    ensures
        string_views(final(errors)@) == push_opt(
            string_views(old(errors)@),
            comparison(name@, opt_view(actual), expected@),
        ),
{
    let ghost old_errors = string_views(errors@);
    match actual {
        Some(value) => {
            if str_eq(value.as_str(), expected.as_str()) {
                return;
            }
            let mut m = owned(name);
            push_str(&mut m, " verification failed: expected ");
            push_str(&mut m, expected.as_str());
            push_str(&mut m, ", found ");
            push_str(&mut m, value.as_str());
            errors.push(m);
        },
        None => {
            let mut m = owned(name);
            push_str(&mut m, " verification is unavailable");
            errors.push(m);
        },
    }
    assert(string_views(errors@) =~= push_opt(
        old_errors,
        comparison(name@, opt_view(actual), expected@),
    ));
}

/// The kernel state as values: algorithm, default and interface qdisc,
/// pacing ratios, and the advanced sysctls as (key, path, value).
pub struct KernelStateView {
    pub algorithm: Seq<char>,
    pub default_qdisc: Seq<char>,
    pub interface_qdisc: Seq<char>,
    pub pacing_ca: u32,
    pub pacing_ss: u32,
    pub advanced: Seq<(Seq<char>, Seq<char>, u32)>,
}

pub open spec fn runtime_item_view(i: RuntimeSysctlValue) -> (Seq<char>, Seq<char>, u32) {
    (i.key@, i.path@, i.value)
}

pub open spec fn state_view(s: RuntimeKernelState) -> KernelStateView {
    KernelStateView {
        algorithm: s.algorithm@,
        default_qdisc: s.default_qdisc@,
        interface_qdisc: s.interface_qdisc@,
        pacing_ca: s.pacing_ca,
        pacing_ss: s.pacing_ss,
        advanced: s.advanced_sysctls@.map_values(|i: RuntimeSysctlValue| runtime_item_view(i)),
    }
}

/// The reading of the `k`-th advanced sysctl; a missing reading is
/// unavailable.
pub open spec fn reading_at(reads: Seq<Option<u32>>, k: int) -> Option<u32> {
    if 0 <= k < reads.len() {
        reads[k]
    } else {
        None
    }
}

/// Messages for the first `n` advanced sysctls.
pub open spec fn advanced_errors(
    items: Seq<(Seq<char>, Seq<char>, u32)>,
    reads: Seq<Option<u32>>,
    n: int,
) -> Seq<Seq<char>>
    decreases n,
{
    if n <= 0 {
        seq![]
    } else {
        push_opt(
            advanced_errors(items, reads, n - 1),
            comparison(
                "advanced sysctl "@ + items[n - 1].0,
                opt_decimal(reading_at(reads, n - 1)),
                decimal(items[n - 1].2 as nat),
            ),
        )
    }
}

/// Every value read back that differs from the expected state, or could
/// not be read, in the order algorithm, default qdisc, interface qdisc,
/// pacing CA, pacing SS, advanced sysctls.
pub open spec fn runtime_errors(expected: KernelStateView, readings: RuntimeReadings) -> Seq<
    Seq<char>,
> {
    let e0 = push_opt(
        seq![],
        comparison("algorithm"@, opt_view(readings.algorithm), expected.algorithm),
    );
    let e1 = push_opt(
        e0,
        comparison("default qdisc"@, opt_view(readings.default_qdisc), expected.default_qdisc),
    );
    let e2 = push_opt(
        e1,
        comparison("interface qdisc"@, opt_view(readings.interface_qdisc), expected.interface_qdisc),
    );
    let e3 = push_opt(
        e2,
        comparison("pacing CA"@, opt_decimal(readings.pacing_ca), decimal(expected.pacing_ca as nat)),
    );
    let e4 = push_opt(
        e3,
        comparison("pacing SS"@, opt_decimal(readings.pacing_ss), decimal(expected.pacing_ss as nat)),
    );
    e4 + advanced_errors(expected.advanced, readings.advanced@, expected.advanced.len() as int)
}

fn reading_string(r: Option<u32>) -> (s: Option<String>)
    ensures
        opt_view(s) == opt_decimal(r),
{
    match r {
        Some(v) => Some(u32_to_string(v)),
        None => None,
    }
}

fn clone_opt(o: &Option<String>) -> (r: Option<String>)
    ensures
        opt_view(r) == opt_view(*o),
{
    match o {
        Some(s) => Some(owned(s.as_str())),
        None => None,
    }
}

fn compare_values(
    expected_advanced: &Vec<RuntimeSysctlValue>,
    reads: &Vec<Option<u32>>,
    errors: &mut Vec<String>,
)
    ensures
        string_views(final(errors)@) == string_views(old(errors)@) + advanced_errors(
            expected_advanced@.map_values(|i: RuntimeSysctlValue| runtime_item_view(i)),
            reads@,
            expected_advanced@.len() as int,
        ),
{
    let ghost items = expected_advanced@.map_values(|i: RuntimeSysctlValue| runtime_item_view(i));
    let ghost base = string_views(errors@);
    let mut k: usize = 0;
    assert(base + seq![] =~= base);
    while k < expected_advanced.len()
        invariant
            items == expected_advanced@.map_values(|i: RuntimeSysctlValue| runtime_item_view(i)),
            k <= expected_advanced@.len(),
            string_views(errors@) == base + advanced_errors(items, reads@, k as int),
        decreases expected_advanced@.len() - k,
    {
        let item = &expected_advanced[k];
        assert(items[k as int] == runtime_item_view(*item));
        let mut name = owned("advanced sysctl ");
        push_str(&mut name, item.key.as_str());
        let reading = if k < reads.len() {
            reads[k]
        } else {
            None
        };
        assert(reading == reading_at(reads@, k as int));
        let ghost before = string_views(errors@);
        compare_value(errors, name.as_str(), reading_string(reading), u32_to_string(item.value));
        proof {
            let m = comparison(
                "advanced sysctl "@ + items[k as int].0,
                opt_decimal(reading_at(reads@, k as int)),
                decimal(items[k as int].2 as nat),
            );
            match m {
                Some(x) => {
                    assert(before.push(x) =~= base + advanced_errors(items, reads@, k as int).push(
                        x,
                    ));
                },
                None => {},
            }
        }
        k += 1;
    }
}

/// Reads back the kernel and reports each policy value that differs from
/// `expected` or could not be read.
pub fn verify_runtime_state(expected: &RuntimeKernelState, readings: &RuntimeReadings) -> (r: Vec<
    String,
>)
    ensures
        string_views(r@) == runtime_errors(state_view(*expected), *readings),
{
    let mut errors: Vec<String> = Vec::new();
    assert(string_views(errors@) =~= seq![]);
    compare_value(
        &mut errors,
        "algorithm",
        clone_opt(&readings.algorithm),
        owned(expected.algorithm.as_str()),
    );
    compare_value(
        &mut errors,
        "default qdisc",
        clone_opt(&readings.default_qdisc),
        owned(expected.default_qdisc.as_str()),
    );
    compare_value(
        &mut errors,
        "interface qdisc",
        clone_opt(&readings.interface_qdisc),
        owned(expected.interface_qdisc.as_str()),
    );
    compare_value(
        &mut errors,
        "pacing CA",
        reading_string(readings.pacing_ca),
        u32_to_string(expected.pacing_ca),
    );
    compare_value(
        &mut errors,
        "pacing SS",
        reading_string(readings.pacing_ss),
        u32_to_string(expected.pacing_ss),
    );
    compare_values(&expected.advanced_sysctls, &readings.advanced, &mut errors);
    errors
}

/// The kernel state that a checkpoint describes: its qdisc both as default
/// and on the interface.
pub open spec fn checkpoint_state(cp: LastGoodPolicy) -> KernelStateView {
    KernelStateView {
        algorithm: cp.algorithm@,
        default_qdisc: cp.qdisc@,
        interface_qdisc: cp.qdisc@,
        pacing_ca: cp.pacing_ca,
        pacing_ss: cp.pacing_ss,
        advanced: items_view(cp.advanced_sysctls@),
    }
}

/// The kernel state a checkpoint describes.
pub fn expected_state(checkpoint: &LastGoodPolicy) -> (r: RuntimeKernelState)
    ensures
        state_view(r) == checkpoint_state(*checkpoint),
{
    let mut advanced: Vec<RuntimeSysctlValue> = Vec::new();
    let mut k: usize = 0;
    while k < checkpoint.advanced_sysctls.len()
        invariant
            k <= checkpoint.advanced_sysctls@.len(),
            advanced@.map_values(|i: RuntimeSysctlValue| runtime_item_view(i)) == items_view(
                checkpoint.advanced_sysctls@,
            ).subrange(0, k as int),
        decreases checkpoint.advanced_sysctls@.len() - k,
    {
        let item = &checkpoint.advanced_sysctls[k];
        let v = RuntimeSysctlValue {
            key: owned(item.key.as_str()),
            path: owned(item.path.as_str()),
            value: item.value,
        };
        let ghost old_adv = advanced@;
        advanced.push(v);
        proof {
            let iv = items_view(checkpoint.advanced_sysctls@);
            assert(runtime_item_view(v) == iv[k as int]);
            assert(advanced@ == old_adv.push(v));
            assert(advanced@.map_values(|i: RuntimeSysctlValue| runtime_item_view(i)) =~= old_adv.map_values(
                |i: RuntimeSysctlValue| runtime_item_view(i),
            ).push(runtime_item_view(v)));
            assert(iv.subrange(0, k + 1) =~= iv.subrange(0, k as int).push(iv[k as int]));
        }
        k += 1;
    }
    assert(items_view(checkpoint.advanced_sysctls@).subrange(
        0,
        checkpoint.advanced_sysctls@.len() as int,
    ) =~= items_view(checkpoint.advanced_sysctls@));
    let r = RuntimeKernelState {
        algorithm: owned(checkpoint.algorithm.as_str()),
        default_qdisc: owned(checkpoint.qdisc.as_str()),
        interface_qdisc: owned(checkpoint.qdisc.as_str()),
        pacing_ca: checkpoint.pacing_ca,
        pacing_ss: checkpoint.pacing_ss,
        advanced_sysctls: advanced,
    };
    assert(state_view(r) =~= checkpoint_state(*checkpoint));
    r
}

pub open spec fn prefixed_checkpoint(errors: Seq<Seq<char>>) -> Seq<Seq<char>> {
    errors.map_values(|m: Seq<char>| "checkpoint "@ + m)
}

/// After a restore: each value of the checkpoint that the kernel does not
/// hold, as a message that starts with "checkpoint ".
pub fn verify_checkpoint_applied(checkpoint: &LastGoodPolicy, readings: &RuntimeReadings) -> (r: Vec<
    String,
>)
    ensures
        string_views(r@) == prefixed_checkpoint(runtime_errors(checkpoint_state(*checkpoint), *readings)),
{
    let expected = expected_state(checkpoint);
    let errors = verify_runtime_state(&expected, readings);
    let ghost ev = string_views(errors@);
    let mut out: Vec<String> = Vec::new();
    let mut k: usize = 0;
    while k < errors.len()
        invariant
            ev == string_views(errors@),
            k <= errors@.len(),
            string_views(out@) == prefixed_checkpoint(ev.subrange(0, k as int)),
        decreases errors@.len() - k,
    {
        let mut m = owned("checkpoint ");
        push_str(&mut m, errors[k].as_str());
        let ghost old_out = string_views(out@);
        out.push(m);
        proof {
            assert(ev[k as int] == errors@[k as int]@);
            assert(string_views(out@) =~= old_out.push("checkpoint "@ + ev[k as int]));
            assert(ev.subrange(0, k + 1) =~= ev.subrange(0, k as int).push(ev[k as int]));
            assert(prefixed_checkpoint(ev.subrange(0, k + 1)) =~= prefixed_checkpoint(
                ev.subrange(0, k as int),
            ).push("checkpoint "@ + ev[k as int]));
        }
        k += 1;
    }
    assert(ev.subrange(0, ev.len() as int) =~= ev);
    out
}

// ---------------------------------------------------------------------------
// Failures
/// The stored form of a failure message: line breaks and NULs become
/// spaces, the text is cut to 320 bytes and trimmed.
pub open spec fn sanitized_message(message: Seq<char>) -> Seq<char> {
    trim(take_bytes(blank_line_breaks(message), 320))
}

/// Messages that `String::truncate(320)` accepts after the line breaks are
/// blanked (the cut falls on a character boundary).
pub open spec fn message_accepted(message: Seq<char>) -> bool {
    truncatable(blank_line_breaks(message), 320)
}

pub fn sanitize_message(message: &str) -> (r: String)
    requires
        message_accepted(message@),
    ensures
        r@ == sanitized_message(message@),
{
    let v = chars_of(message);
    let blanked = blank_line_breaks_exec(v.as_slice());
    let cut = truncate_bytes(blanked.as_slice(), MAX_FAILURE_MESSAGE_BYTES);
    let clean = trim_chars(cut.as_slice());
    string_of(clean.as_slice())
}

/// The record with no failure.
pub fn empty_failure_state() -> (r: FailureState)
    ensures
        r.format_version == FAILURE_FORMAT_VERSION,
        r.consecutive_failures == 0,
        r.updated_at_epoch == 0,
        r.last_error@.len() == 0,
{
    FailureState {
        format_version: FAILURE_FORMAT_VERSION,
        consecutive_failures: 0,
        updated_at_epoch: 0,
        last_error: String::new(),
    }
}

/// A decoded failure record is accepted only in the current format.
pub fn check_failure_state(state: FailureState) -> (r: Result<FailureState, CheckpointError>)
    ensures
        state.format_version == FAILURE_FORMAT_VERSION ==> r == Ok::<FailureState, CheckpointError>(
            state,
        ),
        state.format_version != FAILURE_FORMAT_VERSION ==> r == Err::<FailureState, CheckpointError>(
            CheckpointError::UnsupportedFailureFormat(state.format_version),
        ),
{
    if state.format_version != FAILURE_FORMAT_VERSION {
        return Err(CheckpointError::UnsupportedFailureFormat(state.format_version));
    }
    Ok(state)
}

/// Records one more consecutive failure (saturating), with its sanitized
/// message and the current time.
pub fn record_failure(state: &FailureState, message: &str) -> (r: FailureState)
    requires
        message_accepted(message@),
    ensures
        r.format_version == state.format_version,
        r.consecutive_failures == if state.consecutive_failures == u32::MAX {
            u32::MAX
        } else {
            (state.consecutive_failures + 1) as u32
        },
        r.last_error@ == sanitized_message(message@),
{
    FailureState {
        format_version: state.format_version,
        consecutive_failures: state.consecutive_failures.saturating_add(1),
        updated_at_epoch: now_epoch(),
        last_error: sanitize_message(message),
    }
}

/// The status report of the checkpoint store: the checkpoint when there is
/// one, and the failure count (0, with the reason, when the failure record
/// cannot be read).
pub fn status(checkpoint: Option<LastGoodPolicy>, failures: Result<FailureState, String>) -> (r:
    CheckpointStatus)
    ensures
        r.available == checkpoint is Some,
        r.checkpoint == checkpoint,
        r.automatic_safe_mode_threshold == AUTOMATIC_SAFE_MODE_THRESHOLD,
        failures matches Ok(s) ==> r.consecutive_failures == s.consecutive_failures
            && r.failure_state_error is None,
        failures matches Err(m) ==> r.consecutive_failures == 0 && r.failure_state_error == Some(m),
{
    let available = checkpoint.is_some();
    let (consecutive_failures, failure_state_error) = match failures {
        Ok(state) => (state.consecutive_failures, None),
        Err(error) => (0, Some(error)),
    };
    CheckpointStatus {
        available,
        checkpoint,
        consecutive_failures,
        automatic_safe_mode_threshold: AUTOMATIC_SAFE_MODE_THRESHOLD,
        failure_state_error,
    }
}

// ---------------------------------------------------------------------------
// Persisting and restoring
/// The fault of the checkpoint that `persist` builds from a policy.
pub open spec fn persisted_fault(
    iface: Seq<char>,
    mode: IfaceMode,
    policy: ResolvedPolicy,
    conf: (Seq<(Seq<char>, Seq<char>, u32)>, Seq<Seq<char>>),
) -> Option<CheckpointFault> {
    checkpoint_fault(
        CHECKPOINT_FORMAT_VERSION,
        iface,
        mode.name(),
        policy.algorithm@,
        policy.qdisc@,
        policy.pacing_ca,
        policy.pacing_ss,
        conf.0,
    )
}

fn checkpoint_items(advanced: &Vec<AdvancedOverride>) -> (r: Vec<CheckpointSysctl>)
    ensures
        items_view(r@) == override_views(advanced@),
{
    let mut items: Vec<CheckpointSysctl> = Vec::new();
    let mut k: usize = 0;
    while k < advanced.len()
        invariant
            k <= advanced@.len(),
            items_view(items@) == override_views(advanced@).subrange(0, k as int),
        decreases advanced@.len() - k,
    {
        let o = &advanced[k];
        let item = CheckpointSysctl { key: owned(o.key), path: owned(o.path), value: o.value };
        let ghost old_items = items@;
        items.push(item);
        proof {
            let ov = override_views(advanced@);
            assert(ov[k as int] == o.view_tuple());
            assert(items@ == old_items.push(item));
            assert(items_view(items@) =~= items_view(old_items).push(item_view(item)));
            assert(ov.subrange(0, k + 1) =~= ov.subrange(0, k as int).push(ov[k as int]));
        }
        k += 1;
    }
    assert(override_views(advanced@).subrange(0, advanced@.len() as int) =~= override_views(
        advanced@,
    ));
    items
}

/// Builds the checkpoint of the policy now applied on `iface`, with the
/// overrides of `advanced.conf`: the interface name must be safe,
/// `advanced.conf` must parse, and the result must validate.
pub fn persist(iface: &str, mode: IfaceMode, policy: &ResolvedPolicy, advanced_conf: Option<&str>) -> (r:
    Result<LastGoodPolicy, CheckpointError>)
    ensures
        !valid_iface_name(iface@) ==> (r matches Err(e) && e matches CheckpointError::InvalidInterfaceName(
            n,
        ) && n@ == iface@),
        valid_iface_name(iface@) && configured_view(advanced_conf).1.len() > 0 ==> (r matches Err(
            e,
        ) && e matches CheckpointError::CannotCheckpoint(m) && string_views(m@) == configured_view(
            advanced_conf,
        ).1),
        valid_iface_name(iface@) && configured_view(advanced_conf).1.len() == 0 ==> match persisted_fault(
            iface@,
            mode,
            *policy,
            configured_view(advanced_conf),
        ) {
            Some(f) => (r matches Err(e) && error_fault(e) == Some(f)),
            None => (r matches Ok(cp) && cp.format_version == CHECKPOINT_FORMAT_VERSION
                && cp.interface@ == iface@ && cp.interface_mode@ == mode.name() && cp.algorithm@
                == policy.algorithm@ && cp.qdisc@ == policy.qdisc@ && cp.pacing_ca
                == policy.pacing_ca && cp.pacing_ss == policy.pacing_ss && items_view(
                cp.advanced_sysctls@,
            ) == configured_view(advanced_conf).0),
        },
{
    validate_iface_name(iface)?;
    let (advanced, parse_errors) = configured_advanced_overrides(advanced_conf);
    assert(configured_view(advanced_conf) == (override_views(advanced@), string_views(
        parse_errors@,
    ))) by {
        if advanced_conf is None {
            assert(override_views(advanced@) =~= seq![]);
            assert(string_views(parse_errors@) =~= seq![]);
        }
    }
    if parse_errors.len() > 0 {
        return Err(CheckpointError::CannotCheckpoint(parse_errors));
    }
    let items = checkpoint_items(&advanced);
    let checkpoint = LastGoodPolicy {
        format_version: CHECKPOINT_FORMAT_VERSION,
        captured_at_epoch: now_epoch(),
        interface: owned(iface),
        interface_mode: owned(mode.as_str()),
        algorithm: owned(policy.algorithm.as_str()),
        qdisc: owned(policy.qdisc.as_str()),
        pacing_ca: policy.pacing_ca,
        pacing_ss: policy.pacing_ss,
        advanced_sysctls: items,
    };
    validate_checkpoint(&checkpoint)?;
    Ok(checkpoint)
}

/// Whether a restore may go on to write once automatic safe mode is
/// persisted.
#[derive(Debug, Clone, Copy, PartialEq, Eq, Structural)]
pub enum RestoreGate {
    /// The running daemon did not acknowledge safe mode: stop.
    AckMissing,
    /// The control state moved on after safe mode was persisted: stop.
    ControlChanged,
    /// Capture the current state and write the checkpoint.
    Proceed,
}

/// Decides, after automatic safe mode is persisted, whether the checkpoint
/// may be written: only once the daemon has acknowledged it (or no daemon
/// runs, `acknowledged` then being true) and while the control state is
/// still the one entered. No checkpoint value is written otherwise.
pub fn restore_gate(acknowledged: bool, control_unchanged: bool) -> (r: RestoreGate)
    ensures
        !acknowledged ==> r == RestoreGate::AckMissing,
        acknowledged && !control_unchanged ==> r == RestoreGate::ControlChanged,
        r == RestoreGate::Proceed <==> (acknowledged && control_unchanged),
{
    if !acknowledged {
        RestoreGate::AckMissing
    } else if !control_unchanged {
        RestoreGate::ControlChanged
    } else {
        RestoreGate::Proceed
    }
}

pub open spec fn control_changed_message() -> Seq<char> {
    "runtime control state changed during restoration"@
}

/// The errors of the restore transaction: the write failures when a write
/// failed; otherwise the read-back differences, and, when those are none
/// but the control state moved on during the writes, that change. The
/// captured state is written back exactly when this is not empty.
pub open spec fn transaction_errors_spec(
    apply: Seq<Seq<char>>,
    readback: Seq<Seq<char>>,
    control_unchanged: bool,
) -> Seq<Seq<char>> {
    if apply.len() > 0 {
        apply
    } else if readback.len() > 0 || control_unchanged {
        readback
    } else {
        seq![control_changed_message()]
    }
}

/// Whether the checkpoint's values are read back: only when every write
/// succeeded.
pub fn read_back_after_apply(apply_errors: &Vec<String>) -> (r: bool)
    ensures
        r == (apply_errors@.len() == 0),
{
    apply_errors.len() == 0
}

/// Combines the write failures, the read-back differences (empty when no
/// read-back was made) and the control check into the transaction's errors.
pub fn transaction_errors(apply_errors: Vec<String>, readback_errors: Vec<String>, control_unchanged: bool) -> (r:
    Vec<String>)
    ensures
        string_views(r@) == transaction_errors_spec(
            string_views(apply_errors@),
            string_views(readback_errors@),
            control_unchanged,
        ),
{
    if apply_errors.len() > 0 {
        apply_errors
    } else if readback_errors.len() > 0 || control_unchanged {
        readback_errors
    } else {
        let mut errors: Vec<String> = Vec::new();
        errors.push(owned("runtime control state changed during restoration"));
        assert(string_views(errors@) =~= seq![control_changed_message()]);
        errors
    }
}

/// Reasons a restore is refused before anything is written.
pub enum PreflightFault {
    Read(Seq<char>),
    Unavailable(Seq<char>),
    ModeChanged(Seq<char>, Seq<char>),
    NoRootQdisc(Seq<char>),
    Sysctl(Seq<char>, Seq<char>),
}

pub open spec fn preflight_error_fault(e: CheckpointError) -> Option<PreflightFault> {
    match e {
        CheckpointError::ReadFailed(m) => Some(PreflightFault::Read(m@)),
        CheckpointError::AlgorithmUnavailable(a) => Some(PreflightFault::Unavailable(a@)),
        CheckpointError::ModeChanged(x, y) => Some(PreflightFault::ModeChanged(x@, y@)),
        CheckpointError::NoRootQdisc(i) => Some(PreflightFault::NoRootQdisc(i@)),
        CheckpointError::SysctlUnavailable(k, m) => Some(PreflightFault::Sysctl(k@, m@)),
        _ => None,
    }
}

/// The first recorded sysctl, from the `k`-th on, that could not be read.
pub open spec fn unreadable_from(
    items: Seq<(Seq<char>, Seq<char>, u32)>,
    reads: Seq<Result<u32, String>>,
    k: int,
) -> Option<PreflightFault>
    decreases items.len() - k,
{
    if k < 0 || k >= items.len() {
        None
    } else {
        match reads[k] {
            Err(m) => Some(PreflightFault::Sysctl(items[k].0, m@)),
            Ok(_) => unreadable_from(items, reads, k + 1),
        }
    }
}

/// The first reason to refuse restoring `cp`: its algorithm is not in the
/// kernel's list, the interface changed mode, the interface has no root
/// qdisc, or a recorded sysctl cannot be read (read failures of the
/// kernel's files come first where they happen).
pub open spec fn preflight_fault(
    cp: LastGoodPolicy,
    available: Result<String, String>,
    root_qdisc: Result<Option<String>, String>,
    reads: Seq<Result<u32, String>>,
) -> Option<PreflightFault> {
    match available {
        Err(m) => Some(PreflightFault::Read(m@)),
        Ok(raw) => if !seq_has(words(raw@), cp.algorithm@) {
            Some(PreflightFault::Unavailable(cp.algorithm@))
        } else if mode_of(cp.interface@).name() != cp.interface_mode@ {
            Some(PreflightFault::ModeChanged(cp.interface_mode@, mode_of(cp.interface@).name()))
        } else {
            match root_qdisc {
                Err(m) => Some(PreflightFault::Read(m@)),
                Ok(None) => Some(PreflightFault::NoRootQdisc(cp.interface@)),
                Ok(Some(_)) => unreadable_from(items_view(cp.advanced_sysctls@), reads, 0),
            }
        },
    }
}

/// Checks, before a restore writes anything, that the checkpoint can still
/// be applied: from the kernel's algorithm list (or its read error), the
/// interface's root qdisc (or its read error), and a read of each recorded
/// sysctl.
pub fn preflight_checkpoint(
    checkpoint: &LastGoodPolicy,
    available: Result<String, String>,
    root_qdisc: Result<Option<String>, String>,
    advanced: &Vec<Result<u32, String>>,
) -> (r: Result<(), CheckpointError>)
    requires
        advanced@.len() == checkpoint.advanced_sysctls@.len(),
    ensures
        r is Ok <==> preflight_fault(*checkpoint, available, root_qdisc, advanced@) is None,
        r matches Err(e) ==> preflight_error_fault(e) == preflight_fault(
            *checkpoint,
            available,
            root_qdisc,
            advanced@,
        ),
{
    let ghost pf = preflight_fault(*checkpoint, available, root_qdisc, advanced@);
    match available {
        Err(m) => {
            return Err(CheckpointError::ReadFailed(m));
        },
        Ok(raw) => {
            if !algo_available(raw.as_str(), checkpoint.algorithm.as_str()) {
                return Err(
                    CheckpointError::AlgorithmUnavailable(owned(checkpoint.algorithm.as_str())),
                );
            }
        },
    }
    let current = iface_mode(checkpoint.interface.as_str());
    if !str_eq(current.as_str(), checkpoint.interface_mode.as_str()) {
        return Err(
            CheckpointError::ModeChanged(
                owned(checkpoint.interface_mode.as_str()),
                owned(current.as_str()),
            ),
        );
    }
    match root_qdisc {
        Err(m) => {
            return Err(CheckpointError::ReadFailed(m));
        },
        Ok(None) => {
            return Err(CheckpointError::NoRootQdisc(owned(checkpoint.interface.as_str())));
        },
        Ok(Some(_)) => {},
    }
    let ghost iv = items_view(checkpoint.advanced_sysctls@);
    assert(pf == unreadable_from(iv, advanced@, 0));
    let mut k: usize = 0;
    while k < advanced.len()
        invariant
            pf == preflight_fault(*checkpoint, available, root_qdisc, advanced@),
            pf == unreadable_from(iv, advanced@, 0),
            iv == items_view(checkpoint.advanced_sysctls@),
            advanced@.len() == iv.len(),
            k <= advanced@.len(),
            unreadable_from(iv, advanced@, 0) == unreadable_from(iv, advanced@, k as int),
        decreases advanced@.len() - k,
    {
        match &advanced[k] {
            Err(m) => {
                assert(iv[k as int] == item_view(checkpoint.advanced_sysctls@[k as int]));
                return Err(
                    CheckpointError::SysctlUnavailable(
                        owned(checkpoint.advanced_sysctls[k].key.as_str()),
                        owned(m.as_str()),
                    ),
                );
            },
            Ok(_) => {},
        }
        k += 1;
    }
    Ok(())
}

/// The report of a restore: it succeeded when applying and reading back
/// raised no error; otherwise a rollback was attempted, and it succeeded
/// when it raised no error either.
pub fn restore_report(
    control: ControlState,
    checkpoint: LastGoodPolicy,
    errors: Vec<String>,
    rollback_errors: Vec<String>,
) -> (r: RestoreCheckpointReport)
    ensures
        r.success == (errors@.len() == 0),
        r.rollback_attempted == (errors@.len() > 0),
        r.rollback_succeeded == (errors@.len() > 0 && rollback_errors@.len() == 0),
        r.control == control,
        r.checkpoint == checkpoint,
        r.errors@ == errors@,
        r.rollback_errors@ == rollback_errors@,
{
    let rollback_attempted = errors.len() > 0;
    let rollback_succeeded = rollback_attempted && rollback_errors.len() == 0;
    RestoreCheckpointReport {
        success: errors.len() == 0,
        rollback_attempted,
        rollback_succeeded,
        control,
        checkpoint,
        errors,
        rollback_errors,
    }
}

// ---------------------------------------------------------------------------
// Writing a kernel state
/// The outcomes of writing a kernel state, in the order of the writes:
/// pacing ratios, default qdisc, interface qdisc, algorithm, and each
/// advanced sysctl.
#[derive(Debug)]
pub struct StateWrites {
    pub pacing: Result<(), String>,
    pub default_qdisc: Result<(), String>,
    pub interface_qdisc: Result<(), String>,
    pub algorithm: Result<(), String>,
    pub advanced: Vec<Result<(), String>>,
}

pub open spec fn write_outcomes(w: StateWrites) -> Seq<Result<(), String>> {
    seq![w.pacing, w.default_qdisc, w.interface_qdisc, w.algorithm] + w.advanced@
}

/// The message of each failed write among the first `n`: its label and
/// the error.
pub open spec fn labelled_failures(
    labels: Seq<Seq<char>>,
    outcomes: Seq<Result<(), String>>,
    n: int,
) -> Seq<Seq<char>>
    decreases n,
{
    if n <= 0 {
        seq![]
    } else {
        let rest = labelled_failures(labels, outcomes, n - 1);
        match outcomes[n - 1] {
            Ok(()) => rest,
            Err(e) => rest.push(labels[n - 1] + e@),
        }
    }
}

/// Labels of the writes that restore a checkpoint.
pub open spec fn apply_labels(keys: Seq<Seq<char>>) -> Seq<Seq<char>> {
    seq![
        "pacing restore failed: "@,
        "default qdisc restore failed: "@,
        "interface qdisc restore failed: "@,
        "algorithm restore failed: "@,
    ] + keys.map_values(|k: Seq<char>| "advanced sysctl "@ + k + " restore failed: "@)
}

/// Labels of the writes that roll a kernel state back.
pub open spec fn rollback_labels(keys: Seq<Seq<char>>) -> Seq<Seq<char>> {
    seq![
        "rollback pacing failed: "@,
        "rollback default qdisc failed: "@,
        "rollback interface qdisc failed: "@,
        "rollback algorithm failed: "@,
    ] + keys.map_values(|k: Seq<char>| "rollback advanced sysctl "@ + k + " failed: "@)
}

fn outcome_at(w: &StateWrites, k: usize) -> (r: &Result<(), String>)
    requires
        k < write_outcomes(*w).len(),
    ensures
        *r == write_outcomes(*w)[k as int],
{
    if k == 0 {
        &w.pacing
    } else if k == 1 {
        &w.default_qdisc
    } else if k == 2 {
        &w.interface_qdisc
    } else if k == 3 {
        &w.algorithm
    } else {
        &w.advanced[k - 4]
    }
}

fn failures_of(labels: &Vec<String>, w: &StateWrites) -> (r: Vec<String>)
    requires
        labels@.len() == write_outcomes(*w).len(),
    ensures
        string_views(r@) == labelled_failures(
            string_views(labels@),
            write_outcomes(*w),
            write_outcomes(*w).len() as int,
        ),
{
    let ghost outcomes = write_outcomes(*w);
    let n = labels.len();
    let mut out: Vec<String> = Vec::new();
    let mut k: usize = 0;
    assert(string_views(out@) =~= seq![]);
    while k < n
        invariant
            outcomes == write_outcomes(*w),
            n == outcomes.len(),
            labels@.len() == n,
            k <= n,
            string_views(out@) == labelled_failures(string_views(labels@), outcomes, k as int),
        decreases n - k,
    {
        match outcome_at(w, k) {
            Ok(()) => {},
            Err(e) => {
                let mut m = owned(labels[k].as_str());
                push_str(&mut m, e.as_str());
                let ghost before = out@;
                out.push(m);
                assert(string_views(out@) =~= string_views(before).push(m@));
            },
        }
        k += 1;
    }
    out
}

fn labels_with(fixed: [&str; 4], before: &str, keys: &Vec<&str>, after: &str) -> (r: Vec<String>)
    ensures
        string_views(r@) == seq![fixed[0]@, fixed[1]@, fixed[2]@, fixed[3]@] + keys@.map_values(
            |k: &str| before@ + k@ + after@,
        ),
{
    let mut out: Vec<String> = Vec::new();
    out.push(owned(fixed[0]));
    out.push(owned(fixed[1]));
    out.push(owned(fixed[2]));
    out.push(owned(fixed[3]));
    let ghost head = seq![fixed[0]@, fixed[1]@, fixed[2]@, fixed[3]@];
    let ghost tail = keys@.map_values(|k: &str| before@ + k@ + after@);
    assert(string_views(out@) =~= head + tail.subrange(0, 0));
    let mut k: usize = 0;
    while k < keys.len()
        invariant
            k <= keys@.len(),
            tail == keys@.map_values(|k: &str| before@ + k@ + after@),
            string_views(out@) == head + tail.subrange(0, k as int),
        decreases keys@.len() - k,
    {
        let mut m = owned(before);
        push_str(&mut m, keys[k]);
        push_str(&mut m, after);
        let ghost prev = out@;
        out.push(m);
        assert(string_views(out@) =~= string_views(prev).push(m@));
        assert(tail.subrange(0, k + 1) =~= tail.subrange(0, k as int).push(tail[k as int]));
        assert(string_views(out@) =~= head + tail.subrange(0, k + 1));
        k += 1;
    }
    assert(tail.subrange(0, keys@.len() as int) =~= tail);
    out
}

/// The failures of restoring `checkpoint`, in the order of the writes.
pub fn apply_failures(checkpoint: &LastGoodPolicy, w: &StateWrites) -> (r: Vec<String>)
    requires
        w.advanced@.len() == checkpoint.advanced_sysctls@.len(),
    ensures
        string_views(r@) == labelled_failures(
            apply_labels(checkpoint.advanced_sysctls@.map_values(|i: CheckpointSysctl| i.key@)),
            write_outcomes(*w),
            write_outcomes(*w).len() as int,
        ),
{
    let mut keys: Vec<&str> = Vec::new();
    let mut k: usize = 0;
    while k < checkpoint.advanced_sysctls.len()
        invariant
            k <= checkpoint.advanced_sysctls@.len(),
            keys@.len() == k,
            forall|j: int| 0 <= j < k ==> keys@[j]@ == checkpoint.advanced_sysctls@[j].key@,
        decreases checkpoint.advanced_sysctls@.len() - k,
    {
        keys.push(checkpoint.advanced_sysctls[k].key.as_str());
        k += 1;
    }
    let labels = labels_with(
        [
            "pacing restore failed: ",
            "default qdisc restore failed: ",
            "interface qdisc restore failed: ",
            "algorithm restore failed: ",
        ],
        "advanced sysctl ",
        &keys,
        " restore failed: ",
    );
    proof {
        let ks = checkpoint.advanced_sysctls@.map_values(|i: CheckpointSysctl| i.key@);
        assert(keys@.map_values(|k: &str| "advanced sysctl "@ + k@ + " restore failed: "@)
            =~= ks.map_values(|k: Seq<char>| "advanced sysctl "@ + k + " restore failed: "@));
        assert(string_views(labels@) =~= apply_labels(ks));
    }
    failures_of(&labels, w)
}

/// The failures of rolling back to `previous`, in the order of the writes.
pub fn rollback_failures(previous: &RuntimeKernelState, w: &StateWrites) -> (r: Vec<String>)
    requires
        w.advanced@.len() == previous.advanced_sysctls@.len(),
    ensures
        string_views(r@) == labelled_failures(
            rollback_labels(previous.advanced_sysctls@.map_values(|i: RuntimeSysctlValue| i.key@)),
            write_outcomes(*w),
            write_outcomes(*w).len() as int,
        ),
{
    let mut keys: Vec<&str> = Vec::new();
    let mut k: usize = 0;
    while k < previous.advanced_sysctls.len()
        invariant
            k <= previous.advanced_sysctls@.len(),
            keys@.len() == k,
            forall|j: int| 0 <= j < k ==> keys@[j]@ == previous.advanced_sysctls@[j].key@,
        decreases previous.advanced_sysctls@.len() - k,
    {
        keys.push(previous.advanced_sysctls[k].key.as_str());
        k += 1;
    }
    let labels = labels_with(
        [
            "rollback pacing failed: ",
            "rollback default qdisc failed: ",
            "rollback interface qdisc failed: ",
            "rollback algorithm failed: ",
        ],
        "rollback advanced sysctl ",
        &keys,
        " failed: ",
    );
    proof {
        let ks = previous.advanced_sysctls@.map_values(|i: RuntimeSysctlValue| i.key@);
        assert(keys@.map_values(|k: &str| "rollback advanced sysctl "@ + k@ + " failed: "@)
            =~= ks.map_values(|k: Seq<char>| "rollback advanced sysctl "@ + k + " failed: "@));
        assert(string_views(labels@) =~= rollback_labels(ks));
    }
    failures_of(&labels, w)
}

/// A stored failure message holds no line break nor NUL, takes at most 320
/// bytes and has no white space at either end.
pub proof fn lemma_sanitized_message_is_clean(message: Seq<char>)
    ensures
        crate::text::byte_len(sanitized_message(message)) <= 320,
        forall|i: int|
            0 <= i < sanitized_message(message).len() ==> sanitized_message(message)[i] != '\n'
                && sanitized_message(message)[i] != '\r' && sanitized_message(message)[i] != '\0',
        trim(sanitized_message(message)) == sanitized_message(message),
{
    let b = blank_line_breaks(message);
    let t = take_bytes(b, 320);
    crate::text::lemma_trim_idempotent(t);
    crate::text::lemma_take_bytes_prefix(b, 320);
    crate::text::lemma_take_bytes_len(b, 320);
    let ij = crate::text::lemma_trim_piece(t);
    let clean = trim(t);
    assert forall|i: int| 0 <= i < clean.len() implies clean[i] != '\n' && clean[i] != '\r'
        && clean[i] != '\0' by {
        assert(clean[i] == t[ij.0 + i]);
        assert(t[ij.0 + i] == b[ij.0 + i]);
    }
}

/// Comparing a value read back: an equal value adds no message; otherwise
/// one message is added, which names the expected value when a value was
/// read and says that the value is unavailable when none was.
pub proof fn lemma_comparison_reports_drift(name: Seq<char>, actual: Option<Seq<char>>, expected: Seq<char>)
    ensures
        actual == Some(expected) <==> comparison(name, actual, expected) is None,
        actual is Some && actual != Some(expected) ==> contains_seq(
            comparison(name, actual, expected)->0,
            "expected "@ + expected,
        ),
        actual is None ==> contains_seq(comparison(name, actual, expected)->0, "unavailable"@),
{
    reveal_strlit(" verification failed: expected ");
    reveal_strlit("expected ");
    reveal_strlit(", found ");
    reveal_strlit(" verification is unavailable");
    reveal_strlit("unavailable");
    match actual {
        Some(v) => {
            if v != expected {
                let m = name + " verification failed: expected "@ + expected + ", found "@ + v;
                let p = "expected "@ + expected;
                let i: int = name.len() as int + 22;
                assert(m.subrange(i, i + p.len()) =~= p);
                assert(occurs_at(m, p, i));
            }
        },
        None => {
            let m = name + " verification is unavailable"@;
            let i: int = name.len() as int + 17;
            assert(m.subrange(i, i + 11) =~= "unavailable"@);
            assert(occurs_at(m, "unavailable"@, i));
        },
    }
}

/// Every override that `advanced.conf` yields names a key of the table,
/// with the table's path and a value within the table's bounds.
proof fn lemma_scanned_overrides_allowed(ls: Seq<Seq<char>>, i: int)
    ensures
        forall|k: int|
            #![trigger advanced_scan(ls, i).0[k]]
            0 <= k < advanced_scan(ls, i).0.len() ==> (advanced_entry(advanced_scan(ls, i).0[k].0)
                matches Some(e) && e.0 == advanced_scan(ls, i).0[k].1 && e.1 <= advanced_scan(
                ls,
                i,
            ).0[k].2 <= e.2),
    decreases ls.len() - i,
{
    if 0 <= i < ls.len() {
        lemma_scanned_overrides_allowed(ls, i + 1);
        let rest = advanced_scan(ls, i + 1);
        match advanced_line(ls[i]) {
            AdvancedLine::Accepted(key, path, v) => {
                let all = advanced_scan(ls, i).0;
                assert(all == seq![(key, path, v)] + rest.0);
                assert forall|k: int| 0 < k < all.len() implies #[trigger] all[k] == rest.0[k - 1] by {}
            },
            _ => {},
        }
    }
}

proof fn lemma_allowed_items_fault_free(items: Seq<(Seq<char>, Seq<char>, u32)>, i: int)
    requires
        0 <= i,
        forall|k: int|
            0 <= k < items.len() ==> (advanced_entry(#[trigger] items[k].0) matches Some(e) && e.0
                == items[k].1 && e.1 <= items[k].2 <= e.2),
        forall|j: int, k: int| 0 <= j < k < items.len() ==> items[j].0 != items[k].0,
    ensures
        items_fault(items, i) is None,
    decreases items.len() - i,
{
    if i < items.len() {
        assert(!key_seen_before(items, i));
        assert(item_fault(items, i) is None);
        lemma_allowed_items_fault_free(items, i + 1);
    }
}

/// A checkpoint can always be taken of a policy on a Wi-Fi or cellular
/// interface with a safe name, a known algorithm and qdisc and pacing
/// ratios in 1..=1000, when `advanced.conf` parses without a failure and
/// sets no key twice: `persist` then finds no fault.
pub proof fn lemma_persist_accepts_valid_policy(
    iface: Seq<char>,
    mode: IfaceMode,
    policy: ResolvedPolicy,
    advanced_conf: Option<&str>,
)
    requires
        valid_iface_name(iface),
        mode != IfaceMode::Unknown,
        known_algorithm(policy.algorithm@),
        known_qdisc(policy.qdisc@),
        1 <= policy.pacing_ca <= 1000,
        1 <= policy.pacing_ss <= 1000,
        configured_view(advanced_conf).1.len() == 0,
        forall|j: int, k: int|
            0 <= j < k < configured_view(advanced_conf).0.len() ==> configured_view(advanced_conf).0[j].0
                != configured_view(advanced_conf).0[k].0,
    ensures
        persisted_fault(iface, mode, policy, configured_view(advanced_conf)) is None,
{
    if let Some(c) = advanced_conf {
        lemma_scanned_overrides_allowed(crate::text::lines(c@), 0);
    }
    lemma_allowed_items_fault_free(configured_view(advanced_conf).0, 0);
}

} // verus!

