//! Debug capture: managed files, what is written to them, and when writing stops.
use vstd::prelude::*;
use vstd::string::StringExecFns;

use crate::broker::{
    is_hex, random_hex, ApprovalId, Completion, CompletionModel, DecisionSource, TerminalState,
};
use crate::clock::{is_date_text, timestamp, timestamp_text, MAX_WRITTEN_TIME};
use crate::display::{sanitize, sanitized};
use crate::policy::{DraftModel, RuleDraft};
use crate::protocol::{
    DecisionModel, IncomingApproval, IncomingModel, KnownApprovalRequest, RequestModel, SourceKind,
    WebhookDecision,
};
use crate::runtime_path::{below, join_path, RuntimePathError, RuntimePathErrorModel};
use crate::text::{
    before, chars, is_before, lemma_before_irreflexive, lemma_before_total, lemma_before_transitive,
    text, text_option, texts, with_detail,
};

verus! {

/// Whether requests are captured, and where.
#[derive(Debug, PartialEq, Eq)]
pub enum DebugCaptureStatus {
    Disabled,
    Enabled { path: String },
    Failed { error_category: String },
}

/// The contents of a [`DebugCaptureStatus`].
pub enum CaptureStatusModel {
    Disabled,
    Enabled { path: Seq<char> },
    Failed { error_category: Seq<char> },
}

impl View for DebugCaptureStatus {
    type V = CaptureStatusModel;

    open spec fn view(&self) -> CaptureStatusModel {
        match *self {
            DebugCaptureStatus::Disabled => CaptureStatusModel::Disabled,
            DebugCaptureStatus::Enabled { path } => CaptureStatusModel::Enabled { path: path@ },
            DebugCaptureStatus::Failed { error_category } => CaptureStatusModel::Failed {
                error_category: error_category@,
            },
        }
    }
}

impl Clone for DebugCaptureStatus {
    fn clone(&self) -> (result: Self)
        ensures
            result@ == self@,
    {
        match self {
            DebugCaptureStatus::Disabled => DebugCaptureStatus::Disabled,
            DebugCaptureStatus::Enabled { path } => DebugCaptureStatus::Enabled {
                path: path.clone(),
            },
            DebugCaptureStatus::Failed { error_category } => DebugCaptureStatus::Failed {
                error_category: error_category.clone(),
            },
        }
    }
}

// ---------------------------------------------------------------------------
// File names
// ---------------------------------------------------------------------------

/// A character of the time in a managed file name.
pub open spec fn is_stamp_char(c: char) -> bool {
    '0' <= c <= '9' || c == 'T' || c == 'Z' || c == '-' || c == '+'
}

/// The shape of a managed file name: a time, a hyphen, sixteen hexadecimal digits and `.ndjson`.
pub open spec fn is_managed_name(name: Seq<char>) -> bool {
    let n = name.len() - 24;
    &&& n > 0
    &&& name.skip(name.len() - 7) == ".ndjson"@
    &&& name[n] == '-'
    &&& forall|i: int| 0 <= i < n ==> is_stamp_char(#[trigger] name[i])
    &&& forall|i: int| n < i < n + 17 ==> is_hex(#[trigger] name[i])
}

/// Whether a file name is one that captures are written to.
pub fn managed_name(name: &str) -> (result: bool)
    ensures
        result == is_managed_name(name@),
{
    let all = chars(name);
    if all.len() <= 24 {
        return false;
    }
    let n: usize = all.len() - 24;
    let suffix = chars(".ndjson");
    proof {
        reveal_strlit(".ndjson");
    }
    for i in 0..7
        invariant
            all@ == name@,
            n > 0,
            n + 24 == all.len(),
            suffix@ == ".ndjson"@,
            suffix@.len() == 7,
            forall|j: int| 0 <= j < i ==> all@[n + 17 + j] == suffix@[j],
    {
        if all[n + 17 + i] != suffix[i] {
            assert(name@.skip(name@.len() - 7)[i as int] != ".ndjson"@[i as int]);
            return false;
        }
    }
    assert(name@.skip(name@.len() - 7) =~= ".ndjson"@);
    if all[n] != '-' {
        return false;
    }
    for i in 0..n
        invariant
            all@ == name@,
            n + 24 == all.len(),
            forall|j: int| 0 <= j < i ==> is_stamp_char(#[trigger] all@[j]),
    {
        let c = all[i];
        if !(('0' <= c && c <= '9') || c == 'T' || c == 'Z' || c == '-' || c == '+') {
            assert(!is_stamp_char(name@[i as int]));
            return false;
        }
    }
    for i in n + 1..n + 17
        invariant
            all@ == name@,
            n + 24 == all.len(),
            forall|j: int| n < j < i ==> is_hex(#[trigger] all@[j]),
    {
        let c = all[i];
        if !(('0' <= c && c <= '9') || ('a' <= c && c <= 'f')) {
            assert(!is_hex(name@[i as int]));
            return false;
        }
    }
    true
}

/// The time in a file name: colons and dots become hyphens.
pub open spec fn stamp_of(time: Seq<char>) -> Seq<char> {
    time.map_values(
        |c: char|
            if c == ':' || c == '.' {
                '-'
            } else {
                c
            },
    )
}

/// The name of a capture file.
pub open spec fn capture_name(time: Seq<char>, digits: Seq<char>) -> Seq<char> {
    stamp_of(time) + "-"@ + digits + ".ndjson"@
}

/// Writes the time of a file name.
fn stamp(time: &str) -> (result: String)
    ensures
        result@ == stamp_of(time@),
{
    let all = chars(time);
    let mut result: Vec<char> = Vec::new();
    for i in 0..all.len()
        invariant
            all@ == time@,
            result@ == stamp_of(time@).take(i as int),
    {
        let c = all[i];
        if c == ':' || c == '.' {
            result.push('-');
        } else {
            result.push(c);
        }
        assert(stamp_of(time@).take(i + 1) =~= stamp_of(time@).take(i as int).push(
            stamp_of(time@)[i as int],
        ));
    }
    assert(result@ =~= stamp_of(time@));
    text(result.as_slice())
}

/// Writes the name of a capture file.
pub fn capture_file_name(now: u128, digits: &str) -> (result: String)
    ensures
        result@ == capture_name(timestamp_text(now), digits@),
        digits@.len() == 16 && (forall|i: int| 0 <= i < 16 ==> is_hex(#[trigger] digits@[i]))
            ==> is_managed_name(result@),
{
    let time = timestamp(now);
    let mut name = stamp(time.as_str());
    name.append("-");
    name.append(digits);
    name.append(".ndjson");
    proof {
        if digits@.len() == 16 && (forall|i: int| 0 <= i < 16 ==> is_hex(#[trigger] digits@[i])) {
            capture_names_are_managed(time@, digits@);
        }
    }
    name
}

/// Every name that is given to a capture file is managed.
pub proof fn capture_names_are_managed(time: Seq<char>, digits: Seq<char>)
    requires
        is_date_text(time),
        digits.len() == 16,
        forall|i: int| 0 <= i < 16 ==> is_hex(#[trigger] digits[i]),
    ensures
        is_managed_name(capture_name(time, digits)),
{
    reveal_strlit("-");
    reveal_strlit(".ndjson");
    let name = capture_name(time, digits);
    let n = time.len() as int;
    assert(name.skip(name.len() - 7) =~= ".ndjson"@);
    assert(name[n] == '-');
    assert forall|i: int| 0 <= i < n implies is_stamp_char(#[trigger] name[i]) by {
        let c = time[i];
        assert(name[i] == stamp_of(time)[i]);
    }
    assert forall|i: int| n < i < n + 17 implies is_hex(#[trigger] name[i]) by {
        assert(name[i] == digits[i - n - 1]);
    }
}

/// The directory of the capture files.
pub fn capture_directory(state_dir: &str) -> (result: String)
    ensures
        result@ == below(state_dir@, "debug-captures"@),
{
    join_path(state_dir, "debug-captures")
}

// ---------------------------------------------------------------------------
// Managed files
// ---------------------------------------------------------------------------

/// What is shown of a capture file.
#[derive(Debug, PartialEq, Eq)]
pub struct CaptureInfo {
    pub name: String,
    pub created_at: String,
    pub size_bytes: u64,
}

/// The contents of a [`CaptureInfo`].
pub struct CaptureInfoModel {
    pub name: Seq<char>,
    pub created_at: Seq<char>,
    pub size_bytes: u64,
}

impl View for CaptureInfo {
    type V = CaptureInfoModel;

    open spec fn view(&self) -> CaptureInfoModel {
        CaptureInfoModel {
            name: self.name@,
            created_at: self.created_at@,
            size_bytes: self.size_bytes,
        }
    }
}

/// The contents of a list of capture files.
pub open spec fn info_models(list: Seq<CaptureInfo>) -> Seq<CaptureInfoModel> {
    Seq::new(list.len(), |i: int| list[i]@)
}

/// An entry of the capture directory.
pub struct CaptureEntry {
    pub path: String,
    pub name: String,
    pub symlink: bool,
    pub regular_file: bool,
    pub uid: u32,
    pub mode: u32,
    pub created: Option<u128>,
    pub size_bytes: u64,
}

/// Why the capture directory cannot be used.
#[derive(Debug, PartialEq, Eq)]
pub enum DebugCaptureError {
    UnsafeEntry(String),
    Random(String),
    RuntimePath(RuntimePathError),
    Io(String),
}

/// The contents of a [`DebugCaptureError`].
pub enum DebugCaptureErrorModel {
    UnsafeEntry(Seq<char>),
    Random(Seq<char>),
    RuntimePath(RuntimePathErrorModel),
    Io(Seq<char>),
}

impl View for DebugCaptureError {
    type V = DebugCaptureErrorModel;

    open spec fn view(&self) -> DebugCaptureErrorModel {
        match *self {
            DebugCaptureError::UnsafeEntry(path) => DebugCaptureErrorModel::UnsafeEntry(path@),
            DebugCaptureError::Random(detail) => DebugCaptureErrorModel::Random(detail@),
            DebugCaptureError::RuntimePath(error) => DebugCaptureErrorModel::RuntimePath(error@),
            DebugCaptureError::Io(detail) => DebugCaptureErrorModel::Io(detail@),
        }
    }
}

impl DebugCaptureErrorModel {
    /// The error as people read it.
    pub open spec fn message(self) -> Seq<char> {
        match self {
            DebugCaptureErrorModel::UnsafeEntry(path) =>
                "unsafe entry in managed capture directory: "@ + path,
            DebugCaptureErrorModel::Random(detail) => "operating-system randomness failed: "@
                + detail,
            DebugCaptureErrorModel::RuntimePath(error) => error.message(),
            DebugCaptureErrorModel::Io(detail) => detail,
        }
    }
}

impl DebugCaptureError {
    /// The error as people read it.
    pub fn message(&self) -> (result: String)
        ensures
            result@ == self@.message(),
    {
        match self {
            DebugCaptureError::UnsafeEntry(path) => with_detail(
                "unsafe entry in managed capture directory: ",
                path.as_str(),
            ),
            DebugCaptureError::Random(detail) => with_detail(
                "operating-system randomness failed: ",
                detail.as_str(),
            ),
            DebugCaptureError::RuntimePath(error) => error.message(),
            DebugCaptureError::Io(detail) => detail.clone(),
        }
    }
}

impl CaptureEntry {
    /// A regular file of the owner with mode 0600 and a managed name.
    pub open spec fn is_safe(self, owner: u32) -> bool {
        !self.symlink && self.regular_file && self.uid == owner && self.mode & 0o777 == 0o600
            && is_managed_name(self.name@)
    }

    /// What is shown of the entry.
    pub open spec fn info(self) -> CaptureInfoModel {
        let created = match self.created {
            Some(time) => time,
            None => 0,
        };
        CaptureInfoModel {
            name: self.name@,
            created_at: if created <= MAX_WRITTEN_TIME {
                timestamp_text(created)
            } else {
                "unknown"@
            },
            size_bytes: self.size_bytes,
        }
    }
}

/// The first entry that is not safe, by path.
pub open spec fn first_unsafe(entries: Seq<CaptureEntry>, owner: u32) -> Option<Seq<char>>
    decreases entries.len(),
{
    if entries.len() == 0 {
        None
    } else if !entries[0].is_safe(owner) {
        Some(entries[0].path@)
    } else {
        first_unsafe(entries.drop_first(), owner)
    }
}

/// Capture files in the order of their names.
pub open spec fn in_name_order(list: Seq<CaptureInfoModel>) -> bool {
    forall|i: int, j: int|
        0 <= i < j < list.len() ==> !before((#[trigger] list[j]).name, (#[trigger] list[i]).name)
}

/// Puts a capture file in its place.
fn insert_by_name(list: &mut Vec<CaptureInfo>, info: CaptureInfo)
    requires
        in_name_order(info_models(old(list)@)),
    ensures
        in_name_order(info_models(final(list)@)),
        info_models(final(list)@).to_multiset() == info_models(old(list)@).to_multiset().insert(
            info@,
        ),
{
    let ghost models = info_models(list@);
    let ghost model = info@;
    let mut at: usize = list.len();
    while at > 0 && is_before(info.name.as_str(), list[at - 1].name.as_str())
        invariant
            at <= list@.len(),
            *list == *old(list),
            models == info_models(list@),
            model == info@,
            forall|j: int| at <= j < list@.len() ==> before(model.name, (#[trigger] models[j]).name),
        decreases at,
    {
        assert(models[at - 1] == list@[at - 1]@);
        at -= 1;
    }
    if at > 0 {
        assert(models[at - 1] == list@[at - 1]@);
        assert(!before(model.name, models[at - 1].name));
    }
    list.insert(at, info);
    proof {
        let after = models.insert(at as int, model);
        assert(info_models(list@) =~= after);
        assert forall|i: int, j: int| 0 <= i < j < after.len() implies !before(
            (#[trigger] after[j]).name,
            (#[trigger] after[i]).name,
        ) by {
            let x = if i < at {
                i
            } else {
                i - 1
            };
            let y = if j < at {
                j
            } else {
                j - 1
            };
            if i == at {
                assert(after[j] == models[y]);
                lemma_before_irreflexive(model.name, models[y].name);
            } else if j == at {
                assert(after[i] == models[x]);
                if i < at - 1 && before(model.name, models[i].name) {
                    assert(!before(models[at - 1].name, models[i].name));
                    lemma_before_total(models[i].name, models[at - 1].name);
                    if before(models[i].name, models[at - 1].name) {
                        lemma_before_transitive(
                            model.name,
                            models[i].name,
                            models[at - 1].name,
                        );
                    }
                }
            } else {
                assert(after[i] == models[x]);
                assert(after[j] == models[y]);
                assert(!before(models[y].name, models[x].name));
            }
        }
        broadcast use vstd::seq_lib::group_to_multiset_ensures;


    }
}

/// Lists what the capture directory holds, in the order of the names, unless one of its entries is
/// not a regular file of the owner with mode 0600 and a managed name.
pub fn list_captures(entries: Vec<CaptureEntry>, owner: u32) -> (result: Result<
    Vec<CaptureInfo>,
    DebugCaptureError,
>)
    ensures
        match first_unsafe(entries@, owner) {
            Some(path) => result matches Err(error) && error@
                == DebugCaptureErrorModel::UnsafeEntry(path),
            None => result matches Ok(list) && in_name_order(info_models(list@)) && info_models(
                list@,
            ).to_multiset() == entries@.map_values(|e: CaptureEntry| e.info()).to_multiset(),
        },
{
    let ghost all = entries@;
    let ghost infos = all.map_values(|e: CaptureEntry| e.info());
    let mut list: Vec<CaptureInfo> = Vec::new();
    proof {
        assert(all.skip(0) =~= all);
        assert(info_models(list@) =~= infos.take(0));
    }
    for entry in it: entries
        invariant
            it.seq() == all,
            infos == all.map_values(|e: CaptureEntry| e.info()),
            first_unsafe(all, owner) == first_unsafe(all.skip(it.index()), owner),
            in_name_order(info_models(list@)),
            info_models(list@).to_multiset() == infos.take(it.index()).to_multiset(),
    {
        let ghost i = it.index();
        proof {
            assert(all.skip(i)[0] == all[i]);
            assert(all.skip(i).drop_first() =~= all.skip(i + 1));
            assert(infos.take(i + 1) =~= infos.take(i).push(infos[i]));
            broadcast use vstd::seq_lib::group_to_multiset_ensures;

        }
        if entry.symlink || !entry.regular_file || entry.uid != owner || entry.mode & 0o777 != 0o600
            || !managed_name(entry.name.as_str()) {
            return Err(DebugCaptureError::UnsafeEntry(entry.path));
        }
        let created: u128 = match entry.created {
            Some(time) => time,
            None => 0,
        };
        let created_at = if created <= MAX_WRITTEN_TIME {
            timestamp(created)
        } else {
            "unknown".to_owned()
        };
        let info = CaptureInfo { name: entry.name, created_at, size_bytes: entry.size_bytes };
        assert(info@ == infos[i]);
        insert_by_name(&mut list, info);
    }
    proof {
        assert(infos.take(all.len() as int) =~= infos);
    }
    Ok(list)
}

/// The paths of the capture files to delete: those of every listed file, once all entries have
/// passed.
pub fn clean_captures(state_dir: &str, captures: &Vec<CaptureInfo>) -> (result: Vec<String>)
    ensures
        texts(result@) == Seq::new(
            captures@.len(),
            |i: int| below(below(state_dir@, "debug-captures"@), captures@[i].name@),
        ),
{
    let directory = capture_directory(state_dir);
    let mut paths: Vec<String> = Vec::new();
    for i in 0..captures.len()
        invariant
            directory@ == below(state_dir@, "debug-captures"@),
            paths@.len() == i,
            forall|j: int|
                0 <= j < i ==> (#[trigger] paths@[j])@ == below(directory@, captures@[j].name@),
    {
        paths.push(join_path(directory.as_str(), captures[i].name.as_str()));
    }
    paths
}

// ---------------------------------------------------------------------------
// Records
// ---------------------------------------------------------------------------

/// The schema of the records.
pub const CAPTURE_SCHEMA_VERSION: u64 = 1;

/// What is known of how an answer was delivered: nothing.
pub const DELIVERY_OUTCOME: &'static str = "not_observed";

/// A line of a capture file.
#[derive(Debug)]
pub enum CaptureRecord {
    RequestReceived {
        approval_id: String,
        claimed_backend: String,
        source_kind: SourceKind,
        wire_request: KnownApprovalRequest,
        deadline: String,
    },
    RequestCompleted {
        approval_id: String,
        terminal_state: TerminalState,
        decision_source: DecisionSource,
        reason: Option<String>,
        wait_duration_ms: u128,
    },
    PolicyDecision {
        claimed_backend: String,
        source_kind: SourceKind,
        wire_request: KnownApprovalRequest,
        rule: RuleDraft,
        decision: WebhookDecision,
    },
}

/// The contents of a [`CaptureRecord`].
pub enum RecordModel {
    RequestReceived {
        approval_id: Seq<char>,
        claimed_backend: Seq<char>,
        source_kind: SourceKind,
        wire_request: RequestModel,
        deadline: Seq<char>,
    },
    RequestCompleted {
        approval_id: Seq<char>,
        terminal_state: TerminalState,
        decision_source: DecisionSource,
        reason: Option<Seq<char>>,
        wait_duration_ms: u128,
    },
    PolicyDecision {
        claimed_backend: Seq<char>,
        source_kind: SourceKind,
        wire_request: RequestModel,
        rule: DraftModel,
        decision: DecisionModel,
    },
}

impl View for CaptureRecord {
    type V = RecordModel;

    open spec fn view(&self) -> RecordModel {
        match *self {
            CaptureRecord::RequestReceived {
                approval_id,
                claimed_backend,
                source_kind,
                wire_request,
                deadline,
            } => RecordModel::RequestReceived {
                approval_id: approval_id@,
                claimed_backend: claimed_backend@,
                source_kind,
                wire_request: wire_request@,
                deadline: deadline@,
            },
            CaptureRecord::RequestCompleted {
                approval_id,
                terminal_state,
                decision_source,
                reason,
                wait_duration_ms,
            } => RecordModel::RequestCompleted {
                approval_id: approval_id@,
                terminal_state,
                decision_source,
                reason: text_option(reason),
                wait_duration_ms,
            },
            CaptureRecord::PolicyDecision {
                claimed_backend,
                source_kind,
                wire_request,
                rule,
                decision,
            } => RecordModel::PolicyDecision {
                claimed_backend: claimed_backend@,
                source_kind,
                wire_request: wire_request@,
                rule: rule@,
                decision: decision@,
            },
        }
    }
}

impl CaptureRecord {
    /// The kind of the record.
    pub open spec fn event_name(self) -> Seq<char> {
        match self {
            CaptureRecord::RequestReceived { .. } => "request_received"@,
            CaptureRecord::RequestCompleted { .. } => "request_completed"@,
            CaptureRecord::PolicyDecision { .. } => "policy_decision"@,
        }
    }

    /// Names the kind of the record.
    pub fn event(&self) -> (result: &'static str)
        ensures
            result@ == self.event_name(),
    {
        match self {
            CaptureRecord::RequestReceived { .. } => "request_received",
            CaptureRecord::RequestCompleted { .. } => "request_completed",
            CaptureRecord::PolicyDecision { .. } => "policy_decision",
        }
    }
}

impl DecisionSource {
    /// The name of the source in records.
    pub open spec fn name(self) -> Seq<char> {
        match self {
            DecisionSource::Control => "control"@,
            DecisionSource::ControlSessionRule => "control_session_rule"@,
            DecisionSource::Deadline => "deadline"@,
            DecisionSource::Shutdown => "shutdown"@,
            DecisionSource::Disconnect => "disconnect"@,
        }
    }

    /// Names the source in records.
    pub fn as_str(&self) -> (result: &'static str)
        ensures
            result@ == self.name(),
    {
        match self {
            DecisionSource::Control => "control",
            DecisionSource::ControlSessionRule => "control_session_rule",
            DecisionSource::Deadline => "deadline",
            DecisionSource::Shutdown => "shutdown",
            DecisionSource::Disconnect => "disconnect",
        }
    }
}

/// The record of a request that was received.
pub open spec fn received_record(
    approval_id: Seq<char>,
    incoming: IncomingModel,
    deadline: Seq<char>,
) -> RecordModel {
    RecordModel::RequestReceived {
        approval_id,
        claimed_backend: incoming.claimed_backend,
        source_kind: incoming.request.source_kind(),
        wire_request: incoming.request,
        deadline,
    }
}

/// The denial reason that a completion record holds: safe to display.
pub open spec fn recorded_reason(decision: Option<DecisionModel>) -> Option<Seq<char>> {
    match decision {
        Some(DecisionModel::Denied { reason }) => Some(sanitized(reason)),
        _ => None,
    }
}

/// The record of a request that was completed. It does not repeat the request.
pub open spec fn completed_record(completion: CompletionModel) -> RecordModel {
    RecordModel::RequestCompleted {
        approval_id: completion.approval_id,
        terminal_state: completion.state,
        decision_source: completion.source,
        reason: recorded_reason(completion.decision),
        wait_duration_ms: completion.wait_duration / 1000000,
    }
}

// ---------------------------------------------------------------------------
// The capture of one run
// ---------------------------------------------------------------------------

/// What came of writing a record.
pub enum AppendOutcome {
    Written,
    NotSerialized(String),
    NotWritten(String),
}

impl AppendOutcome {
    /// What is kept of a failure.
    pub open spec fn category(self) -> Option<Seq<char>> {
        match self {
            AppendOutcome::Written => None,
            AppendOutcome::NotSerialized(detail) => Some("serialization:"@ + detail@),
            AppendOutcome::NotWritten(kind) => Some("io:"@ + kind@),
        }
    }
}

/// The capture of one run of the daemon: a file, and the failure that ended it, if one did.
#[derive(Debug)]
pub struct DebugCapture {
    path: String,
    failure: Option<String>,
}

/// The contents of a [`DebugCapture`].
pub struct CaptureModel {
    pub path: Seq<char>,
    pub failure: Option<Seq<char>>,
}

impl View for DebugCapture {
    type V = CaptureModel;

    closed spec fn view(&self) -> CaptureModel {
        CaptureModel { path: self.path@, failure: text_option(self.failure) }
    }
}

impl CaptureModel {
    /// What the status shows.
    pub open spec fn status(self) -> CaptureStatusModel {
        match self.failure {
            Some(error_category) => CaptureStatusModel::Failed { error_category },
            None => CaptureStatusModel::Enabled { path: self.path },
        }
    }

    /// The capture after a record was written, or not. The first failure is final.
    pub open spec fn after(self, outcome: AppendOutcome) -> CaptureModel {
        match self.failure {
            Some(_) => self,
            None => CaptureModel { path: self.path, failure: outcome.category() },
        }
    }
}

impl DebugCapture {
    /// Names a new capture file below the state directory.
    pub fn create(state_dir: &str, now: u128) -> (result: Result<Self, DebugCaptureError>)
        ensures
            match result {
                Ok(capture) => capture@.failure is None && exists|name: Seq<char>|
                    #![trigger is_managed_name(name)]
                    is_managed_name(name) && capture@.path == below(
                        below(state_dir@, "debug-captures"@),
                        name,
                    ) && exists|digits: Seq<char>|
                        name == #[trigger] capture_name(timestamp_text(now), digits),
                Err(error) => error@ is Random,
            },
    {
        let digits = match random_hex() {
            Ok(digits) => digits,
            Err(detail) => return Err(DebugCaptureError::Random(detail)),
        };
        let name = capture_file_name(now, digits.as_str());
        let path = join_path(capture_directory(state_dir).as_str(), name.as_str());
        proof {
            assert(is_managed_name(name@));
        }
        Ok(DebugCapture { path, failure: None })
    }

    /// The file that records go to.
    pub fn path(&self) -> (result: &str)
        ensures
            result@ == self@.path,
    {
        self.path.as_str()
    }

    /// Whether records are written, and where.
    pub fn status(&self) -> (result: DebugCaptureStatus)
        ensures
            result@ == self@.status(),
    {
        match &self.failure {
            Some(error_category) => DebugCaptureStatus::Failed {
                error_category: error_category.clone(),
            },
            None => DebugCaptureStatus::Enabled { path: self.path.clone() },
        }
    }

    /// The record to write for a request that was received; none once writing has failed.
    pub fn record_received(
        &self,
        approval_id: &ApprovalId,
        incoming: &IncomingApproval,
        deadline: &str,
    ) -> (result: Option<CaptureRecord>)
        ensures
            result is None <==> self@.failure is Some,
            result matches Some(record) ==> record@ == received_record(
                approval_id@,
                incoming@,
                deadline@,
            ),
    {
        if self.failure.is_some() {
            return None;
        }
        Some(
            CaptureRecord::RequestReceived {
                approval_id: approval_id.as_str().to_owned(),
                claimed_backend: incoming.claimed_backend.clone(),
                source_kind: incoming.request.source_kind(),
                wire_request: incoming.request.clone(),
                deadline: deadline.to_owned(),
            },
        )
    }

    /// The record to write for a request that was completed; none once writing has failed.
    pub fn record_completed(&self, completion: &Completion) -> (result: Option<CaptureRecord>)
        ensures
            result is None <==> self@.failure is Some,
            result matches Some(record) ==> record@ == completed_record(completion@),
    {
        if self.failure.is_some() {
            return None;
        }
        let reason = match &completion.decision {
            Some(WebhookDecision::Denied { reason }) => Some(sanitize(reason.as_str())),
            _ => None,
        };
        Some(
            CaptureRecord::RequestCompleted {
                approval_id: completion.approval_id.as_str().to_owned(),
                terminal_state: completion.state,
                decision_source: completion.source,
                reason,
                wait_duration_ms: completion.wait_duration / 1000000,
            },
        )
    }

    /// The record to write for a request that a session rule decided; none once writing has failed.
    pub fn record_policy_decision(
        &self,
        incoming: &IncomingApproval,
        rule: &RuleDraft,
        decision: &WebhookDecision,
    ) -> (result: Option<CaptureRecord>)
        ensures
            result is None <==> self@.failure is Some,
            result matches Some(record) ==> record@ == (RecordModel::PolicyDecision {
                claimed_backend: incoming@.claimed_backend,
                source_kind: incoming@.request.source_kind(),
                wire_request: incoming@.request,
                rule: rule@,
                decision: decision@,
            }),
    {
        if self.failure.is_some() {
            return None;
        }
        Some(
            CaptureRecord::PolicyDecision {
                claimed_backend: incoming.claimed_backend.clone(),
                source_kind: incoming.request.source_kind(),
                wire_request: incoming.request.clone(),
                rule: rule.clone(),
                decision: decision.clone(),
            },
        )
    }

    /// Takes note of whether a record was written. The first failure ends the capture for good and
    /// gives the message to log; later ones give none.
    pub fn appended(&mut self, outcome: AppendOutcome) -> (result: Option<String>)
        ensures
            final(self)@ == old(self)@.after(outcome),
            match (old(self)@.failure, outcome) {
                (None, AppendOutcome::NotWritten(kind)) => result matches Some(message) && message@
                    == "debug capture failed and has been disabled: "@ + ("io:"@ + kind@),
                _ => result is None,
            },
    {
        if self.failure.is_some() {
            return None;
        }
        match outcome {
            AppendOutcome::Written => None,
            AppendOutcome::NotSerialized(detail) => {
                self.failure = Some(with_detail("serialization:", detail.as_str()));
                None
            },
            AppendOutcome::NotWritten(kind) => {
                let category = with_detail("io:", kind.as_str());
                let message = with_detail(
                    "debug capture failed and has been disabled: ",
                    category.as_str(),
                );
                self.failure = Some(category);
                Some(message)
            },
        }
    }
}

/// A capture that has failed stays failed, under the category of its first failure, whatever comes
/// of later records.
pub proof fn capture_failures_are_final(capture: CaptureModel, outcomes: Seq<AppendOutcome>)
    requires
        capture.failure is Some,
    ensures
        outcomes.fold_left(capture, |c: CaptureModel, o: AppendOutcome| c.after(o)) == capture,
    decreases outcomes.len(),
{
    reveal_with_fuel(Seq::fold_left, 2);
    if outcomes.len() > 0 {
        capture_failures_are_final(capture, outcomes.drop_last());
    }
}

// ---------------------------------------------------------------------------
// Laws
// ---------------------------------------------------------------------------

/// A managed name is a stamp, a dash, sixteen lowercase hexadecimal digits and `.ndjson`, and
/// nothing else is one.
pub proof fn managed_names_are_stamp_and_digits(
    stamp: Seq<char>,
    digits: Seq<char>,
    name: Seq<char>,
)
    requires
        digits.len() == 16,
    ensures
        is_managed_name(stamp + seq!['-'] + digits + ".ndjson"@) <==> stamp.len() > 0 && (forall|
            i: int,
        |
            0 <= i < stamp.len() ==> {
                let c = #[trigger] stamp[i];
                '0' <= c <= '9' || c == 'T' || c == 'Z' || c == '-' || c == '+'
            }) && (forall|i: int|
            0 <= i < 16 ==> '0' <= #[trigger] digits[i] <= '9' || 'a' <= digits[i] <= 'f'),
        is_managed_name(name) ==> name.len() > 24 && name == name.take(name.len() - 24) + seq!['-']
            + name.subrange(name.len() - 23, name.len() - 7) + ".ndjson"@,
{
    reveal_strlit(".ndjson");
    let whole = stamp + seq!['-'] + digits + ".ndjson"@;
    let n = stamp.len() as int;
    assert(whole.len() == n + 24);
    assert(whole.skip(whole.len() - 7) =~= ".ndjson"@);
    assert(whole[n] == '-');
    assert forall|i: int| 0 <= i < n implies #[trigger] whole[i] == stamp[i] by {}
    assert forall|i: int| n < i < n + 17 implies #[trigger] whole[i] == digits[i - n - 1] by {}
    if is_managed_name(whole) {
        assert forall|i: int| 0 <= i < n implies is_stamp_char(#[trigger] stamp[i]) by {
            assert(is_stamp_char(whole[i]));
        }
        assert forall|i: int| 0 <= i < 16 implies is_hex(#[trigger] digits[i]) by {
            assert(is_hex(whole[n + 1 + i]));
        }
    }
    if stamp.len() > 0 && (forall|i: int|
        0 <= i < stamp.len() ==> {
            let c = #[trigger] stamp[i];
            '0' <= c <= '9' || c == 'T' || c == 'Z' || c == '-' || c == '+'
        }) && (forall|i: int|
        0 <= i < 16 ==> '0' <= #[trigger] digits[i] <= '9' || 'a' <= digits[i] <= 'f') {
        assert forall|i: int| n < i < n + 17 implies is_hex(#[trigger] whole[i]) by {
            assert(whole[i] == digits[i - n - 1]);
        }
        assert forall|i: int| 0 <= i < n implies is_stamp_char(#[trigger] whole[i]) by {
            assert(whole[i] == stamp[i]);
        }
    }
    if is_managed_name(name) {
        let m = name.len() - 24;
        assert(name.skip(name.len() - 7) =~= ".ndjson"@);
        assert forall|i: int| m + 17 <= i < name.len() implies #[trigger] name[i] == ".ndjson"@[i
            - m - 17] by {
            assert(name.skip(name.len() - 7)[i - m - 17] == name[i]);
        }
        assert(name =~= name.take(m) + seq!['-'] + name.subrange(m + 1, m + 17) + ".ndjson"@);
    }
}

/// The stamp in a name is the time with colons and points as dashes and everything else kept.
pub proof fn stamps_keep_the_time(time: Seq<char>, digits: Seq<char>)
    ensures
        stamp_of(time).len() == time.len(),
        forall|i: int|
            0 <= i < time.len() ==> #[trigger] stamp_of(time)[i] == if time[i] == ':' || time[i]
                == '.' {
                '-'
            } else {
                time[i]
            },
        capture_name(time, digits) == stamp_of(time) + seq!['-'] + digits + ".ndjson"@,
{
    reveal_strlit("-");
    assert("-"@ =~= seq!['-']);
}

/// An entry of the capture directory is safe exactly if it is a regular file, no link, the owner's
/// alone, and has a managed name; what is told of it is its name, its size and when it was made.
pub proof fn safe_entries_are_the_owners_files(entry: CaptureEntry, owner: u32)
    ensures
        entry.is_safe(owner) ==> !entry.symlink,
        entry.is_safe(owner) ==> entry.regular_file,
        entry.is_safe(owner) ==> entry.uid == owner,
        entry.is_safe(owner) ==> entry.mode & 0o777 == 0o600,
        entry.is_safe(owner) ==> is_managed_name(entry.name@),
        !entry.symlink && entry.regular_file && entry.uid == owner && entry.mode & 0o777 == 0o600
            && is_managed_name(entry.name@) ==> entry.is_safe(owner),
        entry.info().name == entry.name@,
        entry.info().size_bytes == entry.size_bytes,
        entry.created matches Some(time) ==> (time <= MAX_WRITTEN_TIME ==> entry.info().created_at
            == timestamp_text(time)),
        entry.created matches Some(time) ==> (time > MAX_WRITTEN_TIME ==> entry.info().created_at
            == "unknown"@),
        entry.created is None ==> entry.info().created_at == timestamp_text(0),
{
}

/// The directory is refused exactly if it holds an entry that is not safe, and the first such entry
/// is told.
pub proof fn the_first_unsafe_entry_is_told(entries: Seq<CaptureEntry>, owner: u32)
    ensures
        first_unsafe(entries, owner) is None <==> forall|i: int|
            0 <= i < entries.len() ==> (#[trigger] entries[i]).is_safe(owner),
        first_unsafe(entries, owner) matches Some(path) ==> exists|i: int|
            0 <= i < entries.len() && !(#[trigger] entries[i]).is_safe(owner) && path
                == entries[i].path@ && forall|j: int|
                0 <= j < i ==> (#[trigger] entries[j]).is_safe(owner),
    decreases entries.len(),
{
    if entries.len() > 0 {
        if entries[0].is_safe(owner) {
            let rest = entries.drop_first();
            the_first_unsafe_entry_is_told(rest, owner);
            assert forall|i: int| 0 <= i < rest.len() implies #[trigger] rest[i] == entries[i
                + 1] by {}
            if first_unsafe(rest, owner) is Some {
                let i = choose|i: int|
                    0 <= i < rest.len() && !(#[trigger] rest[i]).is_safe(owner) && first_unsafe(
                        rest,
                        owner,
                    )->0 == rest[i].path@ && forall|j: int|
                        0 <= j < i ==> (#[trigger] rest[j]).is_safe(owner);
                assert(entries[i + 1] == rest[i]);
                assert forall|j: int| 0 <= j < i + 1 implies (#[trigger] entries[j]).is_safe(
                    owner,
                ) by {
                    if j > 0 {
                        assert(rest[j - 1] == entries[j]);
                    }
                }
            } else {
                assert forall|i: int| 0 <= i < entries.len() implies (
                #[trigger] entries[i]).is_safe(owner) by {
                    if i > 0 {
                        assert(rest[i - 1] == entries[i]);
                    }
                }
            }
        }
    }
}

/// A record of a request holds the request as it came, with its approval, backend and deadline; a
/// record of its end holds how it ended, who ended it, after how many milliseconds, and the reason
/// of a denial in visible form.
pub proof fn records_hold_what_happened(
    approval_id: Seq<char>,
    incoming: IncomingModel,
    deadline: Seq<char>,
    completion: CompletionModel,
)
    ensures
        received_record(approval_id, incoming, deadline) matches RecordModel::RequestReceived {
            approval_id: told,
            claimed_backend,
            source_kind,
            wire_request,
            deadline: end,
        } && told == approval_id && claimed_backend == incoming.claimed_backend && source_kind
            == incoming.request.source_kind() && wire_request == incoming.request && end
            == deadline,
        completed_record(completion) matches RecordModel::RequestCompleted {
            approval_id: told,
            terminal_state,
            decision_source,
            reason,
            wait_duration_ms,
        } && told == completion.approval_id && terminal_state == completion.state
            && decision_source == completion.source && wait_duration_ms * 1000000
            <= completion.wait_duration < (wait_duration_ms + 1) * 1000000 && (reason is Some
            <==> completion.decision is Some && completion.decision->0 is Denied),
        completion.decision matches Some(DecisionModel::Denied { reason }) ==> completed_record(
            completion,
        )->RequestCompleted_reason == Some(sanitized(reason)),
{
}

/// Records and sources are told apart by their names.
pub proof fn records_are_told_apart_by_name(record: CaptureRecord, source: DecisionSource)
    ensures
        record is RequestReceived ==> record.event_name() == "request_received"@,
        record is RequestCompleted ==> record.event_name() == "request_completed"@,
        record is PolicyDecision ==> record.event_name() == "policy_decision"@,
        source is Control ==> source.name() == "control"@,
        source is ControlSessionRule ==> source.name() == "control_session_rule"@,
        source is Deadline ==> source.name() == "deadline"@,
        source is Shutdown ==> source.name() == "shutdown"@,
        source is Disconnect ==> source.name() == "disconnect"@,
{
}

/// A record that is written changes nothing; the first that is not ends the capture, and its kind
/// is what the status tells from then on.
pub proof fn the_first_failure_ends_the_capture(capture: CaptureModel, outcome: AppendOutcome)
    requires
        capture.failure is None,
    ensures
        capture.status() == (CaptureStatusModel::Enabled { path: capture.path }),
        capture.after(outcome).path == capture.path,
        outcome is Written <==> capture.after(outcome).failure is None,
        outcome is Written ==> capture.after(outcome) == capture,
        outcome matches AppendOutcome::NotSerialized(detail) ==> capture.after(outcome).status()
            == (CaptureStatusModel::Failed { error_category: "serialization:"@ + detail@ }),
        outcome matches AppendOutcome::NotWritten(kind) ==> capture.after(outcome).status() == (
        CaptureStatusModel::Failed { error_category: "io:"@ + kind@ }),
{
}

/// What is told of captures is seen as what its fields hold.
pub proof fn captures_are_seen_field_by_field(
    status: DebugCaptureStatus,
    info: CaptureInfo,
    record: CaptureRecord,
)
    ensures
        status is Disabled <==> status@ is Disabled,
        status matches DebugCaptureStatus::Enabled { path } ==> status@ == (
        CaptureStatusModel::Enabled { path: path@ }),
        status matches DebugCaptureStatus::Failed { error_category } ==> status@ == (
        CaptureStatusModel::Failed { error_category: error_category@ }),
        info@.name == info.name@,
        info@.created_at == info.created_at@,
        info@.size_bytes == info.size_bytes,
        record matches CaptureRecord::RequestReceived {
            approval_id,
            claimed_backend,
            source_kind,
            wire_request,
            deadline,
        } ==> record@ == (RecordModel::RequestReceived {
            approval_id: approval_id@,
            claimed_backend: claimed_backend@,
            source_kind,
            wire_request: wire_request@,
            deadline: deadline@,
        }),
        record matches CaptureRecord::RequestCompleted {
            approval_id,
            terminal_state,
            decision_source,
            reason,
            wait_duration_ms,
        } ==> record@ == (RecordModel::RequestCompleted {
            approval_id: approval_id@,
            terminal_state,
            decision_source,
            reason: text_option(reason),
            wait_duration_ms,
        }),
        record matches CaptureRecord::PolicyDecision {
            claimed_backend,
            source_kind,
            wire_request,
            rule,
            decision,
        } ==> record@ == (RecordModel::PolicyDecision {
            claimed_backend: claimed_backend@,
            source_kind,
            wire_request: wire_request@,
            rule: rule@,
            decision: decision@,
        }),
{
}

/// Every refusal says what is wrong.
pub proof fn capture_refusals_say_what_is_wrong(
    text: Seq<char>,
    error: crate::runtime_path::RuntimePathErrorModel,
)
    ensures
        DebugCaptureErrorModel::UnsafeEntry(text).message()
            == "unsafe entry in managed capture directory: "@ + text,
        DebugCaptureErrorModel::Random(text).message() == "operating-system randomness failed: "@
            + text,
        DebugCaptureErrorModel::RuntimePath(error).message() == error.message(),
        DebugCaptureErrorModel::Io(text).message() == text,
{
}

/// Capture files that are listed in order are listed by name: none goes before an earlier one.
pub proof fn listed_captures_are_sorted(list: Seq<CaptureInfoModel>, i: int, j: int)
    requires
        in_name_order(list),
        0 <= i < j < list.len(),
    ensures
        list[i].name == list[j].name || before(list[i].name, list[j].name),
{
    lemma_before_total(list[i].name, list[j].name);
}

/// What is cleaned is each listed file, in the capture directory below the state.
pub proof fn listed_captures_are_cleaned(
    state_dir: &str,
    captures: &Vec<CaptureInfo>,
    paths: Vec<String>,
    i: int,
)
    requires
        call_ensures(clean_captures, (state_dir, captures), paths),
        0 <= i < captures@.len(),
    ensures
        paths@.len() == captures@.len(),
        paths@[i]@ == below(below(state_dir@, "debug-captures"@), captures@[i].name@),
{
    assert(texts(paths@).len() == paths@.len());
    assert(texts(paths@)[i] == paths@[i]@);
}

/// A list of capture files is seen in its own order, one for one.
pub proof fn capture_lists_are_seen_in_order(list: Seq<CaptureInfo>)
    ensures
        info_models(list).len() == list.len(),
        forall|i: int| 0 <= i < list.len() ==> #[trigger] info_models(list)[i] == list[i]@,
{
}

} // verus!
