//! The configuration file: its values, their validation, and what must hold of the file itself.
use vstd::prelude::*;
use vstd::string::StringExecFns;

use crate::broker::{DEFAULT_MAX_PENDING, DEFAULT_MAX_PER_SESSION};
use crate::clock::SECOND;
use crate::runtime_path::{Lookup, RuntimePathError, RuntimePathErrorModel};
use crate::text::{chars, decimal, decimal_text, join, join_texts, texts, with_detail};

verus! {

/// The schema of the configuration file.
pub const SCHEMA_VERSION: u32 = 1;

/// The first duration that is too long to be held, in nanoseconds: 2^64 seconds.
pub const DURATION_LIMIT: u128 = 18446744073709551616000000000;

/// Why a duration that is too long is refused.
pub const TOO_LONG: &'static str =
    "number is too large or cannot be represented without a lack of precision (values below 1ns are not supported)";

/// An IP address.
#[derive(Clone, Copy, Debug, PartialEq, Eq, Structural)]
pub enum ListenIp {
    V4(u8, u8, u8, u8),
    V6(u16, u16, u16, u16, u16, u16, u16, u16),
}

/// An IP address and a port.
#[derive(Clone, Copy, Debug, PartialEq, Eq, Structural)]
pub struct ListenAddr {
    pub ip: ListenIp,
    pub port: u16,
}

impl ListenIp {
    /// The addresses of this machine alone: 127.0.0.0/8 and ::1.
    pub open spec fn loopback(self) -> bool {
        match self {
            ListenIp::V4(first, _, _, _) => first == 127,
            ListenIp::V6(a, b, c, d, e, f, g, h) => a == 0 && b == 0 && c == 0 && d == 0 && e == 0
                && f == 0 && g == 0 && h == 1,
        }
    }

    /// Whether the address is one of this machine alone.
    pub fn is_loopback(&self) -> (result: bool)
        ensures
            result == self.loopback(),
    {
        match self {
            ListenIp::V4(first, _, _, _) => *first == 127,
            ListenIp::V6(a, b, c, d, e, f, g, h) => *a == 0 && *b == 0 && *c == 0 && *d == 0 && *e
                == 0 && *f == 0 && *g == 0 && *h == 1,
        }
    }
}

/// The part of the configuration about the webhook.
#[derive(Debug)]
pub struct WebhookConfig {
    pub listen: ListenAddr,
}

/// The part of the configuration about approvals.
#[derive(Debug)]
pub struct ApprovalConfig {
    pub request_timeout: String,
    pub max_pending: usize,
    pub max_per_session: usize,
    pub max_body: String,
}

/// The configuration as the file holds it.
#[derive(Debug)]
pub struct ConfigFile {
    pub schema_version: u32,
    pub webhook: WebhookConfig,
    pub approval: ApprovalConfig,
}

/// The contents of a [`ConfigFile`].
pub struct ConfigModel {
    pub schema_version: u32,
    pub listen: ListenAddr,
    pub request_timeout: Seq<char>,
    pub max_pending: usize,
    pub max_per_session: usize,
    pub max_body: Seq<char>,
}

impl View for ConfigFile {
    type V = ConfigModel;

    open spec fn view(&self) -> ConfigModel {
        ConfigModel {
            schema_version: self.schema_version,
            listen: self.webhook.listen,
            request_timeout: self.approval.request_timeout@,
            max_pending: self.approval.max_pending,
            max_per_session: self.approval.max_per_session,
            max_body: self.approval.max_body@,
        }
    }
}

/// The configuration as the daemon uses it; the timeout is in nanoseconds.
#[derive(Clone, Copy, Debug, PartialEq, Eq, Structural)]
pub struct ResolvedConfig {
    pub webhook_listen: ListenAddr,
    pub request_timeout: u128,
    pub max_pending: usize,
    pub max_per_session: usize,
    pub max_body_bytes: usize,
}

/// Why a configuration cannot be used.
#[derive(Debug, PartialEq, Eq)]
pub enum ConfigError {
    Missing(String),
    UnsafeFile(String),
    UnsafePermissions(String),
    SchemaVersion(u32),
    NonLoopback,
    ZeroLimit,
    PerSessionExceedsGlobal,
    InvalidDuration(String),
    InvalidByteSize(String),
    RuntimePath(RuntimePathError),
    TomlDecode(String),
    TomlEncode(String),
    Io(String),
}

/// The contents of a [`ConfigError`].
pub enum ConfigErrorModel {
    Missing(Seq<char>),
    UnsafeFile(Seq<char>),
    UnsafePermissions(Seq<char>),
    SchemaVersion(u32),
    NonLoopback,
    ZeroLimit,
    PerSessionExceedsGlobal,
    InvalidDuration(Seq<char>),
    InvalidByteSize(Seq<char>),
    RuntimePath(RuntimePathErrorModel),
    TomlDecode(Seq<char>),
    TomlEncode(Seq<char>),
    Io(Seq<char>),
}

impl View for ConfigError {
    type V = ConfigErrorModel;

    open spec fn view(&self) -> ConfigErrorModel {
        match *self {
            ConfigError::Missing(path) => ConfigErrorModel::Missing(path@),
            ConfigError::UnsafeFile(path) => ConfigErrorModel::UnsafeFile(path@),
            ConfigError::UnsafePermissions(path) => ConfigErrorModel::UnsafePermissions(path@),
            ConfigError::SchemaVersion(version) => ConfigErrorModel::SchemaVersion(version),
            ConfigError::NonLoopback => ConfigErrorModel::NonLoopback,
            ConfigError::ZeroLimit => ConfigErrorModel::ZeroLimit,
            ConfigError::PerSessionExceedsGlobal => ConfigErrorModel::PerSessionExceedsGlobal,
            ConfigError::InvalidDuration(detail) => ConfigErrorModel::InvalidDuration(detail@),
            ConfigError::InvalidByteSize(detail) => ConfigErrorModel::InvalidByteSize(detail@),
            ConfigError::RuntimePath(error) => ConfigErrorModel::RuntimePath(error@),
            ConfigError::TomlDecode(detail) => ConfigErrorModel::TomlDecode(detail@),
            ConfigError::TomlEncode(detail) => ConfigErrorModel::TomlEncode(detail@),
            ConfigError::Io(detail) => ConfigErrorModel::Io(detail@),
        }
    }
}

impl ConfigErrorModel {
    /// The error as people read it.
    pub open spec fn message(self) -> Seq<char> {
        match self {
            ConfigErrorModel::Missing(path) =>
                "configuration file does not exist; run `nono-approval setup` first: "@ + path,
            ConfigErrorModel::UnsafeFile(path) =>
                "configuration path must be a regular file owned by the current user: "@ + path,
            ConfigErrorModel::UnsafePermissions(path) =>
                "configuration file permissions must be 0600: "@ + path,
            ConfigErrorModel::SchemaVersion(version) =>
                "unsupported configuration schema version "@ + decimal(version as nat),
            ConfigErrorModel::NonLoopback => "webhook listener must use a loopback IP address"@,
            ConfigErrorModel::ZeroLimit => "pending limits must be greater than zero"@,
            ConfigErrorModel::PerSessionExceedsGlobal =>
                "max_per_session must not exceed max_pending"@,
            ConfigErrorModel::InvalidDuration(detail) => "invalid request_timeout: "@ + detail,
            ConfigErrorModel::InvalidByteSize(detail) => "invalid max_body: "@ + detail,
            ConfigErrorModel::RuntimePath(error) => error.message(),
            ConfigErrorModel::TomlDecode(detail) => detail,
            ConfigErrorModel::TomlEncode(detail) => detail,
            ConfigErrorModel::Io(detail) => detail,
        }
    }
}

impl ConfigError {
    /// The error as people read it.
    pub fn message(&self) -> (result: String)
        ensures
            result@ == self@.message(),
    {
        match self {
            ConfigError::Missing(path) => with_detail(
                "configuration file does not exist; run `nono-approval setup` first: ",
                path.as_str(),
            ),
            ConfigError::UnsafeFile(path) => with_detail(
                "configuration path must be a regular file owned by the current user: ",
                path.as_str(),
            ),
            ConfigError::UnsafePermissions(path) => with_detail(
                "configuration file permissions must be 0600: ",
                path.as_str(),
            ),
            ConfigError::SchemaVersion(version) => with_detail(
                "unsupported configuration schema version ",
                decimal_text(*version as u64).as_str(),
            ),
            ConfigError::NonLoopback => "webhook listener must use a loopback IP address".to_owned(),
            ConfigError::ZeroLimit => "pending limits must be greater than zero".to_owned(),
            ConfigError::PerSessionExceedsGlobal =>
                "max_per_session must not exceed max_pending".to_owned(),
            ConfigError::InvalidDuration(detail) => with_detail(
                "invalid request_timeout: ",
                detail.as_str(),
            ),
            ConfigError::InvalidByteSize(detail) => with_detail(
                "invalid max_body: ",
                detail.as_str(),
            ),
            ConfigError::RuntimePath(error) => error.message(),
            ConfigError::TomlDecode(detail) => detail.clone(),
            ConfigError::TomlEncode(detail) => detail.clone(),
            ConfigError::Io(detail) => detail.clone(),
        }
    }
}

// ---------------------------------------------------------------------------
// Durations and sizes
// ---------------------------------------------------------------------------

pub open spec fn is_digit(c: char) -> bool {
    '0' <= c <= '9'
}

/// A letter that the name of a unit may hold.
pub open spec fn is_letter(c: char) -> bool {
    'a' <= c <= 'z' || 'A' <= c <= 'Z' || c == 'µ'
}

pub open spec fn has_letter(text: Seq<char>) -> bool {
    exists|i: int| 0 <= i < text.len() && is_letter(#[trigger] text[i])
}

/// A character that Unicode counts as white space.
pub open spec fn is_space(c: char) -> bool {
    ||| '\u{9}' <= c <= '\u{d}'
    ||| c == ' ' || c == '\u{85}' || c == '\u{a0}' || c == '\u{1680}'
    ||| '\u{2000}' <= c <= '\u{200a}'
    ||| c == '\u{2028}' || c == '\u{2029}' || c == '\u{202f}' || c == '\u{205f}' || c == '\u{3000}'
}

/// Whether a character begins a new part of a written duration: behind the unit of the part before
/// it stands a digit, or anything but white space once white space has followed the unit.
pub open spec fn begins_part(part: Seq<char>, c: char) -> bool {
    has_letter(part) && (is_digit(c) || (is_space(part.last()) && !is_space(c)))
}

/// The parts of a written duration, one for each number with its unit.
pub open spec fn duration_parts(text: Seq<char>) -> Seq<Seq<char>>
    decreases text.len(),
{
    if text.len() == 0 {
        Seq::empty()
    } else {
        let parts = duration_parts(text.drop_last());
        if parts.len() == 0 || begins_part(parts.last(), text.last()) {
            parts.push(seq![text.last()])
        } else {
            parts.drop_last().push(parts.last().push(text.last()))
        }
    }
}

/// The duration that a text denotes, in nanoseconds, or why it denotes none.
pub uninterp spec fn written_duration(text: Seq<char>) -> Result<u128, Seq<char>>;

/// The number of bytes that a text denotes, or why it denotes none.
pub uninterp spec fn written_size(text: Seq<char>) -> Result<u64, Seq<char>>;

/// The sum of those durations that could be read.
pub open spec fn read_sum(read: Seq<Option<u128>>) -> nat
    decreases read.len(),
{
    if read.len() == 0 {
        0
    } else {
        read_sum(read.drop_last()) + match read.last() {
            Some(nanoseconds) => nanoseconds as nat,
            None => 0,
        }
    }
}

/// What could be read up to the first that could not.
pub open spec fn leading(read: Seq<Option<u128>>) -> Seq<Option<u128>>
    decreases read.len(),
{
    if read.len() == 0 {
        read
    } else if leading(read.drop_last()) == read.drop_last() && read.last() is Some {
        read
    } else {
        leading(read.drop_last())
    }
}

/// Whether durations, added one to another, stay below the first duration that is too long to be
/// held. Where one could not be read, those before it stay a second below it.
pub open spec fn is_holdable(read: Seq<Option<u128>>) -> bool {
    read_sum(leading(read)) + (if leading(read).len() < read.len() {
        SECOND as nat
    } else {
        0nat
    }) < DURATION_LIMIT
}

/// What each part denotes on its own, if it denotes a duration.
pub open spec fn part_durations(parts: Seq<Seq<char>>) -> Seq<Option<u128>> {
    Seq::new(
        parts.len(),
        |i: int|
            match written_duration(parts[i]) {
                Ok(nanoseconds) => Some(nanoseconds),
                Err(_) => None,
            },
    )
}

/// Whether a text is read as a whole: it has one part, or its parts can be held together.
pub open spec fn is_readable(text: Seq<char>) -> bool {
    duration_parts(text).len() <= 1 || is_holdable(part_durations(duration_parts(text)))
}

/// Calls `humantime::parse_duration`. What a text denotes, and the error's text where it denotes
/// nothing, depend on the text alone and are named here.
///
/// The call reads one number with its unit after another, as each of the parts is read on its own,
/// and adds them up. It panics exactly where the seconds have come to `u64::MAX` and a further number
/// of milliseconds, microseconds or nanoseconds, or a further fraction, makes the nanoseconds one
/// whole second. A single part never gets there: a fraction is less than its unit, and no number of
/// minutes comes to `u64::MAX` seconds. Several parts that denote durations get there only if they
/// come to 2^64 seconds. The first part that denotes nothing on its own ends the reading; before that,
/// its whole number may be added, which takes parts before it of `u64::MAX` seconds to get there.
#[verifier::external_body]
fn parse_written_duration(text: &str) -> (result: Result<u128, String>)
    requires
        is_readable(text@),
    ensures
        text_result(result) == written_duration(text@),
{
    match humantime::parse_duration(text) {
        Ok(duration) => Ok(duration.as_nanos()),
        Err(error) => Err(error.to_string()),
    }
}

/// Calls `bytesize::ByteSize::from_str`. What a text denotes, and the error's text where it denotes
/// nothing, depend on the text alone and are named here.
#[verifier::external_body]
fn parse_written_size(text: &str) -> (result: Result<u64, String>)
    ensures
        text_result(result) == written_size(text@),
{
    match text.parse::<bytesize::ByteSize>() {
        Ok(size) => Ok(size.as_u64()),
        Err(error) => Err(error),
    }
}

/// What a text denotes where it is read as a whole, and otherwise that it is too long.
pub open spec fn whole_duration(text: Seq<char>) -> Result<u128, Seq<char>> {
    if is_readable(text) {
        written_duration(text)
    } else {
        Err(TOO_LONG@)
    }
}

/// A text with a zero in place of each digit.
pub open spec fn zeroed(text: Seq<char>) -> Seq<char> {
    text.map_values(
        |c: char|
            if is_digit(c) {
                '0'
            } else {
                c
            },
    )
}

/// The duration that a text denotes, in nanoseconds, or why it denotes none: it is not a duration, or
/// its parts come to more than can be held.
///
/// Where the parts before an unreadable one come to the last second that can be held, they are read
/// by themselves. What is wrong with the unreadable part is then told by the same text with zeros
/// before it.
pub open spec fn duration_of(text: Seq<char>) -> Result<u128, Seq<char>> {
    let parts = duration_parts(text);
    let count = leading(part_durations(parts)).len() as int;
    if is_readable(text) {
        written_duration(text)
    } else if read_sum(leading(part_durations(parts))) >= DURATION_LIMIT {
        Err(TOO_LONG@)
    } else {
        let start = join(parts.take(count), ""@);
        match whole_duration(start) {
            Err(detail) => Err(detail),
            Ok(_) => whole_duration(zeroed(start) + join(parts.skip(count), ""@)),
        }
    }
}

/// A text that is one part.
spec fn is_single(text: Seq<char>) -> bool {
    forall|j: int| 0 < j < text.len() ==> !begins_part(text.take(j), #[trigger] text[j])
}

proof fn lemma_parts_are_single(text: Seq<char>)
    ensures
        forall|i: int|
            0 <= i < duration_parts(text).len() ==> is_single(#[trigger] duration_parts(text)[i]),
    decreases text.len(),
{
    if text.len() > 0 {
        lemma_parts_are_single(text.drop_last());
        let before = duration_parts(text.drop_last());
        let after = duration_parts(text);
        assert forall|i: int| 0 <= i < after.len() implies is_single(#[trigger] after[i]) by {
            if i < after.len() - 1 {
                assert(after[i] == before[i]);
            } else if before.len() == after.len() {
                assert(is_single(before[i]));
                assert(after[i] == before[i].push(text.last()));
                assert forall|j: int| 0 < j < after[i].len() implies !begins_part(
                    after[i].take(j),
                    #[trigger] after[i][j],
                ) by {
                    assert(after[i].take(j) =~= before[i].take(j));
                    if j < before[i].len() {
                        assert(after[i][j] == before[i][j]);
                    } else {
                        assert(before[i].take(j) =~= before[i]);
                    }
                }
            }
        }
    }
}

proof fn lemma_single_is_one_part(text: Seq<char>)
    requires
        is_single(text),
    ensures
        text.len() > 0 ==> duration_parts(text) == seq![text],
    decreases text.len(),
{
    if text.len() > 0 {
        let front = text.drop_last();
        assert forall|j: int| 0 < j < front.len() implies !begins_part(
            front.take(j),
            #[trigger] front[j],
        ) by {
            assert(front.take(j) =~= text.take(j));
            assert(front[j] == text[j]);
        }
        lemma_single_is_one_part(front);
        if front.len() == 0 {
            assert(duration_parts(front) =~= Seq::empty());
            assert(seq![text.last()] =~= text);
            assert(duration_parts(text) =~= seq![text]);
        } else {
            assert(text.take(text.len() - 1) =~= front);
            assert(!begins_part(text.take(text.len() - 1), text[text.len() - 1]));
            assert(front.push(text.last()) =~= text);
            assert(duration_parts(text) =~= seq![text]);
        }
    }
}

/// Whether a character is white space.
fn space(c: char) -> (result: bool)
    ensures
        result == is_space(c),
{
    ('\u{9}' <= c && c <= '\u{d}') || c == ' ' || c == '\u{85}' || c == '\u{a0}' || c == '\u{1680}'
        || ('\u{2000}' <= c && c <= '\u{200a}') || c == '\u{2028}' || c == '\u{2029}' || c
        == '\u{202f}' || c == '\u{205f}' || c == '\u{3000}'
}

/// Splits a written duration into its parts.
fn split_duration(text: &str) -> (result: Vec<String>)
    ensures
        texts(result@) == duration_parts(text@),
{
    let all = chars(text);
    let mut done: Vec<String> = Vec::new();
    let mut current = String::new();
    let mut lettered: bool = false;
    let mut spaced: bool = false;
    assert(text@.take(0) =~= Seq::empty());
    assert(texts(done@) =~= Seq::empty());
    for i in 0..all.len()
        invariant
            all@ == text@,
            lettered == has_letter(current@),
            current@.len() > 0 ==> spaced == is_space(current@.last()),
            i > 0 ==> current@.len() > 0,
            if i == 0 {
                done@.len() == 0 && current@.len() == 0
            } else {
                duration_parts(text@.take(i as int)) == texts(done@).push(current@)
            },
    {
        let c = all[i];
        let ghost before = text@.take(i as int);
        let ghost earlier = current@;
        assert(text@.take(i + 1).drop_last() =~= before);
        let digit = '0' <= c && c <= '9';
        let letter = ('a' <= c && c <= 'z') || ('A' <= c && c <= 'Z') || c == 'µ';
        let blank = space(c);
        let split = lettered && (digit || (spaced && !blank));
        if split {
            let ghost parts = texts(done@);
            done.push(current);
            assert(texts(done@) =~= parts.push(earlier));
            current = String::new();
            lettered = false;
        }
        let ghost start = current@;
        current.push(c);
        proof {
            assert(current@ == start.push(c));
            if has_letter(start) {
                let k = choose|k: int| 0 <= k < start.len() && is_letter(#[trigger] start[k]);
                assert(is_letter(current@[k]));
            }
            if letter {
                assert(is_letter(current@[start.len() as int]));
            }
            if has_letter(current@) && !letter {
                let k = choose|k: int|
                    0 <= k < current@.len() && is_letter(#[trigger] current@[k]);
                assert(is_letter(start[k]));
            }
            assert(start.len() == 0 ==> start.push(c) =~= seq![c]);
            assert(text@.take(i + 1).last() == c);
            assert(split == begins_part(earlier, c));
            if i == 0 {
                assert(before =~= Seq::empty());
                assert(duration_parts(before) =~= Seq::empty());
                assert(texts(done@) =~= Seq::empty());
                assert(!has_letter(earlier));
            } else if split {
                assert(duration_parts(before) == texts(done@));
                assert(duration_parts(before).last() == earlier);
            } else {
                assert(duration_parts(before).last() == earlier);
                assert(duration_parts(before).drop_last() =~= texts(done@));
            }
            assert(duration_parts(text@.take(i + 1)) =~= texts(done@).push(current@));
        }
        lettered = lettered || letter;
        spaced = blank;
    }
    assert(text@.take(all@.len() as int) =~= text@);
    if all.len() > 0 {
        let ghost parts = texts(done@);
        let ghost last = current@;
        done.push(current);
        assert(texts(done@) =~= parts.push(last));
    }
    done
}

/// Reads each part of a duration on its own.
fn read_parts(parts: &Vec<String>) -> (result: Vec<Option<u128>>)
    requires
        forall|i: int| 0 <= i < parts@.len() ==> is_single(#[trigger] parts@[i]@),
    ensures
        result@ == part_durations(texts(parts@)),
{
    let mut result: Vec<Option<u128>> = Vec::new();
    for i in 0..parts.len()
        invariant
            forall|k: int| 0 <= k < parts@.len() ==> is_single(#[trigger] parts@[k]@),
            result@.len() == i,
            forall|k: int|
                0 <= k < i ==> #[trigger] result@[k] == part_durations(texts(parts@))[k],
    {
        proof {
            lemma_single_is_one_part(parts@[i as int]@);
        }
        result.push(
            match parse_written_duration(parts[i].as_str()) {
                Ok(nanoseconds) => Some(nanoseconds),
                Err(_) => None,
            },
        );
    }
    assert(result@ =~= part_durations(texts(parts@)));
    result
}

/// Counts the durations that could be read up to the first that could not, and adds them up unless
/// they come to more than can be held.
pub fn add_up(read: &Vec<Option<u128>>) -> (result: (usize, Option<u128>))
    ensures
        result.0 == leading(read@).len(),
        match result.1 {
            Some(sum) => sum == read_sum(leading(read@)) && sum < DURATION_LIMIT,
            None => read_sum(leading(read@)) >= DURATION_LIMIT,
        },
{
    let mut count: usize = 0;
    let mut sum: u128 = 0;
    let mut over: bool = false;
    let mut failed: bool = false;
    assert(read@.take(0) =~= Seq::empty());
    for i in 0..read.len()
        invariant
            count == leading(read@.take(i as int)).len(),
            count <= i,
            failed == (leading(read@.take(i as int)) != read@.take(i as int)),
            over == (read_sum(leading(read@.take(i as int))) >= DURATION_LIMIT),
            !over ==> sum == read_sum(leading(read@.take(i as int))),
    {
        let ghost before = read@.take(i as int);
        let ghost after = read@.take(i + 1);
        proof {
            assert(after.drop_last() =~= before);
            assert(after.last() == read@[i as int]);
            lemma_leading_is_short(before);
        }
        if !failed {
            match read[i] {
                Some(nanoseconds) => {
                    count += 1;
                    if !over {
                        if nanoseconds >= DURATION_LIMIT - sum {
                            over = true;
                        } else {
                            sum += nanoseconds;
                        }
                    }
                },
                None => {
                    failed = true;
                },
            }
        }
    }
    assert(read@.take(read@.len() as int) =~= read@);
    (
        count,
        if over {
            None
        } else {
            Some(sum)
        },
    )
}

proof fn lemma_leading_is_short(read: Seq<Option<u128>>)
    ensures
        leading(read).len() <= read.len(),
    decreases read.len(),
{
    if read.len() > 0 {
        lemma_leading_is_short(read.drop_last());
    }
}

/// Whether durations can be held together, given what could be read of each.
pub fn can_be_held(read: &Vec<Option<u128>>) -> (result: bool)
    ensures
        result == is_holdable(read@),
{
    let (count, sum) = add_up(read);
    match sum {
        Some(sum) => count >= read.len() || sum < DURATION_LIMIT - SECOND,
        None => false,
    }
}

/// Reads a text as a whole, if it is read so.
fn read_whole(text: &str) -> (result: Result<u128, String>)
    ensures
        text_result(result) == whole_duration(text@),
{
    let parts = split_duration(text);
    proof {
        lemma_split_is_single(text@, parts@);
    }
    if parts.len() <= 1 || can_be_held(&read_parts(&parts)) {
        parse_written_duration(text)
    } else {
        Err(TOO_LONG.to_owned())
    }
}

proof fn lemma_split_is_single(text: Seq<char>, parts: Seq<String>)
    requires
        texts(parts) == duration_parts(text),
    ensures
        forall|i: int| 0 <= i < parts.len() ==> is_single(#[trigger] parts[i]@),
{
    lemma_parts_are_single(text);
    assert forall|i: int| 0 <= i < parts.len() implies is_single(#[trigger] parts[i]@) by {
        assert(duration_parts(text)[i] == parts[i]@);
    }
}

/// Some of the parts, one after another.
fn joined_parts(parts: &Vec<String>, from: usize, to: usize) -> (result: String)
    requires
        from <= to <= parts@.len(),
    ensures
        result@ == join(texts(parts@).subrange(from as int, to as int), ""@),
{
    let mut chosen: Vec<String> = Vec::new();
    for i in from..to
        invariant
            from <= i <= to <= parts@.len(),
            chosen@.len() == i - from,
            forall|k: int| 0 <= k < i - from ==> #[trigger] chosen@[k]@ == parts@[from + k]@,
    {
        let part = parts[i].clone();
        assert(part@ == parts@[i as int]@);
        chosen.push(part);
    }
    assert(texts(chosen@) =~= texts(parts@).subrange(from as int, to as int));
    join_texts(&chosen, "")
}

/// Writes a zero in place of each digit.
fn write_zeros(text: &str) -> (result: String)
    ensures
        result@ == zeroed(text@),
{
    let all = chars(text);
    let mut result = String::new();
    for i in 0..all.len()
        invariant
            all@ == text@,
            result@ == zeroed(text@.take(i as int)),
    {
        let c = all[i];
        result.push(
            if '0' <= c && c <= '9' {
                '0'
            } else {
                c
            },
        );
        assert(result@ =~= zeroed(text@.take(i + 1)));
    }
    assert(text@.take(all@.len() as int) =~= text@);
    result
}

/// Reads a duration, in nanoseconds.
pub fn parse_duration(value: &str) -> (result: Result<u128, String>)
    ensures
        match duration_of(value@) {
            Ok(nanoseconds) => result == Ok::<u128, String>(nanoseconds),
            Err(detail) => result matches Err(error) && error@ == detail,
        },
{
    let parts = split_duration(value);
    proof {
        lemma_split_is_single(value@, parts@);
    }
    if parts.len() <= 1 {
        return parse_written_duration(value);
    }
    let read = read_parts(&parts);
    if can_be_held(&read) {
        return parse_written_duration(value);
    }
    let (count, sum) = add_up(&read);
    if sum.is_none() {
        return Err(TOO_LONG.to_owned());
    }
    proof {
        lemma_leading_is_short(read@);
        assert(texts(parts@).subrange(0, count as int) =~= texts(parts@).take(count as int));
        assert(texts(parts@).subrange(count as int, parts@.len() as int) =~= texts(parts@).skip(
            count as int,
        ));
    }
    let start = joined_parts(&parts, 0, count);
    match read_whole(start.as_str()) {
        Err(error) => Err(error),
        Ok(_) => {
            let mut told = write_zeros(start.as_str());
            told.append(joined_parts(&parts, count, parts.len()).as_str());
            read_whole(told.as_str())
        },
    }
}

/// Reads a number of bytes.
pub fn parse_byte_size(value: &str) -> (result: Result<usize, String>)
    ensures
        match written_size(value@) {
            Ok(bytes) => if bytes > usize::MAX {
                result matches Err(error) && error@ == "byte size does not fit this platform"@
            } else {
                result == Ok::<usize, String>(bytes as usize)
            },
            Err(detail) => result matches Err(error) && error@ == detail,
        },
{
    match parse_written_size(value) {
        Ok(bytes) => {
            if bytes > usize::MAX as u64 {
                Err("byte size does not fit this platform".to_owned())
            } else {
                Ok(bytes as usize)
            }
        },
        Err(error) => Err(error),
    }
}

// ---------------------------------------------------------------------------
// Validation
// ---------------------------------------------------------------------------

impl ConfigModel {
    /// What the configuration comes to once its two written values have been read, or the first
    /// thing that is wrong with it.
    pub open spec fn resolved_with(
        self,
        timeout: Result<u128, Seq<char>>,
        max_body: Result<u64, Seq<char>>,
    ) -> Result<ResolvedConfig, ConfigErrorModel> {
        if self.schema_version != SCHEMA_VERSION {
            Err(ConfigErrorModel::SchemaVersion(self.schema_version))
        } else if !self.listen.ip.loopback() {
            Err(ConfigErrorModel::NonLoopback)
        } else if self.max_pending == 0 || self.max_per_session == 0 {
            Err(ConfigErrorModel::ZeroLimit)
        } else if self.max_per_session > self.max_pending {
            Err(ConfigErrorModel::PerSessionExceedsGlobal)
        } else {
            match (timeout, max_body) {
                (Err(detail), _) => Err(ConfigErrorModel::InvalidDuration(detail)),
                (Ok(_), Err(detail)) => Err(ConfigErrorModel::InvalidByteSize(detail)),
                (Ok(request_timeout), Ok(bytes)) => if bytes > usize::MAX {
                    Err(ConfigErrorModel::InvalidByteSize("value is too large"@))
                } else if bytes == 0 {
                    Err(ConfigErrorModel::InvalidByteSize("value must be greater than zero"@))
                } else {
                    Ok(
                        ResolvedConfig {
                            webhook_listen: self.listen,
                            request_timeout,
                            max_pending: self.max_pending,
                            max_per_session: self.max_per_session,
                            max_body_bytes: bytes as usize,
                        },
                    )
                },
            }
        }
    }

    /// What the configuration comes to, or the first thing that is wrong with it.
    pub open spec fn resolved(self) -> Result<ResolvedConfig, ConfigErrorModel> {
        self.resolved_with(duration_of(self.request_timeout), written_size(self.max_body))
    }
}

/// The outcome of an operation as its contents.
pub open spec fn is_outcome<T>(
    result: Result<T, ConfigError>,
    expected: Result<T, ConfigErrorModel>,
) -> bool {
    match expected {
        Ok(value) => result == Ok::<T, ConfigError>(value),
        Err(refusal) => result matches Err(error) && error@ == refusal,
    }
}

/// The built-in values.
pub open spec fn default_config() -> ConfigModel {
    ConfigModel {
        schema_version: SCHEMA_VERSION,
        listen: ListenAddr { ip: ListenIp::V4(127, 0, 0, 1), port: 17443 },
        request_timeout: "270s"@,
        max_pending: DEFAULT_MAX_PENDING,
        max_per_session: DEFAULT_MAX_PER_SESSION,
        max_body: "256KiB"@,
    }
}

impl Default for ConfigFile {
    fn default() -> (result: Self)
        ensures
            result@ == default_config(),
    {
        ConfigFile {
            schema_version: SCHEMA_VERSION,
            webhook: WebhookConfig {
                listen: ListenAddr { ip: ListenIp::V4(127, 0, 0, 1), port: 17443 },
            },
            approval: ApprovalConfig {
                request_timeout: "270s".to_owned(),
                max_pending: DEFAULT_MAX_PENDING,
                max_per_session: DEFAULT_MAX_PER_SESSION,
                max_body: "256KiB".to_owned(),
            },
        }
    }
}

impl ConfigFile {
    /// Validates the configuration once its two written values have been read.
    pub fn resolve_with(&self, timeout: Result<u128, String>, max_body: Result<u64, String>) -> (
        result: Result<ResolvedConfig, ConfigError>)
        ensures
            is_outcome(result, self@.resolved_with(text_result(timeout), text_result(max_body))),
    {
        if self.schema_version != SCHEMA_VERSION {
            return Err(ConfigError::SchemaVersion(self.schema_version));
        }
        if !self.webhook.listen.ip.is_loopback() {
            return Err(ConfigError::NonLoopback);
        }
        if self.approval.max_pending == 0 || self.approval.max_per_session == 0 {
            return Err(ConfigError::ZeroLimit);
        }
        if self.approval.max_per_session > self.approval.max_pending {
            return Err(ConfigError::PerSessionExceedsGlobal);
        }
        let request_timeout: u128 = match timeout {
            Ok(nanoseconds) => nanoseconds,
            Err(detail) => return Err(ConfigError::InvalidDuration(detail)),
        };
        let bytes: u64 = match max_body {
            Ok(bytes) => bytes,
            Err(detail) => return Err(ConfigError::InvalidByteSize(detail)),
        };
        if bytes > usize::MAX as u64 {
            return Err(ConfigError::InvalidByteSize("value is too large".to_owned()));
        }
        if bytes == 0 {
            return Err(ConfigError::InvalidByteSize("value must be greater than zero".to_owned()));
        }
        Ok(
            ResolvedConfig {
                webhook_listen: self.webhook.listen,
                request_timeout,
                max_pending: self.approval.max_pending,
                max_per_session: self.approval.max_per_session,
                max_body_bytes: bytes as usize,
            },
        )
    }

    /// Validates and converts the configuration.
    pub fn resolve(&self) -> (result: Result<ResolvedConfig, ConfigError>)
        ensures
            is_outcome(result, self@.resolved()),
    {
        let timeout = parse_duration(self.approval.request_timeout.as_str());
        let max_body = parse_written_size(self.approval.max_body.as_str());
        self.resolve_with(timeout, max_body)
    }
}

/// The content of a reading that may have failed.
pub open spec fn text_result<T>(value: Result<T, String>) -> Result<T, Seq<char>> {
    match value {
        Ok(found) => Ok(found),
        Err(detail) => Err(detail@),
    }
}

/// What the daemon gets: a listener of this machine alone, limits above zero, and a session's limit
/// within the whole.
pub open spec fn is_usable(config: ResolvedConfig) -> bool {
    &&& config.webhook_listen.ip.loopback()
    &&& 0 < config.max_per_session <= config.max_pending
    &&& 0 < config.max_body_bytes
}

/// Every configuration that passes validation is usable, whatever the file says.
pub proof fn resolved_configurations_are_usable(config: ConfigModel)
    ensures
        config.resolved() matches Ok(resolved) ==> is_usable(resolved),
{
}

// ---------------------------------------------------------------------------
// The file
// ---------------------------------------------------------------------------

/// What reading the configuration file gave.
pub enum ConfigRead {
    Unreadable(String),
    Malformed(String),
    Parsed(ConfigFile),
}

/// What is wrong with the file itself, if anything is.
pub open spec fn file_problem(path: Seq<char>, found: Lookup, owner: u32) -> Option<
    ConfigErrorModel,
> {
    match found {
        Lookup::Missing => Some(ConfigErrorModel::Missing(path)),
        Lookup::Failed(detail) => Some(ConfigErrorModel::Io(detail@)),
        Lookup::Found(entry) => if entry.symlink || !entry.regular_file || entry.uid != owner {
            Some(ConfigErrorModel::UnsafeFile(path))
        } else if entry.mode & 0o777 != 0o600 {
            Some(ConfigErrorModel::UnsafePermissions(path))
        } else {
            None
        },
    }
}

/// Checks the file itself: a regular file of the owner with mode 0600.
pub fn check_file(path: &str, found: &Lookup, owner: u32) -> (result: Result<(), ConfigError>)
    ensures
        match file_problem(path@, *found, owner) {
            None => result is Ok,
            Some(problem) => result matches Err(error) && error@ == problem,
        },
{
    match found {
        Lookup::Missing => Err(ConfigError::Missing(path.to_owned())),
        Lookup::Failed(detail) => Err(ConfigError::Io(detail.clone())),
        Lookup::Found(entry) => {
            if entry.symlink || !entry.regular_file || entry.uid != owner {
                Err(ConfigError::UnsafeFile(path.to_owned()))
            } else if entry.mode & 0o777 != 0o600 {
                Err(ConfigError::UnsafePermissions(path.to_owned()))
            } else {
                Ok(())
            }
        },
    }
}

/// What loading a configuration gives: the file's own problem, what reading it gave, or the
/// configuration, if it is valid.
pub open spec fn loaded(path: Seq<char>, found: Lookup, owner: u32, contents: ConfigRead) -> Result<
    ConfigModel,
    ConfigErrorModel,
> {
    match file_problem(path, found, owner) {
        Some(problem) => Err(problem),
        None => match contents {
            ConfigRead::Unreadable(detail) => Err(ConfigErrorModel::Io(detail@)),
            ConfigRead::Malformed(detail) => Err(ConfigErrorModel::TomlDecode(detail@)),
            ConfigRead::Parsed(config) => match config@.resolved() {
                Ok(_) => Ok(config@),
                Err(problem) => Err(problem),
            },
        },
    }
}

/// Loads and validates an owner-only configuration file.
pub fn load(path: &str, found: Lookup, owner: u32, contents: ConfigRead) -> (result: Result<
    ConfigFile,
    ConfigError,
>)
    ensures
        match loaded(path@, found, owner, contents) {
            Ok(expected) => result matches Ok(config) && config@ == expected,
            Err(refusal) => result matches Err(error) && error@ == refusal,
        },
{
    if let Err(error) = check_file(path, &found, owner) {
        return Err(error);
    }
    match contents {
        ConfigRead::Unreadable(detail) => Err(ConfigError::Io(detail)),
        ConfigRead::Malformed(detail) => Err(ConfigError::TomlDecode(detail)),
        ConfigRead::Parsed(config) => {
            match config.resolve() {
                Ok(_) => Ok(config),
                Err(error) => Err(error),
            }
        },
    }
}

/// What is left to do for a configuration file.
#[derive(Debug)]
pub enum SetupAction {
    Load,
    Create(ConfigFile),
}

/// Decides how to set up the configuration: an existing file is loaded and never written, a missing
/// one is created with the built-in values.
pub fn setup(present: bool, has_parent: bool) -> (result: Result<SetupAction, ConfigError>)
    ensures
        if present {
            result matches Ok(SetupAction::Load)
        } else if !has_parent {
            result matches Err(error) && error@ == ConfigErrorModel::Io(
                "config path has no parent"@,
            )
        } else {
            result matches Ok(SetupAction::Create(config)) && config@ == default_config()
        },
{
    if present {
        return Ok(SetupAction::Load);
    }
    if !has_parent {
        return Err(ConfigError::Io("config path has no parent".to_owned()));
    }
    Ok(SetupAction::Create(ConfigFile::default()))
}

// ---------------------------------------------------------------------------
// Laws
// ---------------------------------------------------------------------------

/// The addresses of this machine alone are those that begin with 127 and the IPv6 address that is
/// zero but for a final one.
pub proof fn loopback_addresses_are_this_machine(ip: ListenIp)
    ensures
        ip matches ListenIp::V4(first, _, _, _) ==> (ip.loopback() <==> first == 127),
        ip is V6 ==> (ip.loopback() <==> ip == ListenIp::V6(0, 0, 0, 0, 0, 0, 0, 1)),
{
}

/// A configuration resolves exactly if it has the known schema, listens on this machine alone, has
/// limits above zero with the session's within the whole, and both written values can be read and
/// used. Each setting is then its own.
pub proof fn configurations_resolve_to_their_own_values(
    config: ConfigModel,
    timeout: Result<u128, Seq<char>>,
    max_body: Result<u64, Seq<char>>,
)
    ensures
        ({
            let resolved = config.resolved_with(timeout, max_body);
            &&& resolved is Ok <==> config.schema_version == 1 && config.listen.ip.loopback()
                && config.max_pending > 0 && config.max_per_session > 0 && config.max_per_session
                <= config.max_pending && timeout is Ok && max_body is Ok && 0 < max_body->Ok_0
                <= usize::MAX
            &&& resolved matches Ok(values) ==> {
                &&& values.webhook_listen == config.listen
                &&& values.request_timeout == timeout->Ok_0
                &&& values.max_pending == config.max_pending
                &&& values.max_per_session == config.max_per_session
                &&& values.max_body_bytes == max_body->Ok_0
            }
        }),
        config.resolved() == config.resolved_with(
            duration_of(config.request_timeout),
            written_size(config.max_body),
        ),
{
}

/// Of several things that are wrong with a configuration the first is told: the schema, the
/// address, a limit of zero, a session above the whole, the timeout, the size.
pub proof fn the_first_fault_of_a_configuration_is_told(
    config: ConfigModel,
    timeout: Result<u128, Seq<char>>,
    max_body: Result<u64, Seq<char>>,
)
    ensures
        ({
            let told = config.resolved_with(timeout, max_body);
            let known = config.schema_version == 1;
            let local = known && config.listen.ip.loopback();
            let above = local && config.max_pending > 0 && config.max_per_session > 0;
            let within = above && config.max_per_session <= config.max_pending;
            &&& !known ==> told == Err::<ResolvedConfig, ConfigErrorModel>(
                ConfigErrorModel::SchemaVersion(config.schema_version),
            )
            &&& known && !local ==> told == Err::<ResolvedConfig, ConfigErrorModel>(
                ConfigErrorModel::NonLoopback,
            )
            &&& local && !above ==> told == Err::<ResolvedConfig, ConfigErrorModel>(
                ConfigErrorModel::ZeroLimit,
            )
            &&& above && !within ==> told == Err::<ResolvedConfig, ConfigErrorModel>(
                ConfigErrorModel::PerSessionExceedsGlobal,
            )
            &&& within && timeout is Err ==> told == Err::<ResolvedConfig, ConfigErrorModel>(
                ConfigErrorModel::InvalidDuration(timeout->Err_0),
            )
            &&& within && timeout is Ok && max_body is Err ==> told == Err::<
                ResolvedConfig,
                ConfigErrorModel,
            >(ConfigErrorModel::InvalidByteSize(max_body->Err_0))
            &&& within && timeout is Ok && max_body is Ok && max_body->Ok_0 == 0 ==> told == Err::<
                ResolvedConfig,
                ConfigErrorModel,
            >(ConfigErrorModel::InvalidByteSize("value must be greater than zero"@))
            &&& within && timeout is Ok && max_body is Ok && max_body->Ok_0 > usize::MAX ==> told
                == Err::<ResolvedConfig, ConfigErrorModel>(
                ConfigErrorModel::InvalidByteSize("value is too large"@),
            )
        }),
{
}

/// The built-in values: this machine at port 17443, 270 seconds, 64 requests in all, 8 of one
/// session, and bodies of 256 KiB.
pub proof fn the_built_in_values_are_local()
    ensures
        default_config().schema_version == 1,
        default_config().listen.ip == ListenIp::V4(127, 0, 0, 1),
        default_config().listen.ip.loopback(),
        default_config().listen.port == 17443,
        default_config().request_timeout == "270s"@,
        default_config().max_pending == 64,
        default_config().max_per_session == 8,
        default_config().max_body == "256KiB"@,
{
}

/// A configuration file is looked into exactly if it is a regular file, no link, of the owner, and
/// open to nobody else.
pub proof fn only_the_owners_file_is_read(path: Seq<char>, found: Lookup, owner: u32)
    ensures
        file_problem(path, found, owner) is None <==> found is Found && !found->Found_0.symlink
            && found->Found_0.regular_file && found->Found_0.uid == owner && found->Found_0.mode
            & 0o777 == 0o600,
        found is Missing ==> file_problem(path, found, owner) == Some(
            ConfigErrorModel::Missing(path),
        ),
        found is Failed ==> file_problem(path, found, owner) == Some(
            ConfigErrorModel::Io(found->Failed_0@),
        ),
        found is Found && (found->Found_0.symlink || !found->Found_0.regular_file
            || found->Found_0.uid != owner) ==> file_problem(path, found, owner) == Some(
            ConfigErrorModel::UnsafeFile(path),
        ),
        found is Found && !found->Found_0.symlink && found->Found_0.regular_file
            && found->Found_0.uid == owner && found->Found_0.mode & 0o777 != 0o600 ==> file_problem(
            path,
            found,
            owner,
        ) == Some(ConfigErrorModel::UnsafePermissions(path)),
{
}

/// What is loaded is the file's own content, and only from a file that may be read and with values
/// that resolve; the file's problem is told before its content's.
pub proof fn only_valid_files_are_loaded(
    path: Seq<char>,
    found: Lookup,
    owner: u32,
    contents: ConfigRead,
)
    ensures
        loaded(path, found, owner, contents) is Ok <==> file_problem(path, found, owner) is None
            && contents is Parsed && contents->Parsed_0@.resolved() is Ok,
        loaded(path, found, owner, contents) matches Ok(config) ==> config == contents->Parsed_0@,
        file_problem(path, found, owner) matches Some(problem) ==> loaded(
            path,
            found,
            owner,
            contents,
        ) == Err::<ConfigModel, ConfigErrorModel>(problem),
        file_problem(path, found, owner) is None && contents is Unreadable ==> loaded(
            path,
            found,
            owner,
            contents,
        ) == Err::<ConfigModel, ConfigErrorModel>(ConfigErrorModel::Io(contents->Unreadable_0@)),
        file_problem(path, found, owner) is None && contents is Malformed ==> loaded(
            path,
            found,
            owner,
            contents,
        ) == Err::<ConfigModel, ConfigErrorModel>(
            ConfigErrorModel::TomlDecode(contents->Malformed_0@),
        ),
{
}

/// The parts of a written duration are the whole of it, in order, and none is empty.
pub proof fn parts_make_up_the_duration(text: Seq<char>)
    ensures
        join(duration_parts(text), ""@) == text,
        forall|i: int|
            0 <= i < duration_parts(text).len() ==> (#[trigger] duration_parts(text)[i]).len() > 0,
        text.len() > 0 ==> duration_parts(text).len() > 0,
    decreases text.len(),
{
    reveal_strlit("");
    assert(""@ =~= Seq::<char>::empty());
    let parts = duration_parts(text);
    if text.len() > 0 {
        let before = duration_parts(text.drop_last());
        parts_make_up_the_duration(text.drop_last());
        assert(text =~= text.drop_last().push(text.last()));
        if parts.len() == before.len() {
            let front = before.drop_last();
            let last = before.last();
            assert(before[before.len() - 1].len() > 0);
            assert(parts.drop_last() =~= front);
            assert(join(parts, ""@) =~= join(before, ""@).push(text.last()));
            assert forall|i: int| 0 <= i < parts.len() implies (#[trigger] parts[i]).len() > 0 by {
                if i < front.len() {
                    assert(parts[i] == before[i]);
                }
            }
        } else {
            assert(parts.drop_last() =~= before);
            assert(join(parts, ""@) =~= join(before, ""@) + seq![text.last()]);
            assert forall|i: int| 0 <= i < parts.len() implies (#[trigger] parts[i]).len() > 0 by {
                if i < before.len() {
                    assert(parts[i] == before[i]);
                }
            }
        }
    }
}

/// A part ends where a digit follows its unit, or where anything follows the white space behind its
/// unit; it goes on as long as it has no unit yet.
pub proof fn parts_end_behind_their_unit(text: Seq<char>, c: char)
    requires
        text.len() > 0,
    ensures
        ({
            let parts = duration_parts(text);
            let after = duration_parts(text.push(c));
            &&& parts.last().last() == text.last()
            &&& is_letter(text.last()) && '0' <= c <= '9' ==> after == parts.push(seq![c])
            &&& is_letter(text.last()) && is_letter(c) ==> after.len() == parts.len()
                && after.last() == parts.last().push(c)
            &&& '0' <= text.last() <= '9' && is_letter(c) ==> after.len() == parts.len()
                && after.last() == parts.last().push(c)
            &&& !has_letter(parts.last()) ==> after.len() == parts.len() && after.last()
                == parts.last().push(c)
            &&& has_letter(parts.last()) && is_space(text.last()) && !is_space(c) ==> after
                == parts.push(seq![c])
        }),
{
    parts_make_up_the_duration(text);
    lemma_last_part(text);
    let parts = duration_parts(text);
    assert(text.push(c).drop_last() =~= text);
    assert(parts[parts.len() - 1].len() > 0);
    if is_letter(text.last()) {
        let last = parts.last();
        assert(is_letter(last[last.len() - 1]));
    }
}

proof fn lemma_last_part(text: Seq<char>)
    requires
        text.len() > 0,
    ensures
        duration_parts(text).len() > 0,
        duration_parts(text).last().len() > 0,
        duration_parts(text).last().last() == text.last(),
{
    let before = duration_parts(text.drop_last());
    if before.len() == 0 || begins_part(before.last(), text.last()) {
        assert(duration_parts(text).last() == seq![text.last()]);
    }
}

/// What could be read up to the first failure is a beginning, all of it read, and what comes next
/// was not; the sum is that of each duration once.
pub proof fn sums_count_every_duration_once(read: Seq<Option<u128>>, nanoseconds: u128)
    ensures
        leading(read).len() <= read.len(),
        leading(read) == read.take(leading(read).len() as int),
        forall|i: int| 0 <= i < leading(read).len() ==> #[trigger] read[i] is Some,
        leading(read).len() < read.len() ==> read[leading(read).len() as int] is None,
        read_sum(Seq::empty()) == 0,
        read_sum(read.push(Some(nanoseconds))) == read_sum(read) + nanoseconds,
        read_sum(read.push(None)) == read_sum(read),
    decreases read.len(),
{
    assert(read.push(Some(nanoseconds)).drop_last() =~= read);
    assert(read.push(None).drop_last() =~= read);
    if read.len() > 0 {
        let front = read.drop_last();
        sums_count_every_duration_once(front, nanoseconds);
        assert(read.take(read.len() as int) =~= read);
        if leading(read) == read {
            if leading(front) == front && read.last() is Some {
                assert forall|i: int| 0 <= i < read.len() implies #[trigger] read[i] is Some by {
                    if i < front.len() {
                        assert(front[i] == read[i]);
                    }
                }
            }
        } else {
            let n = leading(front).len() as int;
            assert(front.take(n) =~= read.take(n));
            assert forall|i: int| 0 <= i < n implies #[trigger] read[i] is Some by {
                assert(front[i] == read[i]);
            }
            if n < front.len() {
                assert(front[n] == read[n]);
            } else {
                assert(front.take(n) =~= front);
            }
        }
    } else {
        assert(read.take(0) =~= read);
    }
}

/// A duration of one part, and one whose parts can all be read and come to less than can be held,
/// is what is written; one whose parts come to more is refused.
pub proof fn durations_are_what_is_written(text: Seq<char>)
    ensures
        ({
            let read = part_durations(duration_parts(text));
            let all = forall|i: int| 0 <= i < read.len() ==> #[trigger] read[i] is Some;
            &&& read.len() <= 1 ==> duration_of(text) == written_duration(text)
            &&& all && read_sum(read) < 18446744073709551616 * 1000000000 ==> duration_of(text)
                == written_duration(text)
            &&& all && read.len() > 1 && read_sum(read) >= 18446744073709551616 * 1000000000
                ==> duration_of(text) == Err::<u128, Seq<char>>(TOO_LONG@)
        }),
{
    let read = part_durations(duration_parts(text));
    sums_count_every_duration_once(read, 0);
    if forall|i: int| 0 <= i < read.len() ==> #[trigger] read[i] is Some {
        if leading(read).len() < read.len() {
            assert(read[leading(read).len() as int] is Some);
        }
        assert(leading(read) =~= read);
    }
}

/// Zeros take the place of digits and of nothing else.
pub proof fn zeros_replace_digits_alone(text: Seq<char>)
    ensures
        zeroed(text).len() == text.len(),
        forall|i: int|
            0 <= i < text.len() ==> #[trigger] zeroed(text)[i] == if '0' <= text[i] <= '9' {
                '0'
            } else {
                text[i]
            },
{
}

/// A configuration file is seen as what its fields hold.
pub proof fn files_are_seen_field_by_field(config: ConfigFile)
    ensures
        config@.schema_version == config.schema_version,
        config@.listen == config.webhook.listen,
        config@.request_timeout == config.approval.request_timeout@,
        config@.max_pending == config.approval.max_pending,
        config@.max_per_session == config.approval.max_per_session,
        config@.max_body == config.approval.max_body@,
{
}

/// Every refusal says what is wrong.
pub proof fn configuration_refusals_say_what_is_wrong(text: Seq<char>, version: u32)
    ensures
        ConfigErrorModel::Missing(text).message()
            == "configuration file does not exist; run `nono-approval setup` first: "@ + text,
        ConfigErrorModel::UnsafeFile(text).message()
            == "configuration path must be a regular file owned by the current user: "@ + text,
        ConfigErrorModel::UnsafePermissions(text).message()
            == "configuration file permissions must be 0600: "@ + text,
        ConfigErrorModel::SchemaVersion(version).message()
            == "unsupported configuration schema version "@ + decimal(version as nat),
        ConfigErrorModel::NonLoopback.message()
            == "webhook listener must use a loopback IP address"@,
        ConfigErrorModel::ZeroLimit.message() == "pending limits must be greater than zero"@,
        ConfigErrorModel::PerSessionExceedsGlobal.message()
            == "max_per_session must not exceed max_pending"@,
        ConfigErrorModel::InvalidDuration(text).message() == "invalid request_timeout: "@ + text,
        ConfigErrorModel::InvalidByteSize(text).message() == "invalid max_body: "@ + text,
        ConfigErrorModel::TomlDecode(text).message() == text,
        ConfigErrorModel::TomlEncode(text).message() == text,
        ConfigErrorModel::Io(text).message() == text,
{
}

/// The letters of a unit are those of ASCII and the micro sign; digits are those of ASCII.
pub proof fn units_are_written_in_letters(c: char)
    ensures
        is_letter(c) <==> 'a' <= c <= 'z' || 'A' <= c <= 'Z' || c == '\u{b5}',
        is_digit(c) <==> '0' <= c <= '9',
        is_space(c) <==> crate::profile_validation::is_white(c),
        has_letter(seq![c]) <==> is_letter(c),
{
    if is_letter(c) {
        assert(is_letter(seq![c][0]));
    }
}

/// Where a part cannot be read, those before it decide: below the last second that can be held the
/// text is read as it is, and from the limit on it is refused.
pub proof fn unreadable_parts_follow_readable_ones(text: Seq<char>, n: int)
    requires
        0 <= n < part_durations(duration_parts(text)).len(),
        duration_parts(text).len() > 1,
        forall|i: int|
            0 <= i < n ==> #[trigger] part_durations(duration_parts(text))[i] is Some,
        part_durations(duration_parts(text))[n] is None,
    ensures
        ({
            let read = part_durations(duration_parts(text));
            let sum = read_sum(read.take(n));
            &&& sum < 18446744073709551615 * 1000000000 ==> duration_of(text) == written_duration(
                text,
            )
            &&& sum >= 18446744073709551616 * 1000000000 ==> duration_of(text) == Err::<
                u128,
                Seq<char>,
            >(TOO_LONG@)
        }),
{
    let read = part_durations(duration_parts(text));
    sums_count_every_duration_once(read, 0);
    let m = leading(read).len() as int;
    if m < n {
        assert(read[m] is Some);
    } else if m > n {
        assert(read[n] is Some);
    }
}

/// A number of bytes is what is written, if the platform can count so far.
pub proof fn sizes_are_what_is_written(value: &str, result: Result<usize, String>)
    requires
        call_ensures(parse_byte_size, (value,), result),
    ensures
        result is Ok <==> written_size(value@) is Ok && written_size(value@)->Ok_0 <= usize::MAX,
        result matches Ok(bytes) ==> bytes == written_size(value@)->Ok_0,
{
}

/// Setting up never writes over a file that is there, and otherwise writes the built-in values.
pub proof fn setting_up_keeps_what_is_there(
    present: bool,
    has_parent: bool,
    result: Result<SetupAction, ConfigError>,
)
    requires
        call_ensures(setup, (present, has_parent), result),
    ensures
        result is Ok && result->Ok_0 is Load <==> present,
        result is Ok && result->Ok_0 is Create <==> !present && has_parent,
        result matches Ok(SetupAction::Create(config)) ==> config@ == default_config(),
{
}

} // verus!
