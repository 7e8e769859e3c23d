//! Profile validation: what the probe inside a sandbox reports, and what its report shows.
use vstd::prelude::*;

use crate::text::{
    begins_with, chars, decimal, decimal_text, lemma_pieces_extend, pieces, same, split,
    strip_prefix, text, texts, with_detail,
};

verus! {

/// The line that the probe begins with.
pub const PROBE_STARTED: &'static str = "nono-approval-probe-v1 started";

/// What the probe's result stands behind.
pub const PROBE_RESULT: &'static str = "nono-approval-probe-v1 result ";

/// Why a profile did not pass.
#[derive(Debug, PartialEq, Eq)]
pub enum ValidationError {
    Timeout,
    NonoFailed(String),
    InvalidProtocol,
    Reachable,
    Inconclusive(String),
    Io(String),
}

/// The contents of a [`ValidationError`].
pub enum ValidationErrorModel {
    Timeout,
    NonoFailed(Seq<char>),
    InvalidProtocol,
    Reachable,
    Inconclusive(Seq<char>),
    Io(Seq<char>),
}

impl View for ValidationError {
    type V = ValidationErrorModel;

    open spec fn view(&self) -> ValidationErrorModel {
        match *self {
            ValidationError::Timeout => ValidationErrorModel::Timeout,
            ValidationError::NonoFailed(detail) => ValidationErrorModel::NonoFailed(detail@),
            ValidationError::InvalidProtocol => ValidationErrorModel::InvalidProtocol,
            ValidationError::Reachable => ValidationErrorModel::Reachable,
            ValidationError::Inconclusive(detail) => ValidationErrorModel::Inconclusive(detail@),
            ValidationError::Io(detail) => ValidationErrorModel::Io(detail@),
        }
    }
}

impl ValidationErrorModel {
    /// The error as people read it.
    pub open spec fn message(self) -> Seq<char> {
        match self {
            ValidationErrorModel::Timeout => "nono profile validation timed out"@,
            ValidationErrorModel::NonoFailed(detail) =>
                "nono failed to start the validation probe: "@ + detail,
            ValidationErrorModel::InvalidProtocol =>
                "validation probe returned an invalid protocol"@,
            ValidationErrorModel::Reachable => "control socket was reachable from the sandbox"@,
            ValidationErrorModel::Inconclusive(detail) =>
                "control socket denial was inconclusive: "@ + detail,
            ValidationErrorModel::Io(detail) => detail,
        }
    }
}

impl ValidationError {
    /// The error as people read it.
    pub fn message(&self) -> (result: String)
        ensures
            result@ == self@.message(),
    {
        match self {
            ValidationError::Timeout => "nono profile validation timed out".to_owned(),
            ValidationError::NonoFailed(detail) => with_detail(
                "nono failed to start the validation probe: ",
                detail.as_str(),
            ),
            ValidationError::InvalidProtocol =>
                "validation probe returned an invalid protocol".to_owned(),
            ValidationError::Reachable =>
                "control socket was reachable from the sandbox".to_owned(),
            ValidationError::Inconclusive(detail) => with_detail(
                "control socket denial was inconclusive: ",
                detail.as_str(),
            ),
            ValidationError::Io(detail) => detail.clone(),
        }
    }
}

// ---------------------------------------------------------------------------
// Lines and white space
// ---------------------------------------------------------------------------

/// A line without the carriage return before its end.
pub open spec fn without_return(line: Seq<char>) -> Seq<char> {
    if line.len() > 0 && line.last() == '\r' {
        line.drop_last()
    } else {
        line
    }
}

/// The lines of a text. A line ends with a line feed, which may follow a carriage return; the last
/// one need not end.
pub open spec fn lines_of(text: Seq<char>) -> Seq<Seq<char>> {
    let parts = pieces(text, '\n');
    let ended = parts.drop_last().map_values(|line: Seq<char>| without_return(line));
    if parts.last().len() == 0 {
        ended
    } else {
        ended.push(parts.last())
    }
}

/// Drops the carriage return before the end of a line.
fn drop_return(line: &str) -> (result: String)
    ensures
        result@ == without_return(line@),
{
    let all = chars(line);
    if all.len() > 0 && all[all.len() - 1] == '\r' {
        let kept = vstd::slice::slice_subrange(all.as_slice(), 0, all.len() - 1);
        assert(kept@ =~= line@.drop_last());
        text(kept)
    } else {
        line.to_owned()
    }
}

/// Splits a text into its lines.
fn lines(value: &str) -> (result: Vec<String>)
    ensures
        texts(result@) == lines_of(value@),
{
    let parts = split(value, '\n');
    let ghost pieces = texts(parts@);
    proof {
        crate::text::lemma_pieces_nonempty(value@, '\n');
        assert(parts@.len() == pieces.len());
    }
    let last: usize = parts.len() - 1;
    let mut result: Vec<String> = Vec::new();
    for i in 0..last
        invariant
            pieces == texts(parts@),
            last + 1 == parts@.len(),
            result@.len() == i,
            forall|j: int|
                0 <= j < i ==> (#[trigger] result@[j])@ == without_return(pieces[j]),
    {
        result.push(drop_return(parts[i].as_str()));
    }
    let ghost ended = pieces.drop_last().map_values(|line: Seq<char>| without_return(line));
    assert(texts(result@) =~= ended);
    assert(pieces.last() == parts@[last as int]@);
    proof {
        reveal_strlit("");
        assert(pieces.last().len() == 0 <==> pieces.last() =~= ""@);
    }
    if !same(parts[last].as_str(), "") {
        result.push(parts[last].clone());
        assert(texts(result@) =~= ended.push(pieces.last()));
    }
    result
}

/// The characters with the Unicode property `White_Space`.
pub open spec fn is_white(c: char) -> bool {
    ||| '\u{9}' <= c <= '\u{d}'
    ||| c == ' '
    ||| c == '\u{85}'
    ||| c == '\u{a0}'
    ||| c == '\u{1680}'
    ||| '\u{2000}' <= c <= '\u{200a}'
    ||| c == '\u{2028}'
    ||| c == '\u{2029}'
    ||| c == '\u{202f}'
    ||| c == '\u{205f}'
    ||| c == '\u{3000}'
}

/// Whether a character is white space.
fn is_white_char(c: char) -> (result: bool)
    ensures
        result == is_white(c),
{
    ('\u{9}' <= c && c <= '\u{d}') || c == ' ' || c == '\u{85}' || c == '\u{a0}' || c == '\u{1680}'
        || ('\u{2000}' <= c && c <= '\u{200a}') || c == '\u{2028}' || c == '\u{2029}' || c
        == '\u{202f}' || c == '\u{205f}' || c == '\u{3000}'
}

/// A text without the white space at its ends.
pub open spec fn trimmed(text: Seq<char>) -> Seq<char>
    decreases text.len(),
{
    if text.len() == 0 {
        text
    } else if is_white(text.first()) {
        trimmed(text.drop_first())
    } else if is_white(text.last()) {
        trimmed(text.drop_last())
    } else {
        text
    }
}

/// Drops the white space at the ends of a text.
fn trim(value: &str) -> (result: String)
    ensures
        result@ == trimmed(value@),
{
    let all = chars(value);
    let mut start: usize = 0;
    let mut end: usize = all.len();
    proof {
        assert(value@.subrange(0, all@.len() as int) =~= value@);
    }
    while start < end && is_white_char(all[start])
        invariant
            all@ == value@,
            start <= end == all@.len(),
            trimmed(value@) == trimmed(value@.subrange(start as int, end as int)),
        decreases end - start,
    {
        let ghost rest = value@.subrange(start as int, end as int);
        assert(rest.drop_first() =~= value@.subrange(start + 1, end as int));
        start += 1;
    }
    while start < end && is_white_char(all[end - 1])
        invariant
            all@ == value@,
            start <= end <= all@.len(),
            start < end ==> !is_white(all@[start as int]),
            trimmed(value@) == trimmed(value@.subrange(start as int, end as int)),
        decreases end - start,
    {
        let ghost rest = value@.subrange(start as int, end as int);
        assert(rest.drop_last() =~= value@.subrange(start as int, end - 1));
        end -= 1;
    }
    let kept = vstd::slice::slice_subrange(all.as_slice(), start, end);
    text(kept)
}

// ---------------------------------------------------------------------------
// The report
// ---------------------------------------------------------------------------

/// What the probe met when it connected to the control socket.
pub enum ProbeConnection {
    Connected { answered: bool },
    Failed { errno: Option<i32>, kind: String },
}

/// A number with its sign, in decimal notation.
pub open spec fn signed_decimal(value: int) -> Seq<char> {
    if value < 0 {
        "-"@ + decimal((-value) as nat)
    } else {
        decimal(value as nat)
    }
}

/// Writes a number with its sign.
fn signed_text(value: i32) -> (result: String)
    ensures
        result@ == signed_decimal(value as int),
{
    if value < 0 {
        let size: i64 = -(value as i64);
        with_detail("-", decimal_text(size as u64).as_str())
    } else {
        decimal_text(value as u64)
    }
}

impl ProbeConnection {
    /// What the probe reports.
    pub open spec fn report(self) -> Seq<char> {
        match self {
            ProbeConnection::Connected { answered } => if answered {
                "reachable"@
            } else {
                "error http"@
            },
            ProbeConnection::Failed { errno: Some(number), kind } => if number == 1 || number
                == 13 {
                "denied "@ + signed_decimal(number as int)
            } else {
                "error "@ + signed_decimal(number as int)
            },
            ProbeConnection::Failed { errno: None, kind } => "error "@ + ("kind:"@ + kind@),
        }
    }
}

/// The line that the probe reports its result in.
pub fn run_probe(connection: &ProbeConnection) -> (result: String)
    ensures
        result@ == PROBE_RESULT@ + connection.report(),
{
    let report = match connection {
        ProbeConnection::Connected { answered } => {
            if *answered {
                "reachable".to_owned()
            } else {
                "error http".to_owned()
            }
        },
        ProbeConnection::Failed { errno: Some(number), kind: _ } => {
            let written = signed_text(*number);
            if *number == 1 || *number == 13 {
                with_detail("denied ", written.as_str())
            } else {
                with_detail("error ", written.as_str())
            }
        },
        ProbeConnection::Failed { errno: None, kind } => {
            let detail = with_detail("kind:", kind.as_str());
            with_detail("error ", detail.as_str())
        },
    };
    with_detail(PROBE_RESULT, report.as_str())
}

/// What running the probe under nono gave.
pub enum ProbeOutput {
    TimedOut,
    NotRun(String),
    Finished { stdout: String, stderr: String },
}

/// The result in the first line that holds one.
pub open spec fn first_result(lines: Seq<Seq<char>>) -> Option<Seq<char>>
    decreases lines.len(),
{
    if lines.len() == 0 {
        None
    } else if begins_with(lines[0], PROBE_RESULT@) {
        Some(lines[0].skip(PROBE_RESULT@.len() as int))
    } else {
        first_result(lines.drop_first())
    }
}

/// What the output of the probe shows. Only a refusal with EPERM or EACCES, from a probe that did
/// start, passes.
pub open spec fn verdict(output: ProbeOutput) -> Result<(), ValidationErrorModel> {
    match output {
        ProbeOutput::TimedOut => Err(ValidationErrorModel::Timeout),
        ProbeOutput::NotRun(detail) => Err(ValidationErrorModel::Io(detail@)),
        ProbeOutput::Finished { stdout, stderr } => {
            let lines = lines_of(stdout@);
            if !lines.contains(PROBE_STARTED@) {
                Err(ValidationErrorModel::NonoFailed(trimmed(stderr@)))
            } else {
                match first_result(lines) {
                    None => Err(ValidationErrorModel::InvalidProtocol),
                    Some(result) => if result == "denied 1"@ || result == "denied 13"@ {
                        Ok(())
                    } else if result == "reachable"@ {
                        Err(ValidationErrorModel::Reachable)
                    } else {
                        Err(ValidationErrorModel::Inconclusive(result))
                    },
                }
            }
        },
    }
}

/// Judges what running the probe through a profile gave.
pub fn validate_profile(output: ProbeOutput) -> (result: Result<(), ValidationError>)
    ensures
        match verdict(output) {
            Ok(_) => result is Ok,
            Err(refusal) => result matches Err(error) && error@ == refusal,
        },
{
    let (stdout, stderr) = match output {
        ProbeOutput::TimedOut => return Err(ValidationError::Timeout),
        ProbeOutput::NotRun(detail) => return Err(ValidationError::Io(detail)),
        ProbeOutput::Finished { stdout, stderr } => (stdout, stderr),
    };
    let all = lines(stdout.as_str());
    let ghost wanted = texts(all@);
    let mut started = false;
    for i in 0..all.len()
        invariant
            wanted == texts(all@),
            started <==> exists|j: int| 0 <= j < i && #[trigger] wanted[j] == PROBE_STARTED@,
    {
        assert(wanted[i as int] == all@[i as int]@);
        if same(all[i].as_str(), PROBE_STARTED) {
            started = true;
        }
    }
    assert(started <==> wanted.contains(PROBE_STARTED@));
    if !started {
        return Err(ValidationError::NonoFailed(trim(stderr.as_str())));
    }
    let mut found: Option<String> = None;
    let mut i: usize = 0;
    assert(wanted.skip(0) =~= wanted);
    while i < all.len() && found.is_none()
        invariant
            i <= all@.len(),
            wanted == texts(all@),
            match found {
                Some(report) => first_result(wanted) == Some(report@),
                None => first_result(wanted) == first_result(wanted.skip(i as int)),
            },
        decreases all@.len() - i,
    {
        assert(wanted[i as int] == all@[i as int]@);
        assert(wanted.skip(i as int)[0] == wanted[i as int]);
        assert(wanted.skip(i as int).drop_first() =~= wanted.skip(i + 1));
        found = strip_prefix(all[i].as_str(), PROBE_RESULT);
        i += 1;
    }
    match found {
        None => Err(ValidationError::InvalidProtocol),
        Some(report) => {
            if same(report.as_str(), "denied 1") || same(report.as_str(), "denied 13") {
                Ok(())
            } else if same(report.as_str(), "reachable") {
                Err(ValidationError::Reachable)
            } else {
                Err(ValidationError::Inconclusive(report))
            }
        },
    }
}

/// Numbers are written in digits.
proof fn lemma_decimal_digits(value: nat)
    ensures
        decimal(value).len() > 0,
        forall|i: int| 0 <= i < decimal(value).len() ==> '0' <= #[trigger] decimal(value)[i] <= '9',
    decreases value,
{
    if value >= 10 {
        lemma_decimal_digits(value / 10);
    }
}

/// Two ended lines are split into just those.
proof fn lemma_two_lines(a: Seq<char>, b: Seq<char>)
    requires
        !a.contains('\n'),
        !b.contains('\n'),
        a.len() > 0,
        a.last() != '\r',
        b.len() > 0,
        b.last() != '\r',
    ensures
        lines_of(a + seq!['\n'] + b + seq!['\n']) == seq![a, b],
{
    let empty = Seq::<char>::empty();
    assert(pieces(empty, '\n') =~= seq![empty]);
    lemma_pieces_extend(empty, a, '\n');
    assert(empty + a =~= a);
    assert(pieces(a, '\n') =~= seq![a]);
    let first = a + seq!['\n'];
    assert(first.drop_last() =~= a);
    assert(pieces(first, '\n') =~= seq![a, empty]);
    lemma_pieces_extend(first, b, '\n');
    assert(empty + b =~= b);
    assert(pieces(first + b, '\n') =~= seq![a, b]);
    let all = first + b + seq!['\n'];
    assert(all.drop_last() =~= first + b);
    assert(pieces(all, '\n') =~= seq![a, b, empty]);
    assert(lines_of(all) =~= seq![a, b]);
}

/// What the probe prints is understood: of a probe that printed its two lines, the profile passes
/// exactly if connecting was refused with EPERM or EACCES.
pub proof fn probe_reports_are_understood(
    connection: ProbeConnection,
    stdout: String,
    stderr: String,
)
    requires
        stdout@ == PROBE_STARTED@ + seq!['\n'] + (PROBE_RESULT@ + connection.report()) + seq!['\n'],
        connection matches ProbeConnection::Failed { kind, .. } ==> !kind@.contains('\n')
            && !kind@.contains('\r'),
    ensures
        verdict((ProbeOutput::Finished { stdout, stderr })) is Ok <==> (connection matches
            ProbeConnection::Failed { errno: Some(number), .. } && (number == 1 || number == 13)),
        connection matches ProbeConnection::Connected { answered } && answered ==> verdict(
            (ProbeOutput::Finished { stdout, stderr }),
        ) == Err::<(), ValidationErrorModel>(ValidationErrorModel::Reachable),
{
    reveal_strlit("nono-approval-probe-v1 started");
    reveal_strlit("nono-approval-probe-v1 result ");
    reveal_strlit("reachable");
    reveal_strlit("error http");
    reveal_strlit("denied ");
    reveal_strlit("error ");
    reveal_strlit("kind:");
    reveal_strlit("-");
    reveal_strlit("denied 1");
    reveal_strlit("denied 13");
    let report = connection.report();
    let line = PROBE_RESULT@ + report;
    match connection {
        ProbeConnection::Failed { errno: Some(number), .. } => {
            lemma_decimal_digits(number as nat);
            lemma_decimal_digits((-number) as nat);
            let written = signed_decimal(number as int);
            assert(forall|i: int| 0 <= i < written.len() ==> #[trigger] written[i] <= '9'
                && written[i] >= '-');
            assert(line.last() == written.last());
        },
        ProbeConnection::Failed { errno: None, kind } => {
            if kind@.len() > 0 {
                assert(kind@.contains(kind@.last()));
                assert(line.last() == kind@.last());
            } else {
                assert(line.last() == ':');
            }
        },
        ProbeConnection::Connected { .. } => {},
    }
    assert(!PROBE_STARTED@.contains('\n'));
    if report.contains('\n') {
        let i = choose|i: int| 0 <= i < report.len() && report[i] == '\n';
        match connection {
            ProbeConnection::Failed { errno: None, kind } => {
                assert(report[i] == kind@[i - 11]);
            },
            _ => {},
        }
    }
    assert(!line.contains('\n'));
    lemma_two_lines(PROBE_STARTED@, line);
    let lines = lines_of(stdout@);
    assert(lines =~= seq![PROBE_STARTED@, line]);
    assert(lines[0] == PROBE_STARTED@);
    assert(lines.contains(PROBE_STARTED@));
    assert(PROBE_STARTED@.take(PROBE_RESULT@.len() as int)[23] != PROBE_RESULT@[23]);
    assert(lines.drop_first() =~= seq![line]);
    assert(line.take(PROBE_RESULT@.len() as int) =~= PROBE_RESULT@);
    assert(line.skip(PROBE_RESULT@.len() as int) =~= report);
    reveal_with_fuel(first_result, 3);
    assert(first_result(lines) == Some(report));
    match connection {
        ProbeConnection::Failed { errno: Some(number), .. } => {
            if number == 1 {
                assert(decimal(1) =~= seq!['1']);
                assert(report =~= "denied 1"@);
            } else if number == 13 {
                reveal_with_fuel(decimal, 2);
                assert(decimal(13) =~= seq!['1', '3']);
                assert(report =~= "denied 13"@);
            } else {
                assert(report[0] == 'e');
            }
        },
        ProbeConnection::Failed { errno: None, kind } => {
            assert(report[0] == 'e');
        },
        ProbeConnection::Connected { answered } => {
            assert(report[0] != 'd');
        },
    }
}

// ---------------------------------------------------------------------------
// Laws
// ---------------------------------------------------------------------------

/// A text is split at its line feeds: the line before the first is the first line, without the
/// carriage return at its end, and the rest follows. A last line that does not end is one too.
pub proof fn texts_are_split_line_by_line(line: Seq<char>, rest: Seq<char>)
    requires
        !line.contains('\n'),
    ensures
        lines_of(line + seq!['\n'] + rest) == seq![without_return(line)] + lines_of(rest),
        lines_of(Seq::empty()) == Seq::<Seq<char>>::empty(),
        line.len() > 0 ==> lines_of(line) == seq![line],
        without_return(line.push('\r')) == line,
        line.len() > 0 && line.last() != '\r' ==> without_return(line) == line,
{
    crate::text::both_sides_of_a_separator_are_split(line, rest, '\n');
    crate::text::both_sides_of_a_separator_are_split(Seq::empty(), rest, '\n');
    crate::text::lemma_pieces_nonempty(rest, '\n');
    let parts = pieces(line + seq!['\n'] + rest, '\n');
    let behind = pieces(rest, '\n');
    assert(parts == seq![line] + behind);
    assert(parts.last() == behind.last());
    assert(parts.drop_last() =~= seq![line] + behind.drop_last());
    assert(parts.drop_last().map_values(|line: Seq<char>| without_return(line)) =~= seq![
        without_return(line),
    ] + behind.drop_last().map_values(|line: Seq<char>| without_return(line)));
    assert(lines_of(line + seq!['\n'] + rest) =~= seq![without_return(line)] + lines_of(rest));
    assert(pieces(Seq::<char>::empty(), '\n') =~= seq![Seq::<char>::empty()]);
    assert(lines_of(Seq::empty()) =~= Seq::<Seq<char>>::empty());
    assert(lines_of(line) =~= if line.len() > 0 {
        seq![line]
    } else {
        Seq::empty()
    });
    assert(line.push('\r').drop_last() =~= line);
}

/// Trimming takes nothing but white space from the two ends, and all of it.
pub proof fn trimming_takes_white_space_from_the_ends(text: Seq<char>)
    ensures
        trimmed(text).len() > 0 ==> !is_white(trimmed(text)[0]) && !is_white(trimmed(text).last()),
        exists|i: int, j: int|
            0 <= i <= j <= text.len() && trimmed(text) == #[trigger] text.subrange(i, j)
                && is_white_but_for(text, i, j),
{
    let (i, j) = lemma_trimmed(text);
    assert(trimmed(text) == text.subrange(i, j));
}

/// Whether a text holds nothing but white space outside a range.
pub open spec fn is_white_but_for(text: Seq<char>, i: int, j: int) -> bool {
    forall|k: int| 0 <= k < text.len() && (k < i || k >= j) ==> is_white(#[trigger] text[k])
}

proof fn lemma_white_in_front(text: Seq<char>, i: int, j: int)
    requires
        text.len() > 0,
        is_white(text[0]),
        0 <= i <= j < text.len(),
        is_white_but_for(text.drop_first(), i, j),
    ensures
        is_white_but_for(text, i + 1, j + 1),
        text.drop_first().subrange(i, j) == text.subrange(i + 1, j + 1),
{
    let rest = text.drop_first();
    assert(rest.subrange(i, j) =~= text.subrange(i + 1, j + 1));
    assert forall|k: int| 0 <= k < text.len() && (k < i + 1 || k >= j + 1) implies is_white(
        #[trigger] text[k],
    ) by {
        if k > 0 {
            assert(is_white(rest[k - 1]));
        }
    }
}

proof fn lemma_white_behind(text: Seq<char>, i: int, j: int)
    requires
        text.len() > 0,
        is_white(text.last()),
        0 <= i <= j < text.len(),
        is_white_but_for(text.drop_last(), i, j),
    ensures
        is_white_but_for(text, i, j),
        text.drop_last().subrange(i, j) == text.subrange(i, j),
{
    let rest = text.drop_last();
    assert(rest.subrange(i, j) =~= text.subrange(i, j));
    assert forall|k: int| 0 <= k < text.len() && (k < i || k >= j) implies is_white(
        #[trigger] text[k],
    ) by {
        if k < rest.len() {
            assert(is_white(rest[k]));
        }
    }
}

#[verifier::spinoff_prover]
proof fn lemma_trimmed(text: Seq<char>) -> (ends: (int, int))
    ensures
        0 <= ends.0 <= ends.1 <= text.len(),
        trimmed(text) == text.subrange(ends.0, ends.1),
        is_white_but_for(text, ends.0, ends.1),
        trimmed(text).len() > 0 ==> !is_white(trimmed(text)[0]) && !is_white(trimmed(text).last()),
    decreases text.len(),
{
    if text.len() == 0 {
        assert(text.subrange(0, 0) =~= text);
        (0, 0)
    } else if is_white(text.first()) {
        let (i, j) = lemma_trimmed(text.drop_first());
        lemma_white_in_front(text, i, j);
        (i + 1, j + 1)
    } else if is_white(text.last()) {
        let (i, j) = lemma_trimmed(text.drop_last());
        lemma_white_behind(text, i, j);
        (i, j)
    } else {
        assert(text.subrange(0, text.len() as int) =~= text);
        (0, text.len() as int)
    }
}

/// White space is the blank, the tab, line ends and the like, and no printable ASCII character.
pub proof fn white_space_is_not_printed(c: char)
    ensures
        c == ' ' || c == '\t' || c == '\n' || c == '\r' ==> is_white(c),
        '!' <= c <= '~' ==> !is_white(c),
{
}

/// The first result that is reported counts, and is what follows the marker in its line.
pub proof fn the_first_result_counts(lines: Seq<Seq<char>>)
    ensures
        first_result(lines) is None <==> forall|i: int|
            0 <= i < lines.len() ==> !begins_with(#[trigger] lines[i], PROBE_RESULT@),
        first_result(lines) matches Some(result) ==> exists|i: int|
            0 <= i < lines.len() && #[trigger] lines[i] == PROBE_RESULT@ + result && forall|j: int|
                0 <= j < i ==> !begins_with(#[trigger] lines[j], PROBE_RESULT@),
    decreases lines.len(),
{
    if lines.len() > 0 {
        let rest = lines.drop_first();
        crate::text::starts_and_ends_are_split_off(lines[0], PROBE_RESULT@, Seq::empty());
        if !begins_with(lines[0], PROBE_RESULT@) {
            the_first_result_counts(rest);
            assert forall|i: int| 0 <= i < rest.len() implies #[trigger] rest[i] == lines[i
                + 1] by {}
            if let Some(result) = first_result(rest) {
                let i = choose|i: int|
                    0 <= i < rest.len() && #[trigger] rest[i] == PROBE_RESULT@ + result && forall|
                        j: int,
                    |
                        0 <= j < i ==> !begins_with(#[trigger] rest[j], PROBE_RESULT@);
                assert(lines[i + 1] == rest[i]);
                assert forall|j: int| 0 <= j < i + 1 implies !begins_with(
                    #[trigger] lines[j],
                    PROBE_RESULT@,
                ) by {
                    if j > 0 {
                        assert(rest[j - 1] == lines[j]);
                    }
                }
                crate::text::starts_and_ends_are_split_off(
                    lines[i + 1],
                    PROBE_RESULT@,
                    result,
                );
            } else {
                assert forall|i: int| 0 <= i < lines.len() implies !begins_with(
                    #[trigger] lines[i],
                    PROBE_RESULT@,
                ) by {
                    if i > 0 {
                        assert(rest[i - 1] == lines[i]);
                    }
                }
            }
        }
    }
}

/// A profile passes exactly if the probe ran to its end, said that it started, and reported first
/// that it was denied with error 1 or 13.
pub proof fn only_denied_probes_pass(output: ProbeOutput)
    ensures
        verdict(output) is Ok <==> (output matches ProbeOutput::Finished { stdout, .. } && lines_of(
            stdout@,
        ).contains(PROBE_STARTED@) && (first_result(lines_of(stdout@)) == Some("denied 1"@)
            || first_result(lines_of(stdout@)) == Some("denied 13"@))),
        output is TimedOut ==> verdict(output) == Err::<(), ValidationErrorModel>(
            ValidationErrorModel::Timeout,
        ),
        output matches ProbeOutput::NotRun(detail) ==> verdict(output) == Err::<
            (),
            ValidationErrorModel,
        >(ValidationErrorModel::Io(detail@)),
        output matches ProbeOutput::Finished { stdout, stderr } ==> (!lines_of(stdout@).contains(
            PROBE_STARTED@,
        ) ==> verdict(output) == Err::<(), ValidationErrorModel>(
            ValidationErrorModel::NonoFailed(trimmed(stderr@)),
        )),
        output matches ProbeOutput::Finished { stdout, stderr } ==> (lines_of(stdout@).contains(
            PROBE_STARTED@,
        ) ==> {
            &&& first_result(lines_of(stdout@)) is None ==> verdict(output) == Err::<
                (),
                ValidationErrorModel,
            >(ValidationErrorModel::InvalidProtocol)
            &&& first_result(lines_of(stdout@)) == Some("reachable"@) && "reachable"@ != "denied 1"@
                && "reachable"@ != "denied 13"@ ==> verdict(output) == Err::<
                (),
                ValidationErrorModel,
            >(ValidationErrorModel::Reachable)
        }),
{
}

/// What the probe reports: whether it reached the socket and got an answer, or the error number of
/// the failure, as denied exactly for the two that mean so, or else its kind.
pub proof fn probes_report_what_they_met(connection: ProbeConnection, value: int)
    ensures
        connection matches ProbeConnection::Connected { answered } ==> connection.report()
            == if answered {
            "reachable"@
        } else {
            "error http"@
        },
        connection matches ProbeConnection::Failed { errno: Some(number), .. } ==> (number == 1
            || number == 13 ==> connection.report() == "denied "@ + decimal(number as nat)),
        connection matches ProbeConnection::Failed { errno: Some(number), .. } ==> (number != 1
            && number != 13 ==> connection.report() == "error "@ + signed_decimal(number as int)),
        connection matches ProbeConnection::Failed { errno: None, kind } ==> connection.report()
            == "error "@ + ("kind:"@ + kind@),
        value >= 0 ==> signed_decimal(value) == decimal(value as nat),
        value < 0 ==> signed_decimal(value) == "-"@ + decimal((-value) as nat),
{
}

/// Every failure says what it means.
pub proof fn validation_errors_say_what_they_mean(detail: Seq<char>)
    ensures
        ValidationErrorModel::Timeout.message() == "nono profile validation timed out"@,
        ValidationErrorModel::NonoFailed(detail).message()
            == "nono failed to start the validation probe: "@ + detail,
        ValidationErrorModel::InvalidProtocol.message()
            == "validation probe returned an invalid protocol"@,
        ValidationErrorModel::Reachable.message()
            == "control socket was reachable from the sandbox"@,
        ValidationErrorModel::Inconclusive(detail).message()
            == "control socket denial was inconclusive: "@ + detail,
        ValidationErrorModel::Io(detail).message() == detail,
{
}

/// The lines of the probe begin with its name and version.
pub proof fn probe_lines_name_their_version(connection: &ProbeConnection, line: String)
    requires
        call_ensures(run_probe, (connection,), line),
    ensures
        PROBE_STARTED@ == "nono-approval-probe-v1 started"@,
        PROBE_RESULT@ == "nono-approval-probe-v1 result "@,
        line@ == "nono-approval-probe-v1 result "@ + connection.report(),
{
}

} // verus!
