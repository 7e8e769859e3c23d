//! Session rules: literal paths and component globs, and which rule decides a request.
use vstd::prelude::*;
use vstd::string::StringExecFns;

use crate::display::{sanitize, sanitized};
use crate::protocol::{
    AccessMode, DecisionModel, KnownApprovalRequest, RequestModel, WebhookDecision,
};
use crate::text::{
    both_sides_of_a_separator_are_split, byte_len, chars, contains, join, join_texts,
    lemma_pieces_extend, lemma_pieces_nonempty, lemma_utf8_concat, pieces, same, split, texts,
    utf8_len,
};

verus! {

/// The most rules a session may hold.
pub const MAX_SESSION_RULES: usize = 128;

/// The longest path of a rule or a matched request, in bytes.
pub const MAX_RULE_PATH_BYTES: usize = 4096;

/// What a rule does with the requests it matches.
#[derive(Clone, Copy, Debug, PartialEq, Eq, Hash, Structural)]
pub enum RuleAction {
    Allow,
    Deny,
}

/// Whether a rule is about one path or a directory and everything below it.
#[derive(Clone, Copy, Debug, PartialEq, Eq, Hash, Structural)]
pub enum RuleScope {
    Path,
    Directory,
}

impl RuleScope {
    /// The name of the scope.
    pub open spec fn name(self) -> Seq<char> {
        match self {
            RuleScope::Path => "Path"@,
            RuleScope::Directory => "Directory"@,
        }
    }

    /// The name of the scope.
    pub fn as_str(&self) -> (result: &'static str)
        ensures
            result@ == self.name(),
    {
        match self {
            RuleScope::Path => "Path",
            RuleScope::Directory => "Directory",
        }
    }
}

/// Why a rule or a policy was refused.
#[derive(Debug, PartialEq, Eq)]
pub enum PolicyError {
    NotCapability,
    InvalidPath,
    InvalidPattern,
    Capacity,
    DoesNotCoverSource,
    DuplicateRule(String),
    ReadPolicy { path: String, detail: String },
    PolicyToml(String),
}

/// The contents of a [`PolicyError`].
pub enum PolicyErrorModel {
    NotCapability,
    InvalidPath,
    InvalidPattern,
    Capacity,
    DoesNotCoverSource,
    DuplicateRule(Seq<char>),
    ReadPolicy { path: Seq<char>, detail: Seq<char> },
    PolicyToml(Seq<char>),
}

impl View for PolicyError {
    type V = PolicyErrorModel;

    open spec fn view(&self) -> PolicyErrorModel {
        match *self {
            PolicyError::NotCapability => PolicyErrorModel::NotCapability,
            PolicyError::InvalidPath => PolicyErrorModel::InvalidPath,
            PolicyError::InvalidPattern => PolicyErrorModel::InvalidPattern,
            PolicyError::Capacity => PolicyErrorModel::Capacity,
            PolicyError::DoesNotCoverSource => PolicyErrorModel::DoesNotCoverSource,
            PolicyError::DuplicateRule(path) => PolicyErrorModel::DuplicateRule(path@),
            PolicyError::ReadPolicy { path, detail } => PolicyErrorModel::ReadPolicy {
                path: path@,
                detail: detail@,
            },
            PolicyError::PolicyToml(detail) => PolicyErrorModel::PolicyToml(detail@),
        }
    }
}

impl PolicyErrorModel {
    /// The error as people read it.
    pub open spec fn message(self) -> Seq<char> {
        match self {
            PolicyErrorModel::NotCapability => "session rules require a capability request"@,
            PolicyErrorModel::InvalidPath =>
                "rule path must be absolute, contain no parent components or NUL, and fit in 4096 bytes"@,
            PolicyErrorModel::InvalidPattern => "wildcards must occupy a whole path component"@,
            PolicyErrorModel::Capacity => "session rule limit reached (128)"@,
            PolicyErrorModel::DoesNotCoverSource =>
                "rule must cover the source request path and its exact access mode"@,
            PolicyErrorModel::DuplicateRule(path) =>
                "policy file contains duplicate path/scope/access rule: "@ + path,
            PolicyErrorModel::ReadPolicy { path, detail } => "could not read policy file "@ + path
                + ": "@ + detail,
            PolicyErrorModel::PolicyToml(detail) => "invalid policy TOML: "@ + detail,
        }
    }
}

impl PolicyError {
    /// The error as people read it.
    pub fn message(&self) -> (result: String)
        ensures
            result@ == self@.message(),
    {
        match self {
            PolicyError::NotCapability => "session rules require a capability request".to_owned(),
            PolicyError::InvalidPath =>
                "rule path must be absolute, contain no parent components or NUL, and fit in 4096 bytes".to_owned(),
            PolicyError::InvalidPattern => "wildcards must occupy a whole path component".to_owned(),
            PolicyError::Capacity => "session rule limit reached (128)".to_owned(),
            PolicyError::DoesNotCoverSource =>
                "rule must cover the source request path and its exact access mode".to_owned(),
            PolicyError::DuplicateRule(path) => {
                let mut text = "policy file contains duplicate path/scope/access rule: ".to_owned();
                text.append(path.as_str());
                text
            },
            PolicyError::ReadPolicy { path, detail } => {
                let mut text = "could not read policy file ".to_owned();
                text.append(path.as_str());
                text.append(": ");
                text.append(detail.as_str());
                text
            },
            PolicyError::PolicyToml(detail) => {
                let mut text = "invalid policy TOML: ".to_owned();
                text.append(detail.as_str());
                text
            },
        }
    }
}

// ---------------------------------------------------------------------------
// Paths
// ---------------------------------------------------------------------------

/// A component that names something: neither empty nor the current directory.
pub open spec fn is_name(part: Seq<char>) -> bool {
    part.len() > 0 && part != seq!['.']
}

/// The named components of a path, in order.
pub open spec fn path_parts(path: Seq<char>) -> Seq<Seq<char>> {
    pieces(path, '/').filter(|part: Seq<char>| is_name(part))
}

/// A path that rules can speak of: absolute, at most [`MAX_RULE_PATH_BYTES`] bytes long, and
/// without NUL or parent components.
pub open spec fn is_rule_path(path: Seq<char>) -> bool {
    &&& path.len() > 0 && path[0] == '/'
    &&& utf8_len(path) <= MAX_RULE_PATH_BYTES
    &&& !path.contains('\0')
    &&& !pieces(path, '/').contains(seq!['.', '.'])
}

/// The path with the given components.
pub open spec fn path_of(parts: Seq<Seq<char>>) -> Seq<char> {
    "/"@ + join(parts, "/"@)
}

proof fn lemma_pieces_bound(text: Seq<char>, separator: char)
    ensures
        1 <= pieces(text, separator).len() <= text.len() + 1,
    decreases text.len(),
{
    if text.len() > 0 {
        lemma_pieces_bound(text.drop_last(), separator);
    }
}

proof fn lemma_utf8_bound(text: Seq<char>)
    ensures
        text.len() <= utf8_len(text),
    decreases text.len(),
{
    if text.len() > 0 {
        lemma_utf8_bound(text.drop_first());
    }
}

/// Splits a path into its named components.
fn components(value: &str) -> (result: Result<Vec<String>, PolicyError>)
    ensures
        match result {
            Ok(parts) => is_rule_path(value@) && texts(parts@) == path_parts(value@) && parts@.len()
                <= MAX_RULE_PATH_BYTES + 1,
            Err(error) => !is_rule_path(value@) && error@ == PolicyErrorModel::InvalidPath,
        },
{
    let all = chars(value);
    if all.len() == 0 || all[0] != '/' || byte_len(value) > MAX_RULE_PATH_BYTES || contains(
        value,
        '\0',
    ) {
        return Err(PolicyError::InvalidPath);
    }
    let list = split(value, '/');
    let mut parts: Vec<String> = Vec::new();
    let ghost whole = pieces(value@, '/');
    let ghost named = |part: Seq<char>| is_name(part);
    proof {
        reveal_strlit("");
        reveal_strlit(".");
        reveal_strlit("..");
        assert("."@ =~= seq!['.']);
        assert(".."@ =~= seq!['.', '.']);
        assert(whole.take(0).filter(named) =~= Seq::<Seq<char>>::empty());
        assert(texts(parts@) =~= Seq::<Seq<char>>::empty());
    }
    for i in 0..list.len()
        invariant
            texts(list@) == whole,
            whole == pieces(value@, '/'),
            named == |part: Seq<char>| is_name(part),
            "."@ == seq!['.'],
            ".."@ == seq!['.', '.'],
            texts(parts@) == whole.take(i as int).filter(named),
            forall|j: int| 0 <= j < i ==> whole[j] != seq!['.', '.'],
    {
        let part = list[i].as_str();
        assert(part@ == whole[i as int]);
        if same(part, "..") {
            assert(whole.contains(seq!['.', '.']));
            return Err(PolicyError::InvalidPath);
        }
        proof {
            assert(whole.take(i + 1) =~= whole.take(i as int).push(whole[i as int]));
            whole.take(i as int).lemma_filter_push(whole[i as int], named);
        }
        if !part.is_empty() && !same(part, ".") {
            let ghost before = parts@;
            parts.push(part.to_owned());
            assert(texts(parts@) =~= texts(before).push(part@));
        }
    }
    proof {
        assert(whole.take(whole.len() as int) =~= whole);
        whole.lemma_filter_len(named);
        lemma_pieces_bound(value@, '/');
        lemma_utf8_bound(value@);
    }
    Ok(parts)
}

/// Writes the path with the given components.
fn path_text(parts: &Vec<String>) -> (result: String)
    ensures
        result@ == path_of(texts(parts@)),
{
    let mut result = "/".to_owned();
    let joined = join_texts(parts, "/");
    result.append(joined.as_str());
    result
}

// ---------------------------------------------------------------------------
// Patterns
// ---------------------------------------------------------------------------

/// One step of a pattern.
#[derive(Debug, PartialEq, Eq)]
enum Segment {
    Literal(String),
    One,
    Many,
    Descendants,
}

/// The contents of one step of a pattern: a literal component, exactly one component, one or more
/// components, or any number of components.
pub enum SegmentModel {
    Literal(Seq<char>),
    One,
    Many,
    Descendants,
}

impl View for Segment {
    type V = SegmentModel;

    closed spec fn view(&self) -> SegmentModel {
        match *self {
            Segment::Literal(name) => SegmentModel::Literal(name@),
            Segment::One => SegmentModel::One,
            Segment::Many => SegmentModel::Many,
            Segment::Descendants => SegmentModel::Descendants,
        }
    }
}

impl Clone for Segment {
    fn clone(&self) -> (result: Self)
        ensures
            result@ == self@,
    {
        match self {
            Segment::Literal(name) => Segment::Literal(name.clone()),
            Segment::One => Segment::One,
            Segment::Many => Segment::Many,
            Segment::Descendants => Segment::Descendants,
        }
    }
}

/// Component glob: `*` stands for one component, `**` for one or more, a trailing `/` for zero or
/// more.
#[derive(Debug, PartialEq, Eq)]
pub struct PathPattern(Vec<Segment>);

impl View for PathPattern {
    type V = Seq<SegmentModel>;

    closed spec fn view(&self) -> Seq<SegmentModel> {
        Seq::new(self.0@.len(), |i: int| self.0@[i]@)
    }
}

impl Clone for PathPattern {
    fn clone(&self) -> (result: Self)
        ensures
            result@ == self@,
    {
        let mut segments: Vec<Segment> = Vec::new();
        for i in 0..self.0.len()
            invariant
                segments@.len() == i,
                forall|j: int| 0 <= j < i ==> #[trigger] segments@[j]@ == self.0@[j]@,
        {
            segments.push(self.0[i].clone());
        }
        let result = PathPattern(segments);
        assert(result@ =~= self@);
        result
    }
}

/// Whether one step of a pattern stands for a run of components.
pub open spec fn stands_for(segment: SegmentModel, run: Seq<Seq<char>>) -> bool {
    match segment {
        SegmentModel::Literal(name) => run == seq![name],
        SegmentModel::One => run.len() == 1,
        SegmentModel::Many => run.len() >= 1,
        SegmentModel::Descendants => true,
    }
}

/// Whether `parts` can be cut into runs, one for each step of the pattern, in order.
pub open spec fn glob(pattern: Seq<SegmentModel>, parts: Seq<Seq<char>>) -> bool
    decreases pattern.len(),
{
    if pattern.len() == 0 {
        parts.len() == 0
    } else {
        exists|cut: int|
            0 <= cut <= parts.len() && glob(pattern.drop_last(), parts.take(cut))
                && #[trigger] stands_for(pattern.last(), parts.skip(cut))
    }
}

/// The step a component of a written pattern stands for, if it is a proper one.
pub open spec fn segment_of(part: Seq<char>) -> Option<SegmentModel> {
    if part == seq!['*'] {
        Some(SegmentModel::One)
    } else if part == seq!['*', '*'] {
        Some(SegmentModel::Many)
    } else if part.contains('*') {
        None
    } else {
        Some(SegmentModel::Literal(part))
    }
}

/// The pattern that a text denotes, or why it denotes none.
pub open spec fn pattern_of(text: Seq<char>) -> Result<Seq<SegmentModel>, PolicyErrorModel> {
    let parts = path_parts(text);
    if !is_rule_path(text) {
        Err(PolicyErrorModel::InvalidPath)
    } else if exists|i: int| 0 <= i < parts.len() && segment_of(#[trigger] parts[i]) is None {
        Err(PolicyErrorModel::InvalidPattern)
    } else {
        Ok(
            Seq::new(parts.len(), |i: int| segment_of(parts[i])->0) + (if text.last() == '/' {
                seq![SegmentModel::Descendants]
            } else {
                Seq::empty()
            }),
        )
    }
}

/// The pattern of a path taken literally, alone or with everything below it.
pub open spec fn literal_pattern(parts: Seq<Seq<char>>, scope: RuleScope) -> Seq<SegmentModel> {
    Seq::new(parts.len(), |i: int| SegmentModel::Literal(parts[i])) + (match scope {
        RuleScope::Path => Seq::empty(),
        RuleScope::Directory => seq![SegmentModel::Descendants],
    })
}

/// Whether a pattern matches a path.
pub open spec fn pattern_matches(pattern: Seq<SegmentModel>, path: Seq<char>) -> bool {
    is_rule_path(path) && glob(pattern, path_parts(path))
}

proof fn lemma_glob_step(
    pattern: Seq<SegmentModel>,
    segment: SegmentModel,
    parts: Seq<Seq<char>>,
    n: int,
)
    requires
        0 <= n <= parts.len(),
    ensures
        glob(pattern.push(segment), parts.take(n)) == match segment {
            SegmentModel::Literal(name) => n > 0 && glob(pattern, parts.take(n - 1)) && parts[n - 1]
                == name,
            SegmentModel::One => n > 0 && glob(pattern, parts.take(n - 1)),
            SegmentModel::Many => n > 0 && (glob(pattern, parts.take(n - 1)) || glob(
                pattern.push(segment),
                parts.take(n - 1),
            )),
            SegmentModel::Descendants => glob(pattern, parts.take(n)) || (n > 0 && glob(
                pattern.push(segment),
                parts.take(n - 1),
            )),
        },
{
    let longer = pattern.push(segment);
    let whole = parts.take(n);
    assert(longer.drop_last() =~= pattern);
    assert(longer.last() == segment);
    assert forall|cut: int| 0 <= cut <= n implies #[trigger] whole.take(cut) == parts.take(
        cut,
    ) by {
        assert(whole.take(cut) =~= parts.take(cut));
    }
    if n > 0 {
        let shorter = parts.take(n - 1);
        assert forall|cut: int| 0 <= cut <= n - 1 implies #[trigger] shorter.take(cut)
            == parts.take(cut) by {
            assert(shorter.take(cut) =~= parts.take(cut));
        }
        // A cut of the shorter list is a cut of the longer one, with one more component at the end.
        if glob(longer, shorter) {
            let cut = choose|cut: int|
                0 <= cut <= shorter.len() && glob(pattern, shorter.take(cut))
                    && #[trigger] stands_for(segment, shorter.skip(cut));
            assert(shorter.take(cut) == whole.take(cut));
            assert(whole.skip(cut).len() == shorter.skip(cut).len() + 1);
            if segment is Many || segment is Descendants {
                assert(stands_for(segment, whole.skip(cut)));
            }
        }
        if glob(pattern, shorter) {
            assert(whole.take(n - 1) == shorter);
            assert(whole.skip(n - 1) =~= seq![parts[n - 1]]);
            let fits = stands_for(segment, whole.skip(n - 1));
            assert(!(segment is Literal) ==> fits);
        }
    }
    if glob(pattern, whole) {
        assert(whole.take(n) =~= whole);
        let fits = stands_for(segment, whole.skip(n));
        assert(segment is Descendants ==> fits);
    }
    if glob(longer, whole) {
        let cut = choose|cut: int|
            0 <= cut <= whole.len() && glob(pattern, whole.take(cut)) && #[trigger] stands_for(
                segment,
                whole.skip(cut),
            );
        assert(whole.take(cut) == parts.take(cut));
        if let SegmentModel::Literal(name) = segment {
            assert(whole.skip(cut).len() == 1);
            assert(whole.skip(cut)[0] == parts[n - 1]);
        }
        if cut == n {
            assert(whole.take(cut) =~= whole);
        } else {
            let shorter = parts.take(n - 1);
            assert(shorter.take(cut) == parts.take(cut));
            assert(shorter.skip(cut).len() == whole.skip(cut).len() - 1);
            let fits = stands_for(segment, shorter.skip(cut));
            if cut == n - 1 {
                assert(shorter.take(cut) =~= shorter);
            } else {
                assert(segment is Many || segment is Descendants ==> fits);
            }
        }
    }
}

proof fn lemma_glob_literal_front(
    name: Seq<char>,
    rest: Seq<SegmentModel>,
    parts: Seq<Seq<char>>,
)
    ensures
        glob(seq![SegmentModel::Literal(name)] + rest, parts) == (parts.len() > 0 && parts[0] == name
            && glob(rest, parts.skip(1))),
    decreases rest.len(),
{
    let head = SegmentModel::Literal(name);
    let whole = seq![head] + rest;
    if rest.len() == 0 {
        assert(whole =~= Seq::<SegmentModel>::empty().push(head));
        assert(parts.take(parts.len() as int) =~= parts);
        lemma_glob_step(Seq::empty(), head, parts, parts.len() as int);
        assert(rest =~= Seq::<SegmentModel>::empty());
    } else {
        let front = rest.drop_last();
        let last = rest.last();
        assert(whole.drop_last() =~= seq![head] + front);
        assert(whole.last() == last);
        if glob(whole, parts) {
            let cut = choose|cut: int|
                0 <= cut <= parts.len() && glob(whole.drop_last(), parts.take(cut))
                    && #[trigger] stands_for(last, parts.skip(cut));
            lemma_glob_literal_front(name, front, parts.take(cut));
            assert(parts.take(cut).skip(1) =~= parts.skip(1).take(cut - 1));
            assert(parts.skip(1).skip(cut - 1) =~= parts.skip(cut));
            assert(stands_for(last, parts.skip(1).skip(cut - 1)));
        }
        if parts.len() > 0 && parts[0] == name && glob(rest, parts.skip(1)) {
            let cut = choose|cut: int|
                0 <= cut <= parts.skip(1).len() && glob(front, parts.skip(1).take(cut))
                    && #[trigger] stands_for(last, parts.skip(1).skip(cut));
            assert(parts.take(cut + 1).skip(1) =~= parts.skip(1).take(cut));
            lemma_glob_literal_front(name, front, parts.take(cut + 1));
            assert(parts.skip(1).skip(cut) =~= parts.skip(cut + 1));
            assert(stands_for(last, parts.skip(cut + 1)));
        }
    }
}

/// Whether the first `n` steps of a pattern are literal.
spec fn literal_start(pattern: Seq<SegmentModel>, n: int) -> bool {
    0 <= n <= pattern.len() && forall|i: int|
        0 <= i < n ==> (#[trigger] pattern[i]) is Literal
}

/// Whether the literals at the start of a pattern agree with the components.
spec fn start_agrees(pattern: Seq<SegmentModel>, parts: Seq<Seq<char>>, n: int) -> bool {
    n <= parts.len() && forall|i: int|
        0 <= i < n ==> (#[trigger] pattern[i]) == SegmentModel::Literal(parts[i])
}

proof fn lemma_glob_literal_start(pattern: Seq<SegmentModel>, parts: Seq<Seq<char>>, n: int)
    requires
        literal_start(pattern, n),
    ensures
        glob(pattern, parts) == (start_agrees(pattern, parts, n) && glob(
            pattern.skip(n),
            parts.skip(n),
        )),
    decreases n,
{
    if n == 0 {
        assert(pattern.skip(0) =~= pattern);
        assert(parts.skip(0) =~= parts);
    } else {
        let head = pattern[0];
        let rest = pattern.skip(1);
        assert(head is Literal);
        let name = head->Literal_0;
        assert(pattern =~= seq![head] + rest);
        lemma_glob_literal_front(name, rest, parts);
        if parts.len() > 0 && parts[0] == name {
            let tail = parts.skip(1);
            assert forall|i: int| 0 <= i < n - 1 implies (#[trigger] rest[i]) is Literal by {
                assert(rest[i] == pattern[i + 1]);
            }
            lemma_glob_literal_start(rest, tail, n - 1);
            assert(rest.skip(n - 1) =~= pattern.skip(n));
            if n <= parts.len() {
                assert(tail.skip(n - 1) =~= parts.skip(n));
            }
            if start_agrees(pattern, parts, n) {
                assert forall|i: int| 0 <= i < n - 1 implies (#[trigger] rest[i])
                    == SegmentModel::Literal(tail[i]) by {
                    assert(rest[i] == pattern[i + 1]);
                }
            }
            if start_agrees(rest, tail, n - 1) {
                assert forall|i: int| 0 <= i < n implies (#[trigger] pattern[i])
                    == SegmentModel::Literal(parts[i]) by {
                    if i > 0 {
                        assert(rest[i - 1] == pattern[i]);
                    }
                }
            }
        } else if parts.len() > 0 {
            assert(pattern[0] != SegmentModel::Literal(parts[0]));
        }
    }
}

impl PathPattern {
    /// Compiles an absolute component glob without accessing the filesystem.
    pub fn parse(value: &str) -> (result: Result<Self, PolicyError>)
        ensures
            match pattern_of(value@) {
                Ok(segments) => result matches Ok(pattern) && pattern@ == segments,
                Err(refusal) => result matches Err(error) && error@ == refusal,
            },
    {
        let parts = match components(value) {
            Ok(parts) => parts,
            Err(error) => return Err(error),
        };
        proof {
            reveal_strlit("*");
            reveal_strlit("**");
            assert("*"@ =~= seq!['*']);
            assert("**"@ =~= seq!['*', '*']);
        }
        let mut segments: Vec<Segment> = Vec::new();
        for i in 0..parts.len()
            invariant
                "*"@ == seq!['*'],
                "**"@ == seq!['*', '*'],
                is_rule_path(value@),
                texts(parts@) == path_parts(value@),
                segments@.len() == i,
                forall|j: int|
                    0 <= j < i ==> segment_of(#[trigger] parts@[j]@) == Some(segments@[j]@),
        {
            let part = parts[i].as_str();
            assert(path_parts(value@)[i as int] == part@);
            if same(part, "*") {
                segments.push(Segment::One);
            } else if same(part, "**") {
                segments.push(Segment::Many);
            } else if contains(part, '*') {
                assert(segment_of(path_parts(value@)[i as int]) is None);
                return Err(PolicyError::InvalidPattern);
            } else {
                segments.push(Segment::Literal(part.to_owned()));
            }
        }
        proof {
            let all = path_parts(value@);
            assert forall|i: int| 0 <= i < all.len() implies segment_of(#[trigger] all[i])
                == Some(segments@[i]@) by {
                assert(all[i] == parts@[i]@);
            }
        }
        let ghost plain = segments@;
        let all = chars(value);
        if all[all.len() - 1] == '/' {
            segments.push(Segment::Descendants);
        }
        let result = PathPattern(segments);
        proof {
            let expected = pattern_of(value@)->Ok_0;
            assert(result@ =~= expected) by {
                assert forall|i: int| 0 <= i < plain.len() implies result@[i] == expected[i] by {
                    assert(segments@[i] == plain[i]);
                    assert(segment_of(path_parts(value@)[i]) == Some(plain[i]@));
                }
            }
        }
        Ok(result)
    }

    /// The pattern of a path taken literally: a `*` in a name stands for itself.
    fn literal(parts: &Vec<String>, scope: RuleScope) -> (result: Self)
        ensures
            result@ == literal_pattern(texts(parts@), scope),
    {
        let mut segments: Vec<Segment> = Vec::new();
        for i in 0..parts.len()
            invariant
                segments@.len() == i,
                forall|j: int|
                    0 <= j < i ==> #[trigger] segments@[j]@ == SegmentModel::Literal(parts@[j]@),
        {
            segments.push(Segment::Literal(parts[i].clone()));
        }
        if scope == RuleScope::Directory {
            segments.push(Segment::Descendants);
        }
        let result = PathPattern(segments);
        assert(result@ =~= literal_pattern(texts(parts@), scope));
        result
    }

    /// Whether the pattern matches a path.
    pub fn matches(&self, path: &str) -> (result: bool)
        ensures
            result == pattern_matches(self@, path@),
    {
        match components(path) {
            Ok(parts) => self.matches_components(&parts),
            Err(_) => false,
        }
    }

    /// The number of literal steps at the start.
    fn literal_len(&self) -> (n: usize)
        ensures
            literal_start(self@, n as int),
            n < self@.len() ==> !(self@[n as int] is Literal),
    {
        let mut n: usize = 0;
        while n < self.0.len()
            invariant
                n <= self.0@.len(),
                literal_start(self@, n as int),
            decreases self.0@.len() - n,
        {
            assert(self@[n as int] == self.0@[n as int]@);
            match &self.0[n] {
                Segment::Literal(_) => {},
                _ => return n,
            }
            n += 1;
        }
        n
    }

    /// Whether the pattern matches a list of components.
    ///
    /// Literals at the start are checked one by one. The steps after them fill one row of a table
    /// each: entry `i` of a row tells whether the steps so far match the first `i` components.
    fn matches_components(&self, parts: &Vec<String>) -> (result: bool)
        requires
            parts@.len() <= MAX_RULE_PATH_BYTES + 1,
        ensures
            result == glob(self@, texts(parts@)),
    {
        let prefix = self.literal_len();
        let ghost whole = texts(parts@);
        proof {
            lemma_glob_literal_start(self@, whole, prefix as int);
        }
        if parts.len() < prefix {
            return false;
        }
        let mut i: usize = 0;
        while i < prefix
            invariant
                i <= prefix <= parts@.len(),
                prefix <= self.0@.len(),
                whole == texts(parts@),
                start_agrees(self@, whole, i as int),
                literal_start(self@, prefix as int),
                glob(self@, whole) ==> start_agrees(self@, whole, prefix as int),
            decreases prefix - i,
        {
            assert(self@[i as int] == self.0@[i as int]@);
            match &self.0[i] {
                Segment::Literal(name) => {
                    if *name != parts[i] {
                        return false;
                    }
                },
                _ => {},
            }
            i += 1;
        }
        let ghost steps = self@.skip(prefix as int);
        let ghost rest = whole.skip(prefix as int);
        let count: usize = parts.len() - prefix;
        if prefix == self.0.len() {
            return count == 0;
        }
        if prefix + 1 == self.0.len() {
            if let Segment::Descendants = &self.0[prefix] {
                proof {
                    reveal_with_fuel(glob, 2);
                    assert(steps =~= seq![SegmentModel::Descendants]);
                    assert(rest.take(0) =~= Seq::<Seq<char>>::empty());
                    assert(steps.drop_last() =~= Seq::<SegmentModel>::empty());
                    assert(stands_for(steps.last(), rest.skip(0)));
                }
                return true;
            }
        }
        let mut row: Vec<bool> = Vec::new();
        row.push(true);
        while row.len() < count + 1
            invariant
                1 <= row@.len() <= count + 1,
                count < usize::MAX,
                row@[0],
                forall|j: int| 1 <= j < row@.len() ==> !row@[j],
            decreases count + 1 - row@.len(),
        {
            row.push(false);
        }
        let mut s: usize = prefix;
        assert(steps.take(0) =~= Seq::<SegmentModel>::empty());
        while s < self.0.len()
            invariant
                prefix <= s <= self.0@.len(),
                parts@.len() <= MAX_RULE_PATH_BYTES + 1,
                whole == texts(parts@),
                steps == self@.skip(prefix as int),
                rest == whole.skip(prefix as int),
                prefix + count == parts@.len(),
                row@.len() == count + 1,
                forall|j: int|
                    0 <= j <= count ==> #[trigger] row@[j] == glob(
                        steps.take(s - prefix),
                        rest.take(j),
                    ),
            decreases self.0@.len() - s,
        {
            let ghost done = steps.take(s - prefix);
            let ghost segment = self@[s as int];
            proof {
                assert(steps[s - prefix] == segment);
                assert(steps.take(s + 1 - prefix) =~= done.push(segment));
            }
            let mut next: Vec<bool> = Vec::new();
            while next.len() < count + 1
                invariant
                    s < self.0@.len(),
                    parts@.len() <= MAX_RULE_PATH_BYTES + 1,
                    whole == texts(parts@),
                    rest == whole.skip(prefix as int),
                    segment == self@[s as int],
                    prefix + count == parts@.len(),
                    row@.len() == count + 1,
                    next@.len() <= count + 1,
                    forall|j: int| 0 <= j <= count ==> #[trigger] row@[j] == glob(done, rest.take(j)),
                    forall|j: int|
                        0 <= j < next@.len() ==> #[trigger] next@[j] == glob(
                            done.push(segment),
                            rest.take(j),
                        ),
                decreases count + 1 - next@.len(),
            {
                let index: usize = next.len();
                proof {
                    lemma_glob_step(done, segment, rest, index as int);
                    assert(segment == self.0@[s as int]@);
                    if index > 0 {
                        assert(row@[index - 1] == glob(done, rest.take(index - 1)));
                        assert(rest[index - 1] == parts@[prefix + index - 1]@);
                    }
                }
                let value = match &self.0[s] {
                    Segment::Literal(name) => index > 0 && row[index - 1] && parts[prefix + index
                        - 1] == *name,
                    Segment::One => index > 0 && row[index - 1],
                    Segment::Many => index > 0 && (row[index - 1] || next[index - 1]),
                    Segment::Descendants => row[index] || (index > 0 && next[index - 1]),
                };
                next.push(value);
            }
            row = next;
            s += 1;
        }
        proof {
            assert(steps.take(steps.len() as int) =~= steps);
            assert(rest.take(count as int) =~= rest);
        }
        row[count]
    }
}

// ---------------------------------------------------------------------------
// Specificity
// ---------------------------------------------------------------------------

/// The rank of a step: the more a step pins down, the higher.
pub open spec fn rank(segment: SegmentModel) -> int {
    match segment {
        SegmentModel::Descendants => 0,
        SegmentModel::Many => 2,
        SegmentModel::One => 3,
        SegmentModel::Literal(_) => 4,
    }
}

/// The rank at a position of a pattern. The end of a pattern pins down more than a step that
/// stands for anything below, and less than any other step.
pub open spec fn rank_at(pattern: Seq<SegmentModel>, i: int) -> int {
    if 0 <= i < pattern.len() {
        rank(pattern[i])
    } else {
        1
    }
}

/// Whether pattern `a` is less specific than `b`: at the first position where their ranks differ,
/// `a` has the lower rank.
pub open spec fn less_specific(a: Seq<SegmentModel>, b: Seq<SegmentModel>) -> bool {
    exists|i: int|
        0 <= i && #[trigger] rank_at(a, i) < rank_at(b, i) && forall|j: int|
            0 <= j < i ==> #[trigger] rank_at(a, j) == rank_at(b, j)
}

/// The first position below `n` where the ranks of two patterns differ, or `n`.
spec fn first_difference(a: Seq<SegmentModel>, b: Seq<SegmentModel>, n: nat) -> nat
    decreases n,
{
    if n == 0 {
        0
    } else {
        let i = first_difference(a, b, (n - 1) as nat);
        if i < n - 1 || rank_at(a, n - 1) != rank_at(b, n - 1) {
            i
        } else {
            n
        }
    }
}

proof fn lemma_first_difference(a: Seq<SegmentModel>, b: Seq<SegmentModel>, n: nat)
    ensures
        ({
            let i = first_difference(a, b, n);
            &&& i <= n
            &&& i < n ==> rank_at(a, i as int) != rank_at(b, i as int)
            &&& forall|j: int| 0 <= j < i ==> #[trigger] rank_at(a, j) == rank_at(b, j)
        }),
    decreases n,
{
    if n > 0 {
        lemma_first_difference(a, b, (n - 1) as nat);
    }
}

proof fn lemma_not_both_less(a: Seq<SegmentModel>, b: Seq<SegmentModel>)
    ensures
        !(less_specific(a, b) && less_specific(b, a)),
{
    if less_specific(a, b) && less_specific(b, a) {
        let i = choose|i: int|
            0 <= i && #[trigger] rank_at(a, i) < rank_at(b, i) && forall|j: int|
                0 <= j < i ==> #[trigger] rank_at(a, j) == rank_at(b, j);
        let k = choose|k: int|
            0 <= k && #[trigger] rank_at(b, k) < rank_at(a, k) && forall|j: int|
                0 <= j < k ==> #[trigger] rank_at(b, j) == rank_at(a, j);
        if i < k {
            assert(rank_at(b, i) == rank_at(a, i));
        } else if k < i {
            assert(rank_at(a, k) == rank_at(b, k));
        }
    }
}

proof fn lemma_less_splits(a: Seq<SegmentModel>, b: Seq<SegmentModel>, c: Seq<SegmentModel>)
    requires
        less_specific(a, c),
    ensures
        less_specific(a, b) || less_specific(b, c),
{
    let i = choose|i: int|
        0 <= i && #[trigger] rank_at(a, i) < rank_at(c, i) && forall|j: int|
            0 <= j < i ==> #[trigger] rank_at(a, j) == rank_at(c, j);
    let m = first_difference(a, b, (i + 1) as nat) as int;
    lemma_first_difference(a, b, (i + 1) as nat);
    if m == i + 1 {
        assert(rank_at(a, i) == rank_at(b, i));
        assert forall|j: int| 0 <= j < i implies #[trigger] rank_at(b, j) == rank_at(c, j) by {
            assert(rank_at(a, j) == rank_at(b, j));
            assert(rank_at(a, j) == rank_at(c, j));
        }
        assert(rank_at(b, i) < rank_at(c, i));
    } else if rank_at(a, m) < rank_at(b, m) {
        assert(less_specific(a, b));
    } else {
        assert(rank_at(a, m) <= rank_at(c, m)) by {
            if m < i {
                assert(rank_at(a, m) == rank_at(c, m));
            }
        }
        assert forall|j: int| 0 <= j < m implies #[trigger] rank_at(b, j) == rank_at(c, j) by {
            assert(rank_at(a, j) == rank_at(b, j));
            assert(rank_at(a, j) == rank_at(c, j));
        }
        assert(rank_at(b, m) < rank_at(c, m));
    }
}

impl PathPattern {
    /// The rank at a position.
    fn rank_at(&self, i: usize) -> (result: u8)
        ensures
            result == rank_at(self@, i as int),
    {
        if i < self.0.len() {
            assert(self@[i as int] == self.0@[i as int]@);
            match &self.0[i] {
                Segment::Descendants => 0,
                Segment::Many => 2,
                Segment::One => 3,
                Segment::Literal(_) => 4,
            }
        } else {
            1
        }
    }

    /// Whether the pattern is less specific than another.
    fn is_less_specific(&self, other: &Self) -> (result: bool)
        ensures
            result == less_specific(self@, other@),
    {
        let mut i: usize = 0;
        while i < self.0.len() || i < other.0.len()
            invariant
                i <= self.0@.len() || i <= other.0@.len(),
                self@.len() == self.0@.len(),
                other@.len() == other.0@.len(),
                forall|j: int| 0 <= j < i ==> #[trigger] rank_at(self@, j) == rank_at(other@, j),
            decreases self.0@.len() + other.0@.len() - i,
        {
            let left: u8 = self.rank_at(i);
            let right: u8 = other.rank_at(i);
            if left != right {
                proof {
                    if left < right {
                        assert(rank_at(self@, i as int) < rank_at(other@, i as int));
                    } else {
                        assert(rank_at(other@, i as int) < rank_at(self@, i as int));
                        assert(less_specific(other@, self@)) by {
                            assert forall|j: int| 0 <= j < i implies #[trigger] rank_at(other@, j)
                                == rank_at(self@, j) by {
                                assert(rank_at(self@, j) == rank_at(other@, j));
                            }
                        }
                        lemma_not_both_less(self@, other@);
                    }
                }
                return left < right;
            }
            i += 1;
        }
        false
    }
}

// ---------------------------------------------------------------------------
// Drafts and rules
// ---------------------------------------------------------------------------

/// Editable literal-path rule data, independent of requests, sessions, storage and display.
#[derive(Debug, PartialEq, Eq)]
pub struct RuleDraft {
    pub action: RuleAction,
    pub path: String,
    pub scope: RuleScope,
    pub access: AccessMode,
}

/// The contents of a [`RuleDraft`].
pub struct DraftModel {
    pub action: RuleAction,
    pub path: Seq<char>,
    pub scope: RuleScope,
    pub access: AccessMode,
}

impl View for RuleDraft {
    type V = DraftModel;

    open spec fn view(&self) -> DraftModel {
        DraftModel {
            action: self.action,
            path: self.path@,
            scope: self.scope,
            access: self.access,
        }
    }
}

impl Clone for RuleDraft {
    fn clone(&self) -> (result: Self)
        ensures
            result@ == self@,
    {
        RuleDraft {
            action: self.action,
            path: self.path.clone(),
            scope: self.scope,
            access: self.access,
        }
    }
}

/// The contents of a list of drafts.
pub open spec fn draft_models(drafts: Seq<RuleDraft>) -> Seq<DraftModel> {
    Seq::new(drafts.len(), |i: int| drafts[i]@)
}

/// A rule of a session: a normalized literal path with its compiled pattern.
#[derive(Debug)]
pub struct SessionRule {
    pub path: String,
    pub access: AccessMode,
    pub scope: RuleScope,
    pub action: RuleAction,
    pub pattern: PathPattern,
}

/// The contents of a [`SessionRule`].
pub struct RuleModel {
    pub path: Seq<char>,
    pub access: AccessMode,
    pub scope: RuleScope,
    pub action: RuleAction,
    pub pattern: Seq<SegmentModel>,
}

impl View for SessionRule {
    type V = RuleModel;

    open spec fn view(&self) -> RuleModel {
        RuleModel {
            path: self.path@,
            access: self.access,
            scope: self.scope,
            action: self.action,
            pattern: self.pattern@,
        }
    }
}

impl Clone for SessionRule {
    fn clone(&self) -> (result: Self)
        ensures
            result@ == self@,
    {
        SessionRule {
            path: self.path.clone(),
            access: self.access,
            scope: self.scope,
            action: self.action,
            pattern: self.pattern.clone(),
        }
    }
}

impl DraftModel {
    /// The rule a draft compiles to, if its path is one that rules can speak of.
    pub open spec fn compiled(self) -> RuleModel {
        RuleModel {
            path: path_of(path_parts(self.path)),
            access: self.access,
            scope: self.scope,
            action: self.action,
            pattern: literal_pattern(path_parts(self.path), self.scope),
        }
    }

    /// The draft with its path normalized.
    pub open spec fn normalized(self) -> DraftModel {
        DraftModel { path: path_of(path_parts(self.path)), ..self }
    }

    /// Whether two drafts are about the same path, scope and access.
    pub open spec fn same_key(self, other: DraftModel) -> bool {
        self.path == other.path && self.scope == other.scope && self.access == other.access
    }

    /// Why the draft cannot decide a request, if it cannot.
    pub open spec fn source_error(self, request: RequestModel) -> Option<PolicyErrorModel> {
        match request {
            RequestModel::Capability { path, access, .. } => if !is_rule_path(self.path) {
                Some(PolicyErrorModel::InvalidPath)
            } else if self.access != access || !pattern_matches(self.compiled().pattern, path) {
                Some(PolicyErrorModel::DoesNotCoverSource)
            } else {
                None
            },
            _ => Some(PolicyErrorModel::NotCapability),
        }
    }
}

/// The draft that takes a request's path and access as they are, or why there is none.
pub open spec fn draft_from(request: RequestModel, action: RuleAction, scope: RuleScope) -> Result<
    DraftModel,
    PolicyErrorModel,
> {
    match request {
        RequestModel::Capability { path, access, .. } => if is_rule_path(path) {
            Ok(DraftModel { action, path, scope, access })
        } else {
            Err(PolicyErrorModel::InvalidPath)
        },
        _ => Err(PolicyErrorModel::NotCapability),
    }
}

impl RuleModel {
    /// A rule whose path is normalized and whose pattern is that of its path.
    pub open spec fn well_formed(self) -> bool {
        &&& is_rule_path(self.path)
        &&& self.path == path_of(path_parts(self.path))
        &&& self.pattern == literal_pattern(path_parts(self.path), self.scope)
    }

    /// The draft of a rule.
    pub open spec fn draft(self) -> DraftModel {
        DraftModel { action: self.action, path: self.path, scope: self.scope, access: self.access }
    }

    /// Whether two rules are about the same path, scope and access.
    pub open spec fn same_key(self, other: RuleModel) -> bool {
        self.path == other.path && self.scope == other.scope && self.access == other.access
    }

    /// Whether the rule matches a request.
    pub open spec fn applies_to(self, request: RequestModel) -> bool {
        match request {
            RequestModel::Capability { path, access, .. } => self.access == access
                && pattern_matches(self.pattern, path),
            _ => false,
        }
    }

    /// The decision the rule makes.
    pub open spec fn decision(self) -> DecisionModel {
        match self.action {
            RuleAction::Allow => DecisionModel::Granted,
            RuleAction::Deny => DecisionModel::Denied {
                reason: "denied by session rule \""@ + sanitized(self.path) + "\" ("@
                    + self.scope.name() + ")"@,
            },
        }
    }
}

impl RuleDraft {
    /// Creates a draft from a capability without deciding it.
    pub fn from_request(
        request: &KnownApprovalRequest,
        action: RuleAction,
        scope: RuleScope,
    ) -> (result: Result<Self, PolicyError>)
        ensures
            match draft_from(request@, action, scope) {
                Ok(draft) => result matches Ok(value) && value@ == draft,
                Err(refusal) => result matches Err(error) && error@ == refusal,
            },
    {
        match request {
            KnownApprovalRequest::Capability { path, access, .. } => {
                match components(path.as_str()) {
                    Ok(_) => Ok(RuleDraft { action, path: path.clone(), scope, access: *access }),
                    Err(error) => Err(error),
                }
            },
            _ => Err(PolicyError::NotCapability),
        }
    }

    /// Validates and normalizes a draft without consulting the filesystem.
    pub fn compile(&self) -> (result: Result<SessionRule, PolicyError>)
        ensures
            match result {
                Ok(rule) => is_rule_path(self.path@) && rule@ == self@.compiled()
                    && rule@.well_formed(),
                Err(error) => !is_rule_path(self.path@) && error@ == PolicyErrorModel::InvalidPath,
            },
    {
        let parts = match components(self.path.as_str()) {
            Ok(parts) => parts,
            Err(error) => return Err(error),
        };
        proof {
            normalizing_keeps_components(self.path@);
        }
        Ok(
            SessionRule {
                path: path_text(&parts),
                access: self.access,
                scope: self.scope,
                action: self.action,
                pattern: PathPattern::literal(&parts, self.scope),
            },
        )
    }

    /// Validates that the draft can be used to decide its source request.
    pub fn validate_source(&self, request: &KnownApprovalRequest) -> (result: Result<
        (),
        PolicyError,
    >)
        ensures
            match self@.source_error(request@) {
                None => result is Ok,
                Some(refusal) => result matches Err(error) && error@ == refusal,
            },
    {
        match request {
            KnownApprovalRequest::Capability { path, access, .. } => {
                let rule = match self.compile() {
                    Ok(rule) => rule,
                    Err(error) => return Err(error),
                };
                if self.access != *access || !rule.pattern.matches(path.as_str()) {
                    return Err(PolicyError::DoesNotCoverSource);
                }
                Ok(())
            },
            _ => Err(PolicyError::NotCapability),
        }
    }

    /// The normalized path itself and its ancestors up to the root, nearest first.
    pub fn ancestors(&self) -> (result: Result<Vec<String>, PolicyError>)
        ensures
            match result {
                Ok(paths) => is_rule_path(self.path@) && texts(paths@) == ancestors_of(self.path@),
                Err(error) => !is_rule_path(self.path@) && error@ == PolicyErrorModel::InvalidPath,
            },
    {
        let mut parts = match components(self.path.as_str()) {
            Ok(parts) => parts,
            Err(error) => return Err(error),
        };
        let ghost all = texts(parts@);
        let mut ancestors: Vec<String> = Vec::new();
        loop
            invariant_except_break
                is_rule_path(self.path@),
                all == path_parts(self.path@),
                parts@.len() + ancestors@.len() == all.len(),
                texts(parts@) == all.take(parts@.len() as int),
                forall|i: int|
                    0 <= i < ancestors@.len() ==> #[trigger] ancestors@[i]@ == path_of(
                        all.take(all.len() - i),
                    ),
            ensures
                ancestors@.len() == all.len() + 1,
                forall|i: int|
                    0 <= i < ancestors@.len() ==> #[trigger] ancestors@[i]@ == path_of(
                        all.take(all.len() - i),
                    ),
            decreases parts@.len(),
        {
            ancestors.push(path_text(&parts));
            let ghost before = parts@;
            if parts.pop().is_none() {
                break;
            }
            assert(texts(parts@) =~= all.take(parts@.len() as int)) by {
                assert(texts(parts@) =~= texts(before).drop_last());
            }
        }
        assert(texts(ancestors@) =~= ancestors_of(self.path@));
        Ok(ancestors)
    }
}

/// The normalized form of a path and its ancestors up to the root, nearest first.
pub open spec fn ancestors_of(path: Seq<char>) -> Seq<Seq<char>> {
    let parts = path_parts(path);
    Seq::new(parts.len() + 1, |i: int| path_of(parts.take(parts.len() - i)))
}

impl SessionRule {
    /// Derives a literal rule from a pending request, with its exact access mode.
    pub fn from_request(
        request: &KnownApprovalRequest,
        action: RuleAction,
        scope: RuleScope,
    ) -> (result: Result<Self, PolicyError>)
        ensures
            match draft_from(request@, action, scope) {
                Ok(draft) => result matches Ok(rule) && rule@ == draft.compiled()
                    && rule@.well_formed(),
                Err(refusal) => result matches Err(error) && error@ == refusal,
            },
    {
        match RuleDraft::from_request(request, action, scope) {
            Ok(draft) => draft.compile(),
            Err(error) => Err(error),
        }
    }

    /// The decision the rule makes.
    pub fn decision(&self) -> (result: WebhookDecision)
        ensures
            result@ == self@.decision(),
    {
        match self.action {
            RuleAction::Allow => WebhookDecision::Granted,
            RuleAction::Deny => {
                let mut reason = "denied by session rule \"".to_owned();
                reason.append(sanitize(self.path.as_str()).as_str());
                reason.append("\" (");
                reason.append(self.scope.as_str());
                reason.append(")");
                WebhookDecision::Denied { reason }
            },
        }
    }

    /// The draft of the rule.
    pub fn draft(&self) -> (result: RuleDraft)
        ensures
            result@ == self@.draft(),
    {
        RuleDraft {
            action: self.action,
            path: self.path.clone(),
            scope: self.scope,
            access: self.access,
        }
    }

    /// Whether the rule matches a request.
    pub fn applies_to(&self, request: &KnownApprovalRequest) -> (result: bool)
        ensures
            result == self@.applies_to(request@),
    {
        match request {
            KnownApprovalRequest::Capability { path, access, .. } => self.access == *access
                && self.pattern.matches(path.as_str()),
            _ => false,
        }
    }
}

// ---------------------------------------------------------------------------
// Normalization
// ---------------------------------------------------------------------------

proof fn lemma_pieces_of_join(parts: Seq<Seq<char>>)
    requires
        parts.len() > 0,
        forall|i: int| 0 <= i < parts.len() ==> !(#[trigger] parts[i]).contains('/'),
    ensures
        pieces(join(parts, "/"@), '/') == parts,
    decreases parts.len(),
{
    reveal_strlit("/");
    let last = parts.last();
    assert(!parts[parts.len() - 1].contains('/'));
    if parts.len() == 1 {
        assert(Seq::<char>::empty() + last =~= last);
        lemma_pieces_extend(Seq::empty(), last, '/');
        assert(pieces(last, '/') =~= parts);
    } else {
        let front = parts.drop_last();
        assert forall|i: int| 0 <= i < front.len() implies !(#[trigger] front[i]).contains('/') by {
            assert(front[i] == parts[i]);
        }
        lemma_pieces_of_join(front);
        let a = join(front, "/"@) + "/"@;
        assert(a.drop_last() =~= join(front, "/"@));
        assert(pieces(a, '/') =~= front.push(Seq::empty()));
        lemma_pieces_extend(a, last, '/');
        assert(front.push(Seq::<char>::empty()).drop_last() =~= front);
        assert(Seq::<char>::empty() + last =~= last);
        assert(front.push(last) =~= parts);
    }
}

proof fn lemma_pieces_after_slash(text: Seq<char>)
    ensures
        pieces("/"@ + text, '/') == seq![Seq::<char>::empty()] + pieces(text, '/'),
    decreases text.len(),
{
    reveal_strlit("/");
    let whole = "/"@ + text;
    let empty = Seq::<char>::empty();
    lemma_pieces_nonempty(text, '/');
    if text.len() == 0 {
        reveal_with_fuel(pieces, 2);
        assert(whole.drop_last() =~= empty);
        assert(pieces(whole, '/') =~= seq![empty] + pieces(text, '/'));
    } else {
        let front = text.drop_last();
        lemma_pieces_after_slash(front);
        lemma_pieces_nonempty(front, '/');
        assert(whole.drop_last() =~= "/"@ + front);
        let before = seq![empty] + pieces(front, '/');
        if text.last() == '/' {
            assert(before.push(empty) =~= seq![empty] + pieces(front, '/').push(empty));
        } else {
            assert(before.drop_last() =~= seq![empty] + pieces(front, '/').drop_last());
            assert(before.drop_last().push(before.last().push(text.last())) =~= seq![empty]
                + pieces(text, '/'));
        }
    }
}

proof fn lemma_piece_chars(text: Seq<char>, separator: char, i: int, c: char)
    requires
        0 <= i < pieces(text, separator).len(),
        pieces(text, separator)[i].contains(c),
    ensures
        c != separator,
        text.contains(c),
    decreases text.len(),
{
    lemma_pieces_nonempty(text, separator);
    if text.len() > 0 {
        let front = text.drop_last();
        let before = pieces(front, separator);
        lemma_pieces_nonempty(front, separator);
        let piece = pieces(text, separator)[i];
        let at = choose|at: int| 0 <= at < piece.len() && piece[at] == c;
        if text.last() == separator {
            if i < before.len() {
                assert(before[i].contains(c));
                lemma_piece_chars(front, separator, i, c);
            }
        } else if i < before.len() - 1 {
            assert(before[i].contains(c));
            lemma_piece_chars(front, separator, i, c);
        } else if at < before.last().len() {
            assert(before[before.len() - 1][at] == c);
            lemma_piece_chars(front, separator, before.len() - 1, c);
        } else {
            assert(text[text.len() - 1] == c);
        }
        if front.contains(c) {
            let k = choose|k: int| 0 <= k < front.len() && front[k] == c;
            assert(text[k] == c);
        }
    }
}

/// The bytes that components take in a path, each with the separator before it.
spec fn weight(parts: Seq<Seq<char>>) -> nat
    decreases parts.len(),
{
    if parts.len() == 0 {
        0
    } else {
        weight(parts.drop_last()) + utf8_len(parts.last()) + 1
    }
}

proof fn lemma_utf8_single(c: char)
    requires
        (c as u32) < 0x80,
    ensures
        utf8_len(seq![c]) == 1,
{
    assert(seq![c].drop_first() =~= Seq::<char>::empty());
    reveal_with_fuel(vstd::utf8::encode_utf8, 2);
}

proof fn lemma_utf8_push(text: Seq<char>, c: char)
    ensures
        utf8_len(text.push(c)) == utf8_len(text) + utf8_len(seq![c]),
{
    lemma_utf8_concat(text, seq![c]);
    assert(text.push(c) =~= text + seq![c]);
}

proof fn lemma_weight_of_pieces(text: Seq<char>)
    ensures
        weight(pieces(text, '/')) == utf8_len(text) + 1,
    decreases text.len(),
{
    reveal_with_fuel(weight, 2);
    let whole = pieces(text, '/');
    lemma_pieces_nonempty(text, '/');
    if text.len() == 0 {
        assert(whole.drop_last() =~= Seq::<Seq<char>>::empty());
    } else {
        let front = text.drop_last();
        let before = pieces(front, '/');
        lemma_pieces_nonempty(front, '/');
        lemma_weight_of_pieces(front);
        lemma_utf8_push(front, text.last());
        assert(front.push(text.last()) =~= text);
        if text.last() == '/' {
            assert(whole.drop_last() =~= before);
            lemma_utf8_single('/');
        } else {
            assert(whole.drop_last() =~= before.drop_last());
            lemma_utf8_push(before.last(), text.last());
        }
    }
}

proof fn lemma_weight_of_filter(parts: Seq<Seq<char>>)
    ensures
        weight(parts.filter(|part: Seq<char>| is_name(part))) <= weight(parts),
        parts.len() > 0 && !is_name(parts[0]) ==> weight(
            parts.filter(|part: Seq<char>| is_name(part)),
        ) + 1 <= weight(parts),
    decreases parts.len(),
{
    let named = |part: Seq<char>| is_name(part);
    reveal(Seq::filter);
    if parts.len() > 0 {
        let front = parts.drop_last();
        lemma_weight_of_filter(front);
        let kept = front.filter(named);
        if is_name(parts.last()) {
            assert(kept.push(parts.last()).drop_last() =~= kept);
        }
        if front.len() > 0 {
            assert(front[0] == parts[0]);
        }
    }
}

proof fn lemma_weight_of_join(parts: Seq<Seq<char>>)
    requires
        parts.len() > 0,
    ensures
        utf8_len(join(parts, "/"@)) + 1 == weight(parts),
    decreases parts.len(),
{
    reveal_strlit("/");
    reveal_with_fuel(weight, 2);
    if parts.len() == 1 {
        assert(parts.drop_last() =~= Seq::<Seq<char>>::empty());
    } else {
        let front = parts.drop_last();
        lemma_weight_of_join(front);
        lemma_utf8_concat(join(front, "/"@) + "/"@, parts.last());
        lemma_utf8_concat(join(front, "/"@), "/"@);
        assert("/"@ =~= seq!['/']);
        lemma_utf8_single('/');
    }
}

proof fn lemma_named_parts(path: Seq<char>, i: int)
    requires
        is_rule_path(path),
        0 <= i < path_parts(path).len(),
    ensures
        is_name(path_parts(path)[i]),
        !path_parts(path)[i].contains('/'),
        !path_parts(path)[i].contains('\0'),
        path_parts(path)[i] != seq!['.', '.'],
{
    let all = pieces(path, '/');
    let named = |part: Seq<char>| is_name(part);
    let part = path_parts(path)[i];
    all.lemma_filter_pred(named, i);
    all.lemma_filter_contains_rev(named, part);
    assert(all.contains(part));
    let k = choose|k: int| 0 <= k < all.len() && all[k] == part;
    if part.contains('/') {
        lemma_piece_chars(path, '/', k, '/');
    }
    if part.contains('\0') {
        lemma_piece_chars(path, '/', k, '\0');
    }
}

proof fn lemma_join_chars(parts: Seq<Seq<char>>, c: char)
    requires
        c != '/',
        forall|i: int| 0 <= i < parts.len() ==> !(#[trigger] parts[i]).contains(c),
    ensures
        !join(parts, "/"@).contains(c),
    decreases parts.len(),
{
    reveal_strlit("/");
    if parts.len() == 1 {
        assert(!parts[0].contains(c));
    } else if parts.len() > 1 {
        let front = parts.drop_last();
        assert forall|i: int| 0 <= i < front.len() implies !(#[trigger] front[i]).contains(c) by {
            assert(front[i] == parts[i]);
        }
        lemma_join_chars(front, c);
        let last = parts.last();
        assert(!parts[parts.len() - 1].contains(c));
        let whole = join(parts, "/"@);
        if whole.contains(c) {
            let k = choose|k: int| 0 <= k < whole.len() && whole[k] == c;
            let head = join(front, "/"@);
            if k < head.len() {
                assert(head[k] == c);
            } else if k > head.len() {
                assert(last[k - head.len() - 1] == c);
            }
        }
    }
}

proof fn lemma_filter_keeps_names(parts: Seq<Seq<char>>)
    requires
        forall|i: int| 0 <= i < parts.len() ==> is_name(#[trigger] parts[i]),
    ensures
        parts.filter(|part: Seq<char>| is_name(part)) == parts,
    decreases parts.len(),
{
    reveal(Seq::filter);
    if parts.len() > 0 {
        let front = parts.drop_last();
        assert forall|i: int| 0 <= i < front.len() implies is_name(#[trigger] front[i]) by {
            assert(front[i] == parts[i]);
        }
        lemma_filter_keeps_names(front);
        assert(is_name(parts[parts.len() - 1]));
        assert(front.push(parts.last()) =~= parts);
    }
}

proof fn lemma_parts_of_path(parts: Seq<Seq<char>>)
    requires
        forall|i: int| 0 <= i < parts.len() ==> !(#[trigger] parts[i]).contains('/'),
        forall|i: int| 0 <= i < parts.len() ==> is_name(#[trigger] parts[i]),
    ensures
        path_parts(path_of(parts)) == parts,
        forall|k: int|
            0 <= k < pieces(path_of(parts), '/').len() ==> (#[trigger] pieces(
                path_of(parts),
                '/',
            )[k]).len() == 0 || (k > 0 && k <= parts.len() && pieces(path_of(parts), '/')[k]
                == parts[k - 1]),
{
    let named = |part: Seq<char>| is_name(part);
    let empty = Seq::<char>::empty();
    let tail = pieces(join(parts, "/"@), '/');
    lemma_pieces_after_slash(join(parts, "/"@));
    Seq::filter_distributes_over_add(seq![empty], tail, named);
    assert(seq![empty].filter(named) =~= Seq::<Seq<char>>::empty()) by {
        reveal_with_fuel(Seq::filter, 2);
        assert(seq![empty].drop_last() =~= Seq::<Seq<char>>::empty());
    }
    if parts.len() > 0 {
        lemma_pieces_of_join(parts);
        lemma_filter_keeps_names(parts);
        assert(path_parts(path_of(parts)) =~= parts);
    } else {
        assert(pieces(empty, '/') =~= seq![empty]);
        assert(path_parts(path_of(parts)) =~= parts);
    }
}

proof fn lemma_path_length(path: Seq<char>)
    requires
        path.len() > 0,
        path[0] == '/',
    ensures
        utf8_len(path_of(path_parts(path))) <= utf8_len(path),
{
    let parts = path_parts(path);
    reveal_strlit("/");
    lemma_weight_of_pieces(path);
    lemma_weight_of_filter(pieces(path, '/'));
    assert(path =~= "/"@ + path.drop_first());
    lemma_pieces_after_slash(path.drop_first());
    assert(pieces(path, '/')[0] == Seq::<char>::empty());
    lemma_utf8_concat("/"@, join(parts, "/"@));
    assert("/"@ =~= seq!['/']);
    lemma_utf8_single('/');
    if parts.len() > 0 {
        lemma_weight_of_join(parts);
    } else {
        lemma_utf8_concat("/"@, path.drop_first());
    }
}

proof fn lemma_no_parent_in_path(path: Seq<char>)
    requires
        is_rule_path(path),
    ensures
        path_parts(path_of(path_parts(path))) == path_parts(path),
        !pieces(path_of(path_parts(path)), '/').contains(seq!['.', '.']),
{
    let parts = path_parts(path);
    let dots = seq!['.', '.'];
    assert forall|i: int| 0 <= i < parts.len() implies !(#[trigger] parts[i]).contains('/') by {
        lemma_named_parts(path, i);
    }
    assert forall|i: int| 0 <= i < parts.len() implies is_name(#[trigger] parts[i]) by {
        lemma_named_parts(path, i);
    }
    lemma_parts_of_path(parts);
    let all = pieces(path_of(parts), '/');
    assert forall|k: int| 0 <= k < all.len() implies all[k] != dots by {
        if all[k].len() != 0 {
            lemma_named_parts(path, k - 1);
        }
    }
}

proof fn lemma_no_nul_in_path(path: Seq<char>)
    requires
        is_rule_path(path),
    ensures
        !path_of(path_parts(path)).contains('\0'),
{
    let parts = path_parts(path);
    let normal = path_of(parts);
    assert forall|i: int| 0 <= i < parts.len() implies !(#[trigger] parts[i]).contains('\0') by {
        lemma_named_parts(path, i);
    }
    lemma_join_chars(parts, '\0');
    reveal_strlit("/");
    if normal.contains('\0') {
        let k = choose|k: int| 0 <= k < normal.len() && normal[k] == '\0';
        assert(k > 0);
        assert(join(parts, "/"@)[k - 1] == '\0');
    }
}

/// Normalizing a path that rules can speak of gives such a path with the same components.
pub proof fn normalizing_keeps_components(path: Seq<char>)
    requires
        is_rule_path(path),
    ensures
        is_rule_path(path_of(path_parts(path))),
        path_parts(path_of(path_parts(path))) == path_parts(path),
{
    lemma_no_parent_in_path(path);
    lemma_no_nul_in_path(path);
    lemma_path_length(path);
    reveal_strlit("/");
}

// ---------------------------------------------------------------------------
// The rules of a session
// ---------------------------------------------------------------------------

/// The rules of a session, in the order of their first insertion.
pub struct SessionRules(Vec<SessionRule>);

impl View for SessionRules {
    type V = Seq<RuleModel>;

    closed spec fn view(&self) -> Seq<RuleModel> {
        Seq::new(self.0@.len(), |i: int| self.0@[i]@)
    }
}

/// The contents of a list of rules.
pub open spec fn rule_models(rules: Seq<SessionRule>) -> Seq<RuleModel> {
    Seq::new(rules.len(), |i: int| rules[i]@)
}

/// The position of the first rule with the same key, if there is one.
pub open spec fn key_position(rules: Seq<RuleModel>, rule: RuleModel) -> Option<int>
    decreases rules.len(),
{
    if rules.len() == 0 {
        None
    } else {
        match key_position(rules.drop_last(), rule) {
            Some(i) => Some(i),
            None => if rules.last().same_key(rule) {
                Some(rules.len() - 1)
            } else {
                None
            },
        }
    }
}

/// The rules after inserting one: in place of the first rule with the same key, or at the end.
/// `None` if the session is full and no rule has the key.
pub open spec fn inserted(rules: Seq<RuleModel>, rule: RuleModel) -> Option<Seq<RuleModel>> {
    match key_position(rules, rule) {
        Some(i) => Some(rules.update(i, rule)),
        None => if rules.len() == MAX_SESSION_RULES {
            None
        } else {
            Some(rules.push(rule))
        },
    }
}

/// Whether rule `i` decides a request: it applies, no applicable rule is more specific, and of the
/// equally specific ones it is the last.
pub open spec fn decides(rules: Seq<RuleModel>, request: RequestModel, i: int) -> bool {
    &&& 0 <= i < rules.len()
    &&& rules[i].applies_to(request)
    &&& forall|j: int|
        0 <= j < rules.len() && (#[trigger] rules[j]).applies_to(request) ==> !less_specific(
            rules[i].pattern,
            rules[j].pattern,
        ) && (j > i ==> less_specific(rules[j].pattern, rules[i].pattern))
}

/// The rule that decides a request, if any applies.
pub open spec fn deciding_rule(rules: Seq<RuleModel>, request: RequestModel) -> Option<RuleModel> {
    if exists|i: int| decides(rules, request, i) {
        Some(rules[choose|i: int| decides(rules, request, i)])
    } else {
        None
    }
}

/// At most one rule decides a request.
pub proof fn at_most_one_rule_decides(rules: Seq<RuleModel>, request: RequestModel, i: int, j: int)
    requires
        decides(rules, request, i),
        decides(rules, request, j),
    ensures
        i == j,
{
    if i < j {
        assert(less_specific(rules[j].pattern, rules[i].pattern));
    } else if j < i {
        assert(less_specific(rules[i].pattern, rules[j].pattern));
    }
}

/// Rules of which no two have the same key.
pub open spec fn distinct_keys(rules: Seq<RuleModel>) -> bool {
    forall|i: int, j: int|
        0 <= i < j < rules.len() ==> !(#[trigger] rules[i]).same_key(#[trigger] rules[j])
}

/// Rules that are all well formed.
pub open spec fn all_well_formed(rules: Seq<RuleModel>) -> bool {
    forall|i: int| 0 <= i < rules.len() ==> (#[trigger] rules[i]).well_formed()
}

proof fn lemma_key_position(rules: Seq<RuleModel>, rule: RuleModel)
    ensures
        match key_position(rules, rule) {
            Some(i) => 0 <= i < rules.len() && rules[i].same_key(rule) && forall|j: int|
                0 <= j < i ==> !(#[trigger] rules[j]).same_key(rule),
            None => forall|j: int|
                0 <= j < rules.len() ==> !(#[trigger] rules[j]).same_key(rule),
        },
    decreases rules.len(),
{
    if rules.len() > 0 {
        let front = rules.drop_last();
        lemma_key_position(front, rule);
        match key_position(front, rule) {
            Some(i) => {
                assert(front[i] == rules[i]);
                assert forall|j: int| 0 <= j < i implies !(#[trigger] rules[j]).same_key(rule) by {
                    assert(front[j] == rules[j]);
                }
            },
            None => {
                assert forall|j: int| 0 <= j < rules.len() - 1 implies !(#[trigger] rules[j]).same_key(
                    rule,
                ) by {
                    assert(front[j] == rules[j]);
                }
            },
        }
    }
}

proof fn lemma_key_found(rules: Seq<RuleModel>, rule: RuleModel, i: int)
    requires
        0 <= i < rules.len(),
        rules[i].same_key(rule),
        forall|j: int| 0 <= j < i ==> !(#[trigger] rules[j]).same_key(rule),
    ensures
        key_position(rules, rule) == Some(i),
{
    lemma_key_position(rules, rule);
}

impl Default for SessionRules {
    fn default() -> (result: Self)
        ensures
            result@.len() == 0,
    {
        SessionRules(Vec::new())
    }
}

impl SessionRules {
    /// The drafts of the rules, in order.
    pub fn drafts(&self) -> (result: Vec<RuleDraft>)
        ensures
            draft_models(result@) == Seq::new(self@.len(), |i: int| self@[i].draft()),
    {
        let mut result: Vec<RuleDraft> = Vec::new();
        for i in 0..self.0.len()
            invariant
                result@.len() == i,
                forall|j: int| 0 <= j < i ==> #[trigger] result@[j]@ == self.0@[j]@.draft(),
        {
            result.push(self.0[i].draft());
        }
        assert(draft_models(result@) =~= Seq::new(self@.len(), |i: int| self@[i].draft()));
        result
    }

    /// Replaces all rules.
    pub fn replace(&mut self, rules: Vec<SessionRule>)
        ensures
            final(self)@ == rule_models(rules@),
    {
        self.0 = rules;
        assert(self@ =~= rule_models(rules@));
    }

    /// Replaces the rule with the same path, scope and access, or adds a new rule. At the limit
    /// only replacing is possible.
    pub fn insert(&mut self, rule: SessionRule) -> (result: Result<(), PolicyError>)
        ensures
            match inserted(old(self)@, rule@) {
                Some(rules) => result is Ok && final(self)@ == rules,
                None => final(self)@ == old(self)@ && (result matches Err(error) && error@
                    == PolicyErrorModel::Capacity),
            },
    {
        let mut i: usize = 0;
        while i < self.0.len()
            invariant
                self@ == old(self)@,
                i <= self.0@.len(),
                forall|j: int| 0 <= j < i ==> !(#[trigger] self@[j]).same_key(rule@),
            decreases self.0@.len() - i,
        {
            assert(self@[i as int] == self.0@[i as int]@);
            if self.0[i].path == rule.path && self.0[i].scope == rule.scope && self.0[i].access
                == rule.access {
                proof {
                    lemma_key_found(self@, rule@, i as int);
                }
                let ghost model = rule@;
                self.0.set(i, rule);
                assert(self@ =~= old(self)@.update(i as int, model));
                return Ok(());
            }
            i += 1;
        }
        proof {
            lemma_key_position(self@, rule@);
        }
        if self.0.len() == MAX_SESSION_RULES {
            return Err(PolicyError::Capacity);
        }
        let ghost model = rule@;
        self.0.push(rule);
        assert(self@ =~= old(self)@.push(model));
        Ok(())
    }

    /// The rule that decides a request, if any applies.
    pub fn evaluate(&self, request: &KnownApprovalRequest) -> (result: Option<&SessionRule>)
        ensures
            match result {
                Some(rule) => deciding_rule(self@, request@) == Some(rule@) && rule@.applies_to(
                    request@,
                ),
                None => deciding_rule(self@, request@) is None && forall|i: int|
                    0 <= i < self@.len() ==> !(#[trigger] self@[i]).applies_to(request@),
            },
    {
        let (path, access) = match request {
            KnownApprovalRequest::Capability { path, access, .. } => (path.as_str(), *access),
            _ => return None,
        };
        let parts = match components(path) {
            Ok(parts) => parts,
            Err(_) => return None,
        };
        let mut best: Option<usize> = None;
        for i in 0..self.0.len()
            invariant
                self@.len() == self.0@.len(),
                request@ matches RequestModel::Capability { path: p, access: a, .. } && p == path@
                    && a == access,
                is_rule_path(path@),
                texts(parts@) == path_parts(path@),
                parts@.len() <= MAX_RULE_PATH_BYTES + 1,
                match best {
                    Some(b) => b < i && decides(self@.take(i as int), request@, b as int),
                    None => forall|j: int|
                        0 <= j < i ==> !(#[trigger] self@[j]).applies_to(request@),
                },
        {
            let rule = &self.0[i];
            let ghost before = self@.take(i as int);
            let ghost after = self@.take(i + 1);
            assert(self@[i as int] == rule@);
            assert(after =~= before.push(rule@));
            let applies = rule.access == access && rule.pattern.matches_components(&parts);
            assert(applies == rule@.applies_to(request@));
            if applies {
                let replace = match best {
                    Some(b) => {
                        assert(self@[b as int] == self.0@[b as int]@);
                        !rule.pattern.is_less_specific(&self.0[b].pattern)
                    },
                    None => true,
                };
                if replace {
                    proof {
                        if let Some(b) = best {
                            assert forall|j: int|
                                0 <= j < after.len() && (#[trigger] after[j]).applies_to(
                                    request@,
                                ) implies !less_specific(rule@.pattern, after[j].pattern) by {
                                if j < i {
                                    assert(before[j] == after[j]);
                                    if less_specific(rule@.pattern, after[j].pattern) {
                                        lemma_less_splits(
                                            rule@.pattern,
                                            before[b as int].pattern,
                                            after[j].pattern,
                                        );
                                    }
                                } else {
                                    lemma_not_both_less(rule@.pattern, rule@.pattern);
                                }
                            }
                        } else {
                            assert forall|j: int|
                                0 <= j < after.len() && (#[trigger] after[j]).applies_to(
                                    request@,
                                ) implies !less_specific(rule@.pattern, after[j].pattern) by {
                                if j < i {
                                    assert(after[j] == self@[j]);
                                }
                                lemma_not_both_less(rule@.pattern, rule@.pattern);
                            }
                        }
                        assert(decides(after, request@, i as int));
                    }
                    best = Some(i);
                } else {
                    proof {
                        let b = best->0;
                        lemma_not_both_less(rule@.pattern, before[b as int].pattern);
                        assert forall|j: int|
                            0 <= j < after.len() && (#[trigger] after[j]).applies_to(
                                request@,
                            ) implies !less_specific(after[b as int].pattern, after[j].pattern) && (
                        j > b ==> less_specific(after[j].pattern, after[b as int].pattern)) by {
                            if j < i {
                                assert(before[j] == after[j]);
                            }
                        }
                    }
                }
            } else if let Some(b) = best {
                proof {
                    assert forall|j: int|
                        0 <= j < after.len() && (#[trigger] after[j]).applies_to(
                            request@,
                        ) implies !less_specific(after[b as int].pattern, after[j].pattern) && (j > b
                        ==> less_specific(after[j].pattern, after[b as int].pattern)) by {
                        if j < i {
                            assert(before[j] == after[j]);
                        }
                    }
                }
            }
        }
        match best {
            Some(b) => {
                proof {
                    assert(self@.take(self@.len() as int) =~= self@);
                    assert(self@[b as int] == self.0@[b as int]@);
                    let chosen = choose|i: int| decides(self@, request@, i);
                    at_most_one_rule_decides(self@, request@, b as int, chosen);
                }
                Some(&self.0[b])
            },
            None => None,
        }
    }

    /// The number of rules.
    pub fn count(&self) -> (result: usize)
        ensures
            result == self@.len(),
    {
        self.0.len()
    }

    /// Removes all rules and tells how many there were.
    pub fn clear(&mut self) -> (result: usize)
        ensures
            final(self)@ == Seq::<RuleModel>::empty(),
            result == old(self)@.len(),
    {
        let count = self.count();
        self.0.clear();
        assert(self@ =~= Seq::<RuleModel>::empty());
        count
    }
}

// ---------------------------------------------------------------------------
// Policy files
// ---------------------------------------------------------------------------

/// The rules of a policy file, as written.
#[derive(Debug)]
pub struct PolicyFile {
    pub rules: Vec<RuleDraft>,
}

/// What became of reading and decoding a policy file.
pub enum PolicyRead {
    Unreadable(String),
    Malformed(String),
    Parsed(PolicyFile),
}

/// Whether a list of drafts holds one with the same path, scope and access.
pub open spec fn has_draft_key(drafts: Seq<DraftModel>, draft: DraftModel) -> bool {
    exists|i: int| 0 <= i < drafts.len() && (#[trigger] drafts[i]).same_key(draft)
}

/// The normalized drafts of a policy, or the first reason to refuse it.
pub open spec fn policy_of(drafts: Seq<DraftModel>) -> Result<Seq<DraftModel>, PolicyErrorModel>
    decreases drafts.len(),
{
    if drafts.len() == 0 {
        Ok(Seq::empty())
    } else {
        match policy_of(drafts.drop_last()) {
            Err(error) => Err(error),
            Ok(done) => if !is_rule_path(drafts.last().path) {
                Err(PolicyErrorModel::InvalidPath)
            } else if has_draft_key(done, drafts.last().normalized()) {
                Err(PolicyErrorModel::DuplicateRule(drafts.last().normalized().path))
            } else {
                Ok(done.push(drafts.last().normalized()))
            },
        }
    }
}

proof fn lemma_policy_prefix(drafts: Seq<DraftModel>, n: int)
    requires
        0 <= n <= drafts.len(),
        policy_of(drafts.take(n)) is Err,
    ensures
        policy_of(drafts) == policy_of(drafts.take(n)),
    decreases drafts.len(),
{
    if n == drafts.len() {
        assert(drafts.take(n) =~= drafts);
    } else {
        let front = drafts.drop_last();
        assert(front.take(n) =~= drafts.take(n));
        lemma_policy_prefix(front, n);
    }
}

/// Validates the drafts of a policy and normalizes their paths.
pub fn validate_policy(drafts: Vec<RuleDraft>) -> (result: Result<Vec<RuleDraft>, PolicyError>)
    ensures
        match policy_of(draft_models(drafts@)) {
            Ok(normal) => result matches Ok(rules) && draft_models(rules@) == normal,
            Err(refusal) => result matches Err(error) && error@ == refusal,
        },
{
    let mut rules: Vec<RuleDraft> = Vec::new();
    let ghost all = draft_models(drafts@);
    assert(draft_models(rules@) =~= Seq::<DraftModel>::empty());
    for i in 0..drafts.len()
        invariant
            all == draft_models(drafts@),
            policy_of(all.take(i as int)) == Ok::<Seq<DraftModel>, PolicyErrorModel>(
                draft_models(rules@),
            ),
    {
        let draft = &drafts[i];
        let ghost done = draft_models(rules@);
        proof {
            assert(all.take(i + 1).drop_last() =~= all.take(i as int));
            assert(all.take(i + 1).last() == draft@);
        }
        let rule = match draft.compile() {
            Ok(rule) => rule,
            Err(error) => {
                proof {
                    lemma_policy_prefix(all, i + 1);
                }
                return Err(error);
            },
        };
        for j in 0..rules.len()
            invariant
                done == draft_models(rules@),
                i < all.len(),
                all == draft_models(drafts@),
                draft@ == all[i as int],
                is_rule_path(draft@.path),
                rule@ == draft@.compiled(),
                policy_of(all.take(i as int)) == Ok::<Seq<DraftModel>, PolicyErrorModel>(done),
                all.take(i + 1).drop_last() == all.take(i as int),
                all.take(i + 1).last() == draft@,
                forall|k: int|
                    0 <= k < j ==> !(#[trigger] done[k]).same_key(draft@.normalized()),
        {
            assert(done[j as int] == rules@[j as int]@);
            if rules[j].path == rule.path && rules[j].scope == rule.scope && rules[j].access
                == rule.access {
                proof {
                    assert(has_draft_key(done, draft@.normalized()));
                    lemma_policy_prefix(all, i + 1);
                }
                return Err(PolicyError::DuplicateRule(rule.path));
            }
        }
        rules.push(rule.draft());
        assert(draft_models(rules@) =~= done.push(draft@.normalized()));
    }
    assert(all.take(all.len() as int) =~= all);
    Ok(rules)
}

/// Validates the rules of a policy file and normalizes their paths.
pub fn load_policy(path: &str, contents: PolicyRead) -> (result: Result<
    Vec<RuleDraft>,
    PolicyError,
>)
    ensures
        match contents {
            PolicyRead::Unreadable(detail) => result matches Err(error) && error@ == (
            PolicyErrorModel::ReadPolicy { path: path@, detail: detail@ }),
            PolicyRead::Malformed(detail) => result matches Err(error) && error@
                == PolicyErrorModel::PolicyToml(detail@),
            PolicyRead::Parsed(file) => match policy_of(draft_models(file.rules@)) {
                Ok(drafts) => result matches Ok(rules) && draft_models(rules@) == drafts,
                Err(refusal) => result matches Err(error) && error@ == refusal,
            },
        },
{
    match contents {
        PolicyRead::Unreadable(detail) => Err(
            PolicyError::ReadPolicy { path: path.to_owned(), detail },
        ),
        PolicyRead::Malformed(detail) => Err(PolicyError::PolicyToml(detail)),
        PolicyRead::Parsed(file) => validate_policy(file.rules),
    }
}

// ---------------------------------------------------------------------------
// Laws
// ---------------------------------------------------------------------------

/// A literal path matches component by component: itself only, or itself and whatever lies below
/// it. A name that merely begins with the last component is not below it, and a `*` in the path
/// matches nothing but a `*`.
pub proof fn literal_paths_match_by_component(
    parts: Seq<Seq<char>>,
    scope: RuleScope,
    path: Seq<Seq<char>>,
)
    ensures
        glob(literal_pattern(parts, scope), path) == match scope {
            RuleScope::Path => path == parts,
            RuleScope::Directory => parts.len() <= path.len() && path.take(parts.len() as int)
                == parts,
        },
{
    let pattern = literal_pattern(parts, scope);
    let n = parts.len() as int;
    assert forall|i: int| 0 <= i < n implies (#[trigger] pattern[i]) is Literal by {
        assert(pattern[i] == SegmentModel::Literal(parts[i]));
    }
    lemma_glob_literal_start(pattern, path, n);
    assert forall|i: int| 0 <= i < n implies pattern[i] == SegmentModel::Literal(parts[i]) by {}
    if start_agrees(pattern, path, n) {
        assert forall|i: int| 0 <= i < n implies path[i] == parts[i] by {
            assert(pattern[i] == SegmentModel::Literal(path[i]));
        }
        assert(path.take(n) =~= parts);
    }
    if n <= path.len() && path.take(n) == parts {
        assert forall|i: int| 0 <= i < n implies (#[trigger] pattern[i]) == SegmentModel::Literal(
            path[i],
        ) by {
            assert(path.take(n)[i] == path[i]);
        }
    }
    match scope {
        RuleScope::Path => {
            assert(pattern.skip(n) =~= Seq::<SegmentModel>::empty());
            if path == parts {
                assert(path.take(n) =~= parts);
            }
            if start_agrees(pattern, path, n) && path.skip(n).len() == 0 {
                assert(path =~= parts);
            }
        },
        RuleScope::Directory => {
            let rest = path.skip(n);
            assert(pattern.skip(n) =~= seq![SegmentModel::Descendants]);
            if n <= path.len() {
                reveal_with_fuel(glob, 2);
                assert(pattern.skip(n).drop_last() =~= Seq::<SegmentModel>::empty());
                assert(rest.take(0) =~= Seq::<Seq<char>>::empty());
                assert(stands_for(pattern.skip(n).last(), rest.skip(0)));
                assert(glob(pattern.skip(n), rest));
            }
        },
    }
}

proof fn lemma_literal_rank(parts: Seq<Seq<char>>, scope: RuleScope, i: int)
    requires
        0 <= i <= parts.len(),
    ensures
        rank_at(literal_pattern(parts, scope), i) == if i < parts.len() {
            4
        } else if scope == RuleScope::Directory {
            0int
        } else {
            1
        },
{
}

proof fn lemma_rule_matches(rule: RuleModel, request: RequestModel)
    requires
        rule.well_formed(),
        rule.applies_to(request),
    ensures
        request is Capability,
        path_parts(rule.path).len() <= path_parts(request->Capability_path).len(),
        path_parts(rule.path) == path_parts(request->Capability_path).take(
            path_parts(rule.path).len() as int,
        ),
{
    let parts = path_parts(rule.path);
    let path = path_parts(request->Capability_path);
    literal_paths_match_by_component(parts, rule.scope, path);
    if rule.scope == RuleScope::Path {
        assert(path.take(parts.len() as int) =~= parts);
    }
}

/// The rule that decides has the longest path of all that apply; a rule on the path alone goes
/// before one on the directory of the same length.
pub proof fn longest_path_decides(
    rules: Seq<RuleModel>,
    request: RequestModel,
    i: int,
    j: int,
)
    requires
        all_well_formed(rules),
        decides(rules, request, i),
        0 <= j < rules.len(),
        rules[j].applies_to(request),
    ensures
        path_parts(rules[j].path).len() <= path_parts(rules[i].path).len(),
        path_parts(rules[j].path).len() == path_parts(rules[i].path).len() ==> rules[i].scope
            == RuleScope::Path || rules[j].scope == RuleScope::Directory,
{
    let a = rules[i];
    let b = rules[j];
    let n = path_parts(a.path).len() as int;
    let m = path_parts(b.path).len() as int;
    if n <= m {
        assert forall|k: int| 0 <= k < n implies #[trigger] rank_at(a.pattern, k) == rank_at(
            b.pattern,
            k,
        ) by {
            lemma_literal_rank(path_parts(a.path), a.scope, k);
            lemma_literal_rank(path_parts(b.path), b.scope, k);
        }
        lemma_literal_rank(path_parts(a.path), a.scope, n);
        lemma_literal_rank(path_parts(b.path), b.scope, n);
        if n < m || (a.scope == RuleScope::Directory && b.scope == RuleScope::Path) {
            assert(rank_at(a.pattern, n) < rank_at(b.pattern, n));
            assert(less_specific(a.pattern, b.pattern));
        }
    }
}

/// Two rules that apply to the same request and are equally specific have the same key.
pub proof fn ties_have_the_same_key(a: RuleModel, b: RuleModel, request: RequestModel)
    requires
        a.well_formed(),
        b.well_formed(),
        a.applies_to(request),
        b.applies_to(request),
        !less_specific(a.pattern, b.pattern),
        !less_specific(b.pattern, a.pattern),
    ensures
        a.same_key(b),
{
    let pair = seq![a, b];
    assert(pair[0] == a && pair[1] == b);
    lemma_not_both_less(a.pattern, a.pattern);
    lemma_not_both_less(b.pattern, b.pattern);
    lemma_rule_matches(a, request);
    lemma_rule_matches(b, request);
    let n = path_parts(a.path).len() as int;
    let m = path_parts(b.path).len() as int;
    if n == m && a.scope == b.scope {
        assert(path_parts(a.path) == path_parts(b.path));
    } else {
        let short = if n < m {
            n
        } else {
            m
        };
        assert forall|k: int| 0 <= k < short implies #[trigger] rank_at(a.pattern, k) == rank_at(
            b.pattern,
            k,
        ) by {
            lemma_literal_rank(path_parts(a.path), a.scope, k);
            lemma_literal_rank(path_parts(b.path), b.scope, k);
        }
        assert forall|k: int| 0 <= k < short implies #[trigger] rank_at(b.pattern, k) == rank_at(
            a.pattern,
            k,
        ) by {
            assert(rank_at(a.pattern, k) == rank_at(b.pattern, k));
        }
        lemma_literal_rank(path_parts(a.path), a.scope, short);
        lemma_literal_rank(path_parts(b.path), b.scope, short);
        if rank_at(a.pattern, short) < rank_at(b.pattern, short) {
            assert(less_specific(a.pattern, b.pattern));
        } else {
            assert(rank_at(b.pattern, short) < rank_at(a.pattern, short));
            assert(less_specific(b.pattern, a.pattern));
        }
    }
}

/// Which rule decides does not depend on the order of insertion.
pub proof fn insertion_order_does_not_matter(
    first: Seq<RuleModel>,
    second: Seq<RuleModel>,
    request: RequestModel,
    i: int,
    j: int,
)
    requires
        first.to_multiset() == second.to_multiset(),
        all_well_formed(first),
        distinct_keys(first),
        decides(first, request, i),
        decides(second, request, j),
    ensures
        first[i] == second[j],
{
    broadcast use vstd::seq_lib::group_to_multiset_ensures;

    assert(first.contains(first[i]));
    assert(second.contains(second[j]));
    assert(first.to_multiset().count(second[j]) > 0);
    assert(second.to_multiset().count(first[i]) > 0);
    assert(first.contains(second[j]));
    assert(second.contains(first[i]));
    let k = choose|k: int| 0 <= k < first.len() && first[k] == second[j];
    let l = choose|l: int| 0 <= l < second.len() && second[l] == first[i];
    assert(!less_specific(first[i].pattern, first[k].pattern));
    assert(!less_specific(second[j].pattern, second[l].pattern));
    ties_have_the_same_key(first[i], first[k], request);
    if i < k {
        assert(!first[i].same_key(first[k]));
    } else if k < i {
        assert(!first[k].same_key(first[i]));
    }
}

/// Inserting keeps rules well formed, their keys distinct and their number within the limit; the
/// inserted rule is there afterwards, and every rule with another key is as before.
pub proof fn inserting_keeps_rules_in_order(rules: Seq<RuleModel>, rule: RuleModel)
    requires
        all_well_formed(rules),
        distinct_keys(rules),
        rules.len() <= MAX_SESSION_RULES,
        rule.well_formed(),
    ensures
        match inserted(rules, rule) {
            Some(after) => {
                &&& all_well_formed(after)
                &&& distinct_keys(after)
                &&& after.len() <= MAX_SESSION_RULES
                &&& after.contains(rule)
                &&& forall|i: int|
                    0 <= i < rules.len() && !(#[trigger] rules[i]).same_key(rule) ==> after[i]
                        == rules[i]
            },
            None => rules.len() == MAX_SESSION_RULES,
        },
{
    lemma_key_position(rules, rule);
    match key_position(rules, rule) {
        Some(at) => {
            let after = rules.update(at, rule);
            assert(after[at] == rule);
            assert forall|i: int| 0 <= i < after.len() implies (#[trigger] after[i]).well_formed() by {
                if i != at {
                    assert(after[i] == rules[i]);
                }
            }
            assert forall|i: int, j: int| 0 <= i < j < after.len() implies !(
            #[trigger] after[i]).same_key(#[trigger] after[j]) by {
                assert(!rules[i].same_key(rules[j]));
            }
        },
        None => {
            if rules.len() < MAX_SESSION_RULES {
                let after = rules.push(rule);
                assert(after[rules.len() as int] == rule);
                assert forall|i: int| 0 <= i < after.len() implies (
                #[trigger] after[i]).well_formed() by {
                    if i < rules.len() {
                        assert(after[i] == rules[i]);
                    }
                }
                assert forall|i: int, j: int| 0 <= i < j < after.len() implies !(
                #[trigger] after[i]).same_key(#[trigger] after[j]) by {
                    assert(rules[i] == after[i]);
                    if j < rules.len() {
                        assert(!rules[i].same_key(rules[j]));
                    }
                }
            }
        },
    }
}

/// A rule never applies to a request for another access mode, nor to anything but a capability.
pub proof fn rules_keep_to_their_access_mode(rule: RuleModel, request: RequestModel)
    requires
        rule.applies_to(request),
    ensures
        request matches RequestModel::Capability { access, .. } && access == rule.access,
{
}

/// A draft taken from a request can decide that request.
pub proof fn drafts_cover_their_request(
    request: RequestModel,
    action: RuleAction,
    scope: RuleScope,
)
    requires
        draft_from(request, action, scope) is Ok,
    ensures
        (draft_from(request, action, scope)->Ok_0).source_error(request) is None,
{
    let parts = path_parts(request->Capability_path);
    literal_paths_match_by_component(parts, scope, parts);
    assert(parts.take(parts.len() as int) =~= parts);
}

/// Every ancestor of a path, taken as a directory, covers the path.
pub proof fn ancestors_cover_the_path(request: RequestModel, action: RuleAction, i: int)
    requires
        request is Capability,
        is_rule_path(request->Capability_path),
        0 <= i < ancestors_of(request->Capability_path).len(),
    ensures
        is_rule_path(ancestors_of(request->Capability_path)[i]),
        (DraftModel {
            action,
            path: ancestors_of(request->Capability_path)[i],
            scope: RuleScope::Directory,
            access: request->Capability_access,
        }).source_error(request) is None,
{
    let path = request->Capability_path;
    let parts = path_parts(path);
    let n = parts.len() - i;
    let above = parts.take(n);
    lemma_ancestor_is_path(path, n);
    literal_paths_match_by_component(above, RuleScope::Directory, parts);
}

proof fn lemma_ancestor_is_path(path: Seq<char>, n: int)
    requires
        is_rule_path(path),
        0 <= n <= path_parts(path).len(),
    ensures
        is_rule_path(path_of(path_parts(path).take(n))),
        path_parts(path_of(path_parts(path).take(n))) == path_parts(path).take(n),
    decreases path_parts(path).len() - n,
{
    let parts = path_parts(path);
    let above = parts.take(n);
    if n == parts.len() {
        assert(above =~= parts);
        normalizing_keeps_components(path);
    } else {
        lemma_ancestor_is_path(path, n + 1);
        let below = path_of(parts.take(n + 1));
        assert(parts.take(n + 1).take(n) =~= above);
        lemma_parent_is_path(below);
        assert(path_parts(below).drop_last() =~= above);
    }
}

proof fn lemma_parent_is_path(path: Seq<char>)
    requires
        is_rule_path(path),
        path == path_of(path_parts(path)),
        path_parts(path).len() > 0,
    ensures
        is_rule_path(path_of(path_parts(path).drop_last())),
        path_parts(path_of(path_parts(path).drop_last())) == path_parts(path).drop_last(),
{
    let parts = path_parts(path);
    let above = parts.drop_last();
    let parent = path_of(above);
    let dots = seq!['.', '.'];
    assert forall|i: int| 0 <= i < above.len() implies !(#[trigger] above[i]).contains('/') by {
        lemma_named_parts(path, i);
    }
    assert forall|i: int| 0 <= i < above.len() implies is_name(#[trigger] above[i]) by {
        lemma_named_parts(path, i);
    }
    lemma_parts_of_path(above);
    let all = pieces(parent, '/');
    assert forall|k: int| 0 <= k < all.len() implies all[k] != dots by {
        if all[k].len() != 0 {
            assert(above[k - 1] == parts[k - 1]);
            lemma_named_parts(path, k - 1);
        }
    }
    lemma_parent_chars(path);
    lemma_parent_length(parts);
    reveal_strlit("/");
}

proof fn lemma_parent_chars(path: Seq<char>)
    requires
        is_rule_path(path),
        path_parts(path).len() > 0,
    ensures
        !path_of(path_parts(path).drop_last()).contains('\0'),
{
    let parts = path_parts(path);
    let above = parts.drop_last();
    let parent = path_of(above);
    assert forall|i: int| 0 <= i < above.len() implies !(#[trigger] above[i]).contains('\0') by {
        lemma_named_parts(path, i);
    }
    lemma_join_chars(above, '\0');
    reveal_strlit("/");
    if parent.contains('\0') {
        let k = choose|k: int| 0 <= k < parent.len() && parent[k] == '\0';
        assert(k > 0);
        assert(join(above, "/"@)[k - 1] == '\0');
    }
}

proof fn lemma_parent_length(parts: Seq<Seq<char>>)
    requires
        parts.len() > 0,
    ensures
        utf8_len(path_of(parts.drop_last())) <= utf8_len(path_of(parts)),
{
    let above = parts.drop_last();
    lemma_utf8_concat("/"@, join(above, "/"@));
    lemma_utf8_concat("/"@, join(parts, "/"@));
    lemma_weight_of_join(parts);
    if above.len() > 0 {
        lemma_weight_of_join(above);
    }
}

/// Compiling a draft whose path is already normalized changes nothing.
pub proof fn compiling_is_idempotent(draft: DraftModel)
    requires
        is_rule_path(draft.path),
    ensures
        draft.compiled().well_formed(),
        draft.normalized().compiled() == draft.compiled(),
        draft.compiled().draft() == draft.normalized(),
{
    normalizing_keeps_components(draft.path);
}

/// A policy is accepted exactly if every path is one that rules can speak of and no two drafts
/// share a key once normalized; its rules are then the normalized drafts in order.
pub proof fn policies_are_valid_and_distinct(drafts: Seq<DraftModel>)
    ensures
        policy_of(drafts) is Ok <==> (forall|i: int|
            0 <= i < drafts.len() ==> is_rule_path((#[trigger] drafts[i]).path)) && (forall|
            i: int,
            j: int,
        |
            0 <= i < j < drafts.len() ==> !(#[trigger] drafts[i]).normalized().same_key(
                (#[trigger] drafts[j]).normalized(),
            )),
        policy_of(drafts) matches Ok(rules) ==> rules == Seq::new(
            drafts.len(),
            |i: int| drafts[i].normalized(),
        ),
    decreases drafts.len(),
{
    if drafts.len() > 0 {
        let front = drafts.drop_last();
        let last = drafts.last();
        let n = drafts.len() - 1;
        policies_are_valid_and_distinct(front);
        assert(forall|i: int| 0 <= i < n ==> front[i] == drafts[i]);
        if policy_of(front) is Ok {
            let done = policy_of(front)->Ok_0;
            if has_draft_key(done, last.normalized()) {
                let k = choose|k: int|
                    0 <= k < done.len() && (#[trigger] done[k]).same_key(last.normalized());
                assert(drafts[k].normalized().same_key(drafts[n].normalized()));
            } else {
                assert forall|i: int, j: int| 0 <= i < j < drafts.len() implies !(
                #[trigger] drafts[i]).normalized().same_key(
                    (#[trigger] drafts[j]).normalized(),
                ) by {
                    assert(front[i] == drafts[i]);
                    if j == n {
                        assert(done[i] == drafts[i].normalized());
                    } else {
                        assert(front[j] == drafts[j]);
                    }
                }
                if is_rule_path(last.path) {
                    assert forall|i: int| 0 <= i < drafts.len() implies is_rule_path(
                        (#[trigger] drafts[i]).path,
                    ) by {
                        if i < n {
                            assert(front[i] == drafts[i]);
                        }
                    }
                    assert(done.push(last.normalized()) =~= Seq::new(
                        drafts.len(),
                        |i: int| drafts[i].normalized(),
                    ));
                } else {
                    assert(!is_rule_path(drafts[n].path));
                }
            }
        } else {
            if (forall|i: int|
                0 <= i < drafts.len() ==> is_rule_path((#[trigger] drafts[i]).path)) && (forall|
                i: int,
                j: int,
            |
                0 <= i < j < drafts.len() ==> !(#[trigger] drafts[i]).normalized().same_key(
                    (#[trigger] drafts[j]).normalized(),
                )) {
                assert forall|i: int| 0 <= i < front.len() implies is_rule_path(
                    (#[trigger] front[i]).path,
                ) by {
                    assert(front[i] == drafts[i]);
                }
                assert forall|i: int, j: int| 0 <= i < j < front.len() implies !(
                #[trigger] front[i]).normalized().same_key(
                    (#[trigger] front[j]).normalized(),
                ) by {
                    assert(front[i] == drafts[i]);
                    assert(front[j] == drafts[j]);
                }
            }
        }
    } else {
        assert(policy_of(drafts)->Ok_0 =~= Seq::new(
            drafts.len(),
            |i: int| drafts[i].normalized(),
        ));
    }
}

/// Rules that were saved load again as they were: their drafts are a valid policy, which is
/// accepted without a change, and compiling them gives the same rules.
pub proof fn saved_rules_load_again(rules: Seq<RuleModel>)
    requires
        all_well_formed(rules),
        distinct_keys(rules),
    ensures
        ({
            let drafts = Seq::new(rules.len(), |i: int| rules[i].draft());
            policy_of(drafts) == Ok::<Seq<DraftModel>, PolicyErrorModel>(drafts) && Seq::new(
                drafts.len(),
                |i: int| drafts[i].compiled(),
            ) == rules
        }),
{
    let drafts = Seq::new(rules.len(), |i: int| rules[i].draft());
    policies_are_valid_and_distinct(drafts);
    assert forall|i: int| 0 <= i < rules.len() implies is_rule_path((#[trigger] drafts[i]).path)
        && drafts[i].normalized() == drafts[i] && drafts[i].compiled() == rules[i] by {
        assert(rules[i].well_formed());
    }
    assert forall|i: int, j: int| 0 <= i < j < drafts.len() implies !(
    #[trigger] drafts[i]).normalized().same_key((#[trigger] drafts[j]).normalized()) by {
        assert(!rules[i].same_key(rules[j]));
    }
    assert(Seq::new(drafts.len(), |i: int| drafts[i].normalized()) =~= drafts);
    assert(Seq::new(drafts.len(), |i: int| drafts[i].compiled()) =~= rules);
}

// ---------------------------------------------------------------------------
// Laws of paths, patterns and rules by name
// ---------------------------------------------------------------------------

/// The name of an entry of a directory.
pub open spec fn is_entry_name(name: Seq<char>) -> bool {
    name.len() > 0 && !name.contains('/') && name != seq!['.'] && name != seq!['.', '.']
}

/// Names of entries, one for each step of a path.
pub open spec fn are_entry_names(names: Seq<Seq<char>>) -> bool {
    forall|i: int| 0 <= i < names.len() ==> is_entry_name(#[trigger] names[i])
}

/// Names written one after the other, each behind a `/`.
pub open spec fn written(names: Seq<Seq<char>>) -> Seq<char>
    decreases names.len(),
{
    if names.len() == 0 {
        Seq::empty()
    } else {
        written(names.drop_last()) + seq!['/'] + names.last()
    }
}

proof fn lemma_parts_concat(a: Seq<char>, b: Seq<char>)
    ensures
        path_parts(a + seq!['/'] + b) == path_parts(a) + path_parts(b),
{
    both_sides_of_a_separator_are_split(a, b, '/');
    Seq::filter_distributes_over_add(
        pieces(a, '/'),
        pieces(b, '/'),
        |part: Seq<char>| is_name(part),
    );
}

/// A name behind a path is one more component of it, whatever the name begins with, and the other
/// components stay.
pub proof fn names_become_components(path: Seq<char>, name: Seq<char>)
    requires
        is_entry_name(name),
    ensures
        path_parts(path + seq!['/'] + name) == path_parts(path).push(name),
{
    lemma_parts_concat(path, name);
    both_sides_of_a_separator_are_split(name, Seq::empty(), '/');
    lemma_filter_keeps_names(seq![name]);
    assert(path_parts(path) + seq![name] =~= path_parts(path).push(name));
}

/// A `/` at the end, a second `/` and a step to the same directory name nothing.
pub proof fn idle_steps_name_nothing(path: Seq<char>)
    ensures
        path_parts(seq!['/']).len() == 0,
        path_parts(path + seq!['/']) == path_parts(path),
        path_parts(path + seq!['/', '.']) == path_parts(path),
{
    let named = |part: Seq<char>| is_name(part);
    let empty = Seq::<char>::empty();
    lemma_parts_concat(path, empty);
    lemma_parts_concat(path, seq!['.']);
    lemma_parts_concat(empty, empty);
    both_sides_of_a_separator_are_split(empty, Seq::empty(), '/');
    both_sides_of_a_separator_are_split(seq!['.'], Seq::empty(), '/');
    reveal_with_fuel(Seq::filter, 2);
    assert(seq![empty].drop_last() =~= Seq::<Seq<char>>::empty());
    assert(seq![seq!['.']].drop_last() =~= Seq::<Seq<char>>::empty());
    assert(path_parts(empty) =~= Seq::<Seq<char>>::empty());
    assert(path_parts(seq!['.']) =~= Seq::<Seq<char>>::empty());
    assert(path + seq!['/'] + empty =~= path + seq!['/']);
    assert(path + seq!['/'] + seq!['.'] =~= path + seq!['/', '.']);
    assert(empty + seq!['/'] + empty =~= seq!['/']);
    assert(path_parts(path) + Seq::<Seq<char>>::empty() =~= path_parts(path));
}

/// A path that is written as names has those names as its components, and normalizing it changes
/// nothing.
pub proof fn paths_are_their_names(names: Seq<Seq<char>>)
    requires
        are_entry_names(names),
    ensures
        path_parts(written(names)) == names,
        names.len() > 0 ==> path_of(names) == written(names),
        names.len() == 0 ==> path_of(names) == seq!['/'],
    decreases names.len(),
{
    reveal_strlit("/");
    assert("/"@ =~= seq!['/']);
    if names.len() == 0 {
        idle_steps_name_nothing(Seq::empty());
        both_sides_of_a_separator_are_split(Seq::empty(), Seq::empty(), '/');
        reveal_with_fuel(Seq::filter, 2);
        assert(seq![Seq::<char>::empty()].drop_last() =~= Seq::<Seq<char>>::empty());
        assert(path_parts(written(names)) =~= names);
        assert(path_of(names) =~= seq!['/']);
    } else {
        let front = names.drop_last();
        assert forall|i: int| 0 <= i < front.len() implies is_entry_name(#[trigger] front[i]) by {
            assert(front[i] == names[i]);
        }
        assert(is_entry_name(names[names.len() - 1]));
        paths_are_their_names(front);
        names_become_components(written(front), names.last());
        assert(front.push(names.last()) =~= names);
        if front.len() == 0 {
            assert(names.len() == 1);
            assert(written(front) =~= Seq::<char>::empty());
            assert(path_of(names) =~= written(names));
        } else {
            assert(path_of(names) =~= path_of(front) + seq!['/'] + names.last());
        }
    }
}

/// Two paths that are written as names have the same components only if they are the same.
pub proof fn different_names_are_different_paths(a: Seq<Seq<char>>, b: Seq<Seq<char>>)
    requires
        are_entry_names(a),
        are_entry_names(b),
    ensures
        written(a) == written(b) <==> a == b,
        path_parts(written(a)) == path_parts(written(b)) <==> a == b,
{
    paths_are_their_names(a);
    paths_are_their_names(b);
}

/// Rules can speak of a path written as names exactly if it is short enough and no name holds a
/// NUL.
pub proof fn short_paths_of_names_are_rule_paths(names: Seq<Seq<char>>)
    requires
        are_entry_names(names),
        names.len() > 0,
    ensures
        is_rule_path(written(names)) <==> utf8_len(written(names)) <= 4096 && forall|i: int|
            0 <= i < names.len() ==> !(#[trigger] names[i]).contains('\0'),
{
    lemma_written_pieces(names);
    let all = pieces(written(names), '/');
    if all.contains(seq!['.', '.']) {
        let k = choose|k: int| 0 <= k < all.len() && all[k] == seq!['.', '.'];
        assert(k > 0 && names[k - 1] == seq!['.', '.']);
        assert(is_entry_name(names[k - 1]));
    }
    lemma_written_starts(names);
    lemma_written_chars(names, '\0');
}

proof fn lemma_written_pieces(names: Seq<Seq<char>>)
    requires
        are_entry_names(names),
    ensures
        pieces(written(names), '/') == seq![Seq::<char>::empty()] + names,
    decreases names.len(),
{
    if names.len() == 0 {
        both_sides_of_a_separator_are_split(Seq::empty(), Seq::empty(), '/');
        assert(seq![Seq::<char>::empty()] + names =~= seq![Seq::<char>::empty()]);
    } else {
        let front = names.drop_last();
        assert forall|i: int| 0 <= i < front.len() implies is_entry_name(#[trigger] front[i]) by {
            assert(front[i] == names[i]);
        }
        assert(is_entry_name(names[names.len() - 1]));
        lemma_written_pieces(front);
        both_sides_of_a_separator_are_split(written(front), names.last(), '/');
        both_sides_of_a_separator_are_split(names.last(), Seq::empty(), '/');
        assert(seq![Seq::<char>::empty()] + front + seq![names.last()] =~= seq![
            Seq::<char>::empty(),
        ] + names);
    }
}

proof fn lemma_written_starts(names: Seq<Seq<char>>)
    requires
        names.len() > 0,
    ensures
        written(names).len() > 0,
        written(names)[0] == '/',
    decreases names.len(),
{
    if names.len() > 1 {
        lemma_written_starts(names.drop_last());
    } else {
        assert(written(names.drop_last()) =~= Seq::<char>::empty());
    }
}

proof fn lemma_written_chars(names: Seq<Seq<char>>, c: char)
    requires
        c != '/',
    ensures
        written(names).contains(c) <==> exists|i: int|
            0 <= i < names.len() && (#[trigger] names[i]).contains(c),
    decreases names.len(),
{
    if names.len() > 0 {
        let front = names.drop_last();
        let head = written(front);
        let whole = written(names);
        let n = names.len() - 1;
        lemma_written_chars(front, c);
        if whole.contains(c) {
            let k = choose|k: int| 0 <= k < whole.len() && whole[k] == c;
            if k < head.len() {
                assert(head[k] == c);
                let i = choose|i: int| 0 <= i < front.len() && (#[trigger] front[i]).contains(c);
                assert(names[i].contains(c));
            } else {
                assert(names.last()[k - head.len() - 1] == c);
                assert(names[n].contains(c));
            }
        }
        if exists|i: int| 0 <= i < names.len() && (#[trigger] names[i]).contains(c) {
            let i = choose|i: int| 0 <= i < names.len() && (#[trigger] names[i]).contains(c);
            if i < n {
                assert(front[i].contains(c));
                let k = choose|k: int| 0 <= k < head.len() && head[k] == c;
                assert(whole[k] == c);
            } else {
                let k = choose|k: int| 0 <= k < names[n].len() && names[n][k] == c;
                assert(whole[head.len() + 1 + k] == c);
            }
        }
    }
}

/// Rules cannot speak of a path that is relative, holds a NUL, is too long, or steps to a parent
/// anywhere.
pub proof fn improper_paths_are_refused(path: Seq<char>, rest: Seq<char>)
    ensures
        path.len() == 0 || path[0] != '/' ==> !is_rule_path(path),
        path.contains('\0') ==> !is_rule_path(path),
        utf8_len(path) > 4096 ==> !is_rule_path(path),
        !is_rule_path(path + seq!['/', '.', '.']),
        !is_rule_path(path + seq!['/', '.', '.', '/'] + rest),
{
    let dots = seq!['.', '.'];
    both_sides_of_a_separator_are_split(dots, Seq::empty(), '/');
    both_sides_of_a_separator_are_split(path, dots, '/');
    both_sides_of_a_separator_are_split(dots, rest, '/');
    both_sides_of_a_separator_are_split(path, dots + seq!['/'] + rest, '/');
    lemma_pieces_nonempty(path, '/');
    let n = pieces(path, '/').len() as int;
    assert(path + seq!['/'] + dots =~= path + seq!['/', '.', '.']);
    assert(path + seq!['/'] + (dots + seq!['/'] + rest) =~= path + seq!['/', '.', '.', '/']
        + rest);
    assert(pieces(path + seq!['/', '.', '.'], '/')[n] == dots);
    assert(pieces(path + seq!['/', '.', '.', '/'] + rest, '/')[n] == dots);
}

/// A rule on a path applies to a request for the same access exactly if the request is on the same
/// path, name by name; a rule on a directory exactly if the request's names begin with the rule's.
pub proof fn rules_apply_by_name(draft: DraftModel, names: Seq<Seq<char>>, request: RequestModel)
    requires
        are_entry_names(names),
        draft.path == written(names),
        is_rule_path(draft.path),
    ensures
        draft.scope == RuleScope::Path ==> (draft.compiled().applies_to(request) <==> (request
            matches RequestModel::Capability { path, access, .. } && access == draft.access
            && is_rule_path(path) && path_parts(path) == names)),
        draft.scope == RuleScope::Directory ==> (draft.compiled().applies_to(request) <==> (request
            matches RequestModel::Capability { path, access, .. } && access == draft.access
            && is_rule_path(path) && names.is_prefix_of(path_parts(path)))),
{
    paths_are_their_names(names);
    if request is Capability {
        let parts = path_parts(request->Capability_path);
        literal_paths_match_by_component(names, draft.scope, parts);
        if names.len() <= parts.len() {
            assert(parts.take(names.len() as int) =~= parts.subrange(0, names.len() as int));
        }
    }
}

/// A rule on one path written as names never applies to a request on another, and a rule on a
/// directory applies to a request below it, whatever the further names are.
pub proof fn rules_keep_to_their_path(
    draft: DraftModel,
    names: Seq<Seq<char>>,
    others: Seq<Seq<char>>,
    request: RequestModel,
)
    requires
        are_entry_names(names),
        are_entry_names(others),
        draft.path == written(names),
        is_rule_path(draft.path),
        request is Capability,
        request->Capability_path == written(others),
        is_rule_path(request->Capability_path),
        request->Capability_access == draft.access,
    ensures
        draft.scope == RuleScope::Path ==> (draft.compiled().applies_to(request) <==> names
            == others),
        draft.scope == RuleScope::Directory ==> (draft.compiled().applies_to(request) <==> names
            .is_prefix_of(others)),
{
    rules_apply_by_name(draft, names, request);
    paths_are_their_names(others);
}

/// Compiling keeps what a draft decides, for which access and how far it reaches; the draft of the
/// rule says the same.
pub proof fn compiling_keeps_the_decision(draft: DraftModel)
    ensures
        draft.compiled().action == draft.action,
        draft.compiled().access == draft.access,
        draft.compiled().scope == draft.scope,
        draft.compiled().draft().action == draft.action,
        draft.compiled().draft().access == draft.access,
        draft.compiled().draft().scope == draft.scope,
        draft.compiled().draft().path == draft.compiled().path,
{
}

/// A rule grants exactly if it allows, and denies exactly if it denies, naming its path and scope.
pub proof fn rules_decide_by_their_action(rule: RuleModel)
    ensures
        rule.decision() is Granted <==> rule.action is Allow,
        rule.decision() is Denied <==> rule.action is Deny,
        rule.decision() matches DecisionModel::Denied { reason } ==> reason
            == "denied by session rule \""@ + sanitized(rule.path) + "\" ("@ + (if rule.scope
            is Path {
            "Path"@
        } else {
            "Directory"@
        }) + ")"@,
{
}

/// A draft can decide its source exactly if the rule it compiles to applies to it.
pub proof fn drafts_decide_what_their_rule_applies_to(draft: DraftModel, request: RequestModel)
    ensures
        draft.source_error(request) is None <==> is_rule_path(draft.path)
            && draft.compiled().applies_to(request),
        draft.source_error(request) == Some(PolicyErrorModel::NotCapability) <==> !(request
            is Capability),
        draft.source_error(request) == Some(PolicyErrorModel::InvalidPath) <==> request
            is Capability && !is_rule_path(draft.path),
{
}

/// A draft taken from a request has the request's own path and access, and the action and scope
/// asked for; only a capability with a path that rules can speak of has one.
pub proof fn drafts_are_taken_as_asked(request: RequestModel, action: RuleAction, scope: RuleScope)
    ensures
        match request {
            RequestModel::Capability { path, access, .. } => {
                &&& draft_from(request, action, scope) is Ok <==> is_rule_path(path)
                &&& draft_from(request, action, scope) matches Ok(draft) ==> draft.path == path
                    && draft.access == access && draft.action == action && draft.scope == scope
                &&& draft_from(request, action, scope) matches Err(refusal) ==> refusal
                    is InvalidPath
            },
            _ => draft_from(request, action, scope) matches Err(refusal) && refusal
                is NotCapability,
        },
{
}

/// The ancestors of a path are the path itself, then the path without its last name and so on, and
/// at the end the root.
pub proof fn ancestors_shed_one_name_each(names: Seq<Seq<char>>)
    requires
        are_entry_names(names),
    ensures
        ancestors_of(written(names)).len() == names.len() + 1,
        forall|i: int|
            0 <= i < names.len() ==> #[trigger] ancestors_of(written(names))[i] == written(
                names.take(names.len() - i),
            ),
        ancestors_of(written(names)).last() == seq!['/'],
{
    paths_are_their_names(names);
    assert forall|i: int| 0 <= i <= names.len() implies #[trigger] ancestors_of(written(names))[i]
        == (if i == names.len() {
        seq!['/']
    } else {
        written(names.take(names.len() - i))
    }) by {
        let above = names.take(names.len() - i);
        assert forall|k: int| 0 <= k < above.len() implies is_entry_name(#[trigger] above[k]) by {
            assert(above[k] == names[k]);
        }
        paths_are_their_names(above);
    }
}

/// A pattern matches names from the end: a literal step takes exactly its name, `*` any one name,
/// `**` one or more, and a `/` at the end any number. Nothing but no names matches no steps.
pub proof fn steps_take_names_from_the_end(
    pattern: Seq<SegmentModel>,
    names: Seq<Seq<char>>,
    name: Seq<char>,
)
    ensures
        glob(Seq::empty(), names) <==> names.len() == 0,
        glob(pattern.push(SegmentModel::Literal(name)), names) <==> names.len() > 0 && names.last()
            == name && glob(pattern, names.drop_last()),
        glob(pattern.push(SegmentModel::One), names) <==> names.len() > 0 && glob(
            pattern,
            names.drop_last(),
        ),
        glob(pattern.push(SegmentModel::Many), names) <==> exists|cut: int|
            0 <= cut < names.len() && #[trigger] glob(pattern, names.take(cut)),
        glob(pattern.push(SegmentModel::Descendants), names) <==> exists|cut: int|
            0 <= cut <= names.len() && #[trigger] glob(pattern, names.take(cut)),
{
    let n = names.len() as int;
    let literal = pattern.push(SegmentModel::Literal(name));
    let one = pattern.push(SegmentModel::One);
    let many = pattern.push(SegmentModel::Many);
    let below = pattern.push(SegmentModel::Descendants);
    assert(literal.drop_last() =~= pattern);
    assert(one.drop_last() =~= pattern);
    assert(many.drop_last() =~= pattern);
    assert(below.drop_last() =~= pattern);
    if n > 0 {
        assert(names.take(n - 1) =~= names.drop_last());
        assert(names.skip(n - 1) =~= seq![names.last()]);
        if names.last() == name && glob(pattern, names.drop_last()) {
            assert(stands_for(literal.last(), names.skip(n - 1)));
        }
        if glob(pattern, names.drop_last()) {
            assert(stands_for(one.last(), names.skip(n - 1)));
        }
    }
    if glob(literal, names) {
        let cut = choose|cut: int|
            0 <= cut <= n && glob(literal.drop_last(), names.take(cut)) && #[trigger] stands_for(
                literal.last(),
                names.skip(cut),
            );
        assert(names.skip(cut).len() == 1);
        assert(names.skip(cut)[0] == name);
    }
    if glob(one, names) {
        let cut = choose|cut: int|
            0 <= cut <= n && glob(one.drop_last(), names.take(cut)) && #[trigger] stands_for(
                one.last(),
                names.skip(cut),
            );
        assert(names.skip(cut).len() == 1);
    }
    if glob(many, names) {
        let cut = choose|cut: int|
            0 <= cut <= n && glob(many.drop_last(), names.take(cut)) && #[trigger] stands_for(
                many.last(),
                names.skip(cut),
            );
        assert(names.skip(cut).len() >= 1);
        assert(glob(pattern, names.take(cut)));
    }
    if exists|cut: int| 0 <= cut < n && #[trigger] glob(pattern, names.take(cut)) {
        let cut = choose|cut: int| 0 <= cut < n && #[trigger] glob(pattern, names.take(cut));
        assert(stands_for(many.last(), names.skip(cut)));
    }
    if glob(below, names) {
        let cut = choose|cut: int|
            0 <= cut <= n && glob(below.drop_last(), names.take(cut)) && #[trigger] stands_for(
                below.last(),
                names.skip(cut),
            );
        assert(glob(pattern, names.take(cut)));
    }
    if exists|cut: int| 0 <= cut <= n && #[trigger] glob(pattern, names.take(cut)) {
        let cut = choose|cut: int| 0 <= cut <= n && #[trigger] glob(pattern, names.take(cut));
        assert(stands_for(below.last(), names.skip(cut)));
    }
}

/// Patterns are written name by name: `*` and `**` alone are wildcards, a name with a `*` among
/// other characters is refused, and every other name stands for itself; a `/` at the end adds
/// whatever lies below.
pub proof fn patterns_are_written_by_name(text: Seq<char>, name: Seq<char>)
    requires
        is_entry_name(name),
        is_rule_path(text + seq!['/'] + name),
        is_rule_path(text),
        text.last() != '/',
        pattern_of(text) is Ok,
    ensures
        ({
            let before = pattern_of(text)->Ok_0;
            pattern_of(text + seq!['/'] + name) == if name == seq!['*'] {
                Ok::<Seq<SegmentModel>, PolicyErrorModel>(before.push(SegmentModel::One))
            } else if name == seq!['*', '*'] {
                Ok(before.push(SegmentModel::Many))
            } else if name.contains('*') {
                Err(PolicyErrorModel::InvalidPattern)
            } else {
                Ok(before.push(SegmentModel::Literal(name)))
            }
        }),
        is_rule_path(text + seq!['/']) ==> pattern_of(text + seq!['/']) == Ok::<
            Seq<SegmentModel>,
            PolicyErrorModel,
        >((pattern_of(text)->Ok_0).push(SegmentModel::Descendants)),
{
    names_become_components(text, name);
    idle_steps_name_nothing(text);
    let old_parts = path_parts(text);
    let longer = text + seq!['/'] + name;
    let parts = path_parts(longer);
    let n = old_parts.len() as int;
    let before = pattern_of(text)->Ok_0;
    assert(!(exists|i: int| 0 <= i < old_parts.len() && segment_of(#[trigger] old_parts[i]) is None));
    assert(longer.last() == name.last());
    assert(name.contains(name.last()));
    assert(parts[n] == name);
    assert(before =~= Seq::new(old_parts.len(), |i: int| segment_of(old_parts[i])->0));
    assert forall|i: int| 0 <= i < n implies segment_of(#[trigger] parts[i]) is Some by {
        assert(parts[i] == old_parts[i]);
    }
    if segment_of(name) is Some {
        assert forall|i: int| 0 <= i < parts.len() implies segment_of(#[trigger] parts[i]) is Some by {}
        assert(pattern_of(longer)->Ok_0 =~= before.push(segment_of(name)->0));
    } else {
        assert(segment_of(parts[n]) is None);
    }
    assert((text + seq!['/']).last() == '/');
    assert(path_parts(text + seq!['/']) == old_parts);
    if is_rule_path(text + seq!['/']) {
        assert(pattern_of(text + seq!['/'])->Ok_0 =~= before.push(SegmentModel::Descendants));
    }
}

/// Where two patterns part, the one whose step pins down more is the more specific: a name before
/// `*`, `*` before `**`, `**` before the end, and the end before whatever lies below.
pub proof fn closer_steps_are_more_specific(
    start: Seq<SegmentModel>,
    name: Seq<char>,
    a: Seq<SegmentModel>,
    b: Seq<SegmentModel>,
)
    ensures
        less_specific(
            start.push(SegmentModel::One) + a,
            start.push(SegmentModel::Literal(name)) + b,
        ),
        less_specific(start.push(SegmentModel::Many) + a, start.push(SegmentModel::One) + b),
        less_specific(start, start.push(SegmentModel::Many) + b),
        less_specific(start.push(SegmentModel::Descendants) + a, start),
{
    lemma_parting(
        start,
        start.push(SegmentModel::One) + a,
        start.push(SegmentModel::Literal(name)) + b,
    );
    lemma_parting(start, start.push(SegmentModel::Many) + a, start.push(SegmentModel::One) + b);
    lemma_parting(start, start, start.push(SegmentModel::Many) + b);
    lemma_parting(start, start.push(SegmentModel::Descendants) + a, start);
}

proof fn lemma_parting(start: Seq<SegmentModel>, a: Seq<SegmentModel>, b: Seq<SegmentModel>)
    requires
        start.len() <= a.len(),
        start.len() <= b.len(),
        a.take(start.len() as int) =~= start,
        b.take(start.len() as int) =~= start,
        rank_at(a, start.len() as int) < rank_at(b, start.len() as int),
    ensures
        less_specific(a, b),
{
    let n = start.len() as int;
    assert forall|j: int| 0 <= j < n implies #[trigger] rank_at(a, j) == rank_at(b, j) by {
        assert(a[j] == a.take(n)[j] && b[j] == b.take(n)[j]);
    }
    assert(rank_at(a, n) < rank_at(b, n));
}

/// As soon as some rule applies to a request, one of the rules that apply decides it; otherwise
/// none does.
pub proof fn applicable_rules_are_heard(rules: Seq<RuleModel>, request: RequestModel)
    ensures
        deciding_rule(rules, request) is Some <==> exists|i: int|
            0 <= i < rules.len() && (#[trigger] rules[i]).applies_to(request),
        deciding_rule(rules, request) matches Some(rule) ==> rules.contains(rule)
            && rule.applies_to(request),
{
    if exists|i: int| decides(rules, request, i) {
        let i = choose|i: int| decides(rules, request, i);
        assert(rules[i].applies_to(request));
    }
    if exists|i: int| 0 <= i < rules.len() && (#[trigger] rules[i]).applies_to(request) {
        let i = choose|i: int| 0 <= i < rules.len() && (#[trigger] rules[i]).applies_to(request);
        lemma_some_rule_decides(rules, request, i);
    }
}

proof fn lemma_some_rule_decides(rules: Seq<RuleModel>, request: RequestModel, i: int)
    requires
        0 <= i < rules.len(),
        rules[i].applies_to(request),
    ensures
        exists|k: int| decides(rules, request, k),
    decreases rules.len(),
{
    let front = rules.drop_last();
    let n = rules.len() - 1;
    if exists|j: int| 0 <= j < n && (#[trigger] rules[j]).applies_to(request) {
        let j = choose|j: int| 0 <= j < n && (#[trigger] rules[j]).applies_to(request);
        assert(front[j] == rules[j]);
        lemma_some_rule_decides(front, request, j);
        let k = choose|k: int| decides(front, request, k);
        lemma_last_rule_joins(rules, request, k);
    } else {
        assert(i == n);
        lemma_not_both_less(rules[n].pattern, rules[n].pattern);
        assert(decides(rules, request, n));
    }
}

proof fn lemma_last_rule_joins(rules: Seq<RuleModel>, request: RequestModel, k: int)
    requires
        rules.len() > 0,
        decides(rules.drop_last(), request, k),
    ensures
        decides(rules, request, k) || decides(rules, request, rules.len() - 1),
{
    let front = rules.drop_last();
    let n = rules.len() - 1;
    let last = rules[n].pattern;
    let best = rules[k].pattern;
    assert(front[k] == rules[k]);
    lemma_not_both_less(last, best);
    lemma_not_both_less(last, last);
    if rules[n].applies_to(request) && !less_specific(last, best) {
        assert forall|m: int|
            0 <= m < rules.len() && (#[trigger] rules[m]).applies_to(request) implies !less_specific(
            last,
            rules[m].pattern,
        ) by {
            if m < n {
                lemma_not_above_best(front, request, k, last, m);
            }
        }
    } else {
        assert forall|m: int|
            0 <= m < rules.len() && (#[trigger] rules[m]).applies_to(request) implies !less_specific(
            best,
            rules[m].pattern,
        ) && (m > k ==> less_specific(rules[m].pattern, best)) by {
            if m < n {
                assert(front[m] == rules[m]);
            }
        }
    }
}

proof fn lemma_not_above_best(
    rules: Seq<RuleModel>,
    request: RequestModel,
    k: int,
    pattern: Seq<SegmentModel>,
    m: int,
)
    requires
        decides(rules, request, k),
        !less_specific(pattern, rules[k].pattern),
        0 <= m < rules.len(),
        rules[m].applies_to(request),
    ensures
        !less_specific(pattern, rules[m].pattern),
{
    if less_specific(pattern, rules[m].pattern) {
        lemma_less_splits(pattern, rules[k].pattern, rules[m].pattern);
    }
}

/// A rule takes the place of the one with its path, scope and access, and otherwise comes last;
/// every rule that differs in one of the three stays where it is. A full session refuses a rule
/// exactly if none of its rules has all three.
pub proof fn rules_replace_only_their_own_key(rules: Seq<RuleModel>, rule: RuleModel)
    ensures
        inserted(rules, rule) is None <==> rules.len() == 128 && forall|i: int|
            0 <= i < rules.len() ==> (#[trigger] rules[i]).path != rule.path || rules[i].scope
                != rule.scope || rules[i].access != rule.access,
        inserted(rules, rule) matches Some(after) ==> {
            &&& after.len() == rules.len() || after == rules.push(rule)
            &&& forall|i: int|
                0 <= i < rules.len() && ((#[trigger] rules[i]).path != rule.path || rules[i].scope
                    != rule.scope || rules[i].access != rule.access) ==> after[i] == rules[i]
            &&& after == rules.push(rule) ==> forall|i: int|
                0 <= i < rules.len() ==> (#[trigger] rules[i]).path != rule.path || rules[i].scope
                    != rule.scope || rules[i].access != rule.access
        },
{
    lemma_key_position(rules, rule);
    if key_position(rules, rule) is Some {
        assert(rules[key_position(rules, rule)->0].same_key(rule));
    }
}

/// Two rules, and two drafts, have the same key exactly if they have the same path, scope and
/// access, whatever they do.
pub proof fn keys_are_path_scope_and_access(
    a: RuleModel,
    b: RuleModel,
    c: DraftModel,
    d: DraftModel,
    drafts: Seq<DraftModel>,
)
    ensures
        a.same_key(b) ==> a.path == b.path && a.scope == b.scope && a.access == b.access,
        a.path == b.path && a.scope == b.scope && a.access == b.access ==> a.same_key(b),
        c.same_key(d) ==> c.path == d.path && c.scope == d.scope && c.access == d.access,
        c.path == d.path && c.scope == d.scope && c.access == d.access ==> c.same_key(d),
        has_draft_key(drafts, c) <==> exists|i: int|
            0 <= i < drafts.len() && (#[trigger] drafts[i]).path == c.path && drafts[i].scope
                == c.scope && drafts[i].access == c.access,
        c.normalized().action == c.action && c.normalized().scope == c.scope
            && c.normalized().access == c.access,
{
    if has_draft_key(drafts, c) {
        let i = choose|i: int| 0 <= i < drafts.len() && (#[trigger] drafts[i]).same_key(c);
        assert(drafts[i].path == c.path);
    }
    if exists|i: int|
        0 <= i < drafts.len() && (#[trigger] drafts[i]).path == c.path && drafts[i].scope == c.scope
            && drafts[i].access == c.access {
        let i = choose|i: int|
            0 <= i < drafts.len() && (#[trigger] drafts[i]).path == c.path && drafts[i].scope
                == c.scope && drafts[i].access == c.access;
        assert(drafts[i].same_key(c));
    }
}

/// Of several applicable rules with the same pattern the last one decides, if any of them does.
pub proof fn the_last_of_equals_decides(
    rules: Seq<RuleModel>,
    request: RequestModel,
    i: int,
    j: int,
)
    requires
        decides(rules, request, i),
        0 <= j < rules.len(),
        rules[j].applies_to(request),
        rules[j].pattern == rules[i].pattern,
    ensures
        j <= i,
{
    lemma_not_both_less(rules[i].pattern, rules[i].pattern);
}

/// A policy file is refused for the first draft that cannot stand, with what is wrong with it: a
/// path that rules cannot speak of, or a key that an earlier draft has.
pub proof fn policies_are_refused_for_their_first_fault(drafts: Seq<DraftModel>, draft: DraftModel)
    requires
        policy_of(drafts) is Ok,
    ensures
        !is_rule_path(draft.path) ==> policy_of(drafts.push(draft)) == Err::<
            Seq<DraftModel>,
            PolicyErrorModel,
        >(PolicyErrorModel::InvalidPath),
        is_rule_path(draft.path) && (exists|i: int|
            0 <= i < drafts.len() && (#[trigger] drafts[i]).normalized().path
                == draft.normalized().path && drafts[i].scope == draft.scope && drafts[i].access
                == draft.access) ==> policy_of(drafts.push(draft)) == Err::<
            Seq<DraftModel>,
            PolicyErrorModel,
        >(PolicyErrorModel::DuplicateRule(draft.normalized().path)),
{
    policies_are_valid_and_distinct(drafts);
    assert(drafts.push(draft).drop_last() =~= drafts);
    let done = policy_of(drafts)->Ok_0;
    if exists|i: int|
        0 <= i < drafts.len() && (#[trigger] drafts[i]).normalized().path
            == draft.normalized().path && drafts[i].scope == draft.scope && drafts[i].access
            == draft.access {
        let i = choose|i: int|
            0 <= i < drafts.len() && (#[trigger] drafts[i]).normalized().path
                == draft.normalized().path && drafts[i].scope == draft.scope && drafts[i].access
                == draft.access;
        assert(done[i] == drafts[i].normalized());
        assert(done[i].same_key(draft.normalized()));
    }
}

/// Drafts and rules are seen as what their fields hold.
pub proof fn rules_are_seen_field_by_field(draft: RuleDraft, rule: SessionRule, scope: RuleScope)
    ensures
        draft@.action == draft.action,
        draft@.path == draft.path@,
        draft@.scope == draft.scope,
        draft@.access == draft.access,
        rule@.path == rule.path@,
        rule@.access == rule.access,
        rule@.scope == rule.scope,
        rule@.action == rule.action,
        rule@.pattern == rule.pattern@,
        scope is Path ==> scope.name() == "Path"@,
        scope is Directory ==> scope.name() == "Directory"@,
{
}

/// Every refusal says what is wrong.
pub proof fn policy_refusals_say_what_is_wrong(path: Seq<char>, detail: Seq<char>)
    ensures
        PolicyErrorModel::NotCapability.message() == "session rules require a capability request"@,
        PolicyErrorModel::InvalidPath.message()
            == "rule path must be absolute, contain no parent components or NUL, and fit in 4096 bytes"@,
        PolicyErrorModel::InvalidPattern.message()
            == "wildcards must occupy a whole path component"@,
        PolicyErrorModel::Capacity.message() == "session rule limit reached (128)"@,
        PolicyErrorModel::DoesNotCoverSource.message()
            == "rule must cover the source request path and its exact access mode"@,
        PolicyErrorModel::DuplicateRule(path).message()
            == "policy file contains duplicate path/scope/access rule: "@ + path,
        (PolicyErrorModel::ReadPolicy { path, detail }).message() == "could not read policy file "@
            + path + ": "@ + detail,
        PolicyErrorModel::PolicyToml(detail).message() == "invalid policy TOML: "@ + detail,
{
}

/// A policy file that cannot be read or decoded is refused with its path or the decoder's words.
pub proof fn unread_policies_are_refused(
    path: &str,
    contents: PolicyRead,
    result: Result<Vec<RuleDraft>, PolicyError>,
)
    requires
        call_ensures(load_policy, (path, contents), result),
    ensures
        contents matches PolicyRead::Unreadable(detail) ==> result is Err && (result->Err_0)@ == (
        PolicyErrorModel::ReadPolicy { path: path@, detail: detail@ }),
        contents matches PolicyRead::Malformed(detail) ==> result is Err && (result->Err_0)@
            == PolicyErrorModel::PolicyToml(detail@),
        contents is Parsed ==> (result is Ok <==> policy_of(
            draft_models(contents->Parsed_0.rules@),
        ) is Ok),
{
}

/// Lists of drafts and rules are seen in their own order, one for one.
pub proof fn rule_lists_are_seen_in_order(drafts: Seq<RuleDraft>, rules: Seq<SessionRule>)
    ensures
        draft_models(drafts).len() == drafts.len(),
        forall|i: int| 0 <= i < drafts.len() ==> #[trigger] draft_models(drafts)[i] == drafts[i]@,
        rule_models(rules).len() == rules.len(),
        forall|i: int| 0 <= i < rules.len() ==> #[trigger] rule_models(rules)[i] == rules[i]@,
{
}

} // verus!
