//! What is shown of a request: sanitized fields, summaries and their sizes.
use vstd::prelude::*;
use vstd::string::StringExecFns;

use crate::protocol::{KnownApprovalRequest, RequestModel, SourceKind};
use crate::text::{
    byte_len, chars, decimal, decimal_text, hex, hex_byte, hex_text, is_control, join, join_texts,
    push_hex_byte, texts, utf8_len,
};

verus! {

/// The largest serialized detail accepted by default: 1 MiB.
pub const MAX_DETAIL_BYTES: usize = 1048576;

/// The character that stands for cut-off text.
pub const ELLIPSIS: char = '…';

// ---------------------------------------------------------------------------
// Terminal control sequences
// ---------------------------------------------------------------------------

/// What a terminal does with a stretch of text: show a character, or act on a control byte.
pub enum TerminalEvent {
    Print(char),
    Execute(u8),
}

/// Collects what a terminal would show or execute; every other action is ignored.
struct EventRecorder {
    events: Vec<TerminalEvent>,
}

impl View for EventRecorder {
    type V = Seq<TerminalEvent>;

    closed spec fn view(&self) -> Seq<TerminalEvent> {
        self.events@
    }
}

impl vte::Perform for EventRecorder {
    fn print(&mut self, character: char)
        ensures
            final(self)@ == old(self)@.push(TerminalEvent::Print(character)),
    {
        self.events.push(TerminalEvent::Print(character));
    }

    fn execute(&mut self, byte: u8)
        ensures
            final(self)@ == old(self)@.push(TerminalEvent::Execute(byte)),
    {
        self.events.push(TerminalEvent::Execute(byte));
    }
}

/// The event of a character outside of an escape sequence.
pub open spec fn plain_event(c: char) -> TerminalEvent {
    if (c as u32) < 0x20 || 0x80 <= (c as u32) <= 0x9f {
        TerminalEvent::Execute(c as u8)
    } else {
        TerminalEvent::Print(c)
    }
}

/// The events that the terminal parser reports for a text with escape characters.
pub uninterp spec fn escaped_events(text: Seq<char>) -> Seq<TerminalEvent>;

/// The events of a text: one per character where no escape sequence can start, and what the
/// terminal parser makes of it otherwise.
pub open spec fn terminal_events(text: Seq<char>) -> Seq<TerminalEvent> {
    if text.contains('\u{1b}') {
        escaped_events(text)
    } else {
        text.map_values(|c: char| plain_event(c))
    }
}

/// Runs `vte::Parser::advance` once over the bytes of `value`, starting from a fresh parser, and
/// returns the characters it prints and the bytes it executes, in order.
///
/// A parser leaves its ground state only at an escape character. So without one, each character is
/// reported on its own: as a byte to execute if it is a C0 or C1 control, and to print otherwise.
/// With one, the outcome is named and nothing further is claimed of it.
#[verifier::external_body]
fn parse_terminal(value: &str) -> (events: Vec<TerminalEvent>)
    ensures
        events@ == (if value@.contains('\u{1b}') {
            escaped_events(value@)
        } else {
            value@.map_values(|c: char| plain_event(c))
        }),
{
    let mut parser = vte::Parser::new();
    let mut recorder = EventRecorder { events: Vec::new() };
    parser.advance(&mut recorder, value.as_bytes());
    recorder.events
}

/// How an event is shown: printable characters as themselves, controls as visible escapes.
pub open spec fn shown_event(event: TerminalEvent) -> Seq<char> {
    match event {
        TerminalEvent::Print(c) => if is_control(c) {
            "\\u{"@ + hex(c as nat) + "}"@
        } else {
            seq![c]
        },
        TerminalEvent::Execute(byte) => if byte == 10 {
            "\\n"@
        } else if byte == 13 {
            "\\r"@
        } else if byte == 9 {
            "\\t"@
        } else {
            "\\x"@ + hex_byte(byte)
        },
    }
}

/// How events are shown one after another.
pub open spec fn shown_events(events: Seq<TerminalEvent>) -> Seq<char>
    decreases events.len(),
{
    if events.len() == 0 {
        Seq::empty()
    } else {
        shown_events(events.drop_last()) + shown_event(events.last())
    }
}

/// A text with terminal control sequences removed and control characters made visible.
pub open spec fn sanitized(text: Seq<char>) -> Seq<char> {
    shown_events(terminal_events(text))
}

/// A text without control characters.
pub open spec fn is_clean(text: Seq<char>) -> bool {
    forall|i: int| 0 <= i < text.len() ==> !is_control(#[trigger] text[i])
}

/// Appends the visible form of one event.
fn push_event(target: &mut String, event: &TerminalEvent)
    ensures
        final(target)@ == old(target)@ + shown_event(*event),
{
    match event {
        TerminalEvent::Print(character) => {
            let code: u32 = *character as u32;
            if code < 0x20 || (0x7f <= code && code <= 0x9f) {
                target.append("\\u{");
                let digits = hex_text(code);
                target.append(digits.as_str());
                target.append("}");
                assert(target@ =~= old(target)@ + shown_event(*event));
            } else {
                target.push(*character);
                assert(target@ =~= old(target)@ + shown_event(*event));
            }
        },
        TerminalEvent::Execute(byte) => {
            if *byte == 10 {
                target.append("\\n");
            } else if *byte == 13 {
                target.append("\\r");
            } else if *byte == 9 {
                target.append("\\t");
            } else {
                target.append("\\x");
                push_hex_byte(target, *byte);
                assert(target@ =~= old(target)@ + shown_event(*event));
            }
        },
    }
}

/// Writes what a terminal would do with a text in visible form.
pub fn show_events(events: &Vec<TerminalEvent>) -> (result: String)
    ensures
        result@ == shown_events(events@),
{
    let mut result = String::new();
    for i in 0..events.len()
        invariant
            result@ == shown_events(events@.take(i as int)),
    {
        push_event(&mut result, &events[i]);
        assert(events@.take(i + 1).drop_last() =~= events@.take(i as int));
    }
    assert(events@.take(events@.len() as int) =~= events@);
    result
}

/// Removes terminal control sequences and makes control characters visible.
pub fn sanitize(value: &str) -> (result: String)
    ensures
        result@ == sanitized(value@),
        is_clean(result@),
{
    proof {
        sanitized_is_clean(value@);
    }
    show_events(&parse_terminal(value))
}

pub(crate) proof fn lemma_hex_is_clean(value: nat)
    ensures
        is_clean(hex(value)),
    decreases value,
{
    if value >= 16 {
        lemma_hex_is_clean(value / 16);
    }
}

proof fn lemma_event_is_clean(event: TerminalEvent)
    ensures
        is_clean(shown_event(event)),
{
    reveal_strlit("\\u{");
    reveal_strlit("}");
    reveal_strlit("\\n");
    reveal_strlit("\\r");
    reveal_strlit("\\t");
    reveal_strlit("\\x");
    if let TerminalEvent::Print(c) = event {
        lemma_hex_is_clean(c as nat);
    }
}

proof fn lemma_events_are_clean(events: Seq<TerminalEvent>)
    ensures
        is_clean(shown_events(events)),
    decreases events.len(),
{
    if events.len() > 0 {
        lemma_events_are_clean(events.drop_last());
        lemma_event_is_clean(events.last());
    }
}

/// Sanitized text never holds a control character, whatever the input.
pub proof fn sanitized_is_clean(text: Seq<char>)
    ensures
        is_clean(sanitized(text)),
{
    lemma_events_are_clean(terminal_events(text));
}

proof fn lemma_plain_text_shown(text: Seq<char>)
    requires
        is_clean(text),
    ensures
        shown_events(text.map_values(|c: char| plain_event(c))) == text,
    decreases text.len(),
{
    let events = text.map_values(|c: char| plain_event(c));
    if text.len() > 0 {
        let front = text.drop_last();
        assert(front.map_values(|c: char| plain_event(c)) =~= events.drop_last());
        assert forall|i: int| 0 <= i < front.len() implies !is_control(#[trigger] front[i]) by {
            assert(front[i] == text[i]);
        }
        lemma_plain_text_shown(front);
        assert(!is_control(text[text.len() - 1]));
        assert(front + seq![text.last()] =~= text);
    } else {
        assert(events =~= Seq::empty());
    }
}

/// Text without control characters passes through unchanged.
pub proof fn clean_text_is_kept(text: Seq<char>)
    requires
        is_clean(text),
    ensures
        sanitized(text) == text,
{
    if text.contains('\u{1b}') {
        let i = choose|i: int| 0 <= i < text.len() && text[i] == '\u{1b}';
        assert(!is_control(text[i]));
    }
    lemma_plain_text_shown(text);
}

/// Sanitizing twice is sanitizing once.
pub proof fn sanitizing_is_idempotent(text: Seq<char>)
    ensures
        sanitized(sanitized(text)) == sanitized(text),
{
    sanitized_is_clean(text);
    clean_text_is_kept(sanitized(text));
}

// ---------------------------------------------------------------------------
// Truncation
// ---------------------------------------------------------------------------

/// The columns that a character beyond printable ASCII and the ellipsis takes on a terminal.
pub uninterp spec fn wide_columns(c: char) -> nat;

/// The columns a character takes on a terminal; control characters take none.
pub open spec fn columns(c: char) -> nat {
    if is_control(c) {
        0
    } else if (c as u32) < 0x7f || c == ELLIPSIS {
        1
    } else {
        wide_columns(c)
    }
}

/// The columns the characters of a text take together.
pub open spec fn text_columns(text: Seq<char>) -> nat
    decreases text.len(),
{
    if text.len() == 0 {
        0
    } else {
        text_columns(text.drop_last()) + columns(text.last())
    }
}

/// Calls `unicode_width::UnicodeWidthChar::width`, which is `None` exactly for control characters
/// and `Some(1)` for printable ASCII and for the ellipsis, whose width its tables call ambiguous and
/// which this call takes for narrow. For any other character the width is named; its tables hold
/// no width above three.
#[verifier::external_body]
fn char_width(c: char) -> (width: Option<usize>)
    ensures
        width is None <==> is_control(c),
        width matches Some(count) ==> count <= 3 && count == (if (c as u32) < 0x7f || c == ELLIPSIS {
            1
        } else {
            wide_columns(c)
        }),
{
    unicode_width::UnicodeWidthChar::width(c)
}

/// The columns a character takes on a terminal.
pub(crate) fn char_columns(c: char) -> (result: usize)
    ensures
        result == columns(c),
        result <= 3,
{
    match char_width(c) {
        Some(count) => count,
        None => 0,
    }
}

/// The columns that the terminal-width tables give to a text that is not plain ASCII.
pub uninterp spec fn wide_text_columns(text: Seq<char>) -> nat;

/// A text of printable ASCII characters only.
pub open spec fn is_printable_ascii(text: Seq<char>) -> bool {
    forall|i: int| 0 <= i < text.len() ==> ' ' <= #[trigger] text[i] <= '~'
}

/// The columns a text takes as a whole, where neighbouring characters may combine.
pub open spec fn line_columns(text: Seq<char>) -> nat {
    if is_printable_ascii(text) {
        text.len()
    } else {
        wide_text_columns(text)
    }
}

/// Calls `unicode_width::UnicodeWidthStr::width`. It counts one column for each character of
/// printable ASCII; for other texts the width is named.
#[verifier::external_body]
pub(crate) fn line_width(text: &str) -> (width: usize)
    ensures
        width == (if is_printable_ascii(text@) {
            text@.len()
        } else {
            wide_text_columns(text@)
        }),
{
    unicode_width::UnicodeWidthStr::width(text)
}

/// The lines that a text is broken into where it does not fit on one line.
pub uninterp spec fn broken_lines(text: Seq<char>, width: usize) -> Seq<Seq<char>>;

/// Whether a text stays on one line as it is: it is shorter than the width, without line breaks and
/// without spaces at its end.
pub open spec fn fits_on_line(text: Seq<char>, width: usize) -> bool {
    utf8_len(text) < width && !text.contains('\n') && (text.len() == 0 || text.last() != ' ')
}

/// The lines of a text at a width.
pub open spec fn wrapped(text: Seq<char>, width: usize) -> Seq<Seq<char>> {
    if fits_on_line(text, width) {
        seq![text]
    } else {
        broken_lines(text, width)
    }
}

/// Calls `textwrap::wrap` with a width. A text shorter than the width, counted in bytes, without
/// line breaks or trailing spaces, comes back as its only line; how any other text is broken is
/// named.
#[verifier::external_body]
pub(crate) fn wrap_text(text: &str, width: usize) -> (lines: Vec<String>)
    ensures
        texts(lines@) == (if fits_on_line(text@, width) {
            seq![text@]
        } else {
            broken_lines(text@, width)
        }),
{
    textwrap::wrap(text, width).into_iter().map(|line| line.into_owned()).collect()
}

/// The longest part of `text` from its start that fits into `width` columns.
pub open spec fn fitting(text: Seq<char>, width: nat) -> Seq<char>
    decreases text.len(),
{
    if text_columns(text) <= width {
        text
    } else {
        fitting(text.drop_last(), width)
    }
}

/// A text cut to `width` columns, with an ellipsis where something was cut off.
pub open spec fn truncated(text: Seq<char>, width: nat) -> Seq<char> {
    if text_columns(text) <= width {
        text
    } else if width == 0 {
        Seq::empty()
    } else {
        fitting(text, (width - 1) as nat).push(ELLIPSIS)
    }
}

proof fn lemma_columns_grow(text: Seq<char>, i: int)
    requires
        0 <= i <= text.len(),
    ensures
        text_columns(text.take(i)) <= text_columns(text),
    decreases text.len() - i,
{
    if i < text.len() {
        lemma_columns_grow(text, i + 1);
        assert(text.take(i + 1).drop_last() =~= text.take(i));
    } else {
        assert(text.take(i) =~= text);
    }
}

proof fn lemma_fitting_found(text: Seq<char>, width: nat, i: int)
    requires
        0 <= i < text.len(),
        text_columns(text.take(i)) <= width,
        text_columns(text.take(i + 1)) > width,
    ensures
        fitting(text, width) == text.take(i),
    decreases text.len(),
{
    reveal_with_fuel(fitting, 2);
    lemma_columns_grow(text, i + 1);
    if text.len() == i + 1 {
        assert(text.drop_last() =~= text.take(i));
    } else {
        let front = text.drop_last();
        assert(front.take(i) =~= text.take(i));
        assert(front.take(i + 1) =~= text.take(i + 1));
        lemma_fitting_found(front, width, i);
    }
}

/// Cuts a summary to a number of columns, marking the cut with an ellipsis.
pub fn truncate_summary(value: &str, max_columns: usize) -> (result: String)
    ensures
        result@ == truncated(value@, max_columns as nat),
        text_columns(result@) <= max_columns,
{
    let all = chars(value);
    let mut used: usize = 0;
    let mut kept: usize = 0;
    let mut kept_done = false;
    let mut i: usize = 0;
    while i < all.len()
        invariant
            all@ == value@,
            i <= all@.len(),
            used == text_columns(value@.take(i as int)),
            used <= max_columns,
            kept <= i,
            max_columns > 0 && !kept_done ==> kept == i && used <= max_columns - 1,
            kept_done ==> max_columns > 0 && kept < i && text_columns(value@.take(kept as int))
                <= max_columns - 1 && text_columns(value@.take(kept + 1)) > max_columns - 1,
        decreases all@.len() - i,
    {
        let width = char_columns(all[i]);
        proof {
            assert(value@.take(i + 1).drop_last() =~= value@.take(i as int));
            assert(value@.take(i + 1).last() == value@[i as int]);
        }
        if width > max_columns - used {
            proof {
                lemma_columns_grow(value@, i + 1);
            }
            if max_columns == 0 {
                return String::new();
            }
            let mut result = String::new();
            let mut j: usize = 0;
            while j < kept
                invariant
                    j <= kept <= all@.len(),
                    all@ == value@,
                    result@ == value@.take(j as int),
                decreases kept - j,
            {
                result.push(all[j]);
                assert(value@.take(j + 1) =~= value@.take(j as int).push(value@[j as int]));
                j += 1;
            }
            proof {
                lemma_fitting_found(value@, (max_columns - 1) as nat, kept as int);
                truncated_summaries_fit(value@, max_columns as nat);
            }
            result.push(ELLIPSIS);
            return result;
        }
        used += width;
        i += 1;
        if max_columns > 0 && !kept_done {
            if used <= max_columns - 1 {
                kept = i;
            } else {
                kept_done = true;
            }
        }
    }
    assert(value@.take(value@.len() as int) =~= value@);
    value.to_owned()
}

/// A text that fits is never altered by truncation.
pub proof fn fitting_summaries_are_kept(text: Seq<char>, width: nat)
    requires
        text_columns(text) <= width,
    ensures
        truncated(text, width) == text,
{
}

proof fn lemma_fitting_is_prefix(text: Seq<char>, width: nat)
    ensures
        fitting(text, width).len() <= text.len(),
        fitting(text, width) == text.take(fitting(text, width).len() as int),
        text_columns(fitting(text, width)) <= width,
    decreases text.len(),
{
    if text_columns(text) <= width {
        assert(text.take(text.len() as int) =~= text);
    } else {
        let front = text.drop_last();
        lemma_fitting_is_prefix(front, width);
        let n = fitting(front, width).len() as int;
        assert(front.take(n) =~= text.take(n));
    }
}

/// What truncation leaves of a text always fits into the width.
pub proof fn truncated_summaries_fit(text: Seq<char>, width: nat)
    ensures
        text_columns(truncated(text, width)) <= width,
{
    if text_columns(text) > width && width > 0 {
        let kept = fitting(text, (width - 1) as nat);
        lemma_fitting_is_prefix(text, (width - 1) as nat);
        assert(kept.push(ELLIPSIS).drop_last() =~= kept);
    }
}

/// What truncation keeps of a text that does not fit is its beginning, at most one column short of
/// the width, and the ellipsis takes the rest.
pub proof fn truncation_keeps_a_prefix(text: Seq<char>, width: nat)
    requires
        text_columns(text) > width,
        width > 0,
    ensures
        truncated(text, width).last() == ELLIPSIS,
        truncated(text, width).drop_last() == text.take(truncated(text, width).len() - 1),
        text_columns(truncated(text, width).drop_last()) <= width - 1,
{
    lemma_fitting_is_prefix(text, (width - 1) as nat);
    let kept = fitting(text, (width - 1) as nat);
    assert(kept.push(ELLIPSIS).drop_last() =~= kept);
}

// ---------------------------------------------------------------------------
// Shell quoting
// ---------------------------------------------------------------------------

/// A character that a shell takes literally without quotes.
pub open spec fn is_shell_plain(c: char) -> bool {
    ||| c == '+' || c == '-' || c == '.' || c == '/' || c == ':' || c == '@' || c == ']' || c
        == '_'
    ||| '0' <= c <= '9'
    ||| 'A' <= c <= 'Z'
    ||| 'a' <= c <= 'z'
}

/// A character that quoting may add to a word.
pub open spec fn is_quote_mark(c: char) -> bool {
    c == '\'' || c == '"' || c == '\\'
}

/// The quoted form of a word that needs quoting.
pub uninterp spec fn shell_quoted(word: Seq<char>) -> Seq<char>;

/// A word as a shell argument.
pub open spec fn shell_word(word: Seq<char>) -> Seq<char> {
    if word.len() == 0 {
        "''"@
    } else if forall|i: int| 0 <= i < word.len() ==> is_shell_plain(#[trigger] word[i]) {
        word
    } else {
        shell_quoted(word)
    }
}

/// Calls `shlex::try_quote`, which fails exactly on a word with a NUL. An empty word becomes a pair
/// of single quotes and a word of plain characters stays as it is; the quoted form of any other
/// word is named. Quoting adds nothing but quote marks and backslashes.
#[verifier::external_body]
fn quote(word: &str) -> (result: Option<String>)
    ensures
        result is None <==> word@.contains('\0'),
        result matches Some(quoted) ==> quoted@ == (if word@.len() == 0 {
            "''"@
        } else if forall|i: int| 0 <= i < word@.len() ==> is_shell_plain(#[trigger] word@[i]) {
            word@
        } else {
            shell_quoted(word@)
        }),
        result matches Some(quoted) ==> forall|i: int|
            0 <= i < quoted@.len() ==> word@.contains(quoted@[i]) || is_quote_mark(
                #[trigger] quoted@[i],
            ),
{
    match shlex::try_quote(word) {
        Ok(quoted) => Some(quoted.into_owned()),
        Err(_) => None,
    }
}

/// The arguments of a command line, sanitized and quoted, separated by spaces.
pub open spec fn command_line(args: Seq<Seq<char>>) -> Seq<char> {
    join(Seq::new(args.len(), |i: int| shell_word(sanitized(args[i]))), " "@)
}

/// Quotes one argument after sanitizing it.
fn quoted_arg(arg: &str) -> (result: String)
    ensures
        result@ == shell_word(sanitized(arg@)),
        is_clean(result@),
{
    let clean = sanitize(arg);
    match quote(clean.as_str()) {
        Some(quoted) => {
            proof {
                assert forall|i: int| 0 <= i < quoted@.len() implies !is_control(
                    #[trigger] quoted@[i],
                ) by {
                    if clean@.contains(quoted@[i]) {
                        let j = choose|j: int| 0 <= j < clean@.len() && clean@[j] == quoted@[i];
                        assert(!is_control(clean@[j]));
                    }
                }
            }
            quoted
        },
        None => {
            proof {
                let j = choose|j: int| 0 <= j < clean@.len() && clean@[j] == '\0';
                assert(!is_control(clean@[j]));
            }
            clean
        },
    }
}

proof fn lemma_join_is_clean(parts: Seq<Seq<char>>, separator: Seq<char>)
    requires
        forall|i: int| 0 <= i < parts.len() ==> is_clean(#[trigger] parts[i]),
        is_clean(separator),
    ensures
        is_clean(join(parts, separator)),
    decreases parts.len(),
{
    if parts.len() > 1 {
        assert forall|i: int| 0 <= i < parts.drop_last().len() implies is_clean(
            #[trigger] parts.drop_last()[i],
        ) by {
            assert(parts.drop_last()[i] == parts[i]);
        }
        lemma_join_is_clean(parts.drop_last(), separator);
        assert(is_clean(parts[parts.len() - 1]));
    }
}

/// Joins the quoted arguments of a command.
fn quoted_args(args: &Vec<String>) -> (result: String)
    ensures
        result@ == command_line(texts(args@)),
        is_clean(result@),
{
    let mut words: Vec<String> = Vec::new();
    for i in 0..args.len()
        invariant
            words@.len() == i,
            forall|j: int|
                0 <= j < i ==> #[trigger] words@[j]@ == shell_word(sanitized(args@[j]@)),
            forall|j: int| 0 <= j < i ==> is_clean(#[trigger] words@[j]@),
    {
        words.push(quoted_arg(args[i].as_str()));
    }
    proof {
        let quoted = Seq::new(
            texts(args@).len(),
            |i: int| shell_word(sanitized(texts(args@)[i])),
        );
        assert(texts(words@) =~= quoted);
        reveal_strlit(" ");
        assert forall|i: int| 0 <= i < texts(words@).len() implies is_clean(
            #[trigger] texts(words@)[i],
        ) by {
            assert(is_clean(words@[i]@));
        }
        lemma_join_is_clean(texts(words@), " "@);
    }
    join_texts(&words, " ")
}

// ---------------------------------------------------------------------------
// Details
// ---------------------------------------------------------------------------

/// One labelled line of a detail.
#[derive(Debug, PartialEq, Eq)]
pub struct DetailField {
    pub label: String,
    pub value: String,
}

/// The contents of a [`DetailField`].
pub struct FieldModel {
    pub label: Seq<char>,
    pub value: Seq<char>,
}

impl View for DetailField {
    type V = FieldModel;

    open spec fn view(&self) -> FieldModel {
        FieldModel { label: self.label@, value: self.value@ }
    }
}

impl Clone for DetailField {
    fn clone(&self) -> (result: Self)
        ensures
            result@ == self@,
    {
        DetailField { label: self.label.clone(), value: self.value.clone() }
    }
}

/// The contents of a list of fields.
pub open spec fn field_models(fields: Seq<DetailField>) -> Seq<FieldModel> {
    Seq::new(fields.len(), |i: int| fields[i]@)
}

/// Copies a list of fields.
pub(crate) fn clone_fields(fields: &Vec<DetailField>) -> (result: Vec<DetailField>)
    ensures
        field_models(result@) == field_models(fields@),
{
    let mut result: Vec<DetailField> = Vec::new();
    for i in 0..fields.len()
        invariant
            result@.len() == i,
            forall|j: int| 0 <= j < i ==> #[trigger] result@[j]@ == fields@[j]@,
    {
        result.push(fields[i].clone());
    }
    assert(field_models(result@) =~= field_models(fields@));
    result
}

/// Everything that is shown of a request before it is decided.
#[derive(Debug, PartialEq, Eq)]
pub struct ApprovalDetailContent {
    pub capability_type: String,
    pub summary: String,
    pub source_kind: SourceKind,
    pub fields: Vec<DetailField>,
    pub debug_fields: Vec<DetailField>,
}

/// The contents of an [`ApprovalDetailContent`].
pub struct DetailModel {
    pub capability_type: Seq<char>,
    pub summary: Seq<char>,
    pub source_kind: SourceKind,
    pub fields: Seq<FieldModel>,
    pub debug_fields: Seq<FieldModel>,
}

impl View for ApprovalDetailContent {
    type V = DetailModel;

    open spec fn view(&self) -> DetailModel {
        DetailModel {
            capability_type: self.capability_type@,
            summary: self.summary@,
            source_kind: self.source_kind,
            fields: field_models(self.fields@),
            debug_fields: field_models(self.debug_fields@),
        }
    }
}

impl Clone for ApprovalDetailContent {
    fn clone(&self) -> (result: Self)
        ensures
            result@ == self@,
    {
        ApprovalDetailContent {
            capability_type: self.capability_type.clone(),
            summary: self.summary.clone(),
            source_kind: self.source_kind,
            fields: clone_fields(&self.fields),
            debug_fields: clone_fields(&self.debug_fields),
        }
    }
}

/// A field whose value is the sanitized text.
pub open spec fn field_of(label: Seq<char>, value: Seq<char>) -> FieldModel {
    FieldModel { label, value: sanitized(value) }
}

/// The field of a reason, if there is one and it is not empty.
pub open spec fn reason_fields(reason: Option<Seq<char>>) -> Seq<FieldModel> {
    match reason {
        Some(text) => if text.len() == 0 {
            Seq::empty()
        } else {
            seq![field_of("Reason"@, text)]
        },
        None => Seq::empty(),
    }
}

/// The fields shown for a request, in order.
pub open spec fn fields_of(request: RequestModel) -> Seq<FieldModel> {
    match request {
        RequestModel::Command { command, args, caller, intercept_rule, reason, .. } => seq![
            field_of(
                "Command"@,
                if args.len() == 0 {
                    command
                } else {
                    command_line(args)
                },
            ),
            field_of("Requested by"@, "Tool Sandbox"@),
            field_of("Caller"@, caller),
            field_of("Rule"@, intercept_rule),
        ] + reason_fields(reason),
        RequestModel::Endpoint { route_id, upstream, method, path, rule_label, reason, .. } => seq![
            field_of("Endpoint"@, method + " "@ + path),
            field_of("Route"@, route_id),
            field_of("Upstream"@, upstream),
            field_of("Rule"@, rule_label),
        ] + reason_fields(reason),
        RequestModel::Capability { path, access, reason, .. } => seq![
            field_of("Path"@, path),
            field_of("Access"@, access.name()),
        ] + reason_fields(reason),
        RequestModel::Network { host, port, protocol, resolved_ips, reason, .. } => seq![
            field_of("Destination"@, host + ":"@ + decimal(port as nat)),
            field_of("Protocol"@, protocol.name()),
        ] + (if resolved_ips.len() == 0 {
            Seq::empty()
        } else {
            seq![field_of("Resolved IPs"@, join(resolved_ips, ", "@))]
        }) + reason_fields(reason),
    }
}

/// The fields shown for a request only when debugging, in order.
pub open spec fn debug_fields_of(request: RequestModel) -> Seq<FieldModel> {
    seq![
        field_of("Request ID"@, request.request_id()),
        field_of("Session ID"@, request.session_id()),
        field_of("Child PID"@, decimal(request.child_pid() as nat)),
    ]
}

/// One line that tells what a request asks for.
pub open spec fn summary_of(request: RequestModel) -> Seq<char> {
    match request {
        RequestModel::Command { command, args, .. } => if args.len() == 0 {
            sanitized(command)
        } else {
            command_line(args)
        },
        RequestModel::Endpoint { method, path, .. } => sanitized(method + " "@ + path),
        RequestModel::Capability { path, access, .. } => sanitized(access.name() + " "@ + path),
        RequestModel::Network { host, port, protocol, .. } => sanitized(
            protocol.name() + " "@ + host + ":"@ + decimal(port as nat),
        ),
    }
}

/// The complete detail of a request.
pub open spec fn detail_of(request: RequestModel) -> DetailModel {
    DetailModel {
        capability_type: request.capability_type(),
        summary: summary_of(request),
        source_kind: request.source_kind(),
        fields: fields_of(request),
        debug_fields: debug_fields_of(request),
    }
}

/// A detail whose texts hold no control characters.
pub open spec fn is_clean_detail(detail: DetailModel) -> bool {
    &&& is_clean(detail.summary)
    &&& forall|i: int|
        0 <= i < detail.fields.len() ==> is_clean(#[trigger] detail.fields[i].value)
    &&& forall|i: int|
        0 <= i < detail.debug_fields.len() ==> is_clean(#[trigger] detail.debug_fields[i].value)
}

/// Makes a field with a sanitized value.
fn field(label: &str, value: &str) -> (result: DetailField)
    ensures
        result@ == field_of(label@, value@),
        is_clean(result@.value),
{
    DetailField { label: label.to_owned(), value: sanitize(value) }
}

/// Adds a field for a reason that is there and not empty.
fn push_reason(fields: &mut Vec<DetailField>, reason: &Option<String>)
    ensures
        field_models(final(fields)@) == field_models(old(fields)@) + reason_fields(
            crate::text::text_option(*reason),
        ),
        (forall|i: int|
            0 <= i < old(fields)@.len() ==> is_clean(#[trigger] old(fields)@[i]@.value)) ==> (forall|
            i: int,
        |
            0 <= i < final(fields)@.len() ==> is_clean(#[trigger] final(fields)@[i]@.value)),
{
    if let Some(text) = reason {
        if !text.as_str().is_empty() {
            fields.push(field("Reason", text.as_str()));
        }
    }
    assert(field_models(fields@) =~= field_models(old(fields)@) + reason_fields(
        crate::text::text_option(*reason),
    ));
}

/// `left`, a separator and `right` in one text.
fn pair(left: &str, separator: &str, right: &str) -> (result: String)
    ensures
        result@ == left@ + separator@ + right@,
{
    let mut result = left.to_owned();
    result.append(separator);
    result.append(right);
    result
}

/// The fields shown for a request.
fn request_fields(request: &KnownApprovalRequest) -> (fields: Vec<DetailField>)
    ensures
        field_models(fields@) == fields_of(request@),
        forall|i: int| 0 <= i < fields@.len() ==> is_clean(#[trigger] fields@[i]@.value),
{
    let mut fields: Vec<DetailField> = Vec::new();
    match request {
        KnownApprovalRequest::Command { command, args, caller, intercept_rule, reason, .. } => {
            if args.is_empty() {
                fields.push(field("Command", command.as_str()));
            } else {
                fields.push(field("Command", quoted_args(args).as_str()));
            }
            fields.push(field("Requested by", "Tool Sandbox"));
            fields.push(field("Caller", caller.as_str()));
            fields.push(field("Rule", intercept_rule.as_str()));
            push_reason(&mut fields, reason);
        },
        KnownApprovalRequest::Endpoint {
            route_id,
            upstream,
            method,
            path,
            rule_label,
            reason,
            ..
        } => {
            fields.push(field("Endpoint", pair(method.as_str(), " ", path.as_str()).as_str()));
            fields.push(field("Route", route_id.as_str()));
            fields.push(field("Upstream", upstream.as_str()));
            fields.push(field("Rule", rule_label.as_str()));
            push_reason(&mut fields, reason);
        },
        KnownApprovalRequest::Capability { path, access, reason, .. } => {
            fields.push(field("Path", path.as_str()));
            fields.push(field("Access", access.as_str()));
            push_reason(&mut fields, reason);
        },
        KnownApprovalRequest::Network { host, port, protocol, resolved_ips, reason, .. } => {
            let number = decimal_text(*port as u64);
            fields.push(field("Destination", pair(host.as_str(), ":", number.as_str()).as_str()));
            fields.push(field("Protocol", protocol.as_str()));
            if !resolved_ips.is_empty() {
                fields.push(field("Resolved IPs", join_texts(resolved_ips, ", ").as_str()));
            }
            push_reason(&mut fields, reason);
        },
    }
    assert(field_models(fields@) =~= fields_of(request@));
    fields
}

/// Builds everything that is shown of a request before it is decided.
pub fn build_detail(request: &KnownApprovalRequest) -> (result: ApprovalDetailContent)
    ensures
        result@ == detail_of(request@),
        is_clean_detail(result@),
{
    let fields = request_fields(request);
    let mut debug_fields: Vec<DetailField> = Vec::new();
    debug_fields.push(field("Request ID", request.request_id()));
    debug_fields.push(field("Session ID", request.session_id()));
    debug_fields.push(field("Child PID", decimal_text(request.child_pid() as u64).as_str()));
    assert(field_models(debug_fields@) =~= debug_fields_of(request@));
    let result = ApprovalDetailContent {
        capability_type: request.capability_type().to_owned(),
        summary: summary(request),
        source_kind: request.source_kind(),
        fields,
        debug_fields,
    };
    proof {
        assert forall|i: int| 0 <= i < result@.fields.len() implies is_clean(
            #[trigger] result@.fields[i].value,
        ) by {
            assert(is_clean(fields@[i]@.value));
        }
        assert forall|i: int| 0 <= i < result@.debug_fields.len() implies is_clean(
            #[trigger] result@.debug_fields[i].value,
        ) by {
            assert(result@.debug_fields[i] == debug_fields@[i]@);
        }
    }
    result
}

/// One line that tells what a request asks for.
pub fn summary(request: &KnownApprovalRequest) -> (result: String)
    ensures
        result@ == summary_of(request@),
        is_clean(result@),
{
    match request {
        KnownApprovalRequest::Command { command, args, .. } => {
            if args.is_empty() {
                sanitize(command.as_str())
            } else {
                quoted_args(args)
            }
        },
        KnownApprovalRequest::Endpoint { method, path, .. } => {
            sanitize(pair(method.as_str(), " ", path.as_str()).as_str())
        },
        KnownApprovalRequest::Capability { path, access, .. } => {
            sanitize(pair(access.as_str(), " ", path.as_str()).as_str())
        },
        KnownApprovalRequest::Network { host, port, protocol, .. } => {
            let number = decimal_text(*port as u64);
            let mut line = pair(protocol.as_str(), " ", host.as_str());
            line.append(":");
            line.append(number.as_str());
            sanitize(line.as_str())
        },
    }
}

// ---------------------------------------------------------------------------
// Serialized size
// ---------------------------------------------------------------------------

/// A character within a JSON string.
pub open spec fn json_char(c: char) -> Seq<char> {
    if c == '"' {
        "\\\""@
    } else if c == '\\' {
        "\\\\"@
    } else if c == '\u{8}' {
        "\\b"@
    } else if c == '\t' {
        "\\t"@
    } else if c == '\n' {
        "\\n"@
    } else if c == '\u{c}' {
        "\\f"@
    } else if c == '\r' {
        "\\r"@
    } else if (c as u32) < 0x20 {
        "\\u00"@ + hex_byte(c as u8)
    } else {
        seq![c]
    }
}

/// The characters of a text within a JSON string.
pub open spec fn json_chars(text: Seq<char>) -> Seq<char>
    decreases text.len(),
{
    if text.len() == 0 {
        Seq::empty()
    } else {
        json_chars(text.drop_last()) + json_char(text.last())
    }
}

/// A text as a JSON string.
pub open spec fn json_string(text: Seq<char>) -> Seq<char> {
    "\""@ + json_chars(text) + "\""@
}

/// Calls `serde_json::to_string` on a string. It writes the string between double quotes, with a
/// backslash before quotes and backslashes, the short escapes for backspace, tab, line feed, form
/// feed and carriage return, and `\u00xx` for the other characters below the space. Writing a
/// string to memory does not fail.
#[verifier::external_body]
pub(crate) fn json_text(value: &str) -> (result: String)
    ensures
        result@ == json_string(value@),
{
    serde_json::to_string(value).expect("a string is always valid JSON")
}

/// A field as a JSON object.
pub open spec fn field_json(field: FieldModel) -> Seq<char> {
    "{\"label\":"@ + json_string(field.label) + ",\"value\":"@ + json_string(field.value) + "}"@
}

/// Fields as a JSON array.
pub open spec fn fields_json(fields: Seq<FieldModel>) -> Seq<char> {
    "["@ + join(Seq::new(fields.len(), |i: int| field_json(fields[i])), ","@) + "]"@
}

/// A detail as a compact JSON object.
pub open spec fn detail_json(detail: DetailModel) -> Seq<char> {
    "{\"capability_type\":"@ + json_string(detail.capability_type) + ",\"summary\":"@ + json_string(
        detail.summary,
    ) + ",\"source_kind\":"@ + json_string(detail.source_kind.name()) + ",\"fields\":"@
        + fields_json(detail.fields) + ",\"debug_fields\":"@ + fields_json(detail.debug_fields)
        + "}"@
}

/// The number of bytes of a detail as compact JSON.
pub open spec fn detail_json_len(detail: DetailModel) -> nat {
    utf8_len(detail_json(detail))
}

/// Writes fields as a JSON array.
fn fields_text(fields: &Vec<DetailField>) -> (result: String)
    ensures
        result@ == fields_json(field_models(fields@)),
{
    let mut items: Vec<String> = Vec::new();
    for i in 0..fields.len()
        invariant
            items@.len() == i,
            forall|j: int| 0 <= j < i ==> #[trigger] items@[j]@ == field_json(fields@[j]@),
    {
        let mut item = String::new();
        item.append("{\"label\":");
        item.append(json_text(fields[i].label.as_str()).as_str());
        item.append(",\"value\":");
        item.append(json_text(fields[i].value.as_str()).as_str());
        item.append("}");
        assert(item@ =~= field_json(fields@[i as int]@));
        items.push(item);
    }
    let mut result = String::new();
    result.append("[");
    result.append(join_texts(&items, ",").as_str());
    result.append("]");
    proof {
        let models = field_models(fields@);
        assert(texts(items@) =~= Seq::new(models.len(), |i: int| field_json(models[i])));
        assert(result@ =~= fields_json(models));
    }
    result
}

impl ApprovalDetailContent {
    /// The number of bytes of the detail as compact JSON.
    pub fn serialized_len(&self) -> (result: usize)
        ensures
            result == detail_json_len(self@),
    {
        let mut result = String::new();
        result.append("{\"capability_type\":");
        result.append(json_text(self.capability_type.as_str()).as_str());
        result.append(",\"summary\":");
        result.append(json_text(self.summary.as_str()).as_str());
        result.append(",\"source_kind\":");
        result.append(json_text(self.source_kind.as_str()).as_str());
        result.append(",\"fields\":");
        result.append(fields_text(&self.fields).as_str());
        result.append(",\"debug_fields\":");
        result.append(fields_text(&self.debug_fields).as_str());
        result.append("}");
        assert(result@ =~= detail_json(self@));
        byte_len(result.as_str())
    }
}

// ---------------------------------------------------------------------------
// Laws
// ---------------------------------------------------------------------------

/// Text without an escape character is made visible character by character: printable characters
/// stay, line feed, carriage return and tab get their short escapes, DEL its code point, and every
/// other control character its byte in two hexadecimal digits.
pub proof fn control_characters_become_visible(a: Seq<char>, c: char)
    requires
        !a.contains('\u{1b}'),
        c != '\u{1b}',
    ensures
        sanitized(a.push(c)) == sanitized(a) + sanitized(seq![c]),
        sanitized(Seq::empty()) == Seq::<char>::empty(),
        !is_control(c) ==> sanitized(seq![c]) == seq![c],
        c == '\n' ==> sanitized(seq![c]) == seq!['\\', 'n'],
        c == '\r' ==> sanitized(seq![c]) == seq!['\\', 'r'],
        c == '\t' ==> sanitized(seq![c]) == seq!['\\', 't'],
        c == '\u{7f}' ==> sanitized(seq![c]) == seq!['\\', 'u', '{', '7', 'f', '}'],
        (c < ' ' || '\u{80}' <= c <= '\u{9f}') && c != '\n' && c != '\r' && c != '\t' ==> sanitized(
            seq![c],
        ) == seq!['\\', 'x'] + hex_byte(c as u8),
{
    reveal_strlit("\\u{");
    reveal_strlit("}");
    reveal_strlit("\\n");
    reveal_strlit("\\r");
    reveal_strlit("\\t");
    reveal_strlit("\\x");
    let whole = a.push(c);
    let one = seq![c];
    assert forall|i: int| 0 <= i < whole.len() implies whole[i] != '\u{1b}' by {
        if i < a.len() {
            assert(a.contains(a[i]));
        }
    }
    assert(!one.contains('\u{1b}'));
    let events = whole.map_values(|c: char| plain_event(c));
    let single = one.map_values(|c: char| plain_event(c));
    assert(events.drop_last() =~= a.map_values(|c: char| plain_event(c)));
    assert(events.last() == plain_event(c));
    assert(single.drop_last() =~= Seq::<TerminalEvent>::empty());
    assert(single.last() == plain_event(c));
    reveal_with_fuel(shown_events, 2);
    assert(shown_events(single) =~= shown_event(plain_event(c)));
    let nothing = Seq::<char>::empty();
    assert(!nothing.contains('\u{1b}'));
    assert(nothing.map_values(|c: char| plain_event(c)) =~= Seq::<TerminalEvent>::empty());
    assert("\\n"@ =~= seq!['\\', 'n']);
    assert("\\r"@ =~= seq!['\\', 'r']);
    assert("\\t"@ =~= seq!['\\', 't']);
    assert("\\x"@ =~= seq!['\\', 'x']);
    if c == '\u{7f}' {
        reveal_with_fuel(hex, 2);
        assert(hex(0x7f) =~= seq!['7', 'f']);
        assert("\\u{"@ + hex(0x7f) + "}"@ =~= seq!['\\', 'u', '{', '7', 'f', '}']);
    }
}

/// What a terminal is told is written event by event, in order: a printed character as itself, and
/// a control byte by its escape.
pub proof fn events_are_written_one_by_one(events: Seq<TerminalEvent>, event: TerminalEvent)
    ensures
        shown_events(Seq::empty()) == Seq::<char>::empty(),
        shown_events(events.push(event)) == shown_events(events) + shown_event(event),
        event matches TerminalEvent::Print(c) ==> (!is_control(c) ==> shown_event(event) == seq![
            c,
        ]),
        event matches TerminalEvent::Execute(byte) ==> (byte != 9 && byte != 10 && byte != 13
            ==> shown_event(event) == "\\x"@ + hex_byte(byte)),
{
    assert(events.push(event).drop_last() =~= events);
}

/// The columns of a text add up; printable ASCII and the ellipsis take one each, and control
/// characters none.
pub proof fn columns_add_up(text: Seq<char>, c: char)
    ensures
        text_columns(Seq::empty()) == 0,
        text_columns(text.push(c)) == text_columns(text) + columns(c),
        ' ' <= c <= '~' ==> columns(c) == 1,
        c == '…' ==> columns(c) == 1,
        is_control(c) ==> columns(c) == 0,
{
    assert(text.push(c).drop_last() =~= text);
}

/// Truncation keeps as much of a text as it can: one more character, and the ellipsis would no
/// longer fit. Nothing is left where there is no room at all.
pub proof fn truncation_keeps_as_much_as_fits(text: Seq<char>, width: nat)
    requires
        text_columns(text) > width,
    ensures
        width == 0 ==> truncated(text, width).len() == 0,
        width > 0 ==> truncated(text, width).len() <= text.len() + 1 && text_columns(
            text.take(truncated(text, width).len() as int),
        ) > width - 1,
        width > 0 ==> truncated(text, width).last() == '…',
{
    if width > 0 {
        lemma_fitting_is_longest(text, (width - 1) as nat);
        lemma_fitting_is_prefix(text, (width - 1) as nat);
    }
}

proof fn lemma_fitting_is_longest(text: Seq<char>, width: nat)
    requires
        text_columns(text) > width,
    ensures
        fitting(text, width).len() < text.len(),
        text_columns(text.take(1int + fitting(text, width).len())) > width,
    decreases text.len(),
{
    let front = text.drop_last();
    if text_columns(front) <= width {
        assert(fitting(front, width) == front);
        assert(text.take(1int + front.len()) =~= text);
    } else {
        lemma_fitting_is_longest(front, width);
        let n = fitting(front, width).len() + 1;
        assert(front.take(n as int) =~= text.take(n as int));
    }
}

/// A command is shown word by word with blanks between; words of letters, digits and a few marks
/// stay as they are, and an empty word is shown as a pair of quotes.
pub proof fn commands_are_shown_word_by_word(args: Seq<Seq<char>>, word: Seq<char>)
    ensures
        command_line(Seq::empty()) == Seq::<char>::empty(),
        command_line(seq![word]) == shell_word(sanitized(word)),
        args.len() > 0 ==> command_line(args.push(word)) == command_line(args) + seq![' ']
            + shell_word(sanitized(word)),
        shell_word(Seq::empty()) == seq!['\'', '\''],
        word.len() > 0 && (forall|i: int|
            0 <= i < word.len() ==> {
                let c = #[trigger] word[i];
                'a' <= c <= 'z' || 'A' <= c <= 'Z' || '0' <= c <= '9' || c == '+' || c == '-' || c
                    == '.' || c == '/' || c == ':' || c == '@' || c == ']' || c == '_'
            }) ==> shell_word(word) == word,
        word.contains(' ') || word.contains('\'') || word.contains('"') || word.contains('$')
            || word.contains(';') || word.contains('|') || word.contains('&') || word.contains('\\')
            || word.contains('`') || word.contains('*') || word.contains('(') || word.contains('<')
            ==> shell_word(word) == shell_quoted(word),
{
    reveal_strlit(" ");
    reveal_strlit("''");
    let shown = Seq::new(args.len(), |i: int| shell_word(sanitized(args[i])));
    let longer = Seq::new(
        args.push(word).len(),
        |i: int| shell_word(sanitized(args.push(word)[i])),
    );
    let single = Seq::new(seq![word].len(), |i: int| shell_word(sanitized(seq![word][i])));
    assert(longer =~= shown.push(shell_word(sanitized(word))));
    assert(single =~= seq![shell_word(sanitized(word))]);
    assert(" "@ =~= seq![' ']);
    assert("''"@ =~= seq!['\'', '\'']);
    crate::text::joining_goes_text_by_text(shown, shell_word(sanitized(word)), " "@);
    assert(Seq::new(0, |i: int| shell_word(sanitized(Seq::<Seq<char>>::empty()[i]))) =~= Seq::<
        Seq<char>,
    >::empty());
    assert forall|c: char| word.contains(c) && !is_shell_plain(c) implies shell_word(word)
        == shell_quoted(word) by {
        let i = choose|i: int| 0 <= i < word.len() && word[i] == c;
        assert(!is_shell_plain(word[i]));
    }
}

/// The display of a command: the command line or the command itself, the caller and the rule, and
/// the reason if there is one.
pub proof fn commands_are_displayed_field_by_field(request: RequestModel)
    ensures
        request matches RequestModel::Command {
            command,
            args,
            caller,
            intercept_rule,
            reason,
            ..
        } ==> {
            let fields = fields_of(request);
            &&& fields.len() >= 4
            &&& fields[0].label == "Command"@
            &&& fields[0].value == sanitized(
                if args.len() == 0 {
                    command
                } else {
                    command_line(args)
                },
            )
            &&& fields[1].label == "Requested by"@ && fields[1].value == sanitized("Tool Sandbox"@)
            &&& fields[2].label == "Caller"@ && fields[2].value == sanitized(caller)
            &&& fields[3].label == "Rule"@ && fields[3].value == sanitized(intercept_rule)
            &&& ends_in_reason(fields, 4, reason)
            &&& args.len() == 0 ==> summary_of(request) == sanitized(command)
            &&& args.len() > 0 ==> summary_of(request) == command_line(args)
        },
{
}

/// The display of an endpoint: the method and path, the route, the upstream and the rule, and the
/// reason if there is one.
pub proof fn endpoints_are_displayed_field_by_field(request: RequestModel)
    ensures
        request matches RequestModel::Endpoint {
            route_id,
            upstream,
            method,
            path,
            rule_label,
            reason,
            ..
        } ==> {
            let fields = fields_of(request);
            &&& fields.len() >= 4
            &&& fields[0].label == "Endpoint"@ && fields[0].value == sanitized(method + " "@ + path)
            &&& fields[1].label == "Route"@ && fields[1].value == sanitized(route_id)
            &&& fields[2].label == "Upstream"@ && fields[2].value == sanitized(upstream)
            &&& fields[3].label == "Rule"@ && fields[3].value == sanitized(rule_label)
            &&& ends_in_reason(fields, 4, reason)
            &&& summary_of(request) == sanitized(method + " "@ + path)
        },
{
}

/// The display of a capability: the path and the access, and the reason if there is one.
pub proof fn capabilities_are_displayed_field_by_field(request: RequestModel)
    ensures
        request matches RequestModel::Capability { path, access, reason, .. } ==> {
            let fields = fields_of(request);
            &&& fields.len() >= 2
            &&& fields[0].label == "Path"@ && fields[0].value == sanitized(path)
            &&& fields[1].label == "Access"@ && fields[1].value == sanitized(access.name())
            &&& ends_in_reason(fields, 2, reason)
            &&& summary_of(request) == sanitized(access.name() + " "@ + path)
        },
{
}

/// The display of a network request: the host and port, the transport, the addresses if there are
/// any, and the reason if there is one.
pub proof fn destinations_are_displayed_field_by_field(request: RequestModel)
    ensures
        request matches RequestModel::Network {
            host,
            port,
            protocol,
            resolved_ips,
            reason,
            ..
        } ==> {
            let fields = fields_of(request);
            let n = if resolved_ips.len() == 0 {
                2int
            } else {
                3int
            };
            &&& fields.len() >= n
            &&& fields[0].label == "Destination"@ && fields[0].value == sanitized(
                host + ":"@ + decimal(port as nat),
            )
            &&& fields[1].label == "Protocol"@ && fields[1].value == sanitized(protocol.name())
            &&& resolved_ips.len() > 0 ==> fields[2].label == "Resolved IPs"@ && fields[2].value
                == sanitized(join(resolved_ips, ", "@))
            &&& ends_in_reason(fields, n, reason)
            &&& summary_of(request) == sanitized(
                protocol.name() + " "@ + host + ":"@ + decimal(port as nat),
            )
        },
{
}

/// Whether a list of fields has nothing from a position on but the reason, if one is given that is
/// not empty.
pub open spec fn ends_in_reason(
    fields: Seq<FieldModel>,
    n: int,
    reason: Option<Seq<char>>,
) -> bool {
    if reason is Some && reason->0.len() > 0 {
        fields.len() == n + 1 && fields[n].label == "Reason"@ && fields[n].value == sanitized(
            reason->0,
        )
    } else {
        fields.len() == n
    }
}

/// The identifiers and the process of a request are in its debug fields alone, each under its own
/// label, and the rest of the detail is the request's own.
pub proof fn identifiers_are_debug_data(request: RequestModel)
    ensures
        ({
            let detail = detail_of(request);
            &&& detail.debug_fields.len() == 3
            &&& detail.debug_fields[0].label == "Request ID"@ && detail.debug_fields[0].value
                == sanitized(request.request_id())
            &&& detail.debug_fields[1].label == "Session ID"@ && detail.debug_fields[1].value
                == sanitized(request.session_id())
            &&& detail.debug_fields[2].label == "Child PID"@ && detail.debug_fields[2].value
                == sanitized(decimal(request.child_pid() as nat))
            &&& detail.capability_type == request.capability_type()
            &&& detail.source_kind == request.source_kind()
            &&& detail.summary == summary_of(request)
            &&& detail.fields == fields_of(request)
        }),
{
}

/// A JSON string is written character by character between quotes; quotes, backslashes and control
/// characters are escaped, and everything else stays.
pub proof fn json_is_written_character_by_character(text: Seq<char>, c: char)
    ensures
        json_string(text) == seq!['"'] + json_chars(text) + seq!['"'],
        json_chars(Seq::empty()) == Seq::<char>::empty(),
        json_chars(text.push(c)) == json_chars(text) + json_char(c),
        c == '"' ==> json_char(c) == seq!['\\', '"'],
        c == '\\' ==> json_char(c) == seq!['\\', '\\'],
        c == '\n' ==> json_char(c) == seq!['\\', 'n'],
        c == '\r' ==> json_char(c) == seq!['\\', 'r'],
        c == '\t' ==> json_char(c) == seq!['\\', 't'],
        c == '\u{8}' ==> json_char(c) == seq!['\\', 'b'],
        c == '\u{c}' ==> json_char(c) == seq!['\\', 'f'],
        c < ' ' && c != '\n' && c != '\r' && c != '\t' && c != '\u{8}' && c != '\u{c}' ==> json_char(
            c,
        ) == seq!['\\', 'u', '0', '0'] + hex_byte(c as u8),
        c >= ' ' && c != '"' && c != '\\' ==> json_char(c) == seq![c],
{
    reveal_strlit("\"");
    reveal_strlit("\\\"");
    reveal_strlit("\\\\");
    reveal_strlit("\\b");
    reveal_strlit("\\t");
    reveal_strlit("\\n");
    reveal_strlit("\\f");
    reveal_strlit("\\r");
    reveal_strlit("\\u00");
    assert(text.push(c).drop_last() =~= text);
    assert("\""@ =~= seq!['"']);
    assert("\\\""@ =~= seq!['\\', '"']);
    assert("\\\\"@ =~= seq!['\\', '\\']);
    assert("\\b"@ =~= seq!['\\', 'b']);
    assert("\\t"@ =~= seq!['\\', 't']);
    assert("\\n"@ =~= seq!['\\', 'n']);
    assert("\\f"@ =~= seq!['\\', 'f']);
    assert("\\r"@ =~= seq!['\\', 'r']);
    assert("\\u00"@ =~= seq!['\\', 'u', '0', '0']);
}

/// No quote ends a JSON string early, and no control character is left in it as it is.
pub proof fn json_strings_end_at_their_last_quote(text: Seq<char>, i: int)
    requires
        0 <= i < json_chars(text).len(),
    ensures
        json_chars(text)[i] >= ' ',
        json_chars(text)[i] == '"' ==> i > 0 && json_chars(text)[i - 1] == '\\',
    decreases text.len(),
{
    let front = json_chars(text.drop_last());
    json_is_written_character_by_character(text.drop_last(), text.last());
    assert(text.drop_last().push(text.last()) =~= text);
    crate::text::hexadecimals_read_back(0, text.last() as u8);
    if i < front.len() {
        json_strings_end_at_their_last_quote(text.drop_last(), i);
    } else {
        let tail = json_char(text.last());
        let k = i - front.len();
        assert(json_chars(text)[i] == tail[k]);
        if text.last() < ' ' && tail.len() == 6 {
            if k >= 4 {
                assert(tail[k] == hex_byte(text.last() as u8)[k - 4]);
            }
        }
        if k > 0 {
            assert(json_chars(text)[i - 1] == tail[k - 1]);
        }
    }
}

/// The size of a detail is that of its JSON: an object of its five fields in order, with the lists
/// of fields as arrays of labels and values.
pub proof fn details_are_measured_as_json(detail: DetailModel, field: FieldModel)
    ensures
        detail_json_len(detail) == crate::text::utf8_len(detail_json(detail)),
        detail_json(detail) == "{\"capability_type\":"@ + json_string(detail.capability_type)
            + ",\"summary\":"@ + json_string(detail.summary) + ",\"source_kind\":"@ + json_string(
            detail.source_kind.name(),
        ) + ",\"fields\":"@ + fields_json(detail.fields) + ",\"debug_fields\":"@ + fields_json(
            detail.debug_fields,
        ) + "}"@,
        fields_json(seq![field]) == "["@ + ("{\"label\":"@ + json_string(field.label)
            + ",\"value\":"@ + json_string(field.value) + "}"@) + "]"@,
{
    let one = Seq::new(seq![field].len(), |i: int| field_json(seq![field][i]));
    assert(one =~= seq![field_json(field)]);
}

/// A field and a detail are seen as what they hold.
pub proof fn details_are_seen_field_by_field(field: DetailField, detail: ApprovalDetailContent)
    ensures
        field@.label == field.label@,
        field@.value == field.value@,
        detail@.capability_type == detail.capability_type@,
        detail@.summary == detail.summary@,
        detail@.source_kind == detail.source_kind,
        detail@.fields.len() == detail.fields@.len(),
        forall|i: int|
            0 <= i < detail.fields@.len() ==> #[trigger] detail@.fields[i] == detail.fields@[i]@,
        detail@.debug_fields.len() == detail.debug_fields@.len(),
        forall|i: int|
            0 <= i < detail.debug_fields@.len() ==> #[trigger] detail@.debug_fields[i]
                == detail.debug_fields@[i]@,
{
}

/// A short text without line breaks stays on its line as it is, and printable ASCII takes a column
/// for each character.
pub proof fn short_texts_stay_on_one_line(text: Seq<char>, width: usize)
    ensures
        crate::text::utf8_len(text) < width && !text.contains('\n') && !text.contains(' ')
            ==> wrapped(text, width) == seq![text],
        (forall|i: int| 0 <= i < text.len() ==> ' ' <= #[trigger] text[i] <= '~') ==> line_columns(
            text,
        ) == text.len(),
{
    if text.len() > 0 {
        assert(text.contains(text[text.len() - 1]));
    }
}

/// Whatever a request holds, its display holds no control character.
pub proof fn displays_hold_no_control_characters(
    request: RequestModel,
    i: int,
    text: Seq<char>,
    k: int,
)
    ensures
        0 <= i < fields_of(request).len() ==> is_clean(fields_of(request)[i].value),
        0 <= i < debug_fields_of(request).len() ==> is_clean(debug_fields_of(request)[i].value),
        is_clean(text) && 0 <= k < text.len() ==> text[k] >= ' ' && text[k] != '\u{7f}',
{
    assert forall|value: Seq<char>| is_clean(#[trigger] sanitized(value)) by {
        sanitized_is_clean(value);
    }
    if is_clean(text) && 0 <= k < text.len() {
        assert(!is_control(text[k]));
        crate::text::control_characters_lie_in_two_ranges(text[k]);
    }
}

} // verus!
