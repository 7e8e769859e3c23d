//! Bounded selection along the ancestors of a source path; no free-form input.
use vstd::prelude::*;
use vstd::string::StringExecFns;

use crate::display::{
    char_columns, columns, is_clean, lemma_hex_is_clean, sanitize, sanitized, wrap_text, wrapped,
};
use crate::keys::{KeyCode, KeyEvent, KeyEventKind};
use crate::policy::{
    ancestors_cover_the_path, ancestors_of, is_rule_path, literal_paths_match_by_component,
    normalizing_keeps_components, path_of, path_parts, DraftModel, PolicyError, PolicyErrorModel,
    RuleAction, RuleDraft, RuleScope,
};
use crate::protocol::RequestModel;
use crate::text::{
    chars, hex, is_control, lemma_hex_digits, lemma_hex_is_injective, same, texts,
};

verus! {

/// What came of a key.
#[derive(Debug, PartialEq, Eq)]
pub enum SelectorEvent {
    Continue,
    Changed,
    Cancelled,
    Submit(RuleDraft),
}

/// The contents of a [`SelectorEvent`].
pub enum SelectorEventModel {
    Continue,
    Changed,
    Cancelled,
    Submit(DraftModel),
}

impl View for SelectorEvent {
    type V = SelectorEventModel;

    open spec fn view(&self) -> SelectorEventModel {
        match *self {
            SelectorEvent::Continue => SelectorEventModel::Continue,
            SelectorEvent::Changed => SelectorEventModel::Changed,
            SelectorEvent::Cancelled => SelectorEventModel::Cancelled,
            SelectorEvent::Submit(draft) => SelectorEventModel::Submit(draft@),
        }
    }
}

/// A choice among a path and its ancestors.
#[derive(Debug)]
pub struct RuleSelector {
    draft: RuleDraft,
    paths: Vec<String>,
    selected: usize,
    source_scope: RuleScope,
    scroll: u16,
}

/// The contents of a [`RuleSelector`].
#[verifier::ext_equal]
pub struct SelectorModel {
    pub draft: DraftModel,
    pub paths: Seq<Seq<char>>,
    pub selected: int,
    pub source_scope: RuleScope,
    pub scroll: u16,
}

impl View for RuleSelector {
    type V = SelectorModel;

    closed spec fn view(&self) -> SelectorModel {
        SelectorModel {
            draft: self.draft@,
            paths: texts(self.paths@),
            selected: self.selected as int,
            source_scope: self.source_scope,
            scroll: self.scroll,
        }
    }
}

/// The scope of the chosen path: an ancestor is always taken with everything below it.
pub open spec fn scope_at(selected: int, source_scope: RuleScope) -> RuleScope {
    if selected == 0 {
        source_scope
    } else {
        RuleScope::Directory
    }
}

impl SelectorModel {
    /// The choices are the ancestors of a source path, and the draft is the choice made.
    pub open spec fn well_formed(self) -> bool {
        &&& 0 <= self.selected < self.paths.len()
        &&& is_rule_path(self.paths[0])
        &&& self.paths == ancestors_of(self.paths[0])
        &&& self.draft.path == self.paths[self.selected]
        &&& self.draft.scope == scope_at(self.selected, self.source_scope)
    }

    /// The selector with another choice and another scope at the source.
    pub open spec fn chosen(self, selected: int, source_scope: RuleScope) -> SelectorModel {
        let scope = scope_at(selected, source_scope);
        if self.draft.path == self.paths[selected] && self.draft.scope == scope {
            SelectorModel { selected, source_scope, ..self }
        } else {
            SelectorModel {
                draft: DraftModel { path: self.paths[selected], scope, ..self.draft },
                selected,
                source_scope,
                scroll: 0,
                ..self
            }
        }
    }

    /// Whether another choice or scope changes the draft.
    pub open spec fn choice_event(self, selected: int, source_scope: RuleScope) -> SelectorEventModel {
        if self.draft.path == self.paths[selected] && self.draft.scope == scope_at(
            selected,
            source_scope,
        ) {
            SelectorEventModel::Continue
        } else {
            SelectorEventModel::Changed
        }
    }

    /// What a key does.
    pub open spec fn after_key(self, key: KeyEvent) -> (SelectorModel, SelectorEventModel) {
        let parent = if self.selected + 1 < self.paths.len() {
            self.selected + 1
        } else {
            self.paths.len() - 1
        };
        let child = if self.selected > 0 {
            self.selected - 1
        } else {
            0
        };
        let other_scope = match self.source_scope {
            RuleScope::Path => RuleScope::Directory,
            RuleScope::Directory => RuleScope::Path,
        };
        let pressed = key.kind == KeyEventKind::Press;
        if key.kind == KeyEventKind::Release || key.modifiers.control || key.modifiers.alt
            || key.modifiers.logo {
            (self, SelectorEventModel::Continue)
        } else if key.code == KeyCode::Esc {
            (self, SelectorEventModel::Cancelled)
        } else if key.code == KeyCode::Left || key.code == KeyCode::Char('h') {
            (
                self.chosen(parent, self.source_scope),
                self.choice_event(parent, self.source_scope),
            )
        } else if key.code == KeyCode::Right || key.code == KeyCode::Char('l') {
            (self.chosen(child, self.source_scope), self.choice_event(child, self.source_scope))
        } else if key.code == KeyCode::Char(' ') && self.selected == 0 && pressed {
            (self.chosen(0, other_scope), self.choice_event(0, other_scope))
        } else if key.code == KeyCode::Char('a') && pressed {
            (
                self,
                SelectorEventModel::Submit(DraftModel { action: RuleAction::Allow, ..self.draft }),
            )
        } else if key.code == KeyCode::Char('d') && pressed {
            (
                self,
                SelectorEventModel::Submit(DraftModel { action: RuleAction::Deny, ..self.draft }),
            )
        } else if key.code == KeyCode::PageUp {
            (
                SelectorModel {
                    scroll: if self.scroll >= 5 {
                        (self.scroll - 5) as u16
                    } else {
                        0
                    },
                    ..self
                },
                SelectorEventModel::Continue,
            )
        } else if key.code == KeyCode::PageDown {
            (
                SelectorModel {
                    scroll: if self.scroll <= u16::MAX - 5 {
                        (self.scroll + 5) as u16
                    } else {
                        u16::MAX
                    },
                    ..self
                },
                SelectorEventModel::Continue,
            )
        } else {
            (self, SelectorEventModel::Continue)
        }
    }
}

proof fn lemma_ancestors_of_normal(path: Seq<char>)
    requires
        is_rule_path(path),
    ensures
        ancestors_of(path).len() > 0,
        is_rule_path(ancestors_of(path)[0]),
        ancestors_of(ancestors_of(path)[0]) == ancestors_of(path),
{
    let parts = path_parts(path);
    assert(parts.take(parts.len() as int) =~= parts);
    normalizing_keeps_components(path);
    assert(ancestors_of(path)[0] == path_of(parts));
}

impl RuleSelector {
    /// Takes the choices from a draft's path, the path itself first.
    pub fn new(draft: RuleDraft) -> (result: Result<Self, PolicyError>)
        ensures
            match result {
                Ok(selector) => {
                    &&& is_rule_path(draft.path@)
                    &&& selector@ == (SelectorModel {
                        draft: draft@.normalized(),
                        paths: ancestors_of(draft.path@),
                        selected: 0,
                        source_scope: draft.scope,
                        scroll: 0,
                    })
                    &&& selector@.well_formed()
                },
                Err(error) => !is_rule_path(draft.path@) && error@ == PolicyErrorModel::InvalidPath,
            },
    {
        let paths = match draft.ancestors() {
            Ok(paths) => paths,
            Err(error) => return Err(error),
        };
        proof {
            lemma_ancestors_of_normal(draft.path@);
            let parts = path_parts(draft.path@);
            assert(parts.take(parts.len() as int) =~= parts);
            assert(texts(paths@)[0] == paths@[0]@);
        }
        let source_scope = draft.scope;
        let mut draft = draft;
        draft.path = paths[0].clone();
        Ok(RuleSelector { draft, paths, selected: 0, source_scope, scroll: 0 })
    }

    /// The draft as chosen.
    pub fn draft(&self) -> (result: &RuleDraft)
        ensures
            result@ == self@.draft,
    {
        &self.draft
    }

    /// Makes a choice and tells whether the draft changed.
    fn choose_path(&mut self, selected: usize, source_scope: RuleScope) -> (result: SelectorEvent)
        requires
            old(self)@.well_formed(),
            selected < old(self)@.paths.len(),
        ensures
            final(self)@ == old(self)@.chosen(selected as int, source_scope),
            final(self)@.well_formed(),
            result@ == old(self)@.choice_event(selected as int, source_scope),
    {
        self.selected = selected;
        self.source_scope = source_scope;
        let scope = if selected == 0 {
            source_scope
        } else {
            RuleScope::Directory
        };
        assert(texts(self.paths@)[selected as int] == self.paths@[selected as int]@);
        if self.draft.path == self.paths[selected] && self.draft.scope == scope {
            assert(self@ =~= old(self)@.chosen(selected as int, source_scope));
            return SelectorEvent::Continue;
        }
        self.draft.path = self.paths[selected].clone();
        self.draft.scope = scope;
        self.scroll = 0;
        assert(self@ =~= old(self)@.chosen(selected as int, source_scope));
        SelectorEvent::Changed
    }

    /// The draft to submit with an action.
    fn submission(&self, action: RuleAction) -> (result: SelectorEvent)
        ensures
            result@ == SelectorEventModel::Submit(DraftModel { action, ..self@.draft }),
    {
        let mut draft = self.draft.clone();
        draft.action = action;
        SelectorEvent::Submit(draft)
    }

    /// Handles one key.
    ///
    /// Left and right move along the ancestors, space switches the scope at the source, `a` and `d`
    /// submit, escape cancels, and the page keys scroll. No other key does anything.
    pub fn handle_key(&mut self, key: KeyEvent) -> (result: SelectorEvent)
        requires
            old(self)@.well_formed(),
        ensures
            final(self)@ == old(self)@.after_key(key).0,
            result@ == old(self)@.after_key(key).1,
            final(self)@.well_formed(),
    {
        if key.kind == KeyEventKind::Release || key.modifiers.control || key.modifiers.alt
            || key.modifiers.logo {
            return SelectorEvent::Continue;
        }
        let pressed = key.kind == KeyEventKind::Press;
        let last: usize = self.paths.len() - 1;
        match key.code {
            KeyCode::Esc => SelectorEvent::Cancelled,
            KeyCode::Left | KeyCode::Char('h') => {
                let parent: usize = if self.selected < last {
                    self.selected + 1
                } else {
                    last
                };
                let scope = self.source_scope;
                self.choose_path(parent, scope)
            },
            KeyCode::Right | KeyCode::Char('l') => {
                let child: usize = self.selected.saturating_sub(1);
                let scope = self.source_scope;
                self.choose_path(child, scope)
            },
            KeyCode::Char(' ') => {
                if self.selected == 0 && pressed {
                    let scope = match self.source_scope {
                        RuleScope::Path => RuleScope::Directory,
                        RuleScope::Directory => RuleScope::Path,
                    };
                    self.choose_path(0, scope)
                } else {
                    SelectorEvent::Continue
                }
            },
            KeyCode::Char('a') => {
                if pressed {
                    self.submission(RuleAction::Allow)
                } else {
                    SelectorEvent::Continue
                }
            },
            KeyCode::Char('d') => {
                if pressed {
                    self.submission(RuleAction::Deny)
                } else {
                    SelectorEvent::Continue
                }
            },
            KeyCode::PageUp => {
                self.scroll = self.scroll.saturating_sub(5);
                assert(self@ =~= old(self)@.after_key(key).0);
                SelectorEvent::Continue
            },
            KeyCode::PageDown => {
                self.scroll = self.scroll.saturating_add(5);
                assert(self@ =~= old(self)@.after_key(key).0);
                SelectorEvent::Continue
            },
            _ => SelectorEvent::Continue,
        }
    }
}

// ---------------------------------------------------------------------------
// Display
// ---------------------------------------------------------------------------

/// Whether a character is shown as itself rather than by its escape code, where it could be either.
pub uninterp spec fn is_shown(c: char) -> bool;

/// The escape code of a character in a literal.
pub open spec fn escape_code(c: char) -> Seq<char> {
    if c == '\0' {
        seq!['\\', '0']
    } else if c == '\t' {
        seq!['\\', 't']
    } else if c == '\r' {
        seq!['\\', 'r']
    } else if c == '\n' {
        seq!['\\', 'n']
    } else if c == '\'' {
        seq!['\\', '\'']
    } else if c == '"' {
        seq!['\\', '"']
    } else if c == '\\' {
        seq!['\\', '\\']
    } else {
        seq!['\\', 'u', '{'] + hex(c as nat) + seq!['}']
    }
}

/// How a character is written so that it can be told from any other. Control characters and the
/// backslash are always written by their escape codes.
pub open spec fn escape_of(c: char) -> Seq<char> {
    if is_control(c) || c == '\\' || !is_shown(c) {
        escape_code(c)
    } else {
        seq![c]
    }
}

/// Calls `char::escape_debug` and collects what it yields: the literal escape code of the character,
/// as in the debug form of a string, or the character itself where it is printed. The escape codes
/// are those of literals: a backslash with `0`, `t`, `r`, `n`, a quote or a backslash, and otherwise
/// the number of the character in hexadecimal. A control character or a backslash is never printed
/// as it is. Which other characters are depends on the character alone and is named here.
#[verifier::external_body]
fn escape_char(c: char) -> (result: String)
    ensures
        result@ == (if is_control(c) || c == '\\' || !is_shown(c) {
            escape_code(c)
        } else {
            seq![c]
        }),
{
    c.escape_debug().to_string()
}

/// A path with each character in its visible form.
pub open spec fn visible_path(path: Seq<char>) -> Seq<char>
    decreases path.len(),
{
    if path.len() == 0 {
        Seq::empty()
    } else {
        visible_path(path.drop_last()) + escape_of(path.last())
    }
}

/// Writes a path visibly; the selection itself always uses the path as it is.
pub fn display_path(path: &str) -> (result: String)
    ensures
        result@ == visible_path(path@),
        is_clean(result@),
{
    proof {
        displayed_paths_are_clean(path@);
    }
    let all = chars(path);
    let mut result = String::new();
    for i in 0..all.len()
        invariant
            all@ == path@,
            result@ == visible_path(path@.take(i as int)),
    {
        result.append(escape_char(all[i]).as_str());
        assert(path@.take(i + 1).drop_last() =~= path@.take(i as int));
    }
    assert(path@.take(path@.len() as int) =~= path@);
    result
}

/// The columns of a character on a line of its own.
pub open spec fn cell_count(c: char) -> nat {
    if is_control(c) {
        1
    } else {
        columns(c)
    }
}

/// The columns of the characters of a row.
pub open spec fn row_cells(row: Seq<char>) -> nat
    decreases row.len(),
{
    if row.len() == 0 {
        0
    } else {
        row_cells(row.drop_last()) + cell_count(row.last())
    }
}

/// The rows of a text that is broken wherever the next character does not fit.
pub open spec fn rows_of(text: Seq<char>, width: nat) -> Seq<Seq<char>>
    decreases text.len(),
{
    if text.len() == 0 {
        seq![Seq::empty()]
    } else {
        let rows = rows_of(text.drop_last(), width);
        let last = rows.last();
        if row_cells(last) + cell_count(text.last()) > width && row_cells(last) > 0 {
            rows.push(seq![text.last()])
        } else {
            rows.drop_last().push(last.push(text.last()))
        }
    }
}

/// The rows one after another.
pub open spec fn joined_rows(rows: Seq<Seq<char>>) -> Seq<char>
    decreases rows.len(),
{
    if rows.len() == 0 {
        Seq::empty()
    } else {
        joined_rows(rows.drop_last()) + rows.last()
    }
}

/// Breaks a text into rows of a width, character by character.
pub fn path_lines_display(text: &str, width: usize) -> (result: Vec<String>)
    ensures
        texts(result@) == rows_of(text@, width as nat),
{
    let all = chars(text);
    let mut rows: Vec<String> = Vec::new();
    let mut row = String::new();
    let mut column: usize = 0;
    for i in 0..all.len()
        invariant
            all@ == text@,
            column == row_cells(row@),
            column <= width || column <= 3,
            texts(rows@).push(row@) == rows_of(text@.take(i as int), width as nat),
    {
        let c = all[i];
        let code: u32 = c as u32;
        let cells: usize = if code < 0x20 || (0x7f <= code && code <= 0x9f) {
            1
        } else {
            char_columns(c)
        };
        proof {
            assert(text@.take(i + 1).drop_last() =~= text@.take(i as int));
            assert(texts(rows@).push(row@).drop_last() =~= texts(rows@));
        }
        if column > 0 && (column > width || cells > width - column) {
            let ghost before = rows@;
            let ghost full = row@;
            rows.push(row);
            assert(texts(rows@) =~= texts(before).push(full));
            row = String::new();
            row.push(c);
            column = cells;
            proof {
                reveal_with_fuel(row_cells, 2);
                assert(row@ =~= seq![c]);
                assert(row@.drop_last() =~= Seq::<char>::empty());
            }
        } else {
            let ghost before = row@;
            row.push(c);
            column += cells;
            assert(row@.drop_last() =~= before);
        }
    }
    let ghost done = rows@;
    let ghost rest = row@;
    rows.push(row);
    proof {
        assert(texts(rows@) =~= texts(done).push(rest));
        assert(text@.take(text@.len() as int) =~= text@);
    }
    rows
}

/// Writes a path visibly in rows of a width.
pub fn path_lines(path: &str, width: usize) -> (result: Vec<String>)
    ensures
        texts(result@) == rows_of(visible_path(path@), width as nat),
{
    path_lines_display(display_path(path).as_str(), width)
}

/// How a line stands out.
#[derive(Clone, Copy, Debug, PartialEq, Eq, Structural)]
pub enum LineStyle {
    Plain,
    Bold,
    Warning,
    Error,
}

/// A line to show.
#[derive(Debug)]
pub struct StyledLine {
    pub text: String,
    pub style: LineStyle,
}

/// The title of the selector.
pub const SCOPE_TITLE: &'static str = " Rule scope ";

/// The selector on the screen: its title, the lines that describe the choice, the key hints, the rows
/// for the lines, and how far they are scrolled.
#[derive(Debug)]
pub struct SelectorScreen {
    pub title: &'static str,
    pub lines: Vec<StyledLine>,
    pub hints: Vec<String>,
    pub body_height: u16,
    pub scroll: u16,
}

/// The contents of a list of lines.
pub open spec fn line_models(lines: Seq<StyledLine>) -> Seq<(Seq<char>, LineStyle)> {
    Seq::new(lines.len(), |i: int| (lines[i].text@, lines[i].style))
}

/// Lines that all stand out in the same way.
pub open spec fn styled(lines: Seq<Seq<char>>, style: LineStyle) -> Seq<(Seq<char>, LineStyle)> {
    Seq::new(lines.len(), |i: int| (lines[i], style))
}

/// Appends lines that all stand out in the same way.
fn push_styled(target: &mut Vec<StyledLine>, lines: Vec<String>, style: LineStyle)
    ensures
        line_models(final(target)@) == line_models(old(target)@) + styled(texts(lines@), style),
{
    let ghost all = texts(lines@);
    assert(line_models(target@) =~= line_models(old(target)@) + styled(all.take(0), style));
    for text in it: lines
        invariant
            it.seq() == lines@,
            all == texts(lines@),
            line_models(target@) == line_models(old(target)@) + styled(all.take(it.index()), style),
    {
        let ghost i = it.index();
        let ghost before = target@;
        let ghost content = text@;
        proof {
            assert(all[i] == content);
        }
        target.push(StyledLine { text, style });
        proof {
            assert(line_models(target@) =~= line_models(before).push((content, style)));
            assert(styled(all.take(i + 1), style) =~= styled(all.take(i), style).push(
                (content, style),
            ));
        }
    }
    assert(all.take(all.len() as int) =~= all);
}

/// The width that text is wrapped to: at least one column.
pub open spec fn at_least_one(width: u16) -> usize {
    if width == 0 {
        1
    } else {
        width as usize
    }
}

impl SelectorModel {
    /// The key hints, each to be wrapped on its own.
    pub open spec fn hints(self) -> Seq<Seq<char>> {
        seq![
            "Left/h parent | Right/l deeper"@,
            "a approve + remember | d deny + remember"@,
            "Esc back | PgUp/PgDn scroll"@,
        ] + (if self.selected == 0 {
            seq!["Space exact/tree"@]
        } else {
            Seq::empty()
        })
    }

    /// The line that tells where in the chain of ancestors the choice lies.
    pub open spec fn boundary(self) -> Seq<char> {
        if self.selected == 0 {
            "Original request path"@
        } else if self.selected + 1 == self.paths.len() {
            "Root path: no parent"@
        } else {
            "Ancestor of request path"@
        }
    }

    /// The lines that describe the choice, with what blocks its submission first.
    pub open spec fn lines(self, width: usize, blocked: Option<Seq<char>>) -> Seq<
        (Seq<char>, LineStyle),
    > {
        let scope = match self.draft.scope {
            RuleScope::Path => "Exact path"@,
            RuleScope::Directory => "Tree (path + descendants)"@,
        };
        (match blocked {
            Some(error) => styled(wrapped("Blocked: "@ + sanitized(error), width), LineStyle::Error),
            None => Seq::empty(),
        }) + styled(wrapped(self.draft.access.name() + " | "@ + scope, width), LineStyle::Plain)
            + styled(rows_of(visible_path(self.draft.path), width as nat), LineStyle::Bold) + styled(
            wrapped(self.boundary(), width),
            LineStyle::Plain,
        ) + (if self.draft.path == "/"@ && self.draft.scope == RuleScope::Directory {
            styled(wrapped("Warning: all absolute paths for this access"@, width), LineStyle::Warning)
        } else {
            Seq::empty()
        })
    }

    /// The selector scrolled no further than its last line.
    pub open spec fn scrolled_within(self, line_count: nat, height: u16) -> SelectorModel {
        let most = if line_count <= height {
            0
        } else {
            line_count - height
        };
        SelectorModel {
            scroll: if self.scroll <= most {
                self.scroll
            } else {
                most as u16
            },
            ..self
        }
    }
}

/// The lines of several texts, each wrapped on its own.
pub open spec fn wrapped_all(all: Seq<Seq<char>>, width: usize) -> Seq<Seq<char>>
    decreases all.len(),
{
    if all.len() == 0 {
        Seq::empty()
    } else {
        wrapped_all(all.drop_last(), width) + wrapped(all.last(), width)
    }
}

/// Wraps several texts, each on its own.
fn wrapped_lines(all: &Vec<&str>, width: usize) -> (result: Vec<String>)
    ensures
        texts(result@) == wrapped_all(Seq::new(all@.len(), |i: int| all@[i]@), width),
{
    let mut result: Vec<String> = Vec::new();
    let ghost models = Seq::new(all@.len(), |i: int| all@[i]@);
    assert(texts(result@) =~= Seq::<Seq<char>>::empty());
    for i in 0..all.len()
        invariant
            models == Seq::new(all@.len(), |i: int| all@[i]@),
            texts(result@) == wrapped_all(models.take(i as int), width),
    {
        let mut lines = wrap_text(all[i], width);
        let ghost before = result@;
        let ghost added = lines@;
        result.append(&mut lines);
        proof {
            assert(texts(result@) =~= texts(before) + texts(added));
            assert(models.take(i + 1).drop_last() =~= models.take(i as int));
            assert(models.take(i + 1).last() == all@[i as int]@);
        }
    }
    assert(models.take(models.len() as int) =~= models);
    result
}

impl RuleSelector {
    /// The key hints at a width.
    pub fn hints(&self, width: u16) -> (result: Vec<String>)
        ensures
            texts(result@) == wrapped_all(self@.hints(), at_least_one(width)),
    {
        let mut all: Vec<&str> = Vec::new();
        all.push("Left/h parent | Right/l deeper");
        all.push("a approve + remember | d deny + remember");
        all.push("Esc back | PgUp/PgDn scroll");
        if self.selected == 0 {
            all.push("Space exact/tree");
        }
        assert(Seq::new(all@.len(), |i: int| all@[i]@) =~= self@.hints());
        wrapped_lines(
            &all,
            if width == 0 {
                1
            } else {
                width as usize
            },
        )
    }

    /// The lines that describe the choice at a width.
    pub fn lines(&self, width: u16, blocked: Option<&str>) -> (result: Vec<StyledLine>)
        requires
            self@.well_formed(),
        ensures
            line_models(result@) == self@.lines(
                at_least_one(width),
                match blocked {
                    Some(error) => Some(error@),
                    None => None,
                },
            ),
    {
        let width: usize = if width == 0 {
            1
        } else {
            width as usize
        };
        let mut lines: Vec<StyledLine> = Vec::new();
        assert(line_models(lines@) =~= Seq::<(Seq<char>, LineStyle)>::empty());
        if let Some(error) = blocked {
            let mut text = "Blocked: ".to_owned();
            text.append(sanitize(error).as_str());
            push_styled(&mut lines, wrap_text(text.as_str(), width), LineStyle::Error);
        }
        let scope = match self.draft.scope {
            RuleScope::Path => "Exact path",
            RuleScope::Directory => "Tree (path + descendants)",
        };
        let mut text = self.draft.access.as_str().to_owned();
        text.append(" | ");
        text.append(scope);
        push_styled(&mut lines, wrap_text(text.as_str(), width), LineStyle::Plain);
        push_styled(&mut lines, path_lines(self.draft.path.as_str(), width), LineStyle::Bold);
        let boundary = if self.selected == 0 {
            "Original request path"
        } else if self.selected == self.paths.len() - 1 {
            "Root path: no parent"
        } else {
            "Ancestor of request path"
        };
        push_styled(&mut lines, wrap_text(boundary, width), LineStyle::Plain);
        if same(self.draft.path.as_str(), "/") && self.draft.scope == RuleScope::Directory {
            push_styled(
                &mut lines,
                wrap_text("Warning: all absolute paths for this access", width),
                LineStyle::Warning,
            );
        }
        assert(line_models(lines@) =~= self@.lines(
            width,
            match blocked {
                Some(error) => Some(error@),
                None => None,
            },
        ));
        lines
    }

    /// Lays the selector out in an area with a border: the lines that describe the choice, the key
    /// hints below them, and how far the lines are scrolled. An area without room inside its border
    /// shows nothing.
    pub fn render(&mut self, width: u16, height: u16, blocked: Option<&str>) -> (result: Option<
        SelectorScreen,
    >)
        requires
            old(self)@.well_formed(),
        ensures
            final(self)@.well_formed(),
            if width <= 2 || height <= 2 {
                result is None && *final(self) == *old(self)
            } else {
                let inner_width = (width - 2) as u16;
                let hints = wrapped_all(old(self)@.hints(), inner_width as usize);
                let lines = old(self)@.lines(
                    inner_width as usize,
                    match blocked {
                        Some(error) => Some(error@),
                        None => None,
                    },
                );
                let body_height = if hints.len() >= height - 2 {
                    0
                } else {
                    (height - 2 - hints.len()) as u16
                };
                &&& result matches Some(screen) && screen.title@ == SCOPE_TITLE@ && texts(
                    screen.hints@,
                ) == hints && line_models(screen.lines@) == lines && screen.body_height
                    == body_height && screen.scroll == final(self)@.scroll
                &&& final(self)@ == old(self)@.scrolled_within(lines.len(), body_height)
            },
    {
        if width <= 2 || height <= 2 {
            return None;
        }
        let hints = self.hints(width - 2);
        let lines = self.lines(width - 2, blocked);
        assert(texts(hints@).len() == hints@.len());
        assert(line_models(lines@).len() == lines@.len());
        let room: u16 = height - 2;
        let body_height: u16 = if hints.len() >= room as usize {
            0
        } else {
            room - hints.len() as u16
        };
        self.keep_scroll_within(lines.len(), body_height);
        Some(SelectorScreen { title: SCOPE_TITLE, lines, hints, body_height, scroll: self.scroll })
    }

    /// How far the lines are scrolled.
    pub fn scroll(&self) -> (result: u16)
        ensures
            result == self@.scroll,
    {
        self.scroll
    }

    /// Scrolls back to where the last line is still shown.
    pub fn keep_scroll_within(&mut self, line_count: usize, height: u16)
        requires
            old(self)@.well_formed(),
        ensures
            final(self)@ == old(self)@.scrolled_within(line_count as nat, height),
            final(self)@.well_formed(),
    {
        let most: usize = line_count.saturating_sub(height as usize);
        if (self.scroll as usize) > most {
            self.scroll = most as u16;
        }
        assert(self@ =~= old(self)@.scrolled_within(line_count as nat, height));
    }
}

// ---------------------------------------------------------------------------
// Laws
// ---------------------------------------------------------------------------

/// Whatever is chosen covers the request that the choices were made from.
pub proof fn selections_cover_the_source(selector: SelectorModel, request: RequestModel)
    requires
        selector.well_formed(),
        request is Capability,
        is_rule_path(request->Capability_path),
        selector.paths == ancestors_of(request->Capability_path),
        selector.draft.access == request->Capability_access,
    ensures
        selector.draft.source_error(request) is None,
{
    let path = request->Capability_path;
    let parts = path_parts(path);
    ancestors_cover_the_path(request, selector.draft.action, selector.selected);
    if selector.draft.scope == RuleScope::Path {
        assert(selector.selected == 0);
        assert(parts.take(parts.len() as int) =~= parts);
        normalizing_keeps_components(path);
        literal_paths_match_by_component(parts, RuleScope::Path, parts);
    }
}

/// Keys never leave the source's ancestors: the choices, the access mode and the source stay.
pub proof fn keys_keep_the_choices(selector: SelectorModel, key: KeyEvent)
    requires
        selector.well_formed(),
    ensures
        selector.after_key(key).0.well_formed(),
        selector.after_key(key).0.paths == selector.paths,
        selector.after_key(key).0.draft.access == selector.draft.access,
        selector.after_key(key).0.draft.action == selector.draft.action,
{
}

/// Only `a` and `d`, pressed without a command modifier, submit; and what they submit is the choice
/// as shown, allowed or denied.
pub proof fn only_action_keys_submit(selector: SelectorModel, key: KeyEvent)
    requires
        selector.after_key(key).1 is Submit,
    ensures
        key.kind == KeyEventKind::Press,
        !key.modifiers.control && !key.modifiers.alt && !key.modifiers.logo,
        key.code == KeyCode::Char('a') || key.code == KeyCode::Char('d'),
        selector.after_key(key).1 == SelectorEventModel::Submit(
            DraftModel {
                action: if key.code == KeyCode::Char('a') {
                    RuleAction::Allow
                } else {
                    RuleAction::Deny
                },
                ..selector.draft
            },
        ),
        selector.after_key(key).0 == selector,
{
}

/// Going to the parent and back restores the draft, its scope at the source included.
pub proof fn navigation_is_reversible(selector: SelectorModel, up: KeyEvent, down: KeyEvent)
    requires
        selector.well_formed(),
        selector.selected + 1 < selector.paths.len(),
        up.code == KeyCode::Left || up.code == KeyCode::Char('h'),
        down.code == KeyCode::Right || down.code == KeyCode::Char('l'),
        up.kind != KeyEventKind::Release && down.kind != KeyEventKind::Release,
        !up.modifiers.control && !up.modifiers.alt && !up.modifiers.logo,
        !down.modifiers.control && !down.modifiers.alt && !down.modifiers.logo,
    ensures
        selector.after_key(up).0.after_key(down).0.draft == selector.draft,
        selector.after_key(up).0.after_key(down).0.selected == selector.selected,
        selector.after_key(up).0.after_key(down).0.source_scope == selector.source_scope,
{
}

proof fn lemma_rows_nonempty(text: Seq<char>, width: nat)
    ensures
        rows_of(text, width).len() >= 1,
    decreases text.len(),
{
    if text.len() > 0 {
        lemma_rows_nonempty(text.drop_last(), width);
    }
}

/// Breaking a text into rows loses nothing.
pub proof fn rows_are_lossless(text: Seq<char>, width: nat)
    ensures
        joined_rows(rows_of(text, width)) == text,
    decreases text.len(),
{
    lemma_rows_nonempty(text, width);
    reveal_with_fuel(joined_rows, 2);
    if text.len() == 0 {
        assert(rows_of(text, width).drop_last() =~= Seq::<Seq<char>>::empty());
        assert(joined_rows(rows_of(text, width)) =~= text);
    } else {
        let front = text.drop_last();
        let before = rows_of(front, width);
        let after = rows_of(text, width);
        lemma_rows_nonempty(front, width);
        rows_are_lossless(front, width);
        let last = before.last();
        if row_cells(last) + cell_count(text.last()) > width && row_cells(last) > 0 {
            assert(after.drop_last() =~= before);
        } else {
            assert(after.drop_last() =~= before.drop_last());
        }
        assert(joined_rows(after) =~= front.push(text.last()));
        assert(front.push(text.last()) =~= text);
    }
}

/// No row is wider than the width, if each character on its own is not.
pub proof fn rows_fit_the_width(text: Seq<char>, width: nat, i: int)
    requires
        forall|k: int| 0 <= k < text.len() ==> cell_count(#[trigger] text[k]) <= width,
        0 <= i < rows_of(text, width).len(),
    ensures
        row_cells(rows_of(text, width)[i]) <= width,
    decreases text.len(),
{
    reveal_with_fuel(row_cells, 2);
    if text.len() > 0 {
        let front = text.drop_last();
        let before = rows_of(front, width);
        let after = rows_of(text, width);
        lemma_rows_nonempty(front, width);
        assert forall|k: int| 0 <= k < front.len() implies cell_count(#[trigger] front[k])
            <= width by {
            assert(front[k] == text[k]);
        }
        assert(cell_count(text[text.len() - 1]) <= width);
        let last = before.last();
        if i < after.len() - 1 {
            assert(after[i] == before[i]);
            rows_fit_the_width(front, width, i);
        } else if row_cells(last) + cell_count(text.last()) > width && row_cells(last) > 0 {
            assert(after[i].drop_last() =~= Seq::<char>::empty());
        } else {
            assert(after[i].drop_last() =~= last);
        }
    }
}

/// A displayed path holds no control character, whatever the path is.
pub proof fn displayed_paths_are_clean(path: Seq<char>)
    ensures
        is_clean(visible_path(path)),
    decreases path.len(),
{
    if path.len() > 0 {
        displayed_paths_are_clean(path.drop_last());
        lemma_hex_is_clean(path.last() as nat);
    }
}

/// Paths are displayed character by character: what is displayed of two paths one after another is
/// what is displayed of each.
pub proof fn displaying_goes_by_character(a: Seq<char>, b: Seq<char>)
    ensures
        visible_path(a + b) == visible_path(a) + visible_path(b),
    decreases b.len(),
{
    if b.len() == 0 {
        assert(a + b =~= a);
        assert(visible_path(a) + visible_path(b) =~= visible_path(a));
    } else {
        displaying_goes_by_character(a, b.drop_last());
        assert((a + b).drop_last() =~= a + b.drop_last());
        assert((visible_path(a) + visible_path(b.drop_last())) + escape_of(b.last())
            =~= visible_path(a) + (visible_path(b.drop_last()) + escape_of(b.last())));
    }
}

/// The escape code of a character ends where it ends: of two texts that begin with escape codes, the
/// same text begins with the same code.
proof fn lemma_escape_is_found(a: char, rest_a: Seq<char>, b: char, rest_b: Seq<char>)
    requires
        escape_of(a) + rest_a == escape_of(b) + rest_b,
    ensures
        a == b,
        rest_a == rest_b,
{
    let x = escape_of(a);
    let y = escape_of(b);
    let whole = x + rest_a;
    assert(whole[0] == x[0] && whole[0] == y[0]);
    if x[0] == '\\' {
        assert(x.len() >= 2 && y.len() >= 2);
        assert(whole[1] == x[1] && whole[1] == y[1]);
        if x[1] == 'u' {
            let p = hex(a as nat);
            let q = hex(b as nat);
            lemma_hex_digits(a as nat);
            lemma_hex_digits(b as nat);
            assert(x =~= seq!['\\', 'u', '{'] + p + seq!['}']);
            assert(y =~= seq!['\\', 'u', '{'] + q + seq!['}']);
            assert(x[3int + p.len()] == '}' && y[3int + q.len()] == '}');
            assert(whole[3int + p.len()] == '}');
            assert(whole[3int + q.len()] == '}');
            if p.len() < q.len() {
                assert(whole[3int + p.len()] == q[p.len() as int]);
            } else if q.len() < p.len() {
                assert(whole[3int + q.len()] == p[q.len() as int]);
            }
            assert forall|i: int| 0 <= i < p.len() implies p[i] == q[i] by {
                assert(whole[3 + i] == x[3 + i] && whole[3 + i] == y[3 + i]);
            }
            assert(p =~= q);
            lemma_hex_is_injective(a as nat, b as nat);
        }
    }
    assert(x.len() == y.len());
    assert(whole.skip(x.len() as int) =~= rest_a);
    assert(whole.skip(x.len() as int) =~= rest_b);
}

proof fn lemma_displayed_is_seen(path: Seq<char>)
    requires
        path.len() > 0,
    ensures
        visible_path(path).len() > 0,
{
    let shown = escape_of(path.last());
    assert(shown.len() > 0);
    assert(visible_path(path) == visible_path(path.drop_last()) + shown);
}

/// A displayed path is lossless: two paths that are displayed alike are the same.
pub proof fn displayed_paths_are_lossless(a: Seq<char>, b: Seq<char>)
    requires
        visible_path(a) == visible_path(b),
    ensures
        a == b,
    decreases a.len(),
{
    if a.len() == 0 || b.len() == 0 {
        if a.len() > 0 {
            lemma_displayed_is_seen(a);
        }
        if b.len() > 0 {
            lemma_displayed_is_seen(b);
        }
        assert(a.len() == 0 && b.len() == 0);
        assert(a =~= b);
    } else {
        let first_a = a.take(1);
        let first_b = b.take(1);
        assert(a =~= first_a + a.skip(1));
        assert(b =~= first_b + b.skip(1));
        displaying_goes_by_character(first_a, a.skip(1));
        displaying_goes_by_character(first_b, b.skip(1));
        lemma_one_displayed(a[0]);
        lemma_one_displayed(b[0]);
        assert(first_a =~= seq![a[0]]);
        assert(first_b =~= seq![b[0]]);
        lemma_escape_is_found(a[0], visible_path(a.skip(1)), b[0], visible_path(b.skip(1)));
        displayed_paths_are_lossless(a.skip(1), b.skip(1));
        assert(a =~= b);
    }
}

proof fn lemma_one_displayed(c: char)
    ensures
        visible_path(seq![c]) == escape_of(c),
{
    reveal_with_fuel(visible_path, 2);
    assert(seq![c].drop_last() =~= Seq::empty());
    assert(visible_path(seq![c]) =~= escape_of(c));
}

// ---------------------------------------------------------------------------
// Laws of single keys and lines
// ---------------------------------------------------------------------------

/// A key without a command modifier that went down.
pub open spec fn pressed(code: KeyCode) -> KeyEvent {
    KeyEvent { code, modifiers: crate::keys::no_modifiers(), kind: KeyEventKind::Press }
}

/// Left and `h` choose the parent, up to the root; right and `l` go back towards the request, down
/// to its own path. Above the request's path a choice is always a directory.
pub proof fn arrows_follow_the_ancestors(selector: SelectorModel, code: KeyCode)
    requires
        selector.well_formed(),
    ensures
        ({
            let (after, event) = selector.after_key(pressed(code));
            &&& code == KeyCode::Left || code == KeyCode::Char('h') ==> {
                &&& selector.selected + 1 < selector.paths.len() ==> after.selected
                    == selector.selected + 1 && after.draft.path == selector.paths[selector.selected
                    + 1] && after.draft.scope is Directory
                &&& selector.selected + 1 == selector.paths.len() ==> after.selected
                    == selector.selected && after.draft == selector.draft && event is Continue
                &&& !(event is Submit) && !(event is Cancelled)
            }
            &&& code == KeyCode::Right || code == KeyCode::Char('l') ==> {
                &&& selector.selected > 0 ==> after.selected == selector.selected - 1
                    && after.draft.path == selector.paths[selector.selected - 1]
                &&& selector.selected == 1 ==> after.draft.scope == selector.source_scope
                &&& selector.selected > 1 ==> after.draft.scope is Directory
                &&& selector.selected == 0 ==> after.selected == 0 && after.draft == selector.draft
                    && event is Continue
                &&& !(event is Submit) && !(event is Cancelled)
            }
        }),
{
}

/// The space bar turns the request's own path from one path to its whole tree and back, and does
/// nothing above it; escape leaves everything as it is and cancels.
pub proof fn space_turns_the_scope_over(selector: SelectorModel)
    requires
        selector.well_formed(),
    ensures
        ({
            let (after, event) = selector.after_key(pressed(KeyCode::Char(' ')));
            &&& selector.selected == 0 && selector.draft.scope is Path ==> after.draft.scope
                is Directory && event is Changed
            &&& selector.selected == 0 && selector.draft.scope is Directory ==> after.draft.scope
                is Path && event is Changed
            &&& selector.selected == 0 ==> after.draft.path == selector.draft.path && after.selected
                == 0 && after.source_scope == after.draft.scope
            &&& selector.selected > 0 ==> after == selector && event is Continue
            &&& selector.selected == 0 ==> after.after_key(
                pressed(KeyCode::Char(' ')),
            ).0.draft == selector.draft
        }),
        selector.after_key(pressed(KeyCode::Esc)) == (selector, SelectorEventModel::Cancelled),
{
}

/// `a` submits the choice as one that allows and `d` as one that denies, with its path, scope and
/// access as they are.
pub proof fn letters_submit_the_choice(selector: SelectorModel)
    ensures
        selector.after_key(pressed(KeyCode::Char('a'))) == (
            selector,
            SelectorEventModel::Submit(
                DraftModel {
                    action: RuleAction::Allow,
                    path: selector.draft.path,
                    scope: selector.draft.scope,
                    access: selector.draft.access,
                },
            ),
        ),
        selector.after_key(pressed(KeyCode::Char('d'))) == (
            selector,
            SelectorEventModel::Submit(
                DraftModel {
                    action: RuleAction::Deny,
                    path: selector.draft.path,
                    scope: selector.draft.scope,
                    access: selector.draft.access,
                },
            ),
        ),
{
}

/// The page keys scroll by five lines, down and up again, and touch nothing else.
pub proof fn pages_scroll_by_five(selector: SelectorModel)
    ensures
        ({
            let down = selector.after_key(pressed(KeyCode::PageDown)).0;
            let up = selector.after_key(pressed(KeyCode::PageUp)).0;
            &&& selector.scroll <= 65530 ==> down.scroll == selector.scroll + 5
            &&& selector.scroll > 65530 ==> down.scroll == 65535
            &&& selector.scroll >= 5 ==> up.scroll == selector.scroll - 5
            &&& selector.scroll < 5 ==> up.scroll == 0
            &&& down.draft == selector.draft && up.draft == selector.draft
            &&& down.selected == selector.selected && up.selected == selector.selected
        }),
{
}

/// A key that went up, and any key with control, alt or the logo key, does nothing.
pub proof fn commands_are_not_choices(selector: SelectorModel, key: KeyEvent)
    requires
        key.kind is Release || key.modifiers.control || key.modifiers.alt || key.modifiers.logo,
    ensures
        selector.after_key(key) == (selector, SelectorEventModel::Continue),
{
}

/// A character of a path is displayed as itself, or by its escape: a backslash before a letter for
/// the usual ones, and the code point in hexadecimal otherwise.
pub proof fn characters_are_displayed_by_their_escape(c: char)
    ensures
        visible_path(seq![c]) == escape_of(c),
        !is_control(c) && c != '\\' && is_shown(c) ==> escape_of(c) == seq![c],
        is_control(c) || c == '\\' || !is_shown(c) ==> escape_of(c) == escape_code(c),
        c == '\0' ==> escape_code(c) == seq!['\\', '0'],
        c == '\t' ==> escape_code(c) == seq!['\\', 't'],
        c == '\r' ==> escape_code(c) == seq!['\\', 'r'],
        c == '\n' ==> escape_code(c) == seq!['\\', 'n'],
        c == '\\' ==> escape_code(c) == seq!['\\', '\\'],
        c == '\'' ==> escape_code(c) == seq!['\\', '\''],
        c == '"' ==> escape_code(c) == seq!['\\', '"'],
        c != '\0' && c != '\t' && c != '\r' && c != '\n' && c != '\\' && c != '\'' && c != '"'
            ==> escape_code(c) == seq!['\\', 'u', '{'] + hex(c as nat) + seq!['}'],
{
    lemma_one_displayed(c);
}

/// A row is full where the next one begins: it holds as much as fits.
pub proof fn rows_are_filled(text: Seq<char>, c: char, width: nat)
    ensures
        rows_of(Seq::empty(), width) == seq![Seq::<char>::empty()],
        ({
            let before = rows_of(text, width);
            let after = rows_of(text.push(c), width);
            let used = row_cells(before.last());
            &&& used + cell_count(c) <= width ==> after.len() == before.len() && after.last()
                == before.last().push(c)
            &&& used > 0 && used + cell_count(c) > width ==> after == before.push(seq![c])
        }),
        is_control(c) ==> cell_count(c) == 1,
        ' ' <= c <= '~' ==> cell_count(c) == 1,
{
    assert(text.push(c).drop_last() =~= text);
    lemma_rows_nonempty(text, width);
}

/// The lines that describe a choice tell what blocks it, if anything does, then the access and how
/// far it reaches, its path, and where it lies; a choice of everything carries a warning.
pub proof fn choices_are_described_in_order(
    selector: SelectorModel,
    width: usize,
    blocked: Option<Seq<char>>,
)
    requires
        selector.well_formed(),
    ensures
        ({
            let lines = selector.lines(width, blocked);
            let access = styled(
                wrapped(
                    selector.draft.access.name() + " | "@ + (if selector.draft.scope is Path {
                        "Exact path"@
                    } else {
                        "Tree (path + descendants)"@
                    }),
                    width,
                ),
                LineStyle::Plain,
            );
            let path = styled(
                rows_of(visible_path(selector.draft.path), width as nat),
                LineStyle::Bold,
            );
            let place = styled(
                wrapped(
                    if selector.selected == 0 {
                        "Original request path"@
                    } else if selector.selected + 1 == selector.paths.len() {
                        "Root path: no parent"@
                    } else {
                        "Ancestor of request path"@
                    },
                    width,
                ),
                LineStyle::Plain,
            );
            let head = if blocked is Some {
                styled(wrapped("Blocked: "@ + sanitized(blocked->0), width), LineStyle::Error)
            } else {
                Seq::empty()
            };
            let tail = if selector.draft.path == "/"@ && selector.draft.scope is Directory {
                styled(
                    wrapped("Warning: all absolute paths for this access"@, width),
                    LineStyle::Warning,
                )
            } else {
                Seq::empty()
            };
            lines == head + access + path + place + tail
        }),
        selector.selected == 0 <==> selector.hints().contains("Space exact/tree"@),
{
    reveal_strlit("Space exact/tree");
    reveal_strlit("Left/h parent | Right/l deeper");
    reveal_strlit("a approve + remember | d deny + remember");
    reveal_strlit("Esc back | PgUp/PgDn scroll");
    let hints = selector.hints();
    assert("Space exact/tree"@[0] == 'S');
    if selector.selected == 0 {
        assert(hints[3] == "Space exact/tree"@);
    } else {
        assert(hints[0][0] == 'L' && hints[1][0] == 'a' && hints[2][0] == 'E');
    }
}

/// Scrolling stops where the last line is on the screen, and before that goes as far as it was
/// asked to.
pub proof fn scrolling_stops_at_the_last_line(selector: SelectorModel, count: nat, height: u16)
    ensures
        ({
            let after = selector.scrolled_within(count, height);
            &&& after.scroll + height <= count || after.scroll == 0 || after.scroll <= count
                - height
            &&& selector.scroll + height <= count ==> after.scroll == selector.scroll
            &&& count <= height ==> after.scroll == 0
            &&& count > height && selector.scroll + height > count ==> after.scroll + height
                == count
            &&& after.draft == selector.draft
        }),
{
}

/// An event and a list of lines are seen as what they hold.
pub proof fn selector_events_are_seen_by_content(event: SelectorEvent, lines: Seq<StyledLine>)
    ensures
        event is Continue <==> event@ is Continue,
        event is Changed <==> event@ is Changed,
        event is Cancelled <==> event@ is Cancelled,
        event matches SelectorEvent::Submit(draft) ==> event@ == SelectorEventModel::Submit(draft@),
        line_models(lines).len() == lines.len(),
        forall|i: int|
            0 <= i < lines.len() ==> #[trigger] line_models(lines)[i] == (
                lines[i].text@,
                lines[i].style,
            ),
{
}

/// A choice that changes is told so and shown from its first line.
pub proof fn changed_choices_start_at_the_top(selector: SelectorModel, key: KeyEvent)
    requires
        selector.well_formed(),
    ensures
        selector.after_key(key).1 is Changed <==> selector.after_key(key).0.draft
            != selector.draft,
        selector.after_key(key).1 is Changed ==> selector.after_key(key).0.scroll == 0,
{
}

/// A new choice is the draft's own path, normalized, with its scope, action and access, above the
/// ancestors of that path; only a path that rules can speak of has one.
pub proof fn choices_begin_at_the_drafts_path(
    draft: RuleDraft,
    result: Result<RuleSelector, PolicyError>,
)
    requires
        call_ensures(RuleSelector::new, (draft,), result),
    ensures
        result is Ok <==> is_rule_path(draft.path@),
        result matches Ok(selector) ==> {
            &&& selector@.selected == 0
            &&& selector@.scroll == 0
            &&& selector@.source_scope == draft.scope
            &&& selector@.paths == ancestors_of(draft.path@)
            &&& selector@.draft.path == selector@.paths[0]
            &&& selector@.draft.scope == draft.scope
            &&& selector@.draft.action == draft.action
            &&& selector@.draft.access == draft.access
        },
{
}

/// Several texts are wrapped one after another, each on its own, at a width of at least one.
pub proof fn hints_are_wrapped_one_by_one(all: Seq<Seq<char>>, text: Seq<char>, width: u16)
    ensures
        wrapped_all(Seq::empty(), width as usize) == Seq::<Seq<char>>::empty(),
        wrapped_all(all.push(text), width as usize) == wrapped_all(all, width as usize) + wrapped(
            text,
            width as usize,
        ),
        at_least_one(width) == if width == 0 {
            1
        } else {
            width as usize
        },
{
    assert(all.push(text).drop_last() =~= all);
}

/// The hints name the keys and what they do.
pub proof fn hints_name_the_keys(selector: SelectorModel)
    ensures
        selector.hints()[0] == "Left/h parent | Right/l deeper"@,
        selector.hints()[1] == "a approve + remember | d deny + remember"@,
        selector.hints()[2] == "Esc back | PgUp/PgDn scroll"@,
        selector.hints().len() == if selector.selected == 0 {
            4int
        } else {
            3int
        },
{
}

} // verus!
