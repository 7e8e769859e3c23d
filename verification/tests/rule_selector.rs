use nono_approval::keys::{KeyCode, KeyEvent, KeyEventKind, KeyModifiers};
use nono_approval::policy::{RuleAction, RuleDraft, RuleScope};
use nono_approval::protocol::{AccessMode, KnownApprovalRequest};
use nono_approval::rule_selector::{
    display_path, path_lines, LineStyle, RuleSelector, SelectorEvent,
};
use unicode_width::UnicodeWidthStr;

fn selector(path: &str) -> RuleSelector {
    RuleSelector::new(RuleDraft {
        action: RuleAction::Allow,
        path: path.to_owned(),
        scope: RuleScope::Path,
        access: AccessMode::Read,
    })
    .unwrap()
}

fn press(selector: &mut RuleSelector, code: KeyCode) -> SelectorEvent {
    selector.handle_key(KeyEvent::new(code, KeyModifiers::default()))
}

#[test]
fn navigation_is_bounded_and_reversible_without_changing_the_source_chain() {
    let mut selector = selector("/work/src/main.rs");
    for code in [KeyCode::Left, KeyCode::Char('h')] {
        assert_eq!(press(&mut selector, code), SelectorEvent::Changed);
    }
    assert_eq!(selector.draft().path, "/work");
    assert_eq!(selector.draft().scope, RuleScope::Directory);
    assert_eq!(
        press(&mut selector, KeyCode::Char(' ')),
        SelectorEvent::Continue
    );
    for _ in 0..10 {
        press(&mut selector, KeyCode::Left);
    }
    assert_eq!(selector.draft().path, "/");
    for code in [KeyCode::Right, KeyCode::Char('l'), KeyCode::Right] {
        assert_eq!(press(&mut selector, code), SelectorEvent::Changed);
    }
    assert_eq!(selector.draft().path, "/work/src/main.rs");
    assert_eq!(selector.draft().scope, RuleScope::Path);
    assert_eq!(
        press(&mut selector, KeyCode::Right),
        SelectorEvent::Continue
    );
}

#[test]
fn original_scope_is_restored_and_root_source_is_bounded() {
    let mut root = selector("/");
    assert_eq!(press(&mut root, KeyCode::Left), SelectorEvent::Continue);
    assert_eq!(press(&mut root, KeyCode::Right), SelectorEvent::Continue);
    assert_eq!(press(&mut root, KeyCode::Char(' ')), SelectorEvent::Changed);
    assert_eq!(root.draft().scope, RuleScope::Directory);
    let mut selector = selector("/work/src");
    press(&mut selector, KeyCode::Char(' '));
    press(&mut selector, KeyCode::Left);
    press(&mut selector, KeyCode::Right);
    assert_eq!(selector.draft().scope, RuleScope::Directory);
}

fn control() -> KeyModifiers {
    KeyModifiers {
        control: true,
        ..KeyModifiers::default()
    }
}

fn alt() -> KeyModifiers {
    KeyModifiers {
        alt: true,
        ..KeyModifiers::default()
    }
}

fn logo() -> KeyModifiers {
    KeyModifiers {
        logo: true,
        ..KeyModifiers::default()
    }
}

#[test]
fn only_explicit_action_keys_submit_and_text_never_edits_paths() {
    let mut selector = selector("/work/data");
    for code in [
        KeyCode::Enter,
        KeyCode::Tab,
        KeyCode::Backspace,
        KeyCode::Delete,
        KeyCode::Char('x'),
    ] {
        assert_eq!(press(&mut selector, code), SelectorEvent::Continue);
    }
    for action in ['a', 'd'] {
        for modifiers in [control(), alt(), logo()] {
            assert_eq!(
                selector.handle_key(KeyEvent::new(KeyCode::Char(action), modifiers)),
                SelectorEvent::Continue
            );
        }
        for kind in [KeyEventKind::Release, KeyEventKind::Repeat] {
            assert_eq!(
                selector.handle_key(KeyEvent::new_with_kind(
                    KeyCode::Char(action),
                    KeyModifiers::default(),
                    kind
                )),
                SelectorEvent::Continue
            );
        }
        let SelectorEvent::Submit(draft) = press(&mut selector, KeyCode::Char(action)) else {
            panic!("missing submit");
        };
        assert_eq!(draft.path, "/work/data");
        assert_eq!(
            draft.action,
            if action == 'a' {
                RuleAction::Allow
            } else {
                RuleAction::Deny
            }
        );
    }
    assert_eq!(press(&mut selector, KeyCode::Esc), SelectorEvent::Cancelled);
}

#[test]
fn literal_paths_round_trip_and_wrap_losslessly() {
    let path = "/work/中文/e\u{301}/\u{1b}[31m\\literal\n*";
    let mut selector = selector(path);
    press(&mut selector, KeyCode::Left);
    press(&mut selector, KeyCode::Right);
    assert_eq!(selector.draft().path, path);
    let lines = path_lines(path, 12);
    assert!(lines.iter().all(|line| line.width() <= 12));
    assert_eq!(lines.concat(), display_path(path));
    assert!(!display_path(path).contains('\u{1b}'));
}

#[test]
fn normalized_choices_always_cover_the_source() {
    let source = KnownApprovalRequest::Capability {
        request_id: "source".to_owned(),
        path: "/work//./src/main.rs/".to_owned(),
        access: AccessMode::Read,
        reason: None,
        child_pid: 1,
        session_id: "test".to_owned(),
    };
    let draft = RuleDraft::from_request(&source, RuleAction::Allow, RuleScope::Path).unwrap();
    let mut selector = RuleSelector::new(draft).unwrap();
    assert_eq!(selector.draft().path, "/work/src/main.rs");
    for code in [
        KeyCode::Left,
        KeyCode::Left,
        KeyCode::Left,
        KeyCode::Left,
        KeyCode::Right,
        KeyCode::Right,
        KeyCode::Right,
        KeyCode::Right,
    ] {
        press(&mut selector, code);
        selector.draft().validate_source(&source).unwrap();
    }
    assert_eq!(selector.draft().path, "/work/src/main.rs");
    for path in ["relative", "/work/../other", "/work/\0"] {
        let mut draft = selector.draft().clone();
        draft.path = path.to_owned();
        assert!(RuleSelector::new(draft).is_err());
    }
}

fn shown(selector: &mut RuleSelector, width: u16, height: u16, error: Option<&str>) -> String {
    let screen = selector.render(width, height, error).unwrap();
    let first = usize::from(screen.scroll);
    let rows = usize::from(screen.body_height);
    let mut text = format!("{}\n", screen.title);
    for line in screen.lines.iter().skip(first).take(rows) {
        text.push_str(&line.text);
        text.push('\n');
    }
    let room = usize::from(height) - 2 - rows;
    for hint in screen.hints.iter().take(room) {
        text.push_str(hint);
        text.push('\n');
    }
    text
}

#[test]
fn long_paths_scroll_without_hiding_controls_and_errors_are_readable() {
    let path = format!("/{}", "long directory/".repeat(25));
    let mut selector = selector(&path);
    let lines = path_lines(&path, 38);
    assert!(lines.iter().all(|line| line.width() <= 38));
    assert_eq!(lines.concat(), display_path(&path));
    for error in [None, Some("Source request is no longer pending")] {
        for code in [KeyCode::PageDown, KeyCode::PageDown, KeyCode::PageUp] {
            press(&mut selector, code);
            let text = shown(&mut selector, 40, 12, error);
            for expected in ["Left/h", "Right/l", "a approve", "d deny", "Esc back"] {
                assert!(text.contains(expected));
            }
        }
    }
    for _ in 0..20 {
        press(&mut selector, KeyCode::PageUp);
    }
    let text = shown(
        &mut selector,
        40,
        12,
        Some("Source request is no longer pending"),
    );
    assert!(text.contains("Blocked: Source request"));
    assert!(text.contains("pending"));
}

#[test]
fn frames_keep_path_scope_and_actions_visible() {
    for (width, height) in [(120, 24), (80, 24), (60, 24), (40, 12)] {
        let mut selector = selector("/work/src/main.rs");
        for _ in 0..4 {
            let text = shown(&mut selector, width, height, None);
            for expected in [
                "Rule scope",
                "read",
                &selector.draft().path,
                "Left/h",
                "Right/l",
                "a approve",
                "d deny",
                "Esc back",
            ] {
                assert!(
                    text.contains(expected),
                    "missing {expected} at {width}x{height}"
                );
            }
            press(&mut selector, KeyCode::Left);
        }
    }
}

#[test]
fn lines_tell_the_scope_and_warn_of_the_root() {
    let mut selector = selector("/work");
    let lines = selector.lines(80, None);
    assert_eq!(lines[0].text, "read | Exact path");
    assert_eq!(lines[0].style, LineStyle::Plain);
    assert_eq!(lines[1].text, "/work");
    assert_eq!(lines[1].style, LineStyle::Bold);
    assert_eq!(lines[2].text, "Original request path");
    assert_eq!(lines.len(), 3);
    press(&mut selector, KeyCode::Left);
    let lines = selector.lines(80, Some("not\u{7} now"));
    assert_eq!(lines[0].text, "Blocked: not\\x07 now");
    assert_eq!(lines[0].style, LineStyle::Error);
    assert_eq!(lines[1].text, "read | Tree (path + descendants)");
    assert_eq!(lines[3].text, "Root path: no parent");
    assert_eq!(lines[4].text, "Warning: all absolute paths for this access");
    assert_eq!(lines[4].style, LineStyle::Warning);
    assert!(selector.render(2, 24, None).is_none());
}

#[test]
fn scrolling_stops_at_the_last_line() {
    let mut selector = selector(&format!("/{}", "x".repeat(400)));
    for _ in 0..30 {
        press(&mut selector, KeyCode::PageDown);
    }
    assert_eq!(selector.scroll(), 150);
    let screen = selector.render(42, 12, None).unwrap();
    assert_eq!(
        usize::from(screen.scroll) + usize::from(screen.body_height),
        screen.lines.len()
    );
    assert_eq!(selector.scroll(), screen.scroll);
}

#[test]
fn wide_characters_count_twice() {
    assert_eq!(path_lines("/中文字", 5), ["/中文", "字"]);
    assert_eq!(path_lines("/abc", 2), ["/a", "bc"]);
    assert_eq!(display_path("/a\tb"), "/a\\tb");
}

#[test]
fn paths_are_displayed_by_escape_codes() {
    assert_eq!(
        display_path("/a\0\t\r\n\\\u{1b}\u{7f}\u{9b}ü"),
        "/a\\0\\t\\r\\n\\\\\\u{1b}\\u{7f}\\u{9b}ü"
    );
    assert_eq!(display_path("a'b\"c"), "a\\'b\\\"c");
}

#[test]
fn every_character_is_displayed_as_itself_or_by_its_code() {
    for c in '\0'..=char::MAX {
        let shown = display_path(c.encode_utf8(&mut [0; 4]));
        let code = match c {
            '\0' => "\\0".to_owned(),
            '\t' => "\\t".to_owned(),
            '\r' => "\\r".to_owned(),
            '\n' => "\\n".to_owned(),
            '\'' | '"' | '\\' => format!("\\{c}"),
            _ => format!("\\u{{{:x}}}", u32::from(c)),
        };
        let itself = shown.chars().eq([c]) && !c.is_control() && c != '\\';
        assert!(itself || shown == code, "{}", u32::from(c));
    }
}

#[test]
fn displayed_paths_are_told_apart() {
    let paths = ["/a\n", "/a\\n", "/a\\\\n", "/a\\u{1b}", "/a\u{1b}", "/a\u{1}b"];
    for (i, left) in paths.iter().enumerate() {
        for right in &paths[i + 1..] {
            assert_ne!(display_path(left), display_path(right));
            let both = format!("{left}{right}");
            assert_eq!(
                display_path(&both),
                format!("{}{}", display_path(left), display_path(right))
            );
        }
    }
}
