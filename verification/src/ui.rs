//! The decisions of the terminal front end: what a key does, what a line of
//! input asks for, and where the views are scrolled to.
//!
//! Reading keys and drawing are the caller's part.

use vstd::prelude::*;
use crate::text::{
    chars_of, equals, join, joined, push_text, rows, slice, split_words, text_of, text_view, texts,
    words,
};

verus! {

/// By how many lines one page up scrolls.
pub const PAGE_UP_LINES: usize = 10;

/// What begins a command.
pub const COMMAND_MARK: char = '/';

/// A key that the front end knows.
#[derive(Clone, Copy, Debug, PartialEq, Eq)]
pub enum Key {
    Esc,
    Enter,
    Char(char),
    Backspace,
    Up,
    Down,
    PageUp,
    PageDown,
    Tab,
    Other,
}

/// What the front end shows and how.
#[derive(Debug, PartialEq, Eq)]
pub struct ViewState {
    /// The line that is being typed.
    pub input: String,
    /// The first line of the conversation that is shown; `usize::MAX`
    /// stands for the end.
    pub scroll: usize,
    /// The first line of the log that is shown; `usize::MAX` stands for the
    /// end.
    pub log_scroll: usize,
    /// How many lines the conversation has room for.
    pub visible_height: u16,
    /// Whether the keys scroll the log.
    pub is_log_focused: bool,
    /// Whether messages are shown as they were written.
    pub raw_mode: bool,
    /// Whether the view follows the end of the conversation.
    pub follow_mode: bool,
}

/// The state of the front end as specifications see it.
pub struct ViewStateView {
    pub input: Seq<char>,
    pub scroll: usize,
    pub log_scroll: usize,
    pub visible_height: u16,
    pub is_log_focused: bool,
    pub raw_mode: bool,
    pub follow_mode: bool,
}

impl View for ViewState {
    type V = ViewStateView;

    open spec fn view(&self) -> ViewStateView {
        ViewStateView {
            input: self.input@,
            scroll: self.scroll,
            log_scroll: self.log_scroll,
            visible_height: self.visible_height,
            is_log_focused: self.is_log_focused,
            raw_mode: self.raw_mode,
            follow_mode: self.follow_mode,
        }
    }
}

/// What the caller does after a key.
#[derive(Debug, PartialEq, Eq)]
pub enum KeyAction {
    /// Nothing but to draw again.
    Redraw,
    /// The application ends.
    Quit,
    /// The line that was typed is handed in.
    Submit(String),
}

/// An action as specifications see it.
pub enum KeyActionView {
    Redraw,
    Quit,
    Submit(Seq<char>),
}

impl View for KeyAction {
    type V = KeyActionView;

    open spec fn view(&self) -> KeyActionView {
        match *self {
            KeyAction::Redraw => KeyActionView::Redraw,
            KeyAction::Quit => KeyActionView::Quit,
            KeyAction::Submit(line) => KeyActionView::Submit(line@),
        }
    }
}

/// What a line of input asks for.
#[derive(Debug, PartialEq, Eq)]
pub enum Command {
    /// The line is a message to the backend.
    Message(String),
    Save,
    Quit,
    /// The level of logging is set; `None` where the line names none.
    LogLevel(Option<String>),
    SaveAll,
    /// The provider is changed; `None` where the line names none.
    Model(Option<String>),
    ToggleRaw,
    Reset,
    /// The topic is set; `None` where the line names none.
    Topic(Option<String>),
    /// The line is a command that is not known.
    Unknown(String),
}

/// A command as specifications see it.
pub enum CommandView {
    Message(Seq<char>),
    Save,
    Quit,
    LogLevel(Option<Seq<char>>),
    SaveAll,
    Model(Option<Seq<char>>),
    ToggleRaw,
    Reset,
    Topic(Option<Seq<char>>),
    Unknown(Seq<char>),
}

impl View for Command {
    type V = CommandView;

    open spec fn view(&self) -> CommandView {
        match *self {
            Command::Message(m) => CommandView::Message(m@),
            Command::Save => CommandView::Save,
            Command::Quit => CommandView::Quit,
            Command::LogLevel(l) => CommandView::LogLevel(text_view(l)),
            Command::SaveAll => CommandView::SaveAll,
            Command::Model(m) => CommandView::Model(text_view(m)),
            Command::ToggleRaw => CommandView::ToggleRaw,
            Command::Reset => CommandView::Reset,
            Command::Topic(t) => CommandView::Topic(text_view(t)),
            Command::Unknown(line) => CommandView::Unknown(line@),
        }
    }
}

/// `n - by`, or 0 where that is below 0.
pub open spec fn down_by(n: usize, by: usize) -> usize {
    if n >= by {
        (n - by) as usize
    } else {
        0
    }
}

/// `n + by`, or `usize::MAX` where that is above it.
pub open spec fn up_by(n: usize, by: usize) -> usize {
    if n + by <= usize::MAX {
        (n + by) as usize
    } else {
        usize::MAX
    }
}

/// The state after the key `key`.
pub open spec fn after_key(s: ViewStateView, key: Key) -> ViewStateView {
    match key {
        Key::Enter => ViewStateView { input: Seq::empty(), ..s },
        Key::Char(c) => ViewStateView { input: s.input.push(c), ..s },
        Key::Backspace => ViewStateView {
            input: if s.input.len() > 0 {
                s.input.drop_last()
            } else {
                s.input
            },
            ..s
        },
        Key::Up => if s.is_log_focused {
            ViewStateView { log_scroll: down_by(s.log_scroll, 1), ..s }
        } else {
            ViewStateView { scroll: down_by(s.scroll, 1), ..s }
        },
        Key::Down => if s.is_log_focused {
            ViewStateView { log_scroll: up_by(s.log_scroll, 1), ..s }
        } else {
            ViewStateView { scroll: up_by(s.scroll, 1), ..s }
        },
        Key::PageUp => if s.is_log_focused {
            s
        } else {
            ViewStateView { scroll: down_by(s.scroll, PAGE_UP_LINES), follow_mode: false, ..s }
        },
        Key::PageDown => if s.is_log_focused {
            s
        } else {
            ViewStateView { scroll: up_by(s.scroll, s.visible_height as usize), ..s }
        },
        Key::Tab => ViewStateView {
            is_log_focused: !s.is_log_focused,
            log_scroll: if !s.is_log_focused {
                usize::MAX
            } else {
                s.log_scroll
            },
            ..s
        },
        _ => s,
    }
}

/// What the caller does after the key `key`.
pub open spec fn action_of(s: ViewStateView, key: Key) -> KeyActionView {
    match key {
        Key::Esc => KeyActionView::Quit,
        Key::Enter => if s.input.len() > 0 {
            KeyActionView::Submit(s.input)
        } else {
            KeyActionView::Redraw
        },
        _ => KeyActionView::Redraw,
    }
}

/// `s` without the command marks at its start.
pub open spec fn without_marks(s: Seq<char>) -> Seq<char>
    decreases s.len(),
{
    if s.len() > 0 && s[0] == COMMAND_MARK {
        without_marks(s.skip(1))
    } else {
        s
    }
}

/// The word after the name of a command, if there is one.
pub open spec fn argument(parts: Seq<Seq<char>>) -> Option<Seq<char>> {
    if parts.len() > 1 {
        Some(parts[1])
    } else {
        None
    }
}

/// The words after the name of a command, separated by single spaces, if
/// there are any.
pub open spec fn arguments(parts: Seq<Seq<char>>) -> Option<Seq<char>> {
    if parts.len() > 1 {
        Some(joined(parts.skip(1), seq![' ']))
    } else {
        None
    }
}

/// What the command with the words `parts` asks for; `line` is the whole
/// line.
pub open spec fn command_of(parts: Seq<Seq<char>>, line: Seq<char>) -> CommandView {
    if parts.len() == 0 {
        CommandView::Unknown(line)
    } else if parts[0] == "save"@ {
        CommandView::Save
    } else if parts[0] == "quit"@ || parts[0] == "exit"@ {
        CommandView::Quit
    } else if parts[0] == "log"@ {
        CommandView::LogLevel(argument(parts))
    } else if parts[0] == "saveall"@ {
        CommandView::SaveAll
    } else if parts[0] == "model"@ {
        CommandView::Model(argument(parts))
    } else if parts[0] == "raw"@ {
        CommandView::ToggleRaw
    } else if parts[0] == "reset"@ {
        CommandView::Reset
    } else if parts[0] == "topic"@ {
        CommandView::Topic(arguments(parts))
    } else {
        CommandView::Unknown(line)
    }
}

/// What the line `line` asks for: a line that begins with the command mark
/// is a command, named by its first word after the marks; every other line
/// is a message.
pub open spec fn input_of(line: Seq<char>) -> CommandView {
    if line.len() > 0 && line[0] == COMMAND_MARK {
        command_of(words(without_marks(line)), line)
    } else {
        CommandView::Message(line)
    }
}

/// The furthest that a view of `visible` lines scrolls into `total` lines.
pub open spec fn max_scroll(total: usize, visible: usize) -> usize {
    down_by(total, visible)
}

/// Where a view stands that was asked to stand at `scroll`: at the end
/// where `scroll` stands for the end or lies beyond it.
pub open spec fn clamped(scroll: usize, total: usize, visible: usize) -> usize {
    if scroll == usize::MAX || scroll > max_scroll(total, visible) {
        max_scroll(total, visible)
    } else {
        scroll
    }
}

/// The lines of a log of `count` lines that a view of `height` lines shows
/// from the line `scroll` on: from the first of the pair up to the second.
pub open spec fn window(count: usize, scroll: usize, height: usize) -> (usize, usize) {
    if scroll >= count {
        (count, count)
    } else if height >= count - scroll {
        (scroll, count)
    } else {
        (scroll, (scroll + height) as usize)
    }
}

/// The log after the line `line` was added under the limit `max_lines`: a
/// log that held more lines than the limit keeps the last `max_lines` of
/// them besides the new one.
pub open spec fn with_log_line(log: Seq<Seq<char>>, max_lines: usize, line: Seq<char>) -> Seq<
    Seq<char>,
> {
    if log.len() > max_lines {
        log.push(line).skip(log.len() - max_lines)
    } else {
        log.push(line)
    }
}

/// Takes in a key.
pub fn on_key(state: &mut ViewState, key: Key) -> (action: KeyAction)
    ensures
        final(state)@ == after_key(old(state)@, key),
        action@ == action_of(old(state)@, key),
{
    match key {
        Key::Esc => KeyAction::Quit,
        Key::Enter => {
            let mut line = String::new();
            core::mem::swap(&mut state.input, &mut line);
            if chars_of(line.as_str()).len() > 0 {
                KeyAction::Submit(line)
            } else {
                KeyAction::Redraw
            }
        },
        Key::Char(c) => {
            state.input.push(c);
            KeyAction::Redraw
        },
        Key::Backspace => {
            let chars = chars_of(state.input.as_str());
            if chars.len() > 0 {
                state.input = text_of(&slice(&chars, 0, chars.len() - 1));
            }
            KeyAction::Redraw
        },
        Key::Up => {
            if state.is_log_focused {
                state.log_scroll = lower(state.log_scroll, 1);
            } else {
                state.scroll = lower(state.scroll, 1);
            }
            KeyAction::Redraw
        },
        Key::Down => {
            if state.is_log_focused {
                state.log_scroll = raise(state.log_scroll, 1);
            } else {
                state.scroll = raise(state.scroll, 1);
            }
            KeyAction::Redraw
        },
        Key::PageUp => {
            if !state.is_log_focused {
                state.scroll = lower(state.scroll, PAGE_UP_LINES);
                state.follow_mode = false;
            }
            KeyAction::Redraw
        },
        Key::PageDown => {
            if !state.is_log_focused {
                state.scroll = raise(state.scroll, state.visible_height as usize);
            }
            KeyAction::Redraw
        },
        Key::Tab => {
            state.is_log_focused = !state.is_log_focused;
            if state.is_log_focused {
                state.log_scroll = usize::MAX;
            }
            KeyAction::Redraw
        },
        Key::Other => KeyAction::Redraw,
    }
}

/// `n - by`, or 0 where that is below 0.
pub fn lower(n: usize, by: usize) -> (r: usize)
    ensures
        r == down_by(n, by),
{
    if n >= by {
        n - by
    } else {
        0
    }
}

/// `n + by`, or `usize::MAX` where that is above it.
pub fn raise(n: usize, by: usize) -> (r: usize)
    ensures
        r == up_by(n, by),
{
    if by <= usize::MAX - n {
        n + by
    } else {
        usize::MAX
    }
}

/// A copy of the row `i` of `parts` as a text.
fn word_at(parts: &Vec<Vec<char>>, i: usize) -> (r: String)
    requires
        i < parts.len(),
    ensures
        r@ == rows(parts@)[i as int],
{
    text_of(&parts[i])
}

/// The word after the name of a command.
fn argument_of(parts: &Vec<Vec<char>>) -> (r: Option<String>)
    ensures
        text_view(r) == argument(rows(parts@)),
{
    if parts.len() > 1 {
        Some(word_at(parts, 1))
    } else {
        None
    }
}

/// The words after the name of a command, separated by single spaces.
fn arguments_of(parts: &Vec<Vec<char>>) -> (r: Option<String>)
    ensures
        text_view(r) == arguments(rows(parts@)),
{
    if parts.len() > 1 {
        let mut rest: Vec<Vec<char>> = Vec::new();
        let mut i: usize = 1;
        while i < parts.len()
            invariant
                1 <= i <= parts.len(),
                rows(rest@) == rows(parts@).skip(1).take(i - 1),
            decreases parts.len() - i,
        {
            let ghost before = rows(rest@);
            let word = slice(&parts[i], 0, parts[i].len());
            proof {
                assert(word@ == parts@[i as int]@);
            }
            rest.push(word);
            proof {
                assert(rows(rest@) == before.push(parts@[i as int]@));
            }
            i += 1;
        }
        proof {
            assert(rows(parts@).skip(1).take(i - 1) == rows(parts@).skip(1));
        }
        let mut space: Vec<char> = Vec::new();
        space.push(' ');
        proof {
            assert(space@ == seq![' ']);
        }
        Some(text_of(&join(&rest, &space)))
    } else {
        None
    }
}

/// What the line `line` asks for.
pub fn parse_input(line: &str) -> (r: Command)
    ensures
        r@ == input_of(line@),
{
    let chars = chars_of(line);
    if chars.len() == 0 || chars[0] != COMMAND_MARK {
        return Command::Message(line.to_owned());
    }
    let mut start: usize = 0;
    proof {
        assert(chars@.skip(0) == chars@);
    }
    while start < chars.len() && chars[start] == COMMAND_MARK
        invariant
            start <= chars.len(),
            without_marks(chars@) == without_marks(chars@.skip(start as int)),
        decreases chars.len() - start,
    {
        proof {
            assert(chars@.skip(start as int).skip(1) == chars@.skip(start + 1));
        }
        start += 1;
    }
    proof {
        assert(chars@.skip(start as int) == chars@.subrange(start as int, chars@.len() as int));
    }
    let parts = split_words(&slice(&chars, start, chars.len()));
    if parts.len() == 0 {
        return Command::Unknown(line.to_owned());
    }
    proof {
        assert(rows(parts@)[0] == parts@[0]@);
    }
    let name = &parts[0];
    if equals(name, &chars_of("save")) {
        Command::Save
    } else if equals(name, &chars_of("quit")) || equals(name, &chars_of("exit")) {
        Command::Quit
    } else if equals(name, &chars_of("log")) {
        Command::LogLevel(argument_of(&parts))
    } else if equals(name, &chars_of("saveall")) {
        Command::SaveAll
    } else if equals(name, &chars_of("model")) {
        Command::Model(argument_of(&parts))
    } else if equals(name, &chars_of("raw")) {
        Command::ToggleRaw
    } else if equals(name, &chars_of("reset")) {
        Command::Reset
    } else if equals(name, &chars_of("topic")) {
        Command::Topic(arguments_of(&parts))
    } else {
        Command::Unknown(line.to_owned())
    }
}

/// Where a view of `visible` lines stands in `total` lines that was asked to
/// stand at `scroll`.
pub fn clamp_scroll(scroll: usize, total: usize, visible: usize) -> (r: usize)
    ensures
        r == clamped(scroll, total, visible),
        r <= max_scroll(total, visible),
{
    let max = lower(total, visible);
    if scroll == usize::MAX || scroll > max {
        max
    } else {
        scroll
    }
}

/// The lines of a log of `count` lines that a view of `height` lines shows
/// from the line `scroll` on.
pub fn log_window(count: usize, scroll: usize, height: usize) -> (r: (usize, usize))
    ensures
        r == window(count, scroll, height),
        r.0 <= r.1 <= count,
        r.1 - r.0 <= height,
{
    if scroll >= count {
        (count, count)
    } else if height >= count - scroll {
        (scroll, count)
    } else {
        (scroll, scroll + height)
    }
}

/// Adds a line to the log under the limit `max_lines`.
pub fn push_log_line(log: &mut Vec<String>, max_lines: usize, line: String)
    ensures
        texts(final(log)@) == with_log_line(
            texts(old(log)@),
            max_lines,
            line@,
        ),
{
    let ghost before = texts(log@);
    let len = log.len();
    log.push(line);
    proof {
        assert(texts(log@) == before.push(line@));
    }
    if len > max_lines {
        let kept = log.split_off(len - max_lines);
        *log = kept;
        proof {
            assert(texts(log@) == before.push(line@).skip(len - max_lines));
        }
    }
}

/// The label before a message of the role `role`.
pub fn role_label(role: &str) -> (r: &'static str)
    ensures
        r@ == if role@ == "assistant"@ {
            "Assistant: "@
        } else if role@ == "user"@ {
            "User: "@
        } else {
            "System: "@
        },
{
    let name = chars_of(role);
    if equals(&name, &chars_of("assistant")) {
        "Assistant: "
    } else if equals(&name, &chars_of("user")) {
        "User: "
    } else {
        "System: "
    }
}

/// What the status line says of the raw mode after it was switched.
pub fn raw_mode_message(enabled: bool) -> (r: &'static str)
    ensures
        r@ == if enabled {
            "Raw mode enabled"@
        } else {
            "Raw mode disabled"@
        },
{
    if enabled {
        "Raw mode enabled"
    } else {
        "Raw mode disabled"
    }
}

/// The status line for the provider `provider` and the topic `topic`.
pub fn status_line(provider: &str, topic: &str) -> (r: String)
    ensures
        r@ == "Provider: "@ + provider@ + " | Topic: "@ + topic@,
{
    let mut out = String::new();
    push_text(&mut out, "Provider: ");
    push_text(&mut out, provider);
    push_text(&mut out, " | Topic: ");
    push_text(&mut out, topic);
    out
}

} // verus!
