//! What a key press does on each screen: the state of the screens and the
//! work that the program is asked to do outside.
use vstd::prelude::*;
use crate::tui::Scroll;
use crate::tui::effective_of;
use crate::tui::scrolled_up;
use crate::tui::scrolled_down;
use crate::tui::to_bottom;
use crate::text::trim;
use crate::text::trim_str;
use crate::text::str_eq;
use crate::text::starts_with_str;
use crate::text::has_prefix;
use crate::text::to_owned_string;
use crate::text::concat2;

verus! {

/// A key, as the screens tell keys apart.
#[derive(Clone, Copy, Debug, PartialEq, Eq, Structural)]
pub enum Key {
    Up,
    Down,
    PageUp,
    PageDown,
    End,
    Enter,
    Esc,
    Backspace,
    Char(char),
    Other,
}

/// The modifier keys held with a key.
#[derive(Clone, Copy, Debug, PartialEq, Eq, Structural)]
pub struct Modifiers {
    pub control: bool,
    pub shift: bool,
    pub super_key: bool,
}

/// The screens of the program.
#[derive(Clone, Copy, Debug, PartialEq, Eq, Structural)]
pub enum Screen {
    ProviderSelect,
    ModelSelect,
    Chat,
}

/// A command typed after a slash.
pub enum SlashCommand {
    Help,
    Copy,
    Quit,
    Clear,
    Model,
    Provider,
    Reindex,
    Undo,
    Unknown(String),
}

/// A slash command as data.
pub ghost enum SlashView {
    Help,
    Copy,
    Quit,
    Clear,
    Model,
    Provider,
    Reindex,
    Undo,
    Unknown(Seq<char>),
}

impl View for SlashCommand {
    type V = SlashView;

    open spec fn view(&self) -> SlashView {
        match self {
            SlashCommand::Help => SlashView::Help,
            SlashCommand::Copy => SlashView::Copy,
            SlashCommand::Quit => SlashView::Quit,
            SlashCommand::Clear => SlashView::Clear,
            SlashCommand::Model => SlashView::Model,
            SlashCommand::Provider => SlashView::Provider,
            SlashCommand::Reindex => SlashView::Reindex,
            SlashCommand::Undo => SlashView::Undo,
            SlashCommand::Unknown(s) => SlashView::Unknown(s@),
        }
    }
}

/// The command a line names.
pub open spec fn slash_of(cmd: Seq<char>) -> SlashView {
    if cmd == "/help"@ {
        SlashView::Help
    } else if cmd == "/copy"@ {
        SlashView::Copy
    } else if cmd == "/quit"@ {
        SlashView::Quit
    } else if cmd == "/clear"@ {
        SlashView::Clear
    } else if cmd == "/model"@ {
        SlashView::Model
    } else if cmd == "/provider"@ {
        SlashView::Provider
    } else if cmd == "/reindex"@ {
        SlashView::Reindex
    } else if cmd == "/undo"@ {
        SlashView::Undo
    } else {
        SlashView::Unknown(cmd)
    }
}

/// The command a line names (see `slash_of`).
pub fn parse_slash(cmd: &str) -> (r: SlashCommand)
    ensures
        r@ == slash_of(cmd@),
{
    if str_eq(cmd, "/help") {
        SlashCommand::Help
    } else if str_eq(cmd, "/copy") {
        SlashCommand::Copy
    } else if str_eq(cmd, "/quit") {
        SlashCommand::Quit
    } else if str_eq(cmd, "/clear") {
        SlashCommand::Clear
    } else if str_eq(cmd, "/model") {
        SlashCommand::Model
    } else if str_eq(cmd, "/provider") {
        SlashCommand::Provider
    } else if str_eq(cmd, "/reindex") {
        SlashCommand::Reindex
    } else if str_eq(cmd, "/undo") {
        SlashCommand::Undo
    } else {
        SlashCommand::Unknown(to_owned_string(cmd))
    }
}

/// The text that `/help` shows.
pub fn help_text() -> (r: &'static str)
    ensures
        r@ == "commands: /help /copy /model /provider /clear /reindex /undo /quit · ⌘C or Ctrl+Shift+C copies transcript"@,
{
    "commands: /help /copy /model /provider /clear /reindex /undo /quit · ⌘C or Ctrl+Shift+C copies transcript"
}

/// The line that an unknown command shows.
pub fn unknown_command_text(cmd: &str) -> (r: String)
    ensures
        r@ == "unknown command: "@ + cmd@,
{
    concat2("unknown command: ", cmd)
}

/// The line that shows a message the user sent.
pub fn user_line_text(msg: &str) -> (r: String)
    ensures
        r@ == "› "@ + msg@,
{
    concat2("› ", msg)
}

/// Work that a key asks the program to do outside the screens' state.
pub enum KeyAction {
    Nothing,
    /// Use the provider at this position of the list and fetch its models.
    ChooseProvider(usize),
    /// Stop waiting for the model list.
    CancelModelFetch,
    /// Use the model at this position of the list, start the agent and clear the chat.
    ChooseModel(usize),
    /// Keep the change shown in the diff.
    KeepDiff,
    /// Revert the change shown in the diff.
    RevertDiff,
    /// Copy the transcript.
    CopyTranscript,
    /// Run a slash command.
    Command(SlashCommand),
    /// Show the message and send it to the agent.
    SendMessage(String),
}

/// An action as data.
pub ghost enum ActionView {
    Nothing,
    ChooseProvider(usize),
    CancelModelFetch,
    ChooseModel(usize),
    KeepDiff,
    RevertDiff,
    CopyTranscript,
    Command(SlashView),
    SendMessage(Seq<char>),
}

impl View for KeyAction {
    type V = ActionView;

    open spec fn view(&self) -> ActionView {
        match self {
            KeyAction::Nothing => ActionView::Nothing,
            KeyAction::ChooseProvider(i) => ActionView::ChooseProvider(*i),
            KeyAction::CancelModelFetch => ActionView::CancelModelFetch,
            KeyAction::ChooseModel(i) => ActionView::ChooseModel(*i),
            KeyAction::KeepDiff => ActionView::KeepDiff,
            KeyAction::RevertDiff => ActionView::RevertDiff,
            KeyAction::CopyTranscript => ActionView::CopyTranscript,
            KeyAction::Command(c) => ActionView::Command(c@),
            KeyAction::SendMessage(s) => ActionView::SendMessage(s@),
        }
    }
}

/// The state of the screens that keys change.
pub struct UiState {
    pub screen: Screen,
    pub should_quit: bool,
    pub provider_cursor: usize,
    pub provider_count: usize,
    pub model_cursor: usize,
    pub model_count: usize,
    pub model_loading: bool,
    pub input: String,
    pub agent_running: bool,
    pub agent_ready: bool,
    pub diff_open: bool,
    pub scroll: Scroll,
}

/// The state of the screens as data.
pub ghost struct UiView {
    pub screen: Screen,
    pub should_quit: bool,
    pub provider_cursor: usize,
    pub provider_count: usize,
    pub model_cursor: usize,
    pub model_count: usize,
    pub model_loading: bool,
    pub input: Seq<char>,
    pub agent_running: bool,
    pub agent_ready: bool,
    pub diff_open: bool,
    pub scroll: Scroll,
}

impl View for UiState {
    type V = UiView;

    open spec fn view(&self) -> UiView {
        UiView {
            screen: self.screen,
            should_quit: self.should_quit,
            provider_cursor: self.provider_cursor,
            provider_count: self.provider_count,
            model_cursor: self.model_cursor,
            model_count: self.model_count,
            model_loading: self.model_loading,
            input: self.input@,
            agent_running: self.agent_running,
            agent_ready: self.agent_ready,
            diff_open: self.diff_open,
            scroll: self.scroll,
        }
    }
}

/// A key moves up a list: the up arrow or `k`.
pub open spec fn is_up(k: Key) -> bool {
    k == Key::Up || k == Key::Char('k')
}

/// A key moves down a list: the down arrow or `j`.
pub open spec fn is_down(k: Key) -> bool {
    k == Key::Down || k == Key::Char('j')
}

/// `c` or `C`.
pub open spec fn is_c(k: Key) -> bool {
    k == Key::Char('c') || k == Key::Char('C')
}

/// On the provider list: move, choose (and wait for models), or quit.
pub open spec fn provider_step(s: UiView, k: Key) -> (UiView, ActionView) {
    if is_up(k) {
        (UiView { provider_cursor: if s.provider_cursor > 0 { (s.provider_cursor - 1) as usize } else { s.provider_cursor }, ..s }, ActionView::Nothing)
    } else if is_down(k) {
        (UiView { provider_cursor: if s.provider_cursor + 1 < s.provider_count { (s.provider_cursor + 1) as usize } else { s.provider_cursor }, ..s }, ActionView::Nothing)
    } else if k == Key::Enter {
        (
            UiView { model_loading: true, model_count: 0, model_cursor: 0, screen: Screen::ModelSelect, ..s },
            ActionView::ChooseProvider(s.provider_cursor),
        )
    } else if k == Key::Esc {
        (UiView { should_quit: true, ..s }, ActionView::Nothing)
    } else {
        (s, ActionView::Nothing)
    }
}

/// On the model list: while models load only Esc goes back; else move,
/// choose (starting the agent and the chat), or go back.
pub open spec fn model_step(s: UiView, k: Key) -> (UiView, ActionView) {
    if s.model_loading {
        if k == Key::Esc {
            (UiView { model_loading: false, screen: Screen::ProviderSelect, ..s }, ActionView::CancelModelFetch)
        } else {
            (s, ActionView::Nothing)
        }
    } else if is_up(k) {
        (UiView { model_cursor: if s.model_cursor > 0 { (s.model_cursor - 1) as usize } else { s.model_cursor }, ..s }, ActionView::Nothing)
    } else if is_down(k) {
        (UiView { model_cursor: if s.model_cursor + 1 < s.model_count { (s.model_cursor + 1) as usize } else { s.model_cursor }, ..s }, ActionView::Nothing)
    } else if k == Key::Enter {
        if s.model_count == 0 {
            (s, ActionView::Nothing)
        } else {
            (UiView { agent_running: true, screen: Screen::Chat, ..s }, ActionView::ChooseModel(s.model_cursor))
        }
    } else if k == Key::Esc {
        (UiView { screen: Screen::ProviderSelect, ..s }, ActionView::Nothing)
    } else {
        (s, ActionView::Nothing)
    }
}

/// The rows a page holds: the view's height, at least one.
pub open spec fn page_of(s: Scroll) -> nat {
    if s.view_height >= 1 { s.view_height as nat } else { 1 }
}

/// In the chat: ⌘C or Ctrl+Shift+C copies; arrows, pages and End scroll;
/// while the agent runs nothing else; Esc quits, Backspace deletes, Enter
/// sends the trimmed input (a slash command runs, a message goes to a
/// ready agent), any other character is typed.
pub open spec fn chat_step(s: UiView, k: Key, m: Modifiers) -> (UiView, ActionView) {
    if is_c(k) && (m.super_key || (m.control && m.shift)) {
        (s, ActionView::CopyTranscript)
    } else if k == Key::PageUp {
        (UiView { scroll: scrolled_up(s.scroll, page_of(s.scroll)), ..s }, ActionView::Nothing)
    } else if k == Key::PageDown {
        (UiView { scroll: scrolled_down(s.scroll, page_of(s.scroll)), ..s }, ActionView::Nothing)
    } else if k == Key::Up {
        (UiView { scroll: scrolled_up(s.scroll, 1), ..s }, ActionView::Nothing)
    } else if k == Key::Down {
        (UiView { scroll: scrolled_down(s.scroll, 1), ..s }, ActionView::Nothing)
    } else if k == Key::End {
        (UiView { scroll: to_bottom(s.scroll), ..s }, ActionView::Nothing)
    } else if s.agent_running {
        (s, ActionView::Nothing)
    } else if k == Key::Esc {
        (UiView { should_quit: true, ..s }, ActionView::Nothing)
    } else if k == Key::Backspace {
        (UiView { input: if s.input.len() > 0 { s.input.drop_last() } else { s.input }, ..s }, ActionView::Nothing)
    } else if k == Key::Enter {
        let raw = trim(s.input);
        if raw.len() == 0 {
            (s, ActionView::Nothing)
        } else if has_prefix(raw, "/"@) {
            (UiView { input: Seq::empty(), ..s }, ActionView::Command(slash_of(raw)))
        } else if !s.agent_ready {
            (UiView { input: Seq::empty(), ..s }, ActionView::Nothing)
        } else {
            (
                UiView {
                    input: Seq::empty(),
                    agent_running: true,
                    scroll: Scroll { scroll_offset: usize::MAX, ..s.scroll },
                    ..s
                },
                ActionView::SendMessage(raw),
            )
        }
    } else {
        match k {
            Key::Char(c) => (UiView { input: s.input.push(c), ..s }, ActionView::Nothing),
            _ => (s, ActionView::Nothing),
        }
    }
}

/// In the diff shown over the chat: `y` or Enter keeps, `n` or Esc reverts.
pub open spec fn diff_step(s: UiView, k: Key) -> (UiView, ActionView) {
    if k == Key::Char('y') || k == Key::Enter {
        (UiView { diff_open: false, ..s }, ActionView::KeepDiff)
    } else if k == Key::Char('n') || k == Key::Esc {
        (UiView { diff_open: false, ..s }, ActionView::RevertDiff)
    } else {
        (s, ActionView::Nothing)
    }
}

/// A key press: Ctrl+C (without Shift) quits anywhere; otherwise the
/// screen, or the diff over the chat, decides.
pub open spec fn key_step(s: UiView, k: Key, m: Modifiers) -> (UiView, ActionView) {
    if m.control && !m.shift && is_c(k) {
        (UiView { should_quit: true, ..s }, ActionView::Nothing)
    } else {
        match s.screen {
            Screen::ProviderSelect => provider_step(s, k),
            Screen::ModelSelect => model_step(s, k),
            Screen::Chat => if s.diff_open {
                diff_step(s, k)
            } else {
                chat_step(s, k, m)
            },
        }
    }
}

/// A key that scrolls the chat down does not run the offset past the
/// largest number: the down arrow by one row, Page Down by a page.
pub open spec fn scroll_ok(s: UiView, k: Key) -> bool {
    &&& k == Key::Down ==> effective_of(s.scroll) + 1 <= usize::MAX
    &&& k == Key::PageDown ==> effective_of(s.scroll) + page_of(s.scroll) <= usize::MAX
}

/// A key press can be handled: on the chat, with no diff shown, its
/// scrolling stays within the numbers (see `scroll_ok`).
pub open spec fn key_ok(s: UiView, k: Key) -> bool {
    (s.screen == Screen::Chat && !s.diff_open) ==> scroll_ok(s, k)
}

impl UiState {
    /// The provider list, before anything was chosen.
    pub fn new(provider_count: usize) -> (r: UiState)
        ensures
            r@.screen == Screen::ProviderSelect,
            !r@.should_quit,
            r@.provider_cursor == 0,
            r@.provider_count == provider_count,
            r@.model_count == 0,
            !r@.model_loading,
            r@.input.len() == 0,
            !r@.agent_running,
            !r@.agent_ready,
            !r@.diff_open,
            r@.scroll.scroll_offset == usize::MAX,
    {
        UiState {
            screen: Screen::ProviderSelect,
            should_quit: false,
            provider_cursor: 0,
            provider_count,
            model_cursor: 0,
            model_count: 0,
            model_loading: false,
            input: String::new(),
            agent_running: false,
            agent_ready: false,
            diff_open: false,
            scroll: Scroll::new(),
        }
    }

    fn provider_key(&mut self, k: Key) -> (r: KeyAction)
        ensures
            (final(self)@, r@) == provider_step(old(self)@, k),
    {
        if k == Key::Up || k == Key::Char('k') {
            if self.provider_cursor > 0 {
                self.provider_cursor = self.provider_cursor - 1;
            }
            KeyAction::Nothing
        } else if k == Key::Down || k == Key::Char('j') {
            if self.provider_cursor < usize::MAX && self.provider_cursor + 1 < self.provider_count {
                self.provider_cursor = self.provider_cursor + 1;
            }
            KeyAction::Nothing
        } else if k == Key::Enter {
            self.model_loading = true;
            self.model_count = 0;
            self.model_cursor = 0;
            self.screen = Screen::ModelSelect;
            KeyAction::ChooseProvider(self.provider_cursor)
        } else if k == Key::Esc {
            self.should_quit = true;
            KeyAction::Nothing
        } else {
            KeyAction::Nothing
        }
    }

    fn model_key(&mut self, k: Key) -> (r: KeyAction)
        ensures
            (final(self)@, r@) == model_step(old(self)@, k),
    {
        if self.model_loading {
            if k == Key::Esc {
                self.model_loading = false;
                self.screen = Screen::ProviderSelect;
                return KeyAction::CancelModelFetch;
            }
            return KeyAction::Nothing;
        }
        if k == Key::Up || k == Key::Char('k') {
            if self.model_cursor > 0 {
                self.model_cursor = self.model_cursor - 1;
            }
            KeyAction::Nothing
        } else if k == Key::Down || k == Key::Char('j') {
            if self.model_cursor < usize::MAX && self.model_cursor + 1 < self.model_count {
                self.model_cursor = self.model_cursor + 1;
            }
            KeyAction::Nothing
        } else if k == Key::Enter {
            if self.model_count == 0 {
                return KeyAction::Nothing;
            }
            self.agent_running = true;
            self.screen = Screen::Chat;
            KeyAction::ChooseModel(self.model_cursor)
        } else if k == Key::Esc {
            self.screen = Screen::ProviderSelect;
            KeyAction::Nothing
        } else {
            KeyAction::Nothing
        }
    }

    fn chat_key(&mut self, k: Key, m: Modifiers) -> (r: KeyAction)
        requires
            scroll_ok(old(self)@, k),
        ensures
            (final(self)@, r@) == chat_step(old(self)@, k, m),
    {
        if (k == Key::Char('c') || k == Key::Char('C')) && (m.super_key || (m.control && m.shift)) {
            return KeyAction::CopyTranscript;
        }
        let page = if self.scroll.view_height >= 1 { self.scroll.view_height } else { 1 };
        if k == Key::PageUp {
            self.scroll.scroll_up(page);
            return KeyAction::Nothing;
        }
        if k == Key::PageDown {
            self.scroll.scroll_down(page);
            return KeyAction::Nothing;
        }
        if k == Key::Up {
            self.scroll.scroll_up(1);
            return KeyAction::Nothing;
        }
        if k == Key::Down {
            self.scroll.scroll_down(1);
            return KeyAction::Nothing;
        }
        if k == Key::End {
            self.scroll.scroll_to_bottom();
            return KeyAction::Nothing;
        }
        if self.agent_running {
            return KeyAction::Nothing;
        }
        if k == Key::Esc {
            self.should_quit = true;
            return KeyAction::Nothing;
        }
        if k == Key::Backspace {
            let ghost before = self.input@;
            if self.input.as_str().unicode_len() > 0 {
                let v = crate::text::chars_of(self.input.as_str());
                let t = crate::text::string_from_range(&v, 0, v.len() - 1);
                self.input = t;
                assert(self.input@ =~= before.drop_last());
            }
            return KeyAction::Nothing;
        }
        if k == Key::Enter {
            let raw = to_owned_string(trim_str(self.input.as_str()));
            if raw.as_str().is_empty() {
                return KeyAction::Nothing;
            }
            self.input = String::new();
            if starts_with_str(raw.as_str(), "/") {
                let cmd = parse_slash(raw.as_str());
                return KeyAction::Command(cmd);
            }
            if !self.agent_ready {
                return KeyAction::Nothing;
            }
            self.scroll.scroll_offset = usize::MAX;
            self.agent_running = true;
            return KeyAction::SendMessage(raw);
        }
        match k {
            Key::Char(c) => {
                crate::text::push_char(&mut self.input, c);
                KeyAction::Nothing
            },
            _ => KeyAction::Nothing,
        }
    }

    /// What a key press does (see `key_step`).
    pub fn handle_key(&mut self, k: Key, m: Modifiers) -> (r: KeyAction)
        requires
            key_ok(old(self)@, k),
        ensures
            (final(self)@, r@) == key_step(old(self)@, k, m),
    {
        if m.control && !m.shift && (k == Key::Char('c') || k == Key::Char('C')) {
            self.should_quit = true;
            return KeyAction::Nothing;
        }
        match self.screen {
            Screen::ProviderSelect => self.provider_key(k),
            Screen::ModelSelect => self.model_key(k),
            Screen::Chat => {
                if self.diff_open {
                    if k == Key::Char('y') || k == Key::Enter {
                        self.diff_open = false;
                        KeyAction::KeepDiff
                    } else if k == Key::Char('n') || k == Key::Esc {
                        self.diff_open = false;
                        KeyAction::RevertDiff
                    } else {
                        KeyAction::Nothing
                    }
                } else {
                    self.chat_key(k, m)
                }
            },
        }
    }
}

} // verus!
