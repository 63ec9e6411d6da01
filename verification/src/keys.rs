//! Keyboard and paste handling: from the current state and an input event
//! to the next state and what the surroundings should do.

use vstd::prelude::*;
use crate::display::{spec_update_chat_search, spec_update_emoji_search};
use crate::attachments::{spec_queue_picker_attachment, spec_queue_selected_attachment};
use crate::helpers::{spec_word_left, spec_word_right, word_left, word_right};
use crate::model::{FocusedPane, LoginFields, MainState, MainView, PickerView, EmojiPickerState, view_wf};
use crate::navigation::{
    is_page_query, spec_enter_messages_pane, spec_message_down, spec_message_up, spec_navigate,
    spec_next_chat, spec_previous_chat, MessageRequest,
};
use crate::responses::elapsed;
use crate::text::{pop_char, push_char, string_of_vec, insert_chars, seq_insert_at};

verus! {

/// A key as the client distinguishes keys.
#[derive(Debug, Clone, Copy, PartialEq, Eq, Structural)]
pub enum KeyCode {
    Char(char),
    Enter,
    Esc,
    Tab,
    Up,
    Down,
    Left,
    Right,
    Backspace,
    Other,
}

/// Modifier keys held with a key.
#[derive(Debug, Clone, Copy, PartialEq, Eq, Structural)]
pub struct KeyModifiers {
    pub shift: bool,
    pub control: bool,
    pub alt: bool,
}

/// What the surroundings should do after a key.
pub enum KeyAction {
    Nothing,
    /// Leave the application.
    Quit,
    /// Try to sign in with these settings.
    AttemptLogin { host: String, password: String, send_method: String },
    /// Send this request for older messages.
    LoadMore(MessageRequest),
    /// Point the file chooser at the working directory and list it.
    ResetFileChooser,
    /// List the file chooser's directory again (its filter changed).
    ReloadFileChooser,
    /// The user picked this file chooser entry: a directory is entered, a file attached.
    OpenChooserEntry(String),
}

/// Abstract view of a key action.
pub enum ActionView {
    Nothing,
    Quit,
    AttemptLogin(Seq<char>, Seq<char>, Seq<char>),
    LoadMore(Seq<char>, u64),
    ResetFileChooser,
    ReloadFileChooser,
    OpenChooserEntry(Seq<char>),
}

/// Does `a` carry out what `v` describes?
pub open spec fn action_is(a: KeyAction, v: ActionView) -> bool {
    match (a, v) {
        (KeyAction::Nothing, ActionView::Nothing) => true,
        (KeyAction::Quit, ActionView::Quit) => true,
        (KeyAction::AttemptLogin { host, password, send_method }, ActionView::AttemptLogin(h, p, s)) =>
            host@ == h && password@ == p && send_method@ == s,
        (KeyAction::LoadMore(req), ActionView::LoadMore(g, b)) => req.chat_guid@ == g && is_page_query(req.query, g, Some(b)),
        (KeyAction::ResetFileChooser, ActionView::ResetFileChooser) => true,
        (KeyAction::ReloadFileChooser, ActionView::ReloadFileChooser) => true,
        (KeyAction::OpenChooserEntry(p), ActionView::OpenChooserEntry(q)) => p@ == q,
        _ => false,
    }
}

/// Terminals without keyboard enhancement send Shift+2 as `@`; with it they
/// send `2` with Shift.  Both mean `@`.
pub open spec fn spec_resolve_char(c: char, mods: KeyModifiers) -> char {
    if c == '2' && mods.shift { '@' } else { c }
}

/// The character a key press types.
pub fn resolve_char(c: char, mods: KeyModifiers) -> (r: char)
    ensures
        r == spec_resolve_char(c, mods),
{
    if c == '2' && mods.shift { '@' } else { c }
}

/// The client after any key or paste at `now`: activity is recorded and
/// shown in-terminal notifications start fading.
pub open spec fn spec_touch(m: MainView, now: u64) -> MainView {
    MainView {
        last_activity: now,
        notification_fade_start: if m.tui_notifications.len() > 0 && m.notification_fade_start is None {
            Some(now)
        } else {
            m.notification_fade_start
        },
        ..m
    }
}

/// The compose text with `c` typed at the cursor.
pub open spec fn spec_type_char(m: MainView, c: char) -> MainView {
    MainView {
        compose_text: m.compose_text.insert(m.compose_cursor as int, c),
        compose_cursor: (m.compose_cursor + 1) as usize,
        ..m
    }
}

/// The compose text with the character before the cursor deleted (if any).
pub open spec fn spec_delete_back(m: MainView) -> MainView {
    if m.compose_cursor > 0 {
        MainView {
            compose_text: m.compose_text.remove(m.compose_cursor - 1),
            compose_cursor: (m.compose_cursor - 1) as usize,
            ..m
        }
    } else {
        m
    }
}

/// The compose text with up to `k` characters before the cursor deleted.
pub open spec fn spec_delete_back_n(m: MainView, k: nat) -> MainView
    decreases k,
{
    if k == 0 { m } else { spec_delete_back_n(spec_delete_back(m), (k - 1) as nat) }
}


/// Enter in the emoji picker: the typed `:query` is replaced by the
/// highlighted emoji and the picker closes.
pub open spec fn spec_emoji_enter(m: MainView) -> MainView {
    match m.emoji_picker {
        Some(p) => {
            let m1 = MainView { emoji_picker: None, ..m };
            let m2 = if p.selected < p.results.len() {
                let g = m.emoji_catalog[p.results[p.selected as int] as int].glyph;
                let m3 = spec_delete_back_n(m1, p.query.len() + 1);
                MainView {
                    compose_text: seq_insert_at(m3.compose_text, m3.compose_cursor as int, g),
                    compose_cursor: (m3.compose_cursor + g.len()) as usize,
                    ..m3
                }
            } else {
                m1
            };
            MainView { focused_pane: FocusedPane::Messages, ..m2 }
        },
        None => m,
    }
}

/// Backspace in the emoji picker: deletes in the compose text and shortens the
/// query; with an empty query the picker closes.
pub open spec fn spec_emoji_backspace(m: MainView) -> MainView {
    match m.emoji_picker {
        Some(p) => {
            let m1 = spec_delete_back(m);
            if p.query.len() == 0 {
                MainView { emoji_picker: None, focused_pane: FocusedPane::Messages, ..m1 }
            } else {
                spec_update_emoji_search(MainView { emoji_picker: Some(PickerView { query: p.query.drop_last(), ..p }), ..m1 })
            }
        },
        None => m,
    }
}

/// Typing `c` in the emoji picker: it goes into the compose text and the
/// query; a space closes the picker.
pub open spec fn spec_emoji_char(m: MainView, c: char) -> MainView {
    let m1 = if c == ' ' { MainView { emoji_picker: None, focused_pane: FocusedPane::Messages, ..m } } else { m };
    let m2 = spec_type_char(m1, c);
    match m2.emoji_picker {
        Some(p) => if c != ' ' {
            spec_update_emoji_search(MainView { emoji_picker: Some(PickerView { query: p.query.push(c), ..p }), ..m2 })
        } else { m2 },
        None => m2,
    }
}

/// Emoji picker keys.
pub open spec fn spec_emoji_key(m: MainView, code: KeyCode, mods: KeyModifiers) -> MainView {
    match code {
        KeyCode::Esc => MainView { focused_pane: FocusedPane::Messages, emoji_picker: None, ..m },
        KeyCode::Up => match m.emoji_picker {
            Some(p) => if p.selected > 0 {
                MainView { emoji_picker: Some(PickerView { selected: (p.selected - 1) as usize, ..p }), ..m }
            } else { m },
            None => m,
        },
        KeyCode::Down => match m.emoji_picker {
            Some(p) => if p.selected + 1 < p.results.len() {
                MainView { emoji_picker: Some(PickerView { selected: (p.selected + 1) as usize, ..p }), ..m }
            } else { m },
            None => m,
        },
        KeyCode::Enter => spec_emoji_enter(m),
        KeyCode::Backspace => spec_emoji_backspace(m),
        KeyCode::Char(c0) => spec_emoji_char(m, spec_resolve_char(c0, mods)),
        _ => m,
    }
}

/// Indices `0..n` in order.
pub open spec fn all_indices(n: nat) -> Seq<usize> {
    Seq::new(n, |i: int| i as usize)
}

/// Keys while composing a message.
pub open spec fn spec_compose_key(m: MainView, code: KeyCode, mods: KeyModifiers, paste: bool) -> (MainView, ActionView) {
    match code {
        KeyCode::Esc => (MainView { pending_at: false, compose_mode: false, ..m }, ActionView::Nothing),
        KeyCode::Enter => if mods.alt || paste {
            (spec_type_char(MainView { pending_at: false, ..m }, '\n'), ActionView::Nothing)
        } else {
            let m1 = if m.pending_at { spec_type_char(MainView { pending_at: false, ..m }, '@') } else { m };
            (MainView { pending_send: true, ..m1 }, ActionView::Nothing)
        },
        KeyCode::Left => if mods.control {
            (MainView { pending_at: false, compose_cursor: spec_word_left(m.compose_text, m.compose_cursor as nat) as usize, ..m }, ActionView::Nothing)
        } else {
            (MainView { pending_at: false, compose_cursor: if m.compose_cursor > 0 { (m.compose_cursor - 1) as usize } else { 0 }, ..m }, ActionView::Nothing)
        },
        KeyCode::Right => if mods.control {
            (MainView { pending_at: false, compose_cursor: spec_word_right(m.compose_text, m.compose_cursor as nat) as usize, ..m }, ActionView::Nothing)
        } else {
            (MainView {
                pending_at: false,
                compose_cursor: if m.compose_cursor < m.compose_text.len() { (m.compose_cursor + 1) as usize } else { m.compose_cursor },
                ..m
            }, ActionView::Nothing)
        },
        KeyCode::Char(c0) => {
            let c = spec_resolve_char(c0, mods);
            if c == ':' {
                (spec_type_char(MainView {
                    focused_pane: FocusedPane::EmojiPicker,
                    emoji_picker: Some(PickerView { query: Seq::empty(), selected: 0, results: all_indices(m.emoji_catalog.len()) }),
                    ..m
                }, ':'), ActionView::Nothing)
            } else if c == '@' {
                if m.pending_at {
                    (MainView {
                        pending_at: false,
                        focused_pane: FocusedPane::FileChooser,
                        file_chooser_filter: Seq::empty(),
                        compose_mode: false,
                        ..m
                    }, ActionView::ResetFileChooser)
                } else {
                    (MainView { pending_at: true, ..m }, ActionView::Nothing)
                }
            } else {
                let m1 = if m.pending_at { spec_type_char(MainView { pending_at: false, ..m }, '@') } else { m };
                (spec_type_char(m1, c), ActionView::Nothing)
            }
        },
        KeyCode::Backspace => if m.pending_at {
            (MainView { pending_at: false, ..m }, ActionView::Nothing)
        } else {
            (spec_delete_back(m), ActionView::Nothing)
        },
        _ => (m, ActionView::Nothing),
    }
}

/// Keys in the file chooser.
pub open spec fn spec_chooser_key(m: MainView, code: KeyCode, mods: KeyModifiers) -> (MainView, ActionView) {
    match code {
        KeyCode::Esc => (MainView { focused_pane: FocusedPane::Messages, compose_mode: true, file_chooser_filter: Seq::empty(), ..m }, ActionView::Nothing),
        KeyCode::Up => if m.file_chooser_selected > 0 {
            (MainView { file_chooser_selected: (m.file_chooser_selected - 1) as usize, ..m }, ActionView::Nothing)
        } else { (m, ActionView::Nothing) },
        KeyCode::Down => if m.file_chooser_selected + 1 < m.file_chooser_entries.len() {
            (MainView { file_chooser_selected: (m.file_chooser_selected + 1) as usize, ..m }, ActionView::Nothing)
        } else { (m, ActionView::Nothing) },
        KeyCode::Enter => if m.file_chooser_selected < m.file_chooser_entries.len() {
            (m, ActionView::OpenChooserEntry(m.file_chooser_entries[m.file_chooser_selected as int].path))
        } else { (m, ActionView::Nothing) },
        KeyCode::Backspace => if m.file_chooser_filter.len() > 0 {
            (MainView { file_chooser_filter: m.file_chooser_filter.drop_last(), ..m }, ActionView::ReloadFileChooser)
        } else { (m, ActionView::Nothing) },
        KeyCode::Char(c0) => (MainView { file_chooser_filter: m.file_chooser_filter.push(spec_resolve_char(c0, mods)), ..m }, ActionView::ReloadFileChooser),
        _ => (m, ActionView::Nothing),
    }
}

/// Keys in the attachment picker.
pub open spec fn spec_picker_key(m: MainView, code: KeyCode) -> MainView {
    match code {
        KeyCode::Esc => MainView { focused_pane: FocusedPane::Messages, attachment_status: None, ..m },
        KeyCode::Up => if m.attachment_selected > 0 { MainView { attachment_selected: (m.attachment_selected - 1) as usize, ..m } } else { m },
        KeyCode::Down => if m.attachment_selected + 1 < m.attachment_items.len() { MainView { attachment_selected: (m.attachment_selected + 1) as usize, ..m } } else { m },
        KeyCode::Enter => spec_queue_picker_attachment(m),
        _ => m,
    }
}

/// Keys in the message pane.
pub open spec fn spec_messages_key(m: MainView, code: KeyCode) -> (MainView, ActionView) {
    match code {
        KeyCode::Esc | KeyCode::Left | KeyCode::Char('h') | KeyCode::Char('q') =>
            (MainView { focused_pane: FocusedPane::Chats, attachment_status: None, ..m }, ActionView::Nothing),
        KeyCode::Up | KeyCode::Char('k') => {
            let (m1, asked) = spec_message_up(m);
            (m1, if asked { ActionView::LoadMore(crate::model::chat_guid_at(m.chats, m.selected_chat_index)->0, m.messages[0].date_created) } else { ActionView::Nothing })
        },
        KeyCode::Down | KeyCode::Char('j') => (spec_message_down(m), ActionView::Nothing),
        KeyCode::Enter => (spec_queue_selected_attachment(m), ActionView::Nothing),
        KeyCode::Char('i') => (MainView {
            compose_mode: true,
            compose_cursor: m.compose_text.len() as usize,
            send_error: None,
            attachment_status: None,
            ..m
        }, ActionView::Nothing),
        _ => (m, ActionView::Nothing),
    }
}

/// Keys in the chat list.
pub open spec fn spec_chats_key(m: MainView, code: KeyCode, now: u64) -> (MainView, ActionView) {
    match code {
        KeyCode::Char('q') | KeyCode::Esc => (m, ActionView::Quit),
        KeyCode::Up | KeyCode::Char('k') => (spec_previous_chat(m, now), ActionView::Nothing),
        KeyCode::Down | KeyCode::Char('j') => (spec_next_chat(m, now), ActionView::Nothing),
        KeyCode::Right | KeyCode::Char('l') | KeyCode::Enter => (spec_enter_messages_pane(m), ActionView::Nothing),
        KeyCode::Char('i') => (MainView { compose_mode: true, compose_cursor: m.compose_text.len() as usize, send_error: None, ..m }, ActionView::Nothing),
        _ => (m, ActionView::Nothing),
    }
}

/// Keys in the chat search.
pub open spec fn spec_search_key(m: MainView, code: KeyCode, mods: KeyModifiers, now: u64) -> MainView {
    match code {
        KeyCode::Esc => MainView { focused_pane: FocusedPane::Chats, ..m },
        KeyCode::Up => if m.chat_search_selected > 0 { MainView { chat_search_selected: (m.chat_search_selected - 1) as usize, ..m } } else { m },
        KeyCode::Down => if m.chat_search_selected + 1 < m.chat_search_results.len() { MainView { chat_search_selected: (m.chat_search_selected + 1) as usize, ..m } } else { m },
        KeyCode::Enter => if m.chat_search_selected < m.chat_search_results.len() {
            MainView { focused_pane: FocusedPane::Messages, ..spec_navigate(m, m.chat_search_results[m.chat_search_selected as int], now) }
        } else { m },
        KeyCode::Backspace => spec_update_chat_search(MainView {
            chat_search_query: if m.chat_search_query.len() > 0 { m.chat_search_query.drop_last() } else { m.chat_search_query },
            ..m
        }),
        KeyCode::Char(c0) => spec_update_chat_search(MainView { chat_search_query: m.chat_search_query.push(spec_resolve_char(c0, mods)), ..m }),
        _ => m,
    }
}

/// Is this key a paste keystroke: within 10 ms of the previous input?
pub open spec fn is_paste_burst(m: MainView, now: u64) -> bool {
    elapsed(now, m.last_activity) < 10
}

/// The signed-in client after a key at `now`, and what the surroundings should do.
pub open spec fn spec_main_key(m: MainView, code: KeyCode, mods: KeyModifiers, now: u64) -> (MainView, ActionView) {
    let paste = is_paste_burst(m, now);
    let m1 = spec_touch(m, now);
    if m1.focused_pane == FocusedPane::EmojiPicker {
        (spec_emoji_key(m1, code, mods), ActionView::Nothing)
    } else if mods.control && code == KeyCode::Char('k') {
        (MainView {
            compose_mode: false,
            ..spec_update_chat_search(MainView { focused_pane: FocusedPane::ChatSearch, chat_search_query: Seq::empty(), chat_search_selected: 0, ..m1 })
        }, ActionView::Nothing)
    } else if m1.compose_mode || m1.pending_send {
        if m1.pending_send { (m1, ActionView::Nothing) } else { spec_compose_key(m1, code, mods, paste) }
    } else {
        match m1.focused_pane {
            FocusedPane::FileChooser => spec_chooser_key(m1, code, mods),
            FocusedPane::AttachmentPicker => (spec_picker_key(m1, code), ActionView::Nothing),
            FocusedPane::Messages => spec_messages_key(m1, code),
            FocusedPane::Chats => spec_chats_key(m1, code, now),
            FocusedPane::ChatSearch => (spec_search_key(m1, code, mods, now), ActionView::Nothing),
            FocusedPane::EmojiPicker => (m1, ActionView::Nothing),
        }
    }
}


fn all_indices_exec(n: usize) -> (r: Vec<usize>)
    ensures
        r@ == all_indices(n as nat),
{
    let mut r: Vec<usize> = Vec::new();
    let mut i: usize = 0;
    while i < n
        invariant
            i <= n,
            r@ =~= all_indices(i as nat),
        decreases n - i,
    {
        r.push(i);
        i += 1;
    }
    r
}

impl MainState {
    /// Types `c` at the compose cursor.
    pub fn type_char(&mut self, c: char)
        requires
            old(self).wf(),
        ensures
            final(self).wf(),
            final(self)@ == spec_type_char(old(self)@, c),
    {
        let ghost m = self@;
        self.compose_text.insert(self.compose_cursor, c);
        let n = self.compose_text.len();
        assert(self.compose_cursor < n);
        self.compose_cursor = self.compose_cursor + 1;
        assert(self@ == spec_type_char(m, c));
    }

    /// Deletes the character before the compose cursor, if any.
    pub fn delete_back(&mut self)
        requires
            old(self).wf(),
        ensures
            final(self).wf(),
            final(self)@ == spec_delete_back(old(self)@),
    {
        let ghost m = self@;
        if self.compose_cursor > 0 {
            self.compose_text.remove(self.compose_cursor - 1);
            self.compose_cursor = self.compose_cursor - 1;
            assert(self@ == spec_delete_back(m));
        }
    }

    fn delete_back_n(&mut self, k: usize)
        requires
            old(self).wf(),
        ensures
            final(self).wf(),
            final(self)@ == spec_delete_back_n(old(self)@, k as nat),
    {
        let ghost m = self@;
        let mut i: usize = 0;
        while i < k
            invariant
                i <= k,
                view_wf(self@),
                spec_delete_back_n(m, k as nat) == spec_delete_back_n(self@, (k - i) as nat),
            decreases k - i,
        {
            self.delete_back();
            i += 1;
        }
    }

    fn emoji_key(&mut self, code: KeyCode, mods: KeyModifiers)
        requires
            old(self).wf(),
        ensures
            final(self).wf(),
            final(self)@ == spec_emoji_key(old(self)@, code, mods),
    {
        let ghost m = self@;
        match code {
            KeyCode::Esc => {
                self.focused_pane = FocusedPane::Messages;
                self.emoji_picker_state = None;
            },
            KeyCode::Up => {
                if let Some(p) = &mut self.emoji_picker_state {
                    if p.selected > 0 {
                        p.selected = p.selected - 1;
                    }
                }
            },
            KeyCode::Down => {
                if let Some(p) = &mut self.emoji_picker_state {
                    if p.selected < p.results.len() && p.selected + 1 < p.results.len() {
                        p.selected = p.selected + 1;
                    }
                }
            },
            KeyCode::Enter => self.emoji_enter(),
            KeyCode::Backspace => self.emoji_backspace(),
            KeyCode::Char(c0) => {
                let c = resolve_char(c0, mods);
                self.emoji_char(c);
            },
            _ => {},
        }
    }
}


impl MainState {
    /// Inserts characters at the compose cursor, moving the cursor past them.
    pub fn insert_text(&mut self, x: &Vec<char>)
        requires
            old(self).wf(),
        ensures
            final(self).wf(),
            final(self)@ == (MainView {
                compose_text: seq_insert_at(old(self)@.compose_text, old(self)@.compose_cursor as int, x@),
                compose_cursor: (old(self)@.compose_cursor + x@.len()) as usize,
                ..old(self)@
            }),
    {
        let ghost m = self@;
        insert_chars(&mut self.compose_text, self.compose_cursor, x);
        let n = self.compose_text.len();
        assert(self.compose_cursor + x@.len() <= n);
        self.compose_cursor = self.compose_cursor + x.len();
        assert(self@ == (MainView {
            compose_text: seq_insert_at(m.compose_text, m.compose_cursor as int, x@),
            compose_cursor: (m.compose_cursor + x@.len()) as usize,
            ..m
        }));
    }

    fn replace_query(&mut self, qlen: usize, glyph: &Vec<char>)
        requires
            old(self).wf(),
        ensures
            final(self).wf(),
            ({
                let m3 = spec_delete_back_n(old(self)@, (qlen + 1) as nat);
                final(self)@ == (MainView {
                    compose_text: seq_insert_at(m3.compose_text, m3.compose_cursor as int, glyph@),
                    compose_cursor: (m3.compose_cursor + glyph@.len()) as usize,
                    ..m3
                })
            }),
    {
        self.delete_back();
        self.delete_back_n(qlen);
        self.insert_text(glyph);
    }

    #[verifier::rlimit(40)]
    fn emoji_enter(&mut self)
        requires
            old(self).wf(),
        ensures
            final(self).wf(),
            final(self)@ == spec_emoji_enter(old(self)@),
    {
        let ghost m = self@;
        let taken = self.emoji_picker_state.take();
        let ghost m1 = self@;
        assert(m1 == MainView { emoji_picker: None, ..m });
        if let Some(p) = taken {
            let ghost pv = m.emoji_picker->0;
            assert(pv.results == p.results@ && pv.selected == p.selected && pv.query == p.query@);
            if p.selected < p.results.len() {
                let idx = p.results[p.selected];
                let glyph = crate::text::chars_of(self.emoji_catalog[idx].glyph.as_str());
                assert(glyph@ == m.emoji_catalog[pv.results[pv.selected as int] as int].glyph);
                let qlen = crate::text::chars_of(p.query.as_str()).len();
                self.replace_query(qlen, &glyph);
            }
            let ghost m2 = self@;
            self.focused_pane = FocusedPane::Messages;
            assert(self@ == MainView { focused_pane: FocusedPane::Messages, ..m2 });
        }
    }

    fn emoji_backspace(&mut self)
        requires
            old(self).wf(),
        ensures
            final(self).wf(),
            final(self)@ == spec_emoji_backspace(old(self)@),
    {
        if self.emoji_picker_state.is_some() {
            self.delete_back();
            let empty = match &self.emoji_picker_state {
                Some(p) => p.query.as_str().is_empty(),
                None => true,
            };
            if empty {
                self.emoji_picker_state = None;
                self.focused_pane = FocusedPane::Messages;
            } else {
                if let Some(p) = &mut self.emoji_picker_state {
                    pop_char(&mut p.query);
                }
                self.update_emoji_search();
            }
        }
    }

    fn emoji_char(&mut self, c: char)
        requires
            old(self).wf(),
        ensures
            final(self).wf(),
            final(self)@ == spec_emoji_char(old(self)@, c),
    {
        if c == ' ' {
            self.emoji_picker_state = None;
            self.focused_pane = FocusedPane::Messages;
        }
        self.type_char(c);
        if c != ' ' && self.emoji_picker_state.is_some() {
            if let Some(p) = &mut self.emoji_picker_state {
                push_char(&mut p.query, c);
            }
            self.update_emoji_search();
        }
    }
}


fn nothing() -> (a: KeyAction)
    ensures
        action_is(a, ActionView::Nothing),
{
    KeyAction::Nothing
}

impl MainState {
    fn compose_char(&mut self, c: char) -> (a: KeyAction)
        requires
            old(self).wf(),
        ensures
            final(self).wf(),
            action_is(a, spec_compose_key(old(self)@, KeyCode::Char(c), KeyModifiers { shift: false, control: false, alt: false }, false).1),
            final(self)@ == spec_compose_key(old(self)@, KeyCode::Char(c), KeyModifiers { shift: false, control: false, alt: false }, false).0,
    {
        let ghost m = self@;
        if c == ':' {
            let n = self.emoji_catalog.len();
            let results = all_indices_exec(n);
            self.focused_pane = FocusedPane::EmojiPicker;
            self.emoji_picker_state = Some(EmojiPickerState { query: String::new(), selected: 0, results });
            self.type_char(':');
            return KeyAction::Nothing;
        }
        if c == '@' {
            if self.pending_at {
                self.pending_at = false;
                self.focused_pane = FocusedPane::FileChooser;
                self.file_chooser_filter = String::new();
                self.compose_mode = false;
                return KeyAction::ResetFileChooser;
            } else {
                self.pending_at = true;
                return KeyAction::Nothing;
            }
        }
        if self.pending_at {
            self.pending_at = false;
            self.type_char('@');
        }
        self.type_char(c);
        KeyAction::Nothing
    }

    fn compose_enter(&mut self, newline: bool)
        requires
            old(self).wf(),
        ensures
            final(self).wf(),
            final(self)@ == spec_compose_key(old(self)@, KeyCode::Enter, KeyModifiers { shift: false, control: false, alt: newline }, false).0,
    {
        let ghost m = self@;
        if newline {
            self.pending_at = false;
            assert(self@ == MainView { pending_at: false, ..m });
            self.type_char('\n');
        } else {
            if self.pending_at {
                self.pending_at = false;
                assert(self@ == MainView { pending_at: false, ..m });
                self.type_char('@');
            }
            let ghost m1 = self@;
            self.pending_send = true;
            assert(self@ == MainView { pending_send: true, ..m1 });
        }
    }

    fn compose_move(&mut self, right: bool, word: bool)
        requires
            old(self).wf(),
        ensures
            final(self).wf(),
            final(self)@ == spec_compose_key(old(self)@, if right { KeyCode::Right } else { KeyCode::Left },
                KeyModifiers { shift: false, control: word, alt: false }, false).0,
    {
        let ghost m = self@;
        self.pending_at = false;
        if word {
            let t = string_of_vec(&self.compose_text);
            let c = if right { word_right(t.as_str(), self.compose_cursor) } else { word_left(t.as_str(), self.compose_cursor) };
            self.compose_cursor = c;
        } else if right {
            if self.compose_cursor < self.compose_text.len() {
                self.compose_cursor = self.compose_cursor + 1;
            }
        } else if self.compose_cursor > 0 {
            self.compose_cursor = self.compose_cursor - 1;
        }
        assert(self@ == MainView { pending_at: false, compose_cursor: self.compose_cursor, ..m });
    }

    fn compose_key(&mut self, code: KeyCode, mods: KeyModifiers, paste: bool) -> (a: KeyAction)
        requires
            old(self).wf(),
        ensures
            final(self).wf(),
            action_is(a, spec_compose_key(old(self)@, code, mods, paste).1),
            final(self)@ == spec_compose_key(old(self)@, code, mods, paste).0,
    {
        let ghost m = self@;
        match code {
            KeyCode::Esc => {
                self.pending_at = false;
                self.compose_mode = false;
                assert(self@ == MainView { pending_at: false, compose_mode: false, ..m });
                nothing()
            },
            KeyCode::Enter => {
                self.compose_enter(mods.alt || paste);
                nothing()
            },
            KeyCode::Left => {
                self.compose_move(false, mods.control);
                nothing()
            },
            KeyCode::Right => {
                self.compose_move(true, mods.control);
                nothing()
            },
            KeyCode::Char(c0) => {
                let c = resolve_char(c0, mods);
                self.compose_char(c)
            },
            KeyCode::Backspace => {
                if self.pending_at {
                    self.pending_at = false;
                    assert(self@ == MainView { pending_at: false, ..m });
                } else {
                    self.delete_back();
                }
                nothing()
            },
            _ => nothing(),
        }
    }

    fn chooser_key(&mut self, code: KeyCode, mods: KeyModifiers) -> (a: KeyAction)
        requires
            old(self).wf(),
        ensures
            final(self).wf(),
            action_is(a, spec_chooser_key(old(self)@, code, mods).1),
            final(self)@ == spec_chooser_key(old(self)@, code, mods).0,
    {
        let ghost m = self@;
        match code {
            KeyCode::Esc => {
                self.focused_pane = FocusedPane::Messages;
                self.compose_mode = true;
                self.file_chooser_filter = String::new();
                assert(self@ == MainView { focused_pane: FocusedPane::Messages, compose_mode: true, file_chooser_filter: Seq::empty(), ..m });
                nothing()
            },
            KeyCode::Up => {
                if self.file_chooser_selected > 0 {
                    self.file_chooser_selected = self.file_chooser_selected - 1;
                }
                nothing()
            },
            KeyCode::Down => {
                if self.file_chooser_selected < self.file_chooser_entries.len()
                    && self.file_chooser_selected + 1 < self.file_chooser_entries.len() {
                    self.file_chooser_selected = self.file_chooser_selected + 1;
                }
                nothing()
            },
            KeyCode::Enter => {
                if self.file_chooser_selected < self.file_chooser_entries.len() {
                    KeyAction::OpenChooserEntry(self.file_chooser_entries[self.file_chooser_selected].path.clone())
                } else {
                    nothing()
                }
            },
            KeyCode::Backspace => {
                if !self.file_chooser_filter.as_str().is_empty() {
                    pop_char(&mut self.file_chooser_filter);
                    KeyAction::ReloadFileChooser
                } else {
                    nothing()
                }
            },
            KeyCode::Char(c0) => {
                let c = resolve_char(c0, mods);
                push_char(&mut self.file_chooser_filter, c);
                KeyAction::ReloadFileChooser
            },
            _ => nothing(),
        }
    }

    fn picker_key(&mut self, code: KeyCode)
        requires
            old(self).wf(),
        ensures
            final(self).wf(),
            final(self)@ == spec_picker_key(old(self)@, code),
    {
        match code {
            KeyCode::Esc => {
                self.focused_pane = FocusedPane::Messages;
                self.attachment_status = None;
            },
            KeyCode::Up => {
                if self.attachment_selected > 0 {
                    self.attachment_selected = self.attachment_selected - 1;
                }
            },
            KeyCode::Down => {
                if self.attachment_selected < self.attachment_items.len()
                    && self.attachment_selected + 1 < self.attachment_items.len() {
                    self.attachment_selected = self.attachment_selected + 1;
                }
            },
            KeyCode::Enter => self.queue_picker_attachment(),
            _ => {},
        }
    }

    fn messages_key(&mut self, code: KeyCode) -> (a: KeyAction)
        requires
            old(self).wf(),
        ensures
            final(self).wf(),
            action_is(a, spec_messages_key(old(self)@, code).1),
            final(self)@ == spec_messages_key(old(self)@, code).0,
    {
        match code {
            KeyCode::Esc | KeyCode::Left | KeyCode::Char('h') | KeyCode::Char('q') => {
                self.focused_pane = FocusedPane::Chats;
                self.attachment_status = None;
                nothing()
            },
            KeyCode::Up | KeyCode::Char('k') => {
                match self.navigate_message_up() {
                    Some(req) => KeyAction::LoadMore(req),
                    None => nothing(),
                }
            },
            KeyCode::Down | KeyCode::Char('j') => {
                self.navigate_message_down();
                nothing()
            },
            KeyCode::Enter => {
                self.queue_selected_message_attachment();
                nothing()
            },
            KeyCode::Char('i') => {
                self.compose_mode = true;
                self.compose_cursor = self.compose_text.len();
                self.send_error = None;
                self.attachment_status = None;
                nothing()
            },
            _ => nothing(),
        }
    }

    fn chats_key(&mut self, code: KeyCode, now: u64) -> (a: KeyAction)
        requires
            old(self).wf(),
        ensures
            final(self).wf(),
            action_is(a, spec_chats_key(old(self)@, code, now).1),
            final(self)@ == spec_chats_key(old(self)@, code, now).0,
    {
        match code {
            KeyCode::Char('q') | KeyCode::Esc => KeyAction::Quit,
            KeyCode::Up | KeyCode::Char('k') => {
                self.previous_chat(now);
                nothing()
            },
            KeyCode::Down | KeyCode::Char('j') => {
                self.next_chat(now);
                nothing()
            },
            KeyCode::Right | KeyCode::Char('l') | KeyCode::Enter => {
                self.enter_messages_pane();
                nothing()
            },
            KeyCode::Char('i') => {
                self.compose_mode = true;
                self.compose_cursor = self.compose_text.len();
                self.send_error = None;
                nothing()
            },
            _ => nothing(),
        }
    }

    fn search_key(&mut self, code: KeyCode, mods: KeyModifiers, now: u64)
        requires
            old(self).wf(),
        ensures
            final(self).wf(),
            final(self)@ == spec_search_key(old(self)@, code, mods, now),
    {
        match code {
            KeyCode::Esc => {
                self.focused_pane = FocusedPane::Chats;
            },
            KeyCode::Up => {
                if self.chat_search_selected > 0 {
                    self.chat_search_selected = self.chat_search_selected - 1;
                }
            },
            KeyCode::Down => {
                if self.chat_search_selected < self.chat_search_results.len()
                    && self.chat_search_selected + 1 < self.chat_search_results.len() {
                    self.chat_search_selected = self.chat_search_selected + 1;
                }
            },
            KeyCode::Enter => {
                if self.chat_search_selected < self.chat_search_results.len() {
                    let idx = self.chat_search_results[self.chat_search_selected];
                    self.navigate(idx, now);
                    self.focused_pane = FocusedPane::Messages;
                }
            },
            KeyCode::Backspace => {
                pop_char(&mut self.chat_search_query);
                self.update_chat_search();
            },
            KeyCode::Char(c0) => {
                let c = resolve_char(c0, mods);
                push_char(&mut self.chat_search_query, c);
                self.update_chat_search();
            },
            _ => {},
        }
    }
}


impl MainState {
    /// Records user activity at `now`; shown notifications start fading.
    pub fn touch(&mut self, now: u64)
        requires
            old(self).wf(),
        ensures
            final(self).wf(),
            final(self)@ == spec_touch(old(self)@, now),
    {
        let ghost m = self@;
        self.last_activity = now;
        if self.tui_notifications.len() > 0 && self.notification_fade_start.is_none() {
            self.notification_fade_start = Some(now);
        }
        assert(self@ == spec_touch(m, now));
    }

    fn open_chat_search(&mut self)
        requires
            old(self).wf(),
        ensures
            final(self).wf(),
            final(self)@ == (MainView {
                compose_mode: false,
                ..spec_update_chat_search(MainView {
                    focused_pane: FocusedPane::ChatSearch,
                    chat_search_query: Seq::empty(),
                    chat_search_selected: 0,
                    ..old(self)@
                })
            }),
    {
        let ghost m = self@;
        self.focused_pane = FocusedPane::ChatSearch;
        self.chat_search_query = String::new();
        self.chat_search_selected = 0;
        assert(self@ == MainView { focused_pane: FocusedPane::ChatSearch, chat_search_query: Seq::empty(), chat_search_selected: 0, ..m });
        self.update_chat_search();
        let ghost m2 = self@;
        self.compose_mode = false;
        assert(self@ == MainView { compose_mode: false, ..m2 });
    }

    /// Handles a key on the main screen at time `now`.
    pub fn handle_main_key(&mut self, code: KeyCode, mods: KeyModifiers, now: u64) -> (a: KeyAction)
        requires
            old(self).wf(),
        ensures
            final(self).wf(),
            final(self)@ == spec_main_key(old(self)@, code, mods, now).0,
            action_is(a, spec_main_key(old(self)@, code, mods, now).1),
    {
        let paste = if now >= self.last_activity { now - self.last_activity < 10 } else { true };
        self.touch(now);
        if self.focused_pane == FocusedPane::EmojiPicker {
            self.emoji_key(code, mods);
            return nothing();
        }
        if mods.control && code == KeyCode::Char('k') {
            self.open_chat_search();
            return nothing();
        }
        if self.compose_mode || self.pending_send {
            if self.pending_send {
                return nothing();
            }
            return self.compose_key(code, mods, paste);
        }
        match self.focused_pane {
            FocusedPane::FileChooser => self.chooser_key(code, mods),
            FocusedPane::AttachmentPicker => {
                self.picker_key(code);
                nothing()
            },
            FocusedPane::Messages => self.messages_key(code),
            FocusedPane::Chats => self.chats_key(code, now),
            FocusedPane::ChatSearch => {
                self.search_key(code, mods, now);
                nothing()
            },
            FocusedPane::EmojiPicker => nothing(),
        }
    }
}

/// The sign-in screen or the signed-in client.
pub enum AppState {
    Login(LoginFields),
    Main(Box<MainState>),
}

/// The invariant of the application state: the signed-in client's invariant.
pub open spec fn app_wf(s: AppState) -> bool {
    match s {
        AppState::Main(m) => m.wf(),
        AppState::Login(_) => true,
    }
}

/// Abstract view of the login form.
pub struct LoginView {
    pub host: Seq<char>,
    pub password: Seq<char>,
    pub use_private_api: bool,
    pub active_field: usize,
    pub error: Option<Seq<char>>,
}

pub open spec fn login_view(f: LoginFields) -> LoginView {
    LoginView {
        host: f.host@,
        password: f.password@,
        use_private_api: f.use_private_api,
        active_field: f.active_field,
        error: crate::model::ov(f.error),
    }
}

/// The send method stored for a login: the private API when chosen, else AppleScript.
pub open spec fn spec_send_method_for(private_api: bool) -> Seq<char> {
    if private_api { "private-api"@ } else { "apple-script"@ }
}

/// Login form keys: Tab/Down and Up cycle through the three fields, Enter
/// tries to sign in, Space toggles the private-API box, other characters
/// and Backspace edit the host or password field, Esc quits.
pub open spec fn spec_login_key(f: LoginView, code: KeyCode, mods: KeyModifiers) -> (LoginView, ActionView) {
    match code {
        KeyCode::Tab | KeyCode::Down => (LoginView { active_field: ((f.active_field % 3 + 1) % 3) as usize, ..f }, ActionView::Nothing),
        KeyCode::Up => (LoginView { active_field: ((f.active_field % 3 + 2) % 3) as usize, ..f }, ActionView::Nothing),
        KeyCode::Enter => (f, ActionView::AttemptLogin(f.host, f.password, spec_send_method_for(f.use_private_api))),
        KeyCode::Char(c0) => if c0 == ' ' && f.active_field == 2 {
            (LoginView { use_private_api: !f.use_private_api, ..f }, ActionView::Nothing)
        } else {
            let c = spec_resolve_char(c0, mods);
            if f.active_field == 0 {
                (LoginView { host: f.host.push(c), ..f }, ActionView::Nothing)
            } else if f.active_field == 1 {
                (LoginView { password: f.password.push(c), ..f }, ActionView::Nothing)
            } else {
                (f, ActionView::Nothing)
            }
        },
        KeyCode::Backspace => if f.active_field == 0 {
            (LoginView { host: if f.host.len() > 0 { f.host.drop_last() } else { f.host }, ..f }, ActionView::Nothing)
        } else if f.active_field == 1 {
            (LoginView { password: if f.password.len() > 0 { f.password.drop_last() } else { f.password }, ..f }, ActionView::Nothing)
        } else {
            (f, ActionView::Nothing)
        },
        KeyCode::Esc => (f, ActionView::Quit),
        _ => (f, ActionView::Nothing),
    }
}

/// The send method for a login (`"private-api"` or the default).
pub fn send_method_for(private_api: bool) -> (r: String)
    ensures
        r@ == spec_send_method_for(private_api),
{
    if private_api { crate::text::owned("private-api") } else { crate::config::default_send_method() }
}

impl LoginFields {
    /// Handles a key on the login screen.
    pub fn handle_key(&mut self, code: KeyCode, mods: KeyModifiers) -> (a: KeyAction)
        ensures
            login_view(*final(self)) == spec_login_key(login_view(*old(self)), code, mods).0,
            action_is(a, spec_login_key(login_view(*old(self)), code, mods).1),
    {
        match code {
            KeyCode::Tab | KeyCode::Down => {
                self.active_field = (self.active_field % 3 + 1) % 3;
                nothing()
            },
            KeyCode::Up => {
                self.active_field = (self.active_field % 3 + 2) % 3;
                nothing()
            },
            KeyCode::Enter => KeyAction::AttemptLogin {
                host: self.host.clone(),
                password: self.password.clone(),
                send_method: send_method_for(self.use_private_api),
            },
            KeyCode::Char(c0) => {
                if c0 == ' ' && self.active_field == 2 {
                    self.use_private_api = !self.use_private_api;
                } else {
                    let c = resolve_char(c0, mods);
                    if self.active_field == 0 {
                        push_char(&mut self.host, c);
                    } else if self.active_field == 1 {
                        push_char(&mut self.password, c);
                    }
                }
                nothing()
            },
            KeyCode::Backspace => {
                if self.active_field == 0 {
                    pop_char(&mut self.host);
                } else if self.active_field == 1 {
                    pop_char(&mut self.password);
                }
                nothing()
            },
            KeyCode::Esc => KeyAction::Quit,
            _ => nothing(),
        }
    }

    /// Shows why a login attempt failed.
    pub fn login_failed(&mut self, msg: String)
        ensures
            login_view(*final(self)) == (LoginView { error: Some(msg@), ..login_view(*old(self)) }),
    {
        self.error = Some(msg);
    }
}

impl AppState {
    /// Handles a key in either screen at time `now`.
    pub fn handle_key(&mut self, code: KeyCode, mods: KeyModifiers, now: u64) -> (a: KeyAction)
        requires
            app_wf(*old(self)),
        ensures
            match (*old(self), *final(self)) {
                (AppState::Login(f0), AppState::Login(f1)) =>
                    login_view(f1) == spec_login_key(login_view(f0), code, mods).0
                    && action_is(a, spec_login_key(login_view(f0), code, mods).1),
                (AppState::Main(m0), AppState::Main(m1)) =>
                    m1.wf() && m1@ == spec_main_key(m0@, code, mods, now).0
                    && action_is(a, spec_main_key(m0@, code, mods, now).1),
                _ => false,
            },
    {
        match self {
            AppState::Login(f) => f.handle_key(code, mods),
            AppState::Main(m) => m.handle_main_key(code, mods, now),
        }
    }
}


/// The signed-in client after a paste at `now`, given which dropped paths
/// exist: pasted files are queued for sending; otherwise, while composing,
/// the text goes in at the cursor.
pub open spec fn spec_main_paste(m: MainView, text: Seq<char>, files: Seq<Seq<char>>, now: u64) -> MainView {
    let m1 = spec_touch(m, now);
    if files.len() > 0 {
        MainView { pending_file_attachments: m1.pending_file_attachments + files, ..m1 }
    } else if m1.compose_mode {
        MainView {
            pending_at: false,
            compose_text: seq_insert_at(m1.compose_text, m1.compose_cursor as int, text),
            compose_cursor: (m1.compose_cursor + text.len()) as usize,
            ..m1
        }
    } else {
        m1
    }
}

/// The files a paste drops: the paths in the trimmed text when all of them
/// are absolute and name existing files, none otherwise (also when the flags
/// do not match the paths one for one).
pub open spec fn spec_pasted_files(text: Seq<char>, absolute: Seq<bool>, is_file: Seq<bool>) -> Seq<Seq<char>> {
    let paths = crate::paths::spec_dropped_from(crate::text::spec_trim(text), 0);
    if crate::paths::all_accepted(paths, absolute, is_file) { paths } else { Seq::empty() }
}

impl MainState {
    /// Handles pasted text; `absolute[i]` and `is_file[i]` say whether path
    /// `i` among `dropped_path_candidates(trim(text))` is absolute and names
    /// an existing file.
    pub fn handle_paste(&mut self, text: &str, absolute: &Vec<bool>, is_file: &Vec<bool>, now: u64)
        requires
            old(self).wf(),
        ensures
            final(self).wf(),
            final(self)@ == spec_main_paste(old(self)@, text@, spec_pasted_files(text@, absolute@, is_file@), now),
    {
        self.touch(now);
        let ghost m1 = self@;
        let t = crate::text::trim(text);
        let mut files = crate::paths::extract_dropped_paths(t.as_str(), absolute, is_file);
        assert(crate::model::sv(files@) =~= spec_pasted_files(text@, absolute@, is_file@));
        if files.len() > 0 {
            let ghost fv = files@;
            let ghost old_p = self.pending_file_attachments@;
            self.pending_file_attachments.append(&mut files);
            assert(self.pending_file_attachments@ =~= old_p + fv);
            assert(crate::model::sv(old_p + fv) =~= crate::model::sv(old_p) + crate::model::sv(fv));
            assert(self@ == (MainView { pending_file_attachments: m1.pending_file_attachments + crate::model::sv(fv), ..m1 }));
            return;
        }
        if self.compose_mode {
            self.pending_at = false;
            let ghost m2 = self@;
            assert(m2 == MainView { pending_at: false, ..m1 });
            let x = crate::text::chars_of(text);
            self.insert_text(&x);
        }
    }
}

impl AppState {
    /// Handles pasted text in either screen (see `MainState::handle_paste`).
    pub fn handle_paste(&mut self, text: &str, absolute: &Vec<bool>, is_file: &Vec<bool>, now: u64)
        requires
            app_wf(*old(self)),
        ensures
            match (*old(self), *final(self)) {
                (AppState::Login(f0), AppState::Login(f1)) => login_view(f1) == (LoginView {
                    host: if f0.active_field == 0 { f0.host@ + text@ } else { f0.host@ },
                    password: if f0.active_field == 1 { f0.password@ + text@ } else { f0.password@ },
                    ..login_view(f0)
                }),
                (AppState::Main(m0), AppState::Main(m1)) =>
                    m1.wf() && m1@ == spec_main_paste(m0@, text@, spec_pasted_files(text@, absolute@, is_file@), now),
                _ => false,
            },
    {
        match self {
            AppState::Login(f) => {
                if f.active_field == 0 {
                    f.host = crate::text::concat(f.host.as_str(), text);
                } else if f.active_field == 1 {
                    f.password = crate::text::concat(f.password.as_str(), text);
                }
            },
            AppState::Main(m) => m.handle_paste(text, absolute, is_file, now),
        }
    }
}

/// In compose mode, typing an ordinary character and then Backspace gives
/// back the text and the cursor as they were.
pub proof fn law_type_then_backspace(m: MainView, c: char, mods: KeyModifiers, t1: u64, t2: u64, back: KeyModifiers)
    requires
        view_wf(m),
        m.compose_mode,
        !m.pending_send,
        !m.pending_at,
        m.focused_pane != FocusedPane::EmojiPicker,
        !mods.control,
        !back.control,
        spec_resolve_char(c, mods) != ':',
        spec_resolve_char(c, mods) != '@',
        m.compose_cursor < usize::MAX,
    ensures
        ({
            let m1 = spec_main_key(m, KeyCode::Char(c), mods, t1).0;
            let m2 = spec_main_key(m1, KeyCode::Backspace, back, t2).0;
            &&& m2.compose_text == m.compose_text
            &&& m2.compose_cursor == m.compose_cursor
        }),
{
    let m1 = spec_main_key(m, KeyCode::Char(c), mods, t1).0;
    let ch = spec_resolve_char(c, mods);
    assert(m1.compose_text == m.compose_text.insert(m.compose_cursor as int, ch));
    assert(m1.compose_text.remove(m.compose_cursor as int) =~= m.compose_text);
}

/// In compose mode (no send pending, emoji picker closed) the arrow keys move
/// the cursor and leave the text alone: a plain Right arrow one character
/// towards the end, stopping at the end; a plain Left arrow one character
/// towards the start, stopping at the start; Ctrl+Left to the start of the
/// word before the cursor, past the whitespace just before it.
pub proof fn law_compose_arrows(m: MainView, mods: KeyModifiers, now: u64)
    requires
        view_wf(m),
        m.compose_mode,
        !m.pending_send,
        m.focused_pane != FocusedPane::EmojiPicker,
        m.compose_text.len() <= usize::MAX,
    ensures
        !mods.control ==> {
            let r = spec_main_key(m, KeyCode::Right, mods, now).0;
            &&& r.compose_text == m.compose_text
            &&& r.compose_cursor == (if m.compose_cursor < m.compose_text.len() { m.compose_cursor + 1 } else { m.compose_text.len() as int })
        },
        !mods.control ==> {
            let r = spec_main_key(m, KeyCode::Left, mods, now).0;
            &&& r.compose_text == m.compose_text
            &&& r.compose_cursor == (if m.compose_cursor > 0 { m.compose_cursor - 1 } else { 0 })
        },
        mods.control ==> {
            let r = spec_main_key(m, KeyCode::Left, mods, now).0;
            &&& r.compose_text == m.compose_text
            &&& r.compose_cursor <= m.compose_cursor
            &&& exists|k: int| #[trigger] crate::helpers::word_then_space(m.compose_text, r.compose_cursor as int, k, m.compose_cursor as int)
        },
{
    crate::helpers::law_word_left_runs(m.compose_text, m.compose_cursor as nat);
    if mods.control {
        let r = spec_main_key(m, KeyCode::Left, mods, now).0;
        let w = spec_word_left(m.compose_text, m.compose_cursor as nat);
        assert(r.compose_cursor as int == w);
        let k = choose|k: int| #[trigger] crate::helpers::word_then_space(m.compose_text, w, k, m.compose_cursor as int);
        assert(crate::helpers::word_then_space(m.compose_text, r.compose_cursor as int, k, m.compose_cursor as int));
    }
}

/// In compose mode (no send pending, no `@` waiting, emoji picker closed)
/// an ordinary character is typed at the cursor and the cursor moves past it.
pub proof fn law_compose_types_at_cursor(m: MainView, c: char, mods: KeyModifiers, now: u64)
    requires
        view_wf(m),
        m.compose_mode,
        !m.pending_send,
        !m.pending_at,
        m.focused_pane != FocusedPane::EmojiPicker,
        !mods.control,
        spec_resolve_char(c, mods) != ':',
        spec_resolve_char(c, mods) != '@',
        m.compose_text.len() < usize::MAX,
    ensures
        ({
            let r = spec_main_key(m, KeyCode::Char(c), mods, now).0;
            let cur = m.compose_cursor as int;
            &&& r.compose_text == m.compose_text.take(cur) + seq![spec_resolve_char(c, mods)] + m.compose_text.skip(cur)
            &&& r.compose_cursor == cur + 1
        }),
{
    let r = spec_main_key(m, KeyCode::Char(c), mods, now).0;
    let cur = m.compose_cursor as int;
    assert(r.compose_text =~= m.compose_text.take(cur) + seq![spec_resolve_char(c, mods)] + m.compose_text.skip(cur));
}

/// Pasted text that names no absolute path is, in compose mode, inserted at
/// the compose cursor, and the cursor moves past it; no file is queued.
pub proof fn law_paste_inserts_at_cursor(m: MainView, text: Seq<char>, absolute: Seq<bool>, is_file: Seq<bool>, now: u64)
    requires
        view_wf(m),
        m.compose_mode,
        forall|i: int| 0 <= i < absolute.len() ==> !absolute[i],
        m.compose_text.len() + text.len() <= usize::MAX,
    ensures
        ({
            let r = spec_main_paste(m, text, spec_pasted_files(text, absolute, is_file), now);
            let cur = m.compose_cursor as int;
            &&& r.compose_text == m.compose_text.take(cur) + text + m.compose_text.skip(cur)
            &&& r.compose_cursor == cur + text.len()
            &&& r.pending_file_attachments == m.pending_file_attachments
        }),
{
    let paths = crate::paths::spec_dropped_from(crate::text::spec_trim(text), 0);
    if paths.len() > 0 && crate::paths::all_accepted(paths, absolute, is_file) {
        assert(absolute[0]);
    }
    assert(spec_pasted_files(text, absolute, is_file).len() == 0);
}

/// Ctrl+K opens the chat search with an empty query, and each character typed
/// there is added to the query; either way the results listed are those of
/// a fresh search for the query now shown, over the same chats and contacts.
pub proof fn law_search_results_follow_query(m: MainView, c: char, mods: KeyModifiers, now: u64)
    requires
        view_wf(m),
        m.focused_pane != FocusedPane::EmojiPicker,
    ensures
        ({
            let ctrl_k = KeyModifiers { control: true, ..mods };
            let r = spec_main_key(m, KeyCode::Char('k'), ctrl_k, now).0;
            &&& r.focused_pane == FocusedPane::ChatSearch
            &&& r.chat_search_query == Seq::<char>::empty()
            &&& r.chats == m.chats
            &&& r.contacts == m.contacts
            &&& r.chat_search_results == spec_update_chat_search(r).chat_search_results
        }),
        (m.focused_pane == FocusedPane::ChatSearch && !m.compose_mode && !m.pending_send && !mods.control) ==> {
            let r = spec_main_key(m, KeyCode::Char(c), mods, now).0;
            &&& r.focused_pane == FocusedPane::ChatSearch
            &&& r.chat_search_query == m.chat_search_query.push(spec_resolve_char(c, mods))
            &&& r.chats == m.chats
            &&& r.contacts == m.contacts
            &&& r.chat_search_results == spec_update_chat_search(r).chat_search_results
        },
{
}

} // verus!
