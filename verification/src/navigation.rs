//! Moving between chats and messages, and the requests that moving starts.

use vstd::prelude::*;
use crate::helpers::{normalize_address, spec_normalize_address};
use crate::model::{chat_guid_at, MainState, MainView, FocusedPane, view_wf};
use crate::text::{copy_chars, owned, strings_of};
use crate::types::{ChatQuery, MessageQuery};

verus! {

/// How many messages one page of history holds.
pub const MESSAGE_PAGE_SIZE: u64 = 50;

/// A message query to send on behalf of the client, with the chat it is for.
pub struct MessageRequest {
    pub chat_guid: String,
    pub query: MessageQuery,
}

/// Does `q` ask for one page of `chat`'s messages, newest first, with their
/// attachments, older than `before` when that is given?
pub open spec fn is_page_query(q: MessageQuery, chat: Seq<char>, before: Option<u64>) -> bool {
    &&& q.chat_guid matches Some(g) && g@ == chat
    &&& q.limit == Some(MESSAGE_PAGE_SIZE)
    &&& q.sort matches Some(s) && s@ == "DESC"@
    &&& q.with_related matches Some(w) && w@.len() == 1 && w@[0]@ == "attachment"@
    &&& q.before == before
    &&& q.offset is None
    &&& q.after is None
    &&& q.where_clauses is None
}

/// Does `q` ask for up to 1000 chats, most recently active first, with their
/// last message, participants, SMS and archived chats?
pub open spec fn is_chat_list_query(q: ChatQuery) -> bool {
    &&& q.limit == Some(1000u64)
    &&& q.offset is None
    &&& q.sort matches Some(s) && s@ == "lastmessage"@
    &&& q.with_related matches Some(w) && w@.len() == 4 && w@[0]@ == "lastMessage"@
        && w@[1]@ == "participants"@ && w@[2]@ == "sms"@ && w@[3]@ == "archived"@
}

/// The query that loads the chat list.
pub fn chat_list_query() -> (q: ChatQuery)
    ensures
        is_chat_list_query(q),
{
    let mut w: Vec<String> = Vec::new();
    w.push(owned("lastMessage"));
    w.push(owned("participants"));
    w.push(owned("sms"));
    w.push(owned("archived"));
    ChatQuery { limit: Some(1000), offset: None, with_related: Some(w), sort: Some(owned("lastmessage")) }
}

/// The query for one page of a chat's history.
pub fn page_query(chat: &str, before: Option<u64>) -> (q: MessageQuery)
    ensures
        is_page_query(q, chat@, before),
{
    MessageQuery {
        limit: Some(MESSAGE_PAGE_SIZE),
        offset: None,
        chat_guid: Some(owned(chat)),
        with_related: Some(strings_of("attachment")),
        where_clauses: None,
        sort: Some(owned("DESC")),
        after: None,
        before,
    }
}

/// One more request in flight (the count saturates at its maximum).
pub open spec fn inc(n: usize) -> usize {
    if n < usize::MAX { (n + 1) as usize } else { n }
}

/// Drafts after leaving the selected chat: the compose text is kept for that
/// chat, or the chat's draft dropped when the text is empty.
pub open spec fn spec_save_draft(m: MainView) -> Map<Seq<char>, (Seq<char>, usize)> {
    match chat_guid_at(m.chats, m.selected_chat_index) {
        Some(g) => if m.compose_text.len() == 0 {
            m.drafts.remove(g)
        } else {
            m.drafts.insert(g, (m.compose_text, m.compose_cursor))
        },
        None => m.drafts,
    }
}

/// The client after selecting chat `index` at time `now`.
pub open spec fn spec_navigate(m: MainView, index: usize, now: u64) -> MainView {
    let drafts = spec_save_draft(m);
    let base = MainView {
        drafts,
        chat_list_selected: Some(index),
        selected_chat_index: Some(index),
        messages: Seq::empty(),
        message_selected: None,
        attachment_status: None,
        has_more_messages: true,
        pending_load: Some(index),
        last_nav: now,
        ..m
    };
    if index < m.chats.len() {
        let g = m.chats[index as int].guid@;
        MainView {
            unread_chats: m.unread_chats.remove(g),
            compose_text: if drafts.contains_key(g) { drafts[g].0 } else { Seq::empty() },
            compose_cursor: if drafts.contains_key(g) { drafts[g].1 } else { 0 },
            compose_mode: false,
            ..base
        }
    } else {
        base
    }
}

/// Contact name for an address: looked up as given, then in normalised form.
pub open spec fn spec_lookup(contacts: Map<Seq<char>, Seq<char>>, addr: Seq<char>) -> Option<Seq<char>> {
    if contacts.contains_key(addr) {
        Some(contacts[addr])
    } else if contacts.contains_key(spec_normalize_address(addr)) {
        Some(contacts[spec_normalize_address(addr)])
    } else {
        None
    }
}

impl MainState {
    /// The guid of the selected chat, if a chat is selected.
    pub fn current_chat_guid(&self) -> (r: Option<String>)
        ensures
            match r {
                Some(g) => chat_guid_at(self@.chats, self@.selected_chat_index) == Some(g@),
                None => chat_guid_at(self@.chats, self@.selected_chat_index) is None,
            },
    {
        match self.selected_chat_index {
            Some(i) => if i < self.chats.len() {
                Some(self.chats[i].guid.clone())
            } else {
                None
            },
            None => None,
        }
    }

    /// Selects chat `index`: the compose text becomes the draft of the chat
    /// being left, and the draft of the chat being entered (if any) comes back.
    pub fn navigate(&mut self, index: usize, now: u64)
        requires
            old(self).wf(),
        ensures
            final(self).wf(),
            final(self)@ == spec_navigate(old(self)@, index, now),
    {
        let ghost m = self@;
        if let Some(g) = self.current_chat_guid() {
            if self.compose_text.len() == 0 {
                self.drafts.remove(g.as_str());
            } else {
                let t = copy_chars(&self.compose_text);
                self.drafts.insert(g, (t, self.compose_cursor));
            }
        }
        let ghost drafts = spec_save_draft(m);
        assert(self@.drafts =~= drafts);
        self.chat_list_selected = Some(index);
        self.selected_chat_index = Some(index);
        self.messages = Vec::new();
        self.message_selected = None;
        self.attachment_status = None;
        self.has_more_messages = true;
        self.pending_load = Some(index);
        self.last_nav = now;
        if index < self.chats.len() {
            let g = self.chats[index].guid.clone();
            self.unread_chats.remove(g.as_str());
            let restored = match self.drafts.get(g.as_str()) {
                Some(d) => Some((copy_chars(&d.0), d.1)),
                None => None,
            };
            match restored {
                Some((text, cursor)) => {
                    self.compose_text = text;
                    self.compose_cursor = cursor;
                },
                None => {
                    self.compose_text = Vec::new();
                    self.compose_cursor = 0;
                },
            }
            self.compose_mode = false;
        }
        assert(self@ == spec_navigate(m, index, now));
    }
}


/// The client after moving the chat highlight one row down.
pub open spec fn spec_next_chat(m: MainView, now: u64) -> MainView {
    if m.chats.len() == 0 {
        m
    } else {
        match m.chat_list_selected {
            Some(i) => if i >= m.chats.len() - 1 { m } else { spec_navigate(m, (i + 1) as usize, now) },
            None => spec_navigate(m, 0, now),
        }
    }
}

/// The client after moving the chat highlight one row up.
pub open spec fn spec_previous_chat(m: MainView, now: u64) -> MainView {
    if m.chats.len() == 0 {
        m
    } else {
        match m.chat_list_selected {
            Some(i) => if i == 0 { m } else { spec_navigate(m, (i - 1) as usize, now) },
            None => spec_navigate(m, 0, now),
        }
    }
}

/// The client after moving the focus to the messages: the newest message is
/// selected when none was.
pub open spec fn spec_enter_messages_pane(m: MainView) -> MainView {
    if m.messages.len() == 0 {
        m
    } else {
        MainView {
            message_selected: if m.message_selected is None {
                Some((m.messages.len() - 1) as usize)
            } else {
                m.message_selected
            },
            focused_pane: FocusedPane::Messages,
            ..m
        }
    }
}

/// The client after asking for the page of history before its oldest
/// message, and whether it asked: only when a chat is selected and there
/// is a message to page back from.
pub open spec fn spec_load_more(m: MainView) -> (MainView, bool) {
    if chat_guid_at(m.chats, m.selected_chat_index) is Some && m.messages.len() > 0 {
        (MainView { api_requests_in_flight: inc(m.api_requests_in_flight), ..m }, true)
    } else {
        (m, false)
    }
}

/// The client after moving the message selection up; at the top it asks
/// for older history when the server may have more.
pub open spec fn spec_message_up(m: MainView) -> (MainView, bool) {
    match m.message_selected {
        Some(sel) => if sel > 0 {
            (MainView { message_selected: Some((sel - 1) as usize), ..m }, false)
        } else if m.has_more_messages {
            spec_load_more(m)
        } else {
            (m, false)
        },
        None => (m, false),
    }
}

/// The client after moving the message selection down.
pub open spec fn spec_message_down(m: MainView) -> MainView {
    match m.message_selected {
        Some(sel) => if sel + 1 < m.messages.len() {
            MainView { message_selected: Some((sel + 1) as usize), ..m }
        } else {
            m
        },
        None => m,
    }
}

/// Whether the selected message has at least one attachment.
pub open spec fn spec_selected_has_attachments(m: MainView) -> bool {
    match m.message_selected {
        Some(i) => i < m.messages.len() && match m.messages[i as int].attachments {
            Some(a) => a@.len() > 0,
            None => false,
        },
        None => false,
    }
}

impl MainState {
    /// Moves the chat highlight one row down, selecting that chat.
    pub fn next_chat(&mut self, now: u64)
        requires
            old(self).wf(),
        ensures
            final(self).wf(),
            final(self)@ == spec_next_chat(old(self)@, now),
    {
        if self.chats.len() == 0 {
            return;
        }
        let i = match self.chat_list_selected {
            Some(i) => if i >= self.chats.len() - 1 {
                return;
            } else {
                i + 1
            },
            None => 0,
        };
        self.navigate(i, now);
    }

    /// Moves the chat highlight one row up, selecting that chat.
    pub fn previous_chat(&mut self, now: u64)
        requires
            old(self).wf(),
        ensures
            final(self).wf(),
            final(self)@ == spec_previous_chat(old(self)@, now),
    {
        if self.chats.len() == 0 {
            return;
        }
        let i = match self.chat_list_selected {
            Some(i) => if i == 0 {
                return;
            } else {
                i - 1
            },
            None => 0,
        };
        self.navigate(i, now);
    }

    /// Moves the focus to the message pane.
    pub fn enter_messages_pane(&mut self)
        requires
            old(self).wf(),
        ensures
            final(self).wf(),
            final(self)@ == spec_enter_messages_pane(old(self)@),
    {
        if self.messages.len() == 0 {
            return;
        }
        if self.message_selected.is_none() {
            self.message_selected = Some(self.messages.len() - 1);
        }
        self.focused_pane = FocusedPane::Messages;
    }

    /// Asks for the page of history older than the oldest loaded message.
    pub fn load_more_messages(&mut self) -> (r: Option<MessageRequest>)
        requires
            old(self).wf(),
        ensures
            final(self).wf(),
            final(self)@ == spec_load_more(old(self)@).0,
            r is Some == spec_load_more(old(self)@).1,
            r matches Some(req) ==> chat_guid_at(old(self)@.chats, old(self)@.selected_chat_index) == Some(req.chat_guid@)
                && is_page_query(req.query, req.chat_guid@, Some(old(self)@.messages[0].date_created)),
    {
        let g = match self.current_chat_guid() {
            Some(g) => g,
            None => return None,
        };
        if self.messages.len() == 0 {
            return None;
        }
        let before = self.messages[0].date_created;
        self.api_requests_in_flight = self.api_requests_in_flight.saturating_add(1);
        let query = page_query(g.as_str(), Some(before));
        Some(MessageRequest { chat_guid: g, query })
    }

    /// Moves the message selection up; at the top it asks for older history.
    pub fn navigate_message_up(&mut self) -> (r: Option<MessageRequest>)
        requires
            old(self).wf(),
        ensures
            final(self).wf(),
            final(self)@ == spec_message_up(old(self)@).0,
            r is Some == spec_message_up(old(self)@).1,
            r matches Some(req) ==> chat_guid_at(old(self)@.chats, old(self)@.selected_chat_index) == Some(req.chat_guid@)
                && is_page_query(req.query, req.chat_guid@, Some(old(self)@.messages[0].date_created)),
    {
        if let Some(sel) = self.message_selected {
            if sel > 0 {
                let ghost m = self@;
                self.message_selected = Some(sel - 1);
                assert(self@ == MainView { message_selected: Some((sel - 1) as usize), ..m });
                None
            } else if self.has_more_messages {
                self.load_more_messages()
            } else {
                None
            }
        } else {
            None
        }
    }

    /// Moves the message selection down.
    pub fn navigate_message_down(&mut self)
        requires
            old(self).wf(),
        ensures
            final(self).wf(),
            final(self)@ == spec_message_down(old(self)@),
    {
        let n = self.messages.len();
        if let Some(sel) = self.message_selected {
            if sel + 1 < n {
                self.message_selected = Some(sel + 1);
            }
        }
    }

    /// Asks for the newest page of chat `index`'s messages, if there is such a chat.
    pub fn load_messages(&mut self, index: usize) -> (r: Option<MessageRequest>)
        requires
            old(self).wf(),
        ensures
            final(self).wf(),
            index < old(self)@.chats.len() ==> final(self)@ == (MainView {
                api_requests_in_flight: inc(old(self)@.api_requests_in_flight),
                ..old(self)@
            }),
            index >= old(self)@.chats.len() ==> final(self)@ == old(self)@,
            r is Some == (index < old(self)@.chats.len()),
            r matches Some(req) ==> req.chat_guid@ == old(self)@.chats[index as int].guid@
                && is_page_query(req.query, req.chat_guid@, None),
    {
        if index < self.chats.len() {
            self.api_requests_in_flight = self.api_requests_in_flight.saturating_add(1);
            let g = self.chats[index].guid.clone();
            let query = page_query(g.as_str(), None);
            Some(MessageRequest { chat_guid: g, query })
        } else {
            None
        }
    }

    /// Asks for the chat list again.
    pub fn reload_chats(&mut self) -> (q: ChatQuery)
        requires
            old(self).wf(),
        ensures
            final(self).wf(),
            final(self)@ == (MainView { api_requests_in_flight: inc(old(self)@.api_requests_in_flight), ..old(self)@ }),
            is_chat_list_query(q),
    {
        self.api_requests_in_flight = self.api_requests_in_flight.saturating_add(1);
        chat_list_query()
    }

    /// The contact name for an address, looked up as given and then in normalised form.
    pub fn lookup_contact(&self, address: &str) -> (r: Option<&String>)
        ensures
            match r {
                Some(n) => spec_lookup(self@.contacts, address@) == Some(n@),
                None => spec_lookup(self@.contacts, address@) is None,
            },
    {
        match self.contacts.get(address) {
            Some(n) => Some(n),
            None => {
                let norm = normalize_address(address);
                self.contacts.get(norm.as_str())
            },
        }
    }

    /// Whether the selected message has at least one attachment.
    pub fn selected_message_has_attachments(&self) -> (r: bool)
        ensures
            r == spec_selected_has_attachments(self@),
    {
        match self.message_selected {
            Some(i) => if i < self.messages.len() {
                match &self.messages[i].attachments {
                    Some(a) => a.len() > 0,
                    None => false,
                }
            } else {
                false
            },
            None => false,
        }
    }
}

/// Leaving a chat and coming back gives back the text that was being written
/// there, with the cursor where it was.
pub proof fn law_draft_round_trip(m: MainView, a: usize, b: usize, t1: u64, t2: u64)
    requires
        view_wf(m),
        m.selected_chat_index == Some(a),
        a < m.chats.len(),
        b < m.chats.len(),
        m.chats[a as int].guid@ != m.chats[b as int].guid@,
    ensures
        spec_navigate(spec_navigate(m, b, t1), a, t2).compose_text == m.compose_text,
        spec_navigate(spec_navigate(m, b, t1), a, t2).compose_cursor == m.compose_cursor,
{
    let m1 = spec_navigate(m, b, t1);
    let ga = m.chats[a as int].guid@;
    assert(spec_save_draft(m1).contains_key(ga) == (m.compose_text.len() > 0));
    if m.compose_text.len() == 0 {
        assert(m.compose_text =~= Seq::<char>::empty());
    }
}

} // verus!
