//! Starting a session, periodic work, sending, and work queued for the surroundings.

use vstd::prelude::*;
use vstd::hash_map::StringHashMap;
use vstd::hash_set::StringHashSet;
use crate::model::{
    chat_guid_at, EmojiInfo, FocusedPane, MainState, MainView, view_wf, smap, sv, pv,
};
use crate::navigation::{inc, is_chat_list_query, MessageRequest, is_page_query};
use crate::responses::{chat_last, elapsed, apply_pairs, MESSAGE_RELOAD_INTERVAL_MS};
use crate::text::{chars_of, concat, decimal, owned, spec_decimal, spec_trim, string_of_vec, trim};
use crate::types::{Chat, SendText};

verus! {

/// How often the chat list is reloaded, in milliseconds.
pub const CHAT_RELOAD_INTERVAL_MS: u64 = 30000;

/// How long after the last chat switch its messages are loaded, in milliseconds.
pub const DEBOUNCE_MS: u64 = 200;

/// How long in-terminal notifications take to fade, in milliseconds.
pub const FADE_MS: u64 = 1000;

/// The emoji catalogue of the `emojis` crate (`emojis::iter`): every emoji in
/// Unicode CLDR order without the non-default skin tones, with its glyph, its
/// name and its first GitHub shortcode.  Nothing about the entries is stated here.
#[verifier::external_body]
fn emoji_catalog() -> (r: Vec<EmojiInfo>) {
    emojis::iter()
        .map(|e| EmojiInfo {
            glyph: e.as_str().to_string(),
            name: e.name().to_string(),
            shortcode: e.shortcode().map(|s| s.to_string()),
        })
        .collect()
}

/// The last-seen message of each chat as a fresh session records it: the
/// guid of its last message, for the first `n` chats that have one.
pub open spec fn initial_seen(chats: Seq<Chat>, n: nat) -> Map<Seq<char>, Seq<char>>
    decreases n,
{
    if n == 0 || n > chats.len() {
        Map::empty()
    } else {
        let rest = initial_seen(chats, (n - 1) as nat);
        match chat_last(chats[n - 1]) {
            Some(lm) => rest.insert(chats[n - 1].guid@, lm.guid@),
            None => rest,
        }
    }
}

/// Is `m` the state of a session that just signed in at `now` with `chats`?
pub open spec fn is_fresh_session(m: MainView, chats: Seq<Chat>, send_method: Seq<char>, dir: Seq<char>, now: u64) -> bool {
    let sel = if chats.len() > 0 { Some(0usize) } else { None };
    &&& m.chats == chats
    &&& m.chat_list_selected == sel
    &&& m.selected_chat_index == sel
    &&& m.messages.len() == 0
    &&& m.contacts.is_empty()
    &&& m.focused_pane == FocusedPane::Chats
    &&& m.message_selected is None
    &&& !m.compose_mode
    &&& m.compose_text.len() == 0
    &&& m.compose_cursor == 0
    &&& m.send_error is None
    &&& m.last_chat_reload == now && m.last_message_reload == now && m.last_nav == now && m.last_activity == now
    &&& m.pending_load is None
    &&& m.attachment_items.len() == 0
    &&& m.attachment_selected == 0
    &&& m.attachment_status is None
    &&& m.has_more_messages
    &&& m.status_expires is None
    &&& m.pending_attachment_open is None
    &&& !m.loading_attachment && !m.pending_send && !m.pending_at
    &&& m.pending_file_attachments.len() == 0
    &&& m.file_chooser_dir == dir
    &&& m.file_chooser_entries.len() == 0
    &&& m.file_chooser_selected == 0
    &&& m.file_chooser_filter.len() == 0
    &&& m.chat_search_query.len() == 0
    &&& m.chat_search_results.len() == 0
    &&& m.chat_search_selected == 0
    &&& m.emoji_picker is None
    &&& m.send_method == send_method
    &&& m.last_seen_guids == initial_seen(chats, chats.len())
    &&& m.unread_chats.is_empty()
    &&& !m.terminal_focused
    &&& m.drafts.is_empty()
    &&& m.api_requests_in_flight == 0
    &&& m.tui_notifications.len() == 0
    &&& m.notification_fade_start is None
    &&& m.image_cache.is_empty()
    &&& m.pending_image_downloads.len() == 0
}

impl MainState {
    /// The client right after signing in at `now` with the given chat list:
    /// the first chat is selected and every chat's last message counts as seen.
    pub fn new(chats: Vec<Chat>, send_method: String, dir: String, now: u64) -> (s: MainState)
        ensures
            s.wf(),
            is_fresh_session(s@, chats@, send_method@, dir@, now),
    {
        let mut seen: StringHashMap<String> = StringHashMap::new();
        let mut i: usize = 0;
        while i < chats.len()
            invariant
                i <= chats@.len(),
                smap(seen@) =~= initial_seen(chats@, i as nat),
            decreases chats@.len() - i,
        {
            if let Some(lm) = &chats[i].last_message {
                assert(chat_last(chats@[i as int]) == Some(**lm));
                let ghost before = seen@;
                seen.insert(chats[i].guid.clone(), lm.guid.clone());
                proof {
                    crate::model::lemma_smap_insert(before, chats@[i as int].guid@, lm.guid);
                }
            }
            i += 1;
        }
        let sel = if chats.len() > 0 { Some(0) } else { None };
        let s = MainState {
            chats,
            chat_list_selected: sel,
            messages: Vec::new(),
            selected_chat_index: sel,
            contacts: StringHashMap::new(),
            focused_pane: FocusedPane::Chats,
            message_selected: None,
            compose_mode: false,
            compose_text: Vec::new(),
            compose_cursor: 0,
            send_error: None,
            last_chat_reload: now,
            last_message_reload: now,
            pending_load: None,
            last_nav: now,
            attachment_items: Vec::new(),
            attachment_selected: 0,
            attachment_status: None,
            has_more_messages: true,
            status_expires: None,
            pending_attachment_open: None,
            loading_attachment: false,
            pending_send: false,
            pending_at: false,
            pending_file_attachments: Vec::new(),
            file_chooser_dir: dir,
            file_chooser_entries: Vec::new(),
            file_chooser_selected: 0,
            file_chooser_filter: String::new(),
            chat_search_query: String::new(),
            chat_search_results: Vec::new(),
            chat_search_selected: 0,
            emoji_picker_state: None,
            emoji_catalog: emoji_catalog(),
            send_method,
            last_activity: now,
            last_seen_guids: seen,
            unread_chats: StringHashSet::new(),
            terminal_focused: false,
            drafts: StringHashMap::new(),
            api_requests_in_flight: 0,
            tui_notifications: Vec::new(),
            notification_fade_start: None,
            image_cache: StringHashMap::new(),
            pending_image_downloads: Vec::new(),
        };
        assert(s@.contacts =~= Map::<Seq<char>, Seq<char>>::empty());
        assert(s@.drafts =~= Map::<Seq<char>, (Seq<char>, usize)>::empty());
        s
    }
}

impl MainState {
    /// Records whether the terminal has the input focus.
    pub fn set_terminal_focused(&mut self, focused: bool)
        requires
            old(self).wf(),
        ensures
            final(self).wf(),
            final(self)@ == (MainView { terminal_focused: focused, ..old(self)@ }),
    {
        let ghost m = self@;
        self.terminal_focused = focused;
        assert(self@ == MainView { terminal_focused: focused, ..m });
    }
}

/// What falls due at a tick: a chat list reload and/or a message load.
pub struct TickWork {
    pub reload_chats: Option<crate::types::ChatQuery>,
    pub load_messages: Option<MessageRequest>,
}

/// Faded in-terminal notifications go and an expired status line is cleared.
pub open spec fn spec_expire(m: MainView, now: u64) -> MainView {
    let m1 = match m.notification_fade_start {
        Some(f) => if elapsed(now, f) >= FADE_MS {
            MainView { tui_notifications: Seq::empty(), notification_fade_start: None, ..m }
        } else { m },
        None => m,
    };
    match m1.status_expires {
        Some(e) => if now >= e { MainView { attachment_status: None, status_expires: None, ..m1 } } else { m1 },
        None => m1,
    }
}

/// The chat list reload falls due every 30 s.
pub open spec fn spec_chat_reload(m: MainView, now: u64) -> (MainView, bool) {
    let reload = elapsed(now, m.last_chat_reload) >= CHAT_RELOAD_INTERVAL_MS;
    (if reload {
        MainView { api_requests_in_flight: inc(m.api_requests_in_flight), last_chat_reload: now, ..m }
    } else { m }, reload)
}

/// The selected chat's messages load 200 ms after the last chat switch, and
/// otherwise every 3 s; the index says which chat was asked for.
pub open spec fn spec_messages_due(m3: MainView, now: u64) -> (MainView, Option<usize>) {
    match m3.pending_load {
        Some(idx) => if elapsed(now, m3.last_nav) >= DEBOUNCE_MS {
            (MainView {
                api_requests_in_flight: if idx < m3.chats.len() { inc(m3.api_requests_in_flight) } else { m3.api_requests_in_flight },
                pending_load: None,
                last_message_reload: now,
                ..m3
            }, if idx < m3.chats.len() { Some(idx) } else { None })
        } else {
            (m3, None)
        },
        None => if elapsed(now, m3.last_message_reload) >= MESSAGE_RELOAD_INTERVAL_MS {
            match m3.selected_chat_index {
                Some(idx) => (MainView {
                    api_requests_in_flight: if idx < m3.chats.len() { inc(m3.api_requests_in_flight) } else { m3.api_requests_in_flight },
                    last_message_reload: now,
                    ..m3
                }, if idx < m3.chats.len() { Some(idx) } else { None }),
                None => (MainView { last_message_reload: now, ..m3 }, None),
            }
        } else {
            (m3, None)
        },
    }
}

/// The client after the periodic timers ran at `now`, whether the chat list
/// was asked for, and which chat's messages were.
pub open spec fn spec_tick(m: MainView, now: u64) -> (MainView, bool, Option<usize>) {
    let (m3, reload) = spec_chat_reload(spec_expire(m, now), now);
    let (m4, idx) = spec_messages_due(m3, now);
    (m4, reload, idx)
}

/// Does `t` carry out the requests `spec_tick` says were made?
pub open spec fn tick_work_is(t: TickWork, m: MainView, reload: bool, load: Option<usize>) -> bool {
    &&& (t.reload_chats is Some == reload)
    &&& (t.reload_chats matches Some(q) ==> is_chat_list_query(q))
    &&& (t.load_messages is Some == load is Some)
    &&& (t.load_messages matches Some(r) ==> r.chat_guid@ == m.chats[load->0 as int].guid@ && is_page_query(r.query, r.chat_guid@, None))
}

/// Work queued for the surroundings by keys and answers.
pub struct PendingWork {
    pub open_attachment: Option<(String, String)>,
    pub files: Vec<String>,
    pub images: Vec<(String, String)>,
    pub send: bool,
}

/// A message send: the trimmed compose text to the selected chat.
pub open spec fn spec_begin_send(m: MainView) -> (MainView, bool) {
    let text = spec_trim(m.compose_text);
    if text.len() == 0 {
        (MainView { compose_mode: false, ..m }, false)
    } else {
        match chat_guid_at(m.chats, m.selected_chat_index) {
            None => (MainView { send_error: Some("No chat selected"@), compose_mode: false, ..m }, false),
            Some(_) => (MainView {
                compose_text: Seq::empty(),
                compose_cursor: 0,
                compose_mode: true,
                api_requests_in_flight: inc(m.api_requests_in_flight),
                ..m
            }, true),
        }
    }
}

/// Temporary guid of an outgoing message made at wall-clock time `ms`.
pub open spec fn spec_temp_guid(ms: u64) -> Seq<char> {
    "temp-"@ + spec_decimal(ms as nat)
}

/// Is `t` the send request for the compose text of `m` at wall-clock time `ms`?
pub open spec fn is_send_request(t: SendText, m: MainView, ms: u64) -> bool {
    &&& chat_guid_at(m.chats, m.selected_chat_index) == Some(t.chat_guid@)
    &&& t.message@ == spec_trim(m.compose_text)
    &&& t.method@ == m.send_method
    &&& t.temp_guid matches Some(g) && g@ == spec_temp_guid(ms)
    &&& t.subject is None
    &&& t.effect_id is None
    &&& t.selected_message_guid is None
}

/// Addresses of the participants of the first `n` chats, in order.
pub open spec fn participant_addresses(chats: Seq<Chat>, n: nat) -> Seq<Seq<char>>
    decreases n,
{
    if n == 0 || n > chats.len() {
        Seq::empty()
    } else {
        participant_addresses(chats, (n - 1) as nat) + match chats[n - 1].participants {
            Some(p) => p@.map_values(|h: crate::types::Handle| h.address@),
            None => Seq::empty(),
        }
    }
}

/// `s` without repeats, keeping first occurrences.
pub open spec fn dedup(s: Seq<Seq<char>>) -> Seq<Seq<char>>
    decreases s.len(),
{
    if s.len() == 0 {
        Seq::empty()
    } else {
        let d = dedup(s.drop_last());
        if d.contains(s.last()) { d } else { d.push(s.last()) }
    }
}

fn contains_str(v: &Vec<String>, x: &String) -> (b: bool)
    ensures
        b == sv(v@).contains(x@),
{
    let mut i: usize = 0;
    while i < v.len()
        invariant
            i <= v@.len(),
            forall|k: int| 0 <= k < i ==> v@[k]@ != x@,
        decreases v@.len() - i,
    {
        if v[i].eq(x) {
            assert(sv(v@)[i as int] == x@);
            return true;
        }
        i += 1;
    }
    assert forall|k: int| 0 <= k < sv(v@).len() implies sv(v@)[k] != x@ by {
        assert(sv(v@)[k] == v@[k]@);
    }
    false
}

impl MainState {
    fn expire_timers(&mut self, now: u64)
        requires
            old(self).wf(),
        ensures
            final(self).wf(),
            final(self)@ == spec_expire(old(self)@, now),
    {
        let ghost m = self@;
        if let Some(f) = self.notification_fade_start {
            let e = if now >= f { now - f } else { 0 };
            if e >= FADE_MS {
                self.tui_notifications = Vec::new();
                self.notification_fade_start = None;
                assert(self@.tui_notifications =~= Seq::<crate::model::NoticeView>::empty());
                assert(self@ == MainView { tui_notifications: Seq::empty(), notification_fade_start: None, ..m });
            }
        }
        let ghost m1 = self@;
        if let Some(e) = self.status_expires {
            if now >= e {
                self.attachment_status = None;
                self.status_expires = None;
                assert(self@ == MainView { attachment_status: None, status_expires: None, ..m1 });
            }
        }
    }

    fn chat_reload_due(&mut self, now: u64) -> (q: Option<crate::types::ChatQuery>)
        requires
            old(self).wf(),
        ensures
            final(self).wf(),
            final(self)@ == spec_chat_reload(old(self)@, now).0,
            q is Some == spec_chat_reload(old(self)@, now).1,
            q matches Some(x) ==> is_chat_list_query(x),
    {
        let since = if now >= self.last_chat_reload { now - self.last_chat_reload } else { 0 };
        if since >= CHAT_RELOAD_INTERVAL_MS {
            let q = self.reload_chats();
            let ghost m1 = self@;
            self.last_chat_reload = now;
            assert(self@ == MainView { last_chat_reload: now, ..m1 });
            Some(q)
        } else {
            None
        }
    }

    fn messages_due(&mut self, now: u64) -> (r: Option<MessageRequest>)
        requires
            old(self).wf(),
        ensures
            final(self).wf(),
            final(self)@ == spec_messages_due(old(self)@, now).0,
            r is Some == spec_messages_due(old(self)@, now).1 is Some,
            r matches Some(q) ==> q.chat_guid@ == old(self)@.chats[spec_messages_due(old(self)@, now).1->0 as int].guid@
                && is_page_query(q.query, q.chat_guid@, None),
    {
        match self.pending_load {
            Some(idx) => {
                let nav = if now >= self.last_nav { now - self.last_nav } else { 0 };
                if nav >= DEBOUNCE_MS {
                    let r = self.load_messages(idx);
                    let ghost m1 = self@;
                    self.pending_load = None;
                    self.last_message_reload = now;
                    assert(self@ == MainView { pending_load: None, last_message_reload: now, ..m1 });
                    r
                } else {
                    None
                }
            },
            None => {
                let since = if now >= self.last_message_reload { now - self.last_message_reload } else { 0 };
                if since >= MESSAGE_RELOAD_INTERVAL_MS {
                    let r = match self.selected_chat_index {
                        Some(idx) => self.load_messages(idx),
                        None => None,
                    };
                    let ghost m1 = self@;
                    self.last_message_reload = now;
                    assert(self@ == MainView { last_message_reload: now, ..m1 });
                    r
                } else {
                    None
                }
            },
        }
    }

    /// Runs the periodic timers at `now` and returns the requests that fell due.
    pub fn tick(&mut self, now: u64) -> (t: TickWork)
        requires
            old(self).wf(),
        ensures
            final(self).wf(),
            final(self)@ == spec_tick(old(self)@, now).0,
            tick_work_is(t, old(self)@, spec_tick(old(self)@, now).1, spec_tick(old(self)@, now).2),
    {
        self.expire_timers(now);
        let reload_chats = self.chat_reload_due(now);
        let load_messages = self.messages_due(now);
        TickWork { reload_chats, load_messages }
    }

    /// Takes the work queued by keys and answers: the attachment to open,
    /// the files to send, the previews to download and whether to send the
    /// compose text.
    pub fn take_pending_work(&mut self) -> (w: PendingWork)
        requires
            old(self).wf(),
        ensures
            final(self).wf(),
            final(self)@ == (MainView {
                pending_attachment_open: None,
                pending_file_attachments: Seq::empty(),
                pending_image_downloads: Seq::empty(),
                pending_send: false,
                ..old(self)@
            }),
            match w.open_attachment {
                Some(p) => old(self)@.pending_attachment_open == Some((p.0@, p.1@)),
                None => old(self)@.pending_attachment_open is None,
            },
            sv(w.files@) == old(self)@.pending_file_attachments,
            pv(w.images@) == old(self)@.pending_image_downloads,
            w.send == old(self)@.pending_send,
    {
        let open_attachment = self.pending_attachment_open.take();
        let mut files = Vec::new();
        std::mem::swap(&mut files, &mut self.pending_file_attachments);
        let mut images = Vec::new();
        std::mem::swap(&mut images, &mut self.pending_image_downloads);
        let send = self.pending_send;
        self.pending_send = false;
        assert(sv(self.pending_file_attachments@) =~= Seq::<Seq<char>>::empty());
        assert(pv(self.pending_image_downloads@) =~= Seq::<(Seq<char>, Seq<char>)>::empty());
        PendingWork { open_attachment, files, images, send }
    }

    /// Starts sending the compose text at wall-clock time `wall_ms`; returns
    /// the request to send, if there is one.
    pub fn begin_send(&mut self, wall_ms: u64) -> (r: Option<SendText>)
        requires
            old(self).wf(),
        ensures
            final(self).wf(),
            final(self)@ == spec_begin_send(old(self)@).0,
            r is Some == spec_begin_send(old(self)@).1,
            r matches Some(t) ==> is_send_request(t, old(self)@, wall_ms),
    {
        let ghost m = self@;
        let cs = string_of_vec(&self.compose_text);
        let text = trim(cs.as_str());
        if text.as_str().is_empty() {
            self.compose_mode = false;
            assert(self@ == MainView { compose_mode: false, ..m });
            return None;
        }
        let chat_guid = match self.current_chat_guid() {
            Some(g) => g,
            None => {
                self.send_error = Some(owned("No chat selected"));
                self.compose_mode = false;
                assert(self@ == MainView { send_error: Some("No chat selected"@), compose_mode: false, ..m });
                return None;
            },
        };
        self.compose_text = Vec::new();
        self.compose_cursor = 0;
        self.compose_mode = true;
        self.api_requests_in_flight = self.api_requests_in_flight.saturating_add(1);
        let d = decimal(wall_ms);
        let temp = concat("temp-", d.as_str());
        let t = SendText {
            chat_guid,
            message: text,
            method: self.send_method.clone(),
            temp_guid: Some(temp),
            subject: None,
            effect_id: None,
            selected_message_guid: None,
        };
        assert(self@ == spec_begin_send(m).0);
        Some(t)
    }

    /// The chat a file is sent to: the selected chat; without one the send
    /// fails with "No chat selected".
    pub fn send_file_target(&mut self) -> (r: Option<String>)
        requires
            old(self).wf(),
        ensures
            final(self).wf(),
            match r {
                Some(g) => chat_guid_at(old(self)@.chats, old(self)@.selected_chat_index) == Some(g@)
                    && final(self)@ == old(self)@,
                None => chat_guid_at(old(self)@.chats, old(self)@.selected_chat_index) is None
                    && final(self)@ == (MainView { send_error: Some("No chat selected"@), ..old(self)@ }),
            },
    {
        match self.current_chat_guid() {
            Some(g) => Some(g),
            None => {
                self.send_error = Some(owned("No chat selected"));
                None
            },
        }
    }

    /// Records that a file to send could not be read.
    pub fn send_file_unreadable(&mut self, err: &str)
        requires
            old(self).wf(),
        ensures
            final(self).wf(),
            final(self)@ == (MainView { send_error: Some("Failed to read file: "@ + err@), ..old(self)@ }),
    {
        self.send_error = Some(concat("Failed to read file: ", err));
    }

    /// Starts an attachment upload at wall-clock time `wall_ms`; returns its temporary guid.
    pub fn begin_upload(&mut self, wall_ms: u64) -> (g: String)
        requires
            old(self).wf(),
        ensures
            final(self).wf(),
            final(self)@ == (MainView { api_requests_in_flight: inc(old(self)@.api_requests_in_flight), ..old(self)@ }),
            g@ == spec_temp_guid(wall_ms),
    {
        self.api_requests_in_flight = self.api_requests_in_flight.saturating_add(1);
        let d = decimal(wall_ms);
        concat("temp-", d.as_str())
    }

    /// Starts loading contacts: all of them, and specifically the chats'
    /// participants (each address once, in order of first appearance) when
    /// there are any.  Returns those addresses.
    pub fn load_contacts(&mut self) -> (addrs: Vec<String>)
        requires
            old(self).wf(),
        ensures
            final(self).wf(),
            ({
                let a = dedup(participant_addresses(old(self)@.chats, old(self)@.chats.len()));
                &&& sv(addrs@) == a
                &&& final(self)@ == (MainView {
                    api_requests_in_flight: if a.len() > 0 {
                        inc(inc(old(self)@.api_requests_in_flight))
                    } else {
                        inc(old(self)@.api_requests_in_flight)
                    },
                    ..old(self)@
                })
            }),
    {
        let ghost m = self@;
        self.api_requests_in_flight = self.api_requests_in_flight.saturating_add(1);
        let mut out: Vec<String> = Vec::new();
        let mut i: usize = 0;
        while i < self.chats.len()
            invariant
                i <= self@.chats.len(),
                self@.chats == m.chats,
                sv(out@) =~= dedup(participant_addresses(m.chats, i as nat)),
            decreases self@.chats.len() - i,
        {
            if let Some(ps) = &self.chats[i].participants {
                let ghost base = participant_addresses(m.chats, i as nat);
                let mut j: usize = 0;
                while j < ps.len()
                    invariant
                        j <= ps@.len(),
                        sv(out@) =~= dedup(base + ps@.take(j as int).map_values(|h: crate::types::Handle| h.address@)),
                    decreases ps@.len() - j,
                {
                    let ghost s0 = base + ps@.take(j as int).map_values(|h: crate::types::Handle| h.address@);
                    let ghost s1 = base + ps@.take(j + 1).map_values(|h: crate::types::Handle| h.address@);
                    assert(s1.drop_last() =~= s0);
                    assert(s1.last() == ps@[j as int].address@);
                    let a = &ps[j].address;
                    if !contains_str(&out, a) {
                        let ghost before = out@;
                        out.push(a.clone());
                        assert(sv(out@) =~= sv(before).push(a@));
                    }
                    j += 1;
                }
                assert(ps@.take(ps@.len() as int) =~= ps@);
                assert(participant_addresses(m.chats, (i + 1) as nat) =~= base + ps@.map_values(|h: crate::types::Handle| h.address@));
            } else {
                assert(participant_addresses(m.chats, (i + 1) as nat) =~= participant_addresses(m.chats, i as nat));
            }
            i += 1;
        }
        if out.len() > 0 {
            self.api_requests_in_flight = self.api_requests_in_flight.saturating_add(1);
        }
        out
    }
}

} // verus!
