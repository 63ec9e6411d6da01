//! What the client does with the answers to its requests.

use vstd::prelude::*;
use crate::display::spec_chat_display_name;
use crate::model::{chat_guid_at, MainState, MainView, NoticeView, TuiNotification, view_wf};
use crate::text::{concat, owned};
use crate::types::{Chat, ContactAddress, ContactData, Message};
use crate::attachments::spec_image_jobs;
use crate::helpers::{normalize_address, spec_normalize_address};
use crate::navigation::MESSAGE_PAGE_SIZE;
use crate::types::spec_best_name;

verus! {

/// Something the client asks its surroundings to do after an answer.
#[derive(Debug)]
pub enum Effect {
    /// Append a line to the error log.
    LogError(String),
    /// Open a downloaded file with the system's default application.
    OpenFile(String),
    /// Show a desktop notification.
    Notify { title: String, body: String },
}

/// Abstract view of an effect.
pub enum EffectView {
    LogError(Seq<char>),
    OpenFile(Seq<char>),
    Notify(Seq<char>, Seq<char>),
}

pub open spec fn effect_view(e: Effect) -> EffectView {
    match e {
        Effect::LogError(s) => EffectView::LogError(s@),
        Effect::OpenFile(s) => EffectView::OpenFile(s@),
        Effect::Notify { title, body } => EffectView::Notify(title@, body@),
    }
}

pub open spec fn effects_view(es: Seq<Effect>) -> Seq<EffectView> {
    es.map_values(|e: Effect| effect_view(e))
}

/// How long without input before the client counts as idle, in milliseconds.
pub const IDLE_AFTER_MS: u64 = 15000;

/// How long before a message reload falls due, in milliseconds.
pub const MESSAGE_RELOAD_INTERVAL_MS: u64 = 3000;

/// Milliseconds from `since` to `now` (zero when `since` is later).
pub open spec fn elapsed(now: u64, since: u64) -> u64 {
    if now >= since { (now - since) as u64 } else { 0 }
}

/// The client after a send went through: the error is cleared, the selected
/// chat's draft is dropped and a message reload falls due at once.
pub open spec fn spec_after_send_success(m: MainView, now: u64) -> MainView {
    MainView {
        send_error: None,
        drafts: match chat_guid_at(m.chats, m.selected_chat_index) {
            Some(g) => m.drafts.remove(g),
            None => m.drafts,
        },
        last_message_reload: if now >= MESSAGE_RELOAD_INTERVAL_MS { (now - MESSAGE_RELOAD_INTERVAL_MS) as u64 } else { 0 },
        ..m
    }
}

/// The last message of a chat, if the server sent one.
pub open spec fn chat_last(c: Chat) -> Option<Message> {
    match c.last_message {
        Some(b) => Some(*b),
        None => None,
    }
}

/// Text of a notification for a message: its text, or "New attachment" when it has none.
pub open spec fn notice_body(msg: Message) -> Seq<char> {
    match msg.text {
        Some(t) => if t@.len() > 0 { t@ } else { "New attachment"@ },
        None => "New attachment"@,
    }
}

/// A chat whose last message changed since it was last seen.
pub struct UpdateView {
    pub chat: Seq<char>,
    pub msg: Seq<char>,
    pub notify: bool,
    pub title: Seq<char>,
    pub body: Seq<char>,
    pub from_contact: bool,
}

/// Chats among the first `n` whose last message has never been seen: (chat, message).
pub open spec fn spec_seeds(m: MainView, n: nat) -> Seq<(Seq<char>, Seq<char>)>
    decreases n,
{
    if n == 0 || n > m.chats.len() {
        Seq::empty()
    } else {
        let rest = spec_seeds(m, (n - 1) as nat);
        let c = m.chats[n - 1];
        match chat_last(c) {
            Some(lm) => if !m.last_seen_guids.contains_key(c.guid@) {
                rest.push((c.guid@, lm.guid@))
            } else {
                rest
            },
            None => rest,
        }
    }
}

/// Chats among the first `n` whose last message differs from the one last seen.
pub open spec fn spec_updates(m: MainView, n: nat) -> Seq<UpdateView>
    decreases n,
{
    if n == 0 || n > m.chats.len() {
        Seq::empty()
    } else {
        let rest = spec_updates(m, (n - 1) as nat);
        let c = m.chats[n - 1];
        match chat_last(c) {
            Some(lm) => if m.last_seen_guids.contains_key(c.guid@) && m.last_seen_guids[c.guid@] != lm.guid@ {
                rest.push(UpdateView {
                    chat: c.guid@,
                    msg: lm.guid@,
                    notify: !m.terminal_focused && !lm.is_from_me,
                    title: spec_chat_display_name(m.contacts, c),
                    body: notice_body(lm),
                    from_contact: !lm.is_from_me,
                })
            } else {
                rest
            },
            None => rest,
        }
    }
}

/// `map` with the pairs inserted in order.
pub open spec fn apply_pairs(map: Map<Seq<char>, Seq<char>>, ps: Seq<(Seq<char>, Seq<char>)>) -> Map<Seq<char>, Seq<char>>
    decreases ps.len(),
{
    if ps.len() == 0 {
        map
    } else {
        apply_pairs(map, ps.drop_last()).insert(ps.last().0, ps.last().1)
    }
}

/// First index at or after `i` of the notification for `chat` (the length when none).
pub open spec fn notice_index(ns: Seq<NoticeView>, chat: Seq<char>, i: int) -> int
    decreases ns.len() - i,
{
    if i < 0 || i >= ns.len() {
        ns.len() as int
    } else if ns[i].chat == chat {
        i
    } else {
        notice_index(ns, chat, i + 1)
    }
}

/// Notifications after adding `body` for `chat`: appended to the chat's
/// notification, or a new notification titled `title`.
pub open spec fn add_notice(ns: Seq<NoticeView>, chat: Seq<char>, title: Seq<char>, body: Seq<char>) -> Seq<NoticeView> {
    let k = notice_index(ns, chat, 0);
    if 0 <= k < ns.len() {
        ns.update(k, NoticeView { bodies: ns[k].bodies.push(body), ..ns[k] })
    } else {
        ns.push(NoticeView { chat, title, bodies: seq![body] })
    }
}

/// What applying the changed chats builds up.
pub struct NotifyAcc {
    pub seen: Map<Seq<char>, Seq<char>>,
    pub unread: Set<Seq<char>>,
    pub notices: Seq<NoticeView>,
    pub effects: Seq<EffectView>,
}

/// Applying changed chats in order: each is marked seen; those to notify are
/// marked unread and get a desktop notification; messages from contacts get
/// an in-terminal notification when `tui` allows it and the chat is not `current`.
pub open spec fn fold_updates(acc: NotifyAcc, ups: Seq<UpdateView>, tui: bool, current: Option<Seq<char>>) -> NotifyAcc
    decreases ups.len(),
{
    if ups.len() == 0 {
        acc
    } else {
        let a = fold_updates(acc, ups.drop_last(), tui, current);
        let u = ups.last();
        let a1 = NotifyAcc { seen: a.seen.insert(u.chat, u.msg), ..a };
        let a2 = if u.notify {
            NotifyAcc {
                unread: a1.unread.insert(u.chat),
                effects: a1.effects.push(EffectView::Notify(u.title, u.body)),
                ..a1
            }
        } else {
            a1
        };
        if u.from_contact && tui && current != Some(u.chat) {
            NotifyAcc { notices: add_notice(a2.notices, u.chat, u.title, u.body), ..a2 }
        } else {
            a2
        }
    }
}

/// The client's bookkeeping of new messages after the chat list changed, and
/// the desktop notifications to show.
pub open spec fn spec_check_new_messages(m: MainView, now: u64) -> (MainView, Seq<EffectView>) {
    let n = m.chats.len();
    let seen0 = apply_pairs(m.last_seen_guids, spec_seeds(m, n));
    let tui = elapsed(now, m.last_activity) > IDLE_AFTER_MS && m.notification_fade_start is None;
    let acc = fold_updates(
        NotifyAcc { seen: seen0, unread: m.unread_chats, notices: m.tui_notifications, effects: Seq::empty() },
        spec_updates(m, n),
        tui,
        chat_guid_at(m.chats, m.selected_chat_index),
    );
    (MainView { last_seen_guids: acc.seen, unread_chats: acc.unread, tui_notifications: acc.notices, ..m }, acc.effects)
}



/// An answer to one of the client's requests, or the outcome of work done for it.
pub enum ApiResponse {
    ChatsLoaded(Result<Vec<Chat>, String>),
    MessagesLoaded { chat_guid: String, messages: Result<Vec<Message>, String> },
    MoreMessagesLoaded { chat_guid: String, count: usize, older: Result<Vec<Message>, String> },
    ContactsLoaded(Result<Vec<ContactData>, String>),
    SpecificContactsLoaded(Result<Vec<ContactData>, String>),
    AttachmentDownloaded { name: String, result: Result<String, String> },
    AttachmentSent(Result<(), String>),
    TextSent(Result<(), String>),
    ImageDownloaded { guid: String, result: Result<(), String> },
}

/// How long an attachment status line stays up, in milliseconds.
pub const STATUS_CLEAR_MS: u64 = 3000;

/// Index of the first chat at or after `i` with guid `g`.
pub open spec fn guid_position(chats: Seq<Chat>, g: Seq<char>, i: int) -> Option<usize>
    decreases chats.len() - i,
{
    if i < 0 || i >= chats.len() {
        None
    } else if chats[i].guid@ == g {
        Some(i as usize)
    } else {
        guid_position(chats, g, i + 1)
    }
}

/// The client after a new chat list arrived: the same chat stays selected
/// (found again by guid), then new messages are noticed.
pub open spec fn spec_chats_loaded(m: MainView, chats: Seq<Chat>, now: u64) -> (MainView, Seq<EffectView>) {
    let idx = match chat_guid_at(m.chats, m.selected_chat_index) {
        Some(g) => guid_position(chats, g, 0),
        None => None,
    };
    spec_check_new_messages(MainView { chats, selected_chat_index: idx, chat_list_selected: idx, ..m }, now)
}

/// Is there a message with guid `g` in `ms`?
pub open spec fn has_guid(ms: Seq<Message>, g: Seq<char>) -> bool {
    exists|i: int| 0 <= i < ms.len() && #[trigger] ms[i].guid@ == g
}

/// The messages of `s` whose guid does not occur in `known`, in order.
pub open spec fn without_known(known: Seq<Message>, s: Seq<Message>) -> Seq<Message>
    decreases s.len(),
{
    if s.len() == 0 {
        Seq::empty()
    } else {
        let rest = without_known(known, s.drop_last());
        if has_guid(known, s.last().guid@) { rest } else { rest.push(s.last()) }
    }
}

/// The client after the newest page of `chat` arrived (newest first).  Only
/// the selected chat is updated.  With more than a page of history loaded,
/// messages not yet there are added at the end and nothing else changes;
/// otherwise the page replaces the messages and the selection is kept inside it.
pub open spec fn spec_messages_loaded(m: MainView, chat: Seq<char>, msgs: Seq<Message>) -> MainView {
    if chat_guid_at(m.chats, m.selected_chat_index) != Some(chat) {
        m
    } else {
        let r = msgs.reverse();
        if m.messages.len() > MESSAGE_PAGE_SIZE {
            let new = without_known(m.messages, r);
            if new.len() > 0 {
                MainView {
                    pending_image_downloads: m.pending_image_downloads + spec_image_jobs(m.image_cache, new),
                    messages: m.messages + new,
                    ..m
                }
            } else {
                m
            }
        } else {
            MainView {
                has_more_messages: r.len() >= MESSAGE_PAGE_SIZE,
                pending_image_downloads: m.pending_image_downloads + spec_image_jobs(m.image_cache, r),
                messages: r,
                message_selected: match m.message_selected {
                    Some(s) => if r.len() == 0 { None } else if s >= r.len() { Some((r.len() - 1) as usize) } else { Some(s) },
                    None => None,
                },
                ..m
            }
        }
    }
}

/// The client after an older page of `chat` arrived (newest first, `count`
/// messages): the messages not yet loaded go in front, the selection stays on
/// the same message, and a short page means the history is complete.
pub open spec fn spec_more_loaded(m: MainView, chat: Seq<char>, count: usize, older: Seq<Message>) -> MainView {
    if chat_guid_at(m.chats, m.selected_chat_index) != Some(chat) {
        m
    } else {
        let kept = without_known(m.messages, older.reverse());
        MainView {
            has_more_messages: if (count as u64) < MESSAGE_PAGE_SIZE { false } else { m.has_more_messages },
            message_selected: match m.message_selected {
                Some(s) => Some((s + kept.len()) as usize),
                None => None,
            },
            pending_image_downloads: m.pending_image_downloads + spec_image_jobs(m.image_cache, kept),
            messages: kept + m.messages,
            ..m
        }
    }
}

/// `map` with `k` mapped to `v`; when `overwrite` is false an existing entry wins.
pub open spec fn put(map: Map<Seq<char>, Seq<char>>, k: Seq<char>, v: Seq<char>, overwrite: bool) -> Map<Seq<char>, Seq<char>> {
    if overwrite || !map.contains_key(k) { map.insert(k, v) } else { map }
}

/// Contact names after recording `name` under each address as given and normalised.
pub open spec fn add_addresses(map: Map<Seq<char>, Seq<char>>, addrs: Seq<ContactAddress>, name: Seq<char>, ow: bool) -> Map<Seq<char>, Seq<char>>
    decreases addrs.len(),
{
    if addrs.len() == 0 {
        map
    } else {
        let m1 = add_addresses(map, addrs.drop_last(), name, ow);
        let a = addrs.last().address@;
        put(put(m1, a, name, ow), spec_normalize_address(a), name, ow)
    }
}

/// Contact names after recording the contacts in order (phone numbers, then
/// e-mail addresses, of each contact that has a name).
pub open spec fn add_contacts(map: Map<Seq<char>, Seq<char>>, cs: Seq<ContactData>, ow: bool) -> Map<Seq<char>, Seq<char>>
    decreases cs.len(),
{
    if cs.len() == 0 {
        map
    } else {
        let m1 = add_contacts(map, cs.drop_last(), ow);
        let c = cs.last();
        match spec_best_name(c) {
            Some(n) => add_addresses(add_addresses(m1, c.phone_numbers@, n, ow), c.emails@, n, ow),
            None => m1,
        }
    }
}

/// One fewer request in flight (never below zero).
pub open spec fn dec(n: usize) -> usize {
    if n > 0 { (n - 1) as usize } else { 0 }
}

/// `a` plus `b`, or the largest value when that overflows.
pub open spec fn sat_add(a: u64, b: u64) -> u64 {
    if a + b <= u64::MAX { (a + b) as u64 } else { u64::MAX }
}

/// The client after an answer arrived at time `now`, and what it asks its
/// surroundings to do.  Every answer but an image preview ends one request in flight.
pub open spec fn spec_handle_response(m0: MainView, r: ApiResponse, now: u64) -> (MainView, Seq<EffectView>) {
    let m = match r {
        ApiResponse::ImageDownloaded { .. } => m0,
        _ => MainView { api_requests_in_flight: dec(m0.api_requests_in_flight), ..m0 },
    };
    match r {
        ApiResponse::ChatsLoaded(Ok(chats)) => spec_chats_loaded(m, chats@, now),
        ApiResponse::ChatsLoaded(Err(e)) => (m, seq![EffectView::LogError("[bluebubbles] reload_chats error: "@ + e@)]),
        ApiResponse::MessagesLoaded { chat_guid, messages: Ok(msgs) } => (spec_messages_loaded(m, chat_guid@, msgs@), Seq::empty()),
        ApiResponse::MessagesLoaded { chat_guid, messages: Err(e) } => (
            if chat_guid_at(m.chats, m.selected_chat_index) == Some(chat_guid@) {
                MainView { messages: Seq::empty(), message_selected: None, ..m }
            } else {
                m
            },
            seq![EffectView::LogError("[bluebubbles] load_messages error: "@ + e@)],
        ),
        ApiResponse::MoreMessagesLoaded { chat_guid, count, older: Ok(o) } => (spec_more_loaded(m, chat_guid@, count, o@), Seq::empty()),
        ApiResponse::MoreMessagesLoaded { chat_guid, count, older: Err(e) } => (
            if chat_guid_at(m.chats, m.selected_chat_index) == Some(chat_guid@) {
                MainView { has_more_messages: false, ..m }
            } else {
                m
            },
            seq![EffectView::LogError("[bluebubbles] load_more_messages error: "@ + e@)],
        ),
        ApiResponse::ContactsLoaded(Ok(cs)) => (MainView { contacts: add_contacts(m.contacts, cs@, true), ..m }, Seq::empty()),
        ApiResponse::SpecificContactsLoaded(Ok(cs)) => (MainView { contacts: add_contacts(m.contacts, cs@, false), ..m }, Seq::empty()),
        ApiResponse::ContactsLoaded(Err(_)) | ApiResponse::SpecificContactsLoaded(Err(_)) => (m, Seq::empty()),
        ApiResponse::AttachmentDownloaded { name, result: Ok(path) } => (
            MainView {
                loading_attachment: false,
                attachment_status: Some("Opened "@ + name@),
                status_expires: Some(sat_add(now, STATUS_CLEAR_MS)),
                ..m
            },
            seq![EffectView::OpenFile(path@)],
        ),
        ApiResponse::AttachmentDownloaded { name, result: Err(err) } => (
            MainView { loading_attachment: false, attachment_status: Some(err@), ..m },
            Seq::empty(),
        ),
        ApiResponse::AttachmentSent(Ok(())) | ApiResponse::TextSent(Ok(())) => (spec_after_send_success(m, now), Seq::empty()),
        ApiResponse::AttachmentSent(Err(err)) => (MainView { send_error: Some("Send attachment failed: "@ + err@), ..m }, Seq::empty()),
        ApiResponse::TextSent(Err(err)) => (MainView { send_error: Some("Send failed: "@ + err@), ..m }, Seq::empty()),
        ApiResponse::ImageDownloaded { guid, result } => (
            MainView {
                image_cache: m.image_cache.insert(guid@, if result is Ok { crate::model::ImageCacheEntry::Ready } else { crate::model::ImageCacheEntry::Failed }),
                ..m
            },
            Seq::empty(),
        ),
    }
}

struct Update {
    chat: String,
    msg: String,
    notify: bool,
    title: String,
    body: String,
    from_contact: bool,
}

spec fn update_view(u: Update) -> UpdateView {
    UpdateView { chat: u.chat@, msg: u.msg@, notify: u.notify, title: u.title@, body: u.body@, from_contact: u.from_contact }
}

spec fn updates_view(us: Seq<Update>) -> Seq<UpdateView> {
    us.map_values(|u: Update| update_view(u))
}

fn body_of(msg: &Message) -> (r: String)
    ensures
        r@ == notice_body(*msg),
{
    match &msg.text {
        Some(t) => if !t.as_str().is_empty() { t.clone() } else { owned("New attachment") },
        None => owned("New attachment"),
    }
}

fn find_notice(ns: &Vec<(String, TuiNotification)>, chat: &String) -> (k: usize)
    ensures
        k == notice_index(ns@.map_values(|n: (String, TuiNotification)| crate::model::notice_view(n)), chat@, 0),
        k <= ns@.len(),
{
    let ghost nv = ns@.map_values(|n: (String, TuiNotification)| crate::model::notice_view(n));
    let mut i: usize = 0;
    while i < ns.len()
        invariant
            i <= ns@.len(),
            nv == ns@.map_values(|n: (String, TuiNotification)| crate::model::notice_view(n)),
            notice_index(nv, chat@, 0) == notice_index(nv, chat@, i as int),
        decreases ns@.len() - i,
    {
        assert(nv[i as int].chat == ns@[i as int].0@);
        if ns[i].0.eq(chat) {
            return i;
        }
        i += 1;
    }
    i
}

impl MainState {
    fn add_tui_notice(&mut self, chat: &String, title: &String, body: &String)
        requires
            old(self).wf(),
        ensures
            final(self).wf(),
            final(self)@ == (MainView {
                tui_notifications: add_notice(old(self)@.tui_notifications, chat@, title@, body@),
                ..old(self)@
            }),
    {
        let ghost m = self@;
        let k = find_notice(&self.tui_notifications, chat);
        if k < self.tui_notifications.len() {
            let (c, mut n) = self.tui_notifications.remove(k);
            let ghost nb = n.bodies@;
            n.bodies.push(body.clone());
            assert(crate::model::sv(n.bodies@) =~= crate::model::sv(nb).push(body@));
            self.tui_notifications.insert(k, (c, n));
        } else {
            let mut bodies: Vec<String> = Vec::new();
            bodies.push(body.clone());
            assert(crate::model::sv(bodies@) =~= seq![body@]);
            self.tui_notifications.push((chat.clone(), TuiNotification { title: title.clone(), bodies }));
        }
        assert(self@.tui_notifications =~= add_notice(m.tui_notifications, chat@, title@, body@));
    }

    /// Notices chats whose last message changed since it was last seen: the
    /// new message is marked seen, and messages from contacts are announced
    /// (desktop notification when the terminal is not focused, in-terminal
    /// notification when the user is idle and is not looking at that chat).
    pub fn check_new_messages_and_notify(&mut self, now: u64) -> (effects: Vec<Effect>)
        requires
            old(self).wf(),
        ensures
            final(self).wf(),
            final(self)@ == spec_check_new_messages(old(self)@, now).0,
            effects_view(effects@) == spec_check_new_messages(old(self)@, now).1,
    {
        let ghost m = self@;
        let n = self.chats.len();
        let mut seeds: Vec<(String, String)> = Vec::new();
        let mut updates: Vec<Update> = Vec::new();
        let mut i: usize = 0;
        while i < n
            invariant
                i <= n,
                n == m.chats.len(),
                self@ == m,
                crate::model::pv(seeds@) =~= spec_seeds(m, i as nat),
                updates_view(updates@) =~= spec_updates(m, i as nat),
            decreases n - i,
        {
            let c = &self.chats[i];
            if let Some(lm) = &c.last_message {
                assert(chat_last(*c) == Some(**lm));
                match self.last_seen_guids.get(c.guid.as_str()) {
                    None => {
                        let ghost before = seeds@;
                        let p = (c.guid.clone(), lm.guid.clone());
                        seeds.push(p);
                        assert(seeds@ =~= before.push(p));
                        assert(crate::model::pv(seeds@) =~= crate::model::pv(before).push((p.0@, p.1@)));
                    },
                    Some(old_guid) => {
                        assert(m.last_seen_guids[c.guid@] == old_guid@);
                        let same: bool = old_guid.eq(&lm.guid);
                        if !same {
                            let from_contact = !lm.is_from_me;
                            let title = self.chat_display_name(c);
                            let body = body_of(lm);
                            let u = Update {
                                chat: c.guid.clone(),
                                msg: lm.guid.clone(),
                                notify: !self.terminal_focused && from_contact,
                                title,
                                body,
                                from_contact,
                            };
                            let ghost before = updates@;
                            updates.push(u);
                            assert(updates@ =~= before.push(u));
                            assert(updates_view(updates@) =~= updates_view(before).push(update_view(u)));
                        }
                    },
                }
            }
            i += 1;
        }
        let ghost sd = spec_seeds(m, n as nat);
        let ghost ups = spec_updates(m, n as nat);
        let mut k: usize = 0;
        while k < seeds.len()
            invariant
                k <= seeds@.len(),
                crate::model::pv(seeds@) == sd,
                self@ == (MainView { last_seen_guids: apply_pairs(m.last_seen_guids, sd.take(k as int)), ..m }),
            decreases seeds@.len() - k,
        {
            assert(sd.take(k + 1).drop_last() =~= sd.take(k as int));
            assert(sd[k as int] == (seeds@[k as int].0@, seeds@[k as int].1@));
            let ghost before = self.last_seen_guids@;
            self.last_seen_guids.insert(seeds[k].0.clone(), seeds[k].1.clone());
            proof {
                crate::model::lemma_smap_insert(before, seeds@[k as int].0@, seeds@[k as int].1);
            }
            k += 1;
        }
        assert(sd.take(sd.len() as int) =~= sd);
        let idle = if now >= self.last_activity { now - self.last_activity } else { 0 };
        let tui = idle > IDLE_AFTER_MS && self.notification_fade_start.is_none();
        let current = self.current_chat_guid();
        let ghost cur = chat_guid_at(m.chats, m.selected_chat_index);
        assert(match current { Some(g) => cur == Some(g@), None => cur is None });
        let ghost init = NotifyAcc {
            seen: apply_pairs(m.last_seen_guids, sd),
            unread: m.unread_chats,
            notices: m.tui_notifications,
            effects: Seq::empty(),
        };
        let mut effects: Vec<Effect> = Vec::new();
        let mut j: usize = 0;
        while j < updates.len()
            invariant
                j <= updates@.len(),
                updates_view(updates@) == ups,
                view_wf(m),
                match current { Some(g) => cur == Some(g@), None => cur is None },
                tui == (elapsed(now, m.last_activity) > IDLE_AFTER_MS && m.notification_fade_start is None),
                ({
                    let acc = fold_updates(init, ups.take(j as int), tui, cur);
                    &&& self@ == (MainView { last_seen_guids: acc.seen, unread_chats: acc.unread, tui_notifications: acc.notices, ..m })
                    &&& effects_view(effects@) == acc.effects
                }),
                view_wf(self@),
            decreases updates@.len() - j,
        {
            assert(ups.take(j + 1).drop_last() =~= ups.take(j as int));
            let ghost a = fold_updates(init, ups.take(j as int), tui, cur);
            let u = &updates[j];
            assert(ups[j as int] == update_view(*u));
            assert(ups.take(j + 1).last() == update_view(*u));
            let ghost before_seen = self.last_seen_guids@;
            self.last_seen_guids.insert(u.chat.clone(), u.msg.clone());
            proof {
                crate::model::lemma_smap_insert(before_seen, u.chat@, u.msg);
            }
            if u.notify {
                self.unread_chats.insert(u.chat.clone());
                let ghost eb = effects@;
                let e = Effect::Notify { title: u.title.clone(), body: u.body.clone() };
                effects.push(e);
                assert(effects_view(effects@) =~= effects_view(eb).push(effect_view(e)));
            }
            let is_current = match &current {
                Some(g) => g.eq(&u.chat),
                None => false,
            };
            let ghost a1 = NotifyAcc { seen: a.seen.insert(u.chat@, u.msg@), ..a };
            let ghost a2 = if u.notify {
                NotifyAcc { unread: a1.unread.insert(u.chat@), effects: a1.effects.push(EffectView::Notify(u.title@, u.body@)), ..a1 }
            } else {
                a1
            };
            assert(self@ == (MainView { last_seen_guids: a2.seen, unread_chats: a2.unread, tui_notifications: a2.notices, ..m }));
            assert(effects_view(effects@) == a2.effects);
            assert(is_current == (cur == Some(u.chat@)));
            if u.from_contact && tui && !is_current {
                self.add_tui_notice(&u.chat, &u.title, &u.body);
            }
            assert(fold_updates(init, ups.take(j + 1), tui, cur) == (if u.from_contact && tui && cur != Some(u.chat@) {
                NotifyAcc { notices: add_notice(a2.notices, u.chat@, u.title@, u.body@), ..a2 }
            } else {
                a2
            }));
            j += 1;
        }
        assert(ups.take(ups.len() as int) =~= ups);
        effects
    }
}


fn reverse_messages(v: Vec<Message>) -> (r: Vec<Message>)
    ensures
        r@ == v@.reverse(),
{
    let ghost orig = v@;
    let mut v = v;
    let mut r: Vec<Message> = Vec::new();
    while v.len() > 0
        invariant
            v@.len() + r@.len() == orig.len(),
            v@ == orig.take(v@.len() as int),
            r@ == orig.reverse().take(r@.len() as int),
        decreases v@.len(),
    {
        let ghost k = v@.len();
        let x = v.pop().unwrap();
        r.push(x);
        assert(orig.take(k - 1) =~= orig.take(k as int).drop_last());
        assert(r@ =~= orig.reverse().take(r@.len() as int));
    }
    assert(r@ =~= orig.reverse());
    r
}

fn known_guid(ms: &Vec<Message>, g: &String) -> (b: bool)
    ensures
        b == has_guid(ms@, g@),
{
    let mut i: usize = 0;
    while i < ms.len()
        invariant
            i <= ms@.len(),
            forall|k: int| 0 <= k < i ==> ms@[k].guid@ != g@,
        decreases ms@.len() - i,
    {
        if ms[i].guid.eq(g) {
            return true;
        }
        i += 1;
    }
    false
}

fn drop_known(known: &Vec<Message>, s: Vec<Message>) -> (r: Vec<Message>)
    ensures
        r@ == without_known(known@, s@),
{
    let ghost orig = s@;
    let rev = reverse_messages(s);
    let mut rev = rev;
    assert(rev@ =~= orig.reverse().take(rev@.len() as int));
    let mut out: Vec<Message> = Vec::new();
    let ghost n = orig.len();
    while rev.len() > 0
        invariant
            rev@.len() <= n,
            n == orig.len(),
            rev@ =~= orig.reverse().take(rev@.len() as int),
            out@ == without_known(known@, orig.take(n - rev@.len())),
        decreases rev@.len(),
    {
        let ghost i = n - rev@.len();
        let x = rev.pop().unwrap();
        assert(x == orig[i]);
        assert(orig.take(i + 1).drop_last() =~= orig.take(i));
        if !known_guid(known, &x.guid) {
            out.push(x);
        }
        assert(rev@ =~= orig.reverse().take(rev@.len() as int));
    }
    assert(orig.take(n as int) =~= orig);
    out
}

fn find_chat(chats: &Vec<Chat>, g: &String) -> (r: Option<usize>)
    ensures
        r == guid_position(chats@, g@, 0),
{
    let mut i: usize = 0;
    while i < chats.len()
        invariant
            i <= chats@.len(),
            guid_position(chats@, g@, 0) == guid_position(chats@, g@, i as int),
        decreases chats@.len() - i,
    {
        if chats[i].guid.eq(g) {
            return Some(i);
        }
        i += 1;
    }
    None
}

impl MainState {
    /// Bookkeeping after a send went through.
    pub fn after_send_success(&mut self, now: u64)
        requires
            old(self).wf(),
        ensures
            final(self).wf(),
            final(self)@ == spec_after_send_success(old(self)@, now),
    {
        self.send_error = None;
        if let Some(g) = self.current_chat_guid() {
            let ghost before = self.drafts@;
            self.drafts.remove(g.as_str());
            proof {
                crate::model::lemma_dmap_remove(before, g@);
            }
        }
        self.last_message_reload = if now >= MESSAGE_RELOAD_INTERVAL_MS { now - MESSAGE_RELOAD_INTERVAL_MS } else { 0 };
    }

    /// Takes a new chat list.
    pub fn on_chats_loaded(&mut self, chats: Vec<Chat>, now: u64) -> (effects: Vec<Effect>)
        requires
            old(self).wf(),
        ensures
            final(self).wf(),
            final(self)@ == spec_chats_loaded(old(self)@, chats@, now).0,
            effects_view(effects@) == spec_chats_loaded(old(self)@, chats@, now).1,
    {
        let ghost m = self@;
        let ghost cv = chats@;
        let cur = self.current_chat_guid();
        let idx = match &cur {
            Some(g) => find_chat(&chats, g),
            None => None,
        };
        self.chats = chats;
        self.selected_chat_index = idx;
        self.chat_list_selected = idx;
        assert(self@ == (MainView { chats: cv, selected_chat_index: idx, chat_list_selected: idx, ..m }));
        self.check_new_messages_and_notify(now)
    }

    fn append_new_messages(&mut self, r: Vec<Message>)
        requires
            old(self).wf(),
        ensures
            final(self).wf(),
            ({
                let m = old(self)@;
                let new = without_known(m.messages, r@);
                &&& new.len() > 0 ==> final(self)@ == (MainView {
                    pending_image_downloads: m.pending_image_downloads + spec_image_jobs(m.image_cache, new),
                    messages: m.messages + new,
                    ..m
                })
                &&& new.len() == 0 ==> final(self)@ == m
            }),
    {
        let ghost m = self@;
        let mut new = drop_known(&self.messages, r);
        if new.len() > 0 {
            self.queue_image_downloads(&new);
            let ghost m1 = self@;
            let ghost nv = new@;
            self.messages.append(&mut new);
            assert(self@ == (MainView { messages: m1.messages + nv, ..m1 }));
        }
    }

    fn replace_messages(&mut self, r: Vec<Message>)
        requires
            old(self).wf(),
        ensures
            final(self).wf(),
            ({
                let m = old(self)@;
                final(self)@ == (MainView {
                    has_more_messages: r@.len() >= MESSAGE_PAGE_SIZE,
                    pending_image_downloads: m.pending_image_downloads + spec_image_jobs(m.image_cache, r@),
                    messages: r@,
                    message_selected: match m.message_selected {
                        Some(s) => if r@.len() == 0 { None } else if s >= r@.len() { Some((r@.len() - 1) as usize) } else { Some(s) },
                        None => None,
                    },
                    ..m
                })
            }),
    {
        self.queue_image_downloads(&r);
        self.has_more_messages = r.len() as u64 >= MESSAGE_PAGE_SIZE;
        let len = r.len();
        let sel = match self.message_selected {
            Some(s) => if len == 0 { None } else if s >= len { Some(len - 1) } else { Some(s) },
            None => None,
        };
        self.messages = r;
        self.message_selected = sel;
    }

    /// Takes the newest page of a chat's messages.
    pub fn on_messages_loaded(&mut self, chat_guid: &String, msgs: Vec<Message>)
        requires
            old(self).wf(),
        ensures
            final(self).wf(),
            final(self)@ == spec_messages_loaded(old(self)@, chat_guid@, msgs@),
    {
        let cur = self.current_chat_guid();
        let is_cur = match &cur {
            Some(g) => g.eq(chat_guid),
            None => false,
        };
        if !is_cur {
            return;
        }
        let r = reverse_messages(msgs);
        if self.messages.len() > MESSAGE_PAGE_SIZE as usize {
            self.append_new_messages(r);
        } else {
            self.replace_messages(r);
        }
    }

    /// Takes an older page of a chat's messages.
    pub fn on_more_messages_loaded(&mut self, chat_guid: &String, count: usize, older: Vec<Message>)
        requires
            old(self).wf(),
        ensures
            final(self).wf(),
            final(self)@ == spec_more_loaded(old(self)@, chat_guid@, count, older@),
    {
        let cur = self.current_chat_guid();
        let is_cur = match &cur {
            Some(g) => g.eq(chat_guid),
            None => false,
        };
        if !is_cur {
            return;
        }
        let r = reverse_messages(older);
        if (count as u64) < MESSAGE_PAGE_SIZE {
            self.has_more_messages = false;
        }
        let mut kept = drop_known(&self.messages, r);
        let prepend = kept.len();
        self.queue_image_downloads(&kept);
        let ghost m1 = self@;
        let ghost kv = kept@;
        let mut old_msgs = Vec::new();
        std::mem::swap(&mut old_msgs, &mut self.messages);
        kept.append(&mut old_msgs);
        let total = kept.len();
        assert(kept@ =~= kv + m1.messages);
        let sel = match self.message_selected {
            Some(s) => Some(s + prepend),
            None => None,
        };
        self.messages = kept;
        self.message_selected = sel;
    }

    fn add_addresses(&mut self, addrs: &Vec<ContactAddress>, name: &String, overwrite: bool)
        requires
            old(self).wf(),
        ensures
            final(self).wf(),
            final(self)@ == (MainView { contacts: add_addresses(old(self)@.contacts, addrs@, name@, overwrite), ..old(self)@ }),
    {
        let ghost m = self@;
        let mut i: usize = 0;
        while i < addrs.len()
            invariant
                i <= addrs@.len(),
                crate::model::view_wf(m),
                self@ == (MainView { contacts: add_addresses(m.contacts, addrs@.take(i as int), name@, overwrite), ..m }),
            decreases addrs@.len() - i,
        {
            assert(addrs@.take(i + 1).drop_last() =~= addrs@.take(i as int));
            let a = &addrs[i].address;
            let norm = normalize_address(a.as_str());
            self.put_contact(a.clone(), name, overwrite);
            self.put_contact(norm, name, overwrite);
            i += 1;
        }
        assert(addrs@.take(addrs@.len() as int) =~= addrs@);
    }

    fn put_contact(&mut self, k: String, name: &String, overwrite: bool)
        requires
            old(self).wf(),
        ensures
            final(self).wf(),
            final(self)@ == (MainView { contacts: put(old(self)@.contacts, k@, name@, overwrite), ..old(self)@ }),
    {
        let ghost before = self.contacts@;
        if overwrite || !self.contacts.contains_key(k.as_str()) {
            let ghost kv = k@;
            self.contacts.insert(k, name.clone());
            proof {
                crate::model::lemma_smap_insert(before, kv, *name);
            }
        }
    }

    /// Records contact names for their addresses; with `overwrite` false a
    /// name already recorded for an address is kept.
    pub fn merge_contacts(&mut self, cs: &Vec<ContactData>, overwrite: bool)
        requires
            old(self).wf(),
        ensures
            final(self).wf(),
            final(self)@ == (MainView { contacts: add_contacts(old(self)@.contacts, cs@, overwrite), ..old(self)@ }),
    {
        let ghost m = self@;
        let mut i: usize = 0;
        while i < cs.len()
            invariant
                i <= cs@.len(),
                crate::model::view_wf(m),
                self@ == (MainView { contacts: add_contacts(m.contacts, cs@.take(i as int), overwrite), ..m }),
            decreases cs@.len() - i,
        {
            assert(cs@.take(i + 1).drop_last() =~= cs@.take(i as int));
            let c = &cs[i];
            if let Some(n) = c.best_name() {
                self.add_addresses(&c.phone_numbers, &n, overwrite);
                self.add_addresses(&c.emails, &n, overwrite);
            }
            i += 1;
        }
        assert(cs@.take(cs@.len() as int) =~= cs@);
    }
}


fn one_effect(e: Effect) -> (r: Vec<Effect>)
    ensures
        effects_view(r@) == seq![effect_view(e)],
{
    let mut v: Vec<Effect> = Vec::new();
    v.push(e);
    assert(effects_view(v@) =~= seq![effect_view(e)]);
    v
}

fn no_effects() -> (r: Vec<Effect>)
    ensures
        effects_view(r@) == Seq::<EffectView>::empty(),
{
    let v: Vec<Effect> = Vec::new();
    assert(effects_view(v@) =~= Seq::<EffectView>::empty());
    v
}

impl MainState {
    /// Takes an answer to one of the client's requests at time `now` and says
    /// what the surroundings should do about it.
    pub fn handle_api_response(&mut self, response: ApiResponse, now: u64) -> (effects: Vec<Effect>)
        requires
            old(self).wf(),
        ensures
            final(self).wf(),
            final(self)@ == spec_handle_response(old(self)@, response, now).0,
            effects_view(effects@) == spec_handle_response(old(self)@, response, now).1,
    {
        let is_image = match &response {
            ApiResponse::ImageDownloaded { .. } => true,
            _ => false,
        };
        let ghost m0 = self@;
        if !is_image {
            self.api_requests_in_flight = if self.api_requests_in_flight > 0 { self.api_requests_in_flight - 1 } else { 0 };
            assert(self@ == (MainView { api_requests_in_flight: dec(m0.api_requests_in_flight), ..m0 }));
        }
        match response {
            ApiResponse::ChatsLoaded(Ok(chats)) => self.on_chats_loaded(chats, now),
            ApiResponse::ChatsLoaded(Err(e)) => {
                one_effect(Effect::LogError(concat("[bluebubbles] reload_chats error: ", e.as_str())))
            },
            ApiResponse::MessagesLoaded { chat_guid, messages: Ok(msgs) } => {
                self.on_messages_loaded(&chat_guid, msgs);
                no_effects()
            },
            ApiResponse::MessagesLoaded { chat_guid, messages: Err(e) } => {
                let cur = self.current_chat_guid();
                let is_cur = match &cur {
                    Some(g) => g.eq(&chat_guid),
                    None => false,
                };
                if is_cur {
                    self.messages = Vec::new();
                    self.message_selected = None;
                }
                one_effect(Effect::LogError(concat("[bluebubbles] load_messages error: ", e.as_str())))
            },
            ApiResponse::MoreMessagesLoaded { chat_guid, count, older: Ok(o) } => {
                self.on_more_messages_loaded(&chat_guid, count, o);
                no_effects()
            },
            ApiResponse::MoreMessagesLoaded { chat_guid, count, older: Err(e) } => {
                let cur = self.current_chat_guid();
                let is_cur = match &cur {
                    Some(g) => g.eq(&chat_guid),
                    None => false,
                };
                if is_cur {
                    self.has_more_messages = false;
                }
                one_effect(Effect::LogError(concat("[bluebubbles] load_more_messages error: ", e.as_str())))
            },
            ApiResponse::ContactsLoaded(Ok(cs)) => {
                self.merge_contacts(&cs, true);
                no_effects()
            },
            ApiResponse::SpecificContactsLoaded(Ok(cs)) => {
                self.merge_contacts(&cs, false);
                no_effects()
            },
            ApiResponse::ContactsLoaded(Err(_)) | ApiResponse::SpecificContactsLoaded(Err(_)) => no_effects(),
            ApiResponse::AttachmentDownloaded { name, result: Ok(path) } => {
                self.loading_attachment = false;
                self.attachment_status = Some(concat("Opened ", name.as_str()));
                self.status_expires = Some(now.saturating_add(STATUS_CLEAR_MS));
                one_effect(Effect::OpenFile(path))
            },
            ApiResponse::AttachmentDownloaded { name, result: Err(err) } => {
                self.loading_attachment = false;
                self.attachment_status = Some(err);
                no_effects()
            },
            ApiResponse::AttachmentSent(Ok(())) | ApiResponse::TextSent(Ok(())) => {
                self.after_send_success(now);
                no_effects()
            },
            ApiResponse::AttachmentSent(Err(err)) => {
                self.send_error = Some(concat("Send attachment failed: ", err.as_str()));
                no_effects()
            },
            ApiResponse::TextSent(Err(err)) => {
                self.send_error = Some(concat("Send failed: ", err.as_str()));
                no_effects()
            },
            ApiResponse::ImageDownloaded { guid, result } => {
                let entry = if result.is_ok() {
                    crate::model::ImageCacheEntry::Ready
                } else {
                    crate::model::ImageCacheEntry::Failed
                };
                self.image_cache.insert(guid, entry);
                no_effects()
            },
        }
    }
}

/// No two chats share a guid.
pub open spec fn distinct_guids(chats: Seq<Chat>) -> bool {
    forall|i: int, j: int|
        #![trigger chats[i], chats[j]]
        0 <= i < j < chats.len() ==> chats[i].guid@ != chats[j].guid@
}

/// A chat whose last message has never been seen.
pub open spec fn is_seeded(m: MainView, c: Chat) -> bool {
    chat_last(c) is Some && !m.last_seen_guids.contains_key(c.guid@)
}

/// A chat whose last message differs from the one last seen.
pub open spec fn is_updated(m: MainView, c: Chat) -> bool {
    match chat_last(c) {
        Some(lm) => m.last_seen_guids.contains_key(c.guid@) && m.last_seen_guids[c.guid@] != lm.guid@,
        None => false,
    }
}

proof fn lemma_seeds_hit(m: MainView, n: nat, j: int)
    requires
        0 <= j < n <= m.chats.len(),
        distinct_guids(m.chats),
        is_seeded(m, m.chats[j]),
    ensures
        apply_pairs(m.last_seen_guids, spec_seeds(m, n)).contains_key(m.chats[j].guid@),
        apply_pairs(m.last_seen_guids, spec_seeds(m, n))[m.chats[j].guid@] == chat_last(m.chats[j]).unwrap().guid@,
    decreases n,
{
    let s = spec_seeds(m, n);
    let rest = spec_seeds(m, (n - 1) as nat);
    let c = m.chats[n - 1];
    if n - 1 == j {
        assert(s.drop_last() =~= rest);
    } else {
        lemma_seeds_hit(m, (n - 1) as nat, j);
        assert(m.chats[j].guid@ != c.guid@);
        if s.len() > rest.len() {
            assert(s.drop_last() =~= rest);
        }
    }
}

proof fn lemma_seeds_miss(m: MainView, n: nat, k: Seq<char>)
    requires
        n <= m.chats.len(),
        forall|j: int| 0 <= j < n && (#[trigger] m.chats[j]).guid@ == k ==> !is_seeded(m, m.chats[j]),
    ensures
        apply_pairs(m.last_seen_guids, spec_seeds(m, n)).contains_key(k) == m.last_seen_guids.contains_key(k),
        apply_pairs(m.last_seen_guids, spec_seeds(m, n))[k] == m.last_seen_guids[k],
    decreases n,
{
    if n > 0 {
        let s = spec_seeds(m, n);
        let rest = spec_seeds(m, (n - 1) as nat);
        lemma_seeds_miss(m, (n - 1) as nat, k);
        let c = m.chats[n - 1];
        if s.len() > rest.len() {
            assert(s.drop_last() =~= rest);
        }
    }
}

proof fn lemma_fold_seen_step(acc: NotifyAcc, ups: Seq<UpdateView>, tui: bool, current: Option<Seq<char>>)
    requires
        ups.len() > 0,
    ensures
        fold_updates(acc, ups, tui, current).seen
            == fold_updates(acc, ups.drop_last(), tui, current).seen.insert(ups.last().chat, ups.last().msg),
{
}

proof fn lemma_updates_hit(m: MainView, acc: NotifyAcc, tui: bool, current: Option<Seq<char>>, n: nat, j: int)
    requires
        0 <= j < n <= m.chats.len(),
        distinct_guids(m.chats),
        is_updated(m, m.chats[j]),
    ensures
        fold_updates(acc, spec_updates(m, n), tui, current).seen.contains_key(m.chats[j].guid@),
        fold_updates(acc, spec_updates(m, n), tui, current).seen[m.chats[j].guid@] == chat_last(m.chats[j]).unwrap().guid@,
    decreases n,
{
    let u = spec_updates(m, n);
    let rest = spec_updates(m, (n - 1) as nat);
    let c = m.chats[n - 1];
    if n - 1 == j {
        assert(u.drop_last() =~= rest);
        lemma_fold_seen_step(acc, u, tui, current);
    } else {
        lemma_updates_hit(m, acc, tui, current, (n - 1) as nat, j);
        assert(m.chats[j].guid@ != c.guid@);
        if u.len() > rest.len() {
            assert(u.drop_last() =~= rest);
            lemma_fold_seen_step(acc, u, tui, current);
        }
    }
}

proof fn lemma_updates_miss(m: MainView, acc: NotifyAcc, tui: bool, current: Option<Seq<char>>, n: nat, k: Seq<char>)
    requires
        n <= m.chats.len(),
        forall|j: int| 0 <= j < n && (#[trigger] m.chats[j]).guid@ == k ==> !is_updated(m, m.chats[j]),
    ensures
        fold_updates(acc, spec_updates(m, n), tui, current).seen.contains_key(k) == acc.seen.contains_key(k),
        fold_updates(acc, spec_updates(m, n), tui, current).seen[k] == acc.seen[k],
    decreases n,
{
    if n > 0 {
        let u = spec_updates(m, n);
        let rest = spec_updates(m, (n - 1) as nat);
        lemma_updates_miss(m, acc, tui, current, (n - 1) as nat, k);
        let c = m.chats[n - 1];
        if u.len() > rest.len() {
            assert(u.drop_last() =~= rest);
            lemma_fold_seen_step(acc, u, tui, current);
        }
    }
}

/// Every chat's last message counts as seen after the new-message check.
proof fn lemma_check_marks_seen(m: MainView, now: u64, j: int)
    requires
        0 <= j < m.chats.len(),
        distinct_guids(m.chats),
        chat_last(m.chats[j]) is Some,
    ensures
        spec_check_new_messages(m, now).0.last_seen_guids.contains_key(m.chats[j].guid@),
        spec_check_new_messages(m, now).0.last_seen_guids[m.chats[j].guid@] == chat_last(m.chats[j]).unwrap().guid@,
{
    let n = m.chats.len();
    let g = m.chats[j].guid@;
    let seen0 = apply_pairs(m.last_seen_guids, spec_seeds(m, n));
    let tui = elapsed(now, m.last_activity) > IDLE_AFTER_MS && m.notification_fade_start is None;
    let cur = chat_guid_at(m.chats, m.selected_chat_index);
    let acc = NotifyAcc { seen: seen0, unread: m.unread_chats, notices: m.tui_notifications, effects: Seq::empty() };
    assert forall|i: int| 0 <= i < n && (#[trigger] m.chats[i]).guid@ == g implies i == j by {
        if i < j {
            assert(m.chats[i].guid@ != m.chats[j].guid@);
        } else if i > j {
            assert(m.chats[j].guid@ != m.chats[i].guid@);
        }
    }
    if is_updated(m, m.chats[j]) {
        lemma_updates_hit(m, acc, tui, cur, n, j);
    } else {
        lemma_updates_miss(m, acc, tui, cur, n, g);
        if is_seeded(m, m.chats[j]) {
            lemma_seeds_hit(m, n, j);
        } else {
            lemma_seeds_miss(m, n, g);
        }
    }
}

/// With every chat's last message already seen, the check finds nothing new.
proof fn lemma_nothing_new(m: MainView, n: nat)
    requires
        n <= m.chats.len(),
        forall|j: int| 0 <= j < n ==> match chat_last(#[trigger] m.chats[j]) {
            Some(lm) => m.last_seen_guids.contains_key(m.chats[j].guid@) && m.last_seen_guids[m.chats[j].guid@] == lm.guid@,
            None => true,
        },
    ensures
        spec_seeds(m, n) == Seq::<(Seq<char>, Seq<char>)>::empty(),
        spec_updates(m, n) == Seq::<UpdateView>::empty(),
    decreases n,
{
    if n > 0 {
        lemma_nothing_new(m, (n - 1) as nat);
        let c = m.chats[n - 1];
    }
}

/// A chat list that arrives marks the last message of each of its chats as
/// seen (chats being told apart by guid).
pub proof fn law_chat_list_marks_seen(m: MainView, chats: Vec<Chat>, now: u64)
    requires
        distinct_guids(chats@),
    ensures
        forall|j: int| 0 <= j < chats@.len() && chat_last(#[trigger] chats@[j]) is Some ==> {
            let seen = spec_handle_response(m, ApiResponse::ChatsLoaded(Ok(chats)), now).0.last_seen_guids;
            &&& seen.contains_key(chats@[j].guid@)
            &&& seen[chats@[j].guid@] == chat_last(chats@[j]).unwrap().guid@
        },
{
    let m1 = MainView { api_requests_in_flight: dec(m.api_requests_in_flight), ..m };
    let idx = match chat_guid_at(m1.chats, m1.selected_chat_index) {
        Some(g) => guid_position(chats@, g, 0),
        None => None,
    };
    let m2 = MainView { chats: chats@, selected_chat_index: idx, chat_list_selected: idx, ..m1 };
    assert forall|j: int| 0 <= j < chats@.len() && chat_last(#[trigger] chats@[j]) is Some implies {
        let seen = spec_handle_response(m, ApiResponse::ChatsLoaded(Ok(chats)), now).0.last_seen_guids;
        &&& seen.contains_key(chats@[j].guid@)
        &&& seen[chats@[j].guid@] == chat_last(chats@[j]).unwrap().guid@
    } by {
        lemma_check_marks_seen(m2, now, j);
    }
}

/// The same chat list arriving twice notifies only the first time: the second
/// arrival asks for no notification, adds no in-terminal notice and marks no
/// chat unread.
pub proof fn law_same_chat_list_notifies_once(m: MainView, chats: Vec<Chat>, now1: u64, now2: u64)
    requires
        distinct_guids(chats@),
    ensures
        ({
            let m1 = spec_handle_response(m, ApiResponse::ChatsLoaded(Ok(chats)), now1).0;
            let second = spec_handle_response(m1, ApiResponse::ChatsLoaded(Ok(chats)), now2);
            &&& second.1 == Seq::<EffectView>::empty()
            &&& second.0.unread_chats == m1.unread_chats
            &&& second.0.tui_notifications == m1.tui_notifications
            &&& second.0.last_seen_guids == m1.last_seen_guids
        }),
{
    law_chat_list_marks_seen(m, chats, now1);
    let m1 = spec_handle_response(m, ApiResponse::ChatsLoaded(Ok(chats)), now1).0;
    let m1d = MainView { api_requests_in_flight: dec(m1.api_requests_in_flight), ..m1 };
    let idx = match chat_guid_at(m1d.chats, m1d.selected_chat_index) {
        Some(g) => guid_position(chats@, g, 0),
        None => None,
    };
    let m2 = MainView { chats: chats@, selected_chat_index: idx, chat_list_selected: idx, ..m1d };
    assert forall|j: int| 0 <= j < chats@.len() implies match chat_last(#[trigger] m2.chats[j]) {
        Some(lm) => m2.last_seen_guids.contains_key(m2.chats[j].guid@) && m2.last_seen_guids[m2.chats[j].guid@] == lm.guid@,
        None => true,
    } by {
        if chat_last(chats@[j]) is Some {
            assert(chat_last(chats@[j]) is Some);
        }
    }
    lemma_nothing_new(m2, chats@.len());
    assert(apply_pairs(m2.last_seen_guids, Seq::empty()) == m2.last_seen_guids);
}

proof fn lemma_guid_position(chats: Seq<Chat>, g: Seq<char>, start: int, i: int)
    requires
        0 <= start <= i < chats.len(),
        chats.len() <= usize::MAX,
        chats[i].guid@ == g,
    ensures
        guid_position(chats, g, start) matches Some(p) && start <= p <= i && chats[p as int].guid@ == g,
    decreases chats.len() - start,
{
    if chats[start].guid@ != g {
        lemma_guid_position(chats, g, start + 1, i);
    }
}

/// A new chat list keeps the selection on the same chat (the same guid)
/// whenever that chat is still in the list.
pub proof fn law_chat_list_keeps_selection(m: MainView, chats: Vec<Chat>, now: u64, i: int)
    requires
        chats@.len() <= usize::MAX,
        0 <= i < chats@.len(),
        chat_guid_at(m.chats, m.selected_chat_index) == Some(chats@[i].guid@),
    ensures
        ({
            let m2 = spec_handle_response(m, ApiResponse::ChatsLoaded(Ok(chats)), now).0;
            &&& chat_guid_at(m2.chats, m2.selected_chat_index) == Some(chats@[i].guid@)
            &&& m2.chat_list_selected == m2.selected_chat_index
        }),
{
    lemma_guid_position(chats@, chats@[i].guid@, 0, i);
}

proof fn lemma_without_known(known: Seq<Message>, s: Seq<Message>)
    ensures
        without_known(known, s).len() <= s.len(),
        forall|i: int| 0 <= i < without_known(known, s).len()
            ==> !has_guid(known, (#[trigger] without_known(known, s)[i]).guid@),
    decreases s.len(),
{
    if s.len() > 0 {
        lemma_without_known(known, s.drop_last());
    }
}

/// An older page of the selected chat goes in front of the messages already
/// loaded: those stay, in order, at the end; the messages put in front are
/// not among them (by guid); and the selection stays on the same message.
pub proof fn law_older_page_keeps_selection(m: MainView, chat_guid: String, count: usize, older: Vec<Message>, now: u64)
    requires
        view_wf(m),
        chat_guid_at(m.chats, m.selected_chat_index) == Some(chat_guid@),
        m.messages.len() + older@.len() <= usize::MAX,
    ensures
        ({
            let m2 = spec_handle_response(m, ApiResponse::MoreMessagesLoaded { chat_guid, count, older: Ok(older) }, now).0;
            let added = m2.messages.len() - m.messages.len();
            &&& added >= 0
            &&& m2.messages.subrange(added, m2.messages.len() as int) == m.messages
            &&& forall|i: int| 0 <= i < added ==> !has_guid(m.messages, (#[trigger] m2.messages[i]).guid@)
            &&& forall|i: int| 0 <= i < added ==> older@.contains(#[trigger] m2.messages[i])
            &&& forall|i: int| 0 <= i < older@.len() && !has_guid(m.messages, (#[trigger] older@[i]).guid@)
                    ==> m2.messages.subrange(0, added).contains(older@[i])
            &&& (m.message_selected matches Some(s) ==> (m2.message_selected matches Some(s2)
                    && m2.messages[s2 as int] == m.messages[s as int]))
        }),
{
    let r = older@.reverse();
    let kept = without_known(m.messages, older@.reverse());
    lemma_without_known(m.messages, older@.reverse());
    lemma_without_known_keeps(m.messages, r);
    let m2 = spec_handle_response(m, ApiResponse::MoreMessagesLoaded { chat_guid, count, older: Ok(older) }, now).0;
    assert(m2.messages =~= kept + m.messages);
    assert(m2.messages.subrange(kept.len() as int, m2.messages.len() as int) =~= m.messages);
    assert forall|i: int| 0 <= i < kept.len() implies !has_guid(m.messages, (#[trigger] m2.messages[i]).guid@) by {
        assert(m2.messages[i] == kept[i]);
    }
    assert(m2.messages.subrange(0, kept.len() as int) =~= kept);
    assert forall|i: int| 0 <= i < kept.len() implies older@.contains(#[trigger] m2.messages[i]) by {
        assert(m2.messages[i] == kept[i]);
        assert(r.contains(kept[i]));
        let k = choose|k: int| 0 <= k < r.len() && r[k] == kept[i];
        assert(older@[older@.len() - 1 - k] == r[k]);
    }
    assert forall|i: int| 0 <= i < older@.len() && !has_guid(m.messages, (#[trigger] older@[i]).guid@)
        implies m2.messages.subrange(0, kept.len() as int).contains(older@[i]) by {
        let k = older@.len() - 1 - i;
        assert(r[k] == older@[i]);
        assert(kept.contains(r[k]));
    }
}

/// The messages that `without_known` keeps are those of `s` whose guid is not
/// among `known`: each of those is kept, and nothing else is.
proof fn lemma_without_known_keeps(known: Seq<Message>, s: Seq<Message>)
    ensures
        forall|i: int| 0 <= i < s.len() && !has_guid(known, (#[trigger] s[i]).guid@)
            ==> without_known(known, s).contains(s[i]),
        forall|i: int| 0 <= i < without_known(known, s).len()
            ==> s.contains(#[trigger] without_known(known, s)[i]),
    decreases s.len(),
{
    if s.len() > 0 {
        let p = s.drop_last();
        lemma_without_known_keeps(known, p);
        let rest = without_known(known, p);
        let w = without_known(known, s);
        assert forall|i: int| 0 <= i < s.len() && !has_guid(known, (#[trigger] s[i]).guid@)
            implies w.contains(s[i]) by {
            if i < s.len() - 1 {
                assert(p[i] == s[i]);
                let j = choose|j: int| 0 <= j < rest.len() && rest[j] == p[i];
                assert(w[j] == rest[j]);
            } else {
                assert(w[w.len() - 1] == s[i]);
            }
        }
        assert forall|i: int| 0 <= i < w.len() implies s.contains(#[trigger] w[i]) by {
            if i < rest.len() {
                assert(w[i] == rest[i]);
                let j = choose|j: int| 0 <= j < p.len() && p[j] == rest[i];
                assert(s[j] == p[j]);
            } else {
                assert(w[i] == s[s.len() - 1]);
            }
        }
    }
}

/// With more than a page of history loaded, a reload of the selected chat's
/// newest page only adds at the end: the messages already loaded stay in
/// front, in order, and the selection does not move; every message of the
/// page whose guid is not loaded yet is among those added, and every message
/// added is one of the page's, not loaded before.
pub proof fn law_newest_page_appends(m: MainView, chat_guid: String, msgs: Vec<Message>, now: u64)
    requires
        chat_guid_at(m.chats, m.selected_chat_index) == Some(chat_guid@),
        m.messages.len() > MESSAGE_PAGE_SIZE,
    ensures
        ({
            let m2 = spec_handle_response(m, ApiResponse::MessagesLoaded { chat_guid, messages: Ok(msgs) }, now).0;
            let added = m2.messages.subrange(m.messages.len() as int, m2.messages.len() as int);
            &&& m2.messages.len() >= m.messages.len()
            &&& m2.messages.subrange(0, m.messages.len() as int) == m.messages
            &&& m2.message_selected == m.message_selected
            &&& forall|i: int| 0 <= i < msgs@.len() && !has_guid(m.messages, (#[trigger] msgs@[i]).guid@)
                    ==> added.contains(msgs@[i])
            &&& forall|i: int| 0 <= i < added.len()
                    ==> msgs@.contains(#[trigger] added[i]) && !has_guid(m.messages, added[i].guid@)
        }),
{
    let m2 = spec_handle_response(m, ApiResponse::MessagesLoaded { chat_guid, messages: Ok(msgs) }, now).0;
    let r = msgs@.reverse();
    let new = without_known(m.messages, r);
    lemma_without_known(m.messages, r);
    lemma_without_known_keeps(m.messages, r);
    let added = m2.messages.subrange(m.messages.len() as int, m2.messages.len() as int);
    if new.len() > 0 {
        assert(m2.messages.subrange(0, m.messages.len() as int) =~= m.messages);
        assert(added =~= new);
    } else {
        assert(added.len() == 0);
    }
    assert forall|i: int| 0 <= i < msgs@.len() && !has_guid(m.messages, (#[trigger] msgs@[i]).guid@)
        implies added.contains(msgs@[i]) by {
        let k = msgs@.len() - 1 - i;
        assert(r[k] == msgs@[i]);
        assert(new.contains(r[k]));
        if new.len() == 0 {
            assert(false);
        }
    }
    assert forall|i: int| 0 <= i < added.len()
        implies msgs@.contains(#[trigger] added[i]) && !has_guid(m.messages, added[i].guid@) by {
        assert(added[i] == new[i]);
        assert(r.contains(new[i]));
        let k = choose|k: int| 0 <= k < r.len() && r[k] == new[i];
        assert(msgs@[msgs@.len() - 1 - k] == r[k]);
    }
}

/// Asking for the chat list and handling the answer, whatever it is, leaves
/// the number of requests in flight as it was.
pub proof fn law_reload_and_answer_balance(m: MainView, answer: Result<Vec<Chat>, String>, now: u64)
    requires
        m.api_requests_in_flight < usize::MAX,
    ensures
        spec_handle_response(
            MainView { api_requests_in_flight: crate::navigation::inc(m.api_requests_in_flight), ..m },
            ApiResponse::ChatsLoaded(answer),
            now,
        ).0.api_requests_in_flight == m.api_requests_in_flight,
{
}

/// Whether the check sends a desktop notification for chat `c`: its last
/// message is not the one last seen (a chat never seen before does not
/// count), it is from someone else, and the terminal is not focused.
pub open spec fn notifies(m: MainView, c: Chat) -> bool {
    is_updated(m, c) && !chat_last(c).unwrap().is_from_me && !m.terminal_focused
}

/// The desktop notifications for the first `n` chats, in chat order: the
/// chat's name as title and its last message's text as body.
pub open spec fn spec_notifications(m: MainView, n: nat) -> Seq<EffectView>
    decreases n,
{
    if n == 0 || n > m.chats.len() {
        Seq::empty()
    } else {
        let rest = spec_notifications(m, (n - 1) as nat);
        let c = m.chats[n - 1];
        if notifies(m, c) {
            rest.push(EffectView::Notify(spec_chat_display_name(m.contacts, c), notice_body(chat_last(c).unwrap())))
        } else {
            rest
        }
    }
}

/// The guids of the chats among the first `n` that get a notification.
pub open spec fn notified_guids(m: MainView, n: nat) -> Set<Seq<char>>
    decreases n,
{
    if n == 0 || n > m.chats.len() {
        Set::empty()
    } else {
        let rest = notified_guids(m, (n - 1) as nat);
        let c = m.chats[n - 1];
        if notifies(m, c) { rest.insert(c.guid@) } else { rest }
    }
}

proof fn lemma_fold_notifications(m: MainView, acc: NotifyAcc, tui: bool, current: Option<Seq<char>>, n: nat)
    requires
        n <= m.chats.len(),
    ensures
        fold_updates(acc, spec_updates(m, n), tui, current).effects == acc.effects + spec_notifications(m, n),
        fold_updates(acc, spec_updates(m, n), tui, current).unread == acc.unread.union(notified_guids(m, n)),
    decreases n,
{
    if n == 0 {
        assert(acc.effects + Seq::<EffectView>::empty() =~= acc.effects);
        assert(acc.unread.union(Set::<Seq<char>>::empty()) =~= acc.unread);
    } else {
        lemma_fold_notifications(m, acc, tui, current, (n - 1) as nat);
        let u = spec_updates(m, n);
        let rest = spec_updates(m, (n - 1) as nat);
        let prev = fold_updates(acc, rest, tui, current);
        if u.len() > rest.len() {
            assert(u.drop_last() =~= rest);
        }
        let nr = spec_notifications(m, (n - 1) as nat);
        let c = m.chats[n - 1];
        if notifies(m, c) {
            let e = EffectView::Notify(spec_chat_display_name(m.contacts, c), notice_body(chat_last(c).unwrap()));
            assert(prev.effects.push(e) =~= acc.effects + nr.push(e));
            assert(prev.unread.insert(c.guid@) =~= acc.unread.union(notified_guids(m, (n - 1) as nat).insert(c.guid@)));
        }
    }
}

proof fn lemma_notified_guids(m: MainView, n: nat, g: Seq<char>)
    requires
        n <= m.chats.len(),
    ensures
        notified_guids(m, n).contains(g)
            <==> exists|k: int| 0 <= k < n && (#[trigger] m.chats[k]).guid@ == g && notifies(m, m.chats[k]),
    decreases n,
{
    if n > 0 {
        lemma_notified_guids(m, (n - 1) as nat, g);
        let c = m.chats[n - 1];
        if notified_guids(m, n).contains(g) && !notified_guids(m, (n - 1) as nat).contains(g) {
            assert(m.chats[n - 1].guid@ == g && notifies(m, m.chats[n - 1]));
        }
        if exists|k: int| 0 <= k < n && (#[trigger] m.chats[k]).guid@ == g && notifies(m, m.chats[k]) {
            let k = choose|k: int| 0 <= k < n && (#[trigger] m.chats[k]).guid@ == g && notifies(m, m.chats[k]);
            if k < n - 1 {
                assert(notified_guids(m, (n - 1) as nat).contains(g));
            }
        }
    }
}

/// The new-message check notifies exactly for the chats whose last message
/// is new, is from someone else, and arrived while the terminal was not
/// focused: those are the desktop notifications, in chat order, and those
/// chats, and no others, become unread.  With chats told apart by guid, a
/// chat is unread afterwards exactly when it was before or it was notified.
pub proof fn law_notify_exactly_on_new_messages(m: MainView, now: u64)
    ensures
        spec_check_new_messages(m, now).1 == spec_notifications(m, m.chats.len()),
        spec_check_new_messages(m, now).0.unread_chats == m.unread_chats.union(notified_guids(m, m.chats.len())),
        distinct_guids(m.chats) ==> forall|j: int| 0 <= j < m.chats.len() ==>
            (spec_check_new_messages(m, now).0.unread_chats.contains((#[trigger] m.chats[j]).guid@)
                <==> m.unread_chats.contains(m.chats[j].guid@) || notifies(m, m.chats[j])),
{
    let n = m.chats.len();
    let seen0 = apply_pairs(m.last_seen_guids, spec_seeds(m, n));
    let tui = elapsed(now, m.last_activity) > IDLE_AFTER_MS && m.notification_fade_start is None;
    let cur = chat_guid_at(m.chats, m.selected_chat_index);
    let acc = NotifyAcc { seen: seen0, unread: m.unread_chats, notices: m.tui_notifications, effects: Seq::empty() };
    lemma_fold_notifications(m, acc, tui, cur, n);
    assert(Seq::<EffectView>::empty() + spec_notifications(m, n) =~= spec_notifications(m, n));
    if distinct_guids(m.chats) {
        assert forall|j: int| 0 <= j < m.chats.len() implies
            (spec_check_new_messages(m, now).0.unread_chats.contains((#[trigger] m.chats[j]).guid@)
                <==> m.unread_chats.contains(m.chats[j].guid@) || notifies(m, m.chats[j])) by {
            let g = m.chats[j].guid@;
            lemma_notified_guids(m, n, g);
            if notified_guids(m, n).contains(g) {
                let k = choose|k: int| 0 <= k < n && (#[trigger] m.chats[k]).guid@ == g && notifies(m, m.chats[k]);
                if k < j {
                    assert(m.chats[k].guid@ != m.chats[j].guid@);
                } else if k > j {
                    assert(m.chats[j].guid@ != m.chats[k].guid@);
                }
            }
        }
    }
}

/// After the new-message check the last message of each chat is recorded as
/// the one last seen for that chat (chats being told apart by guid), and what
/// is recorded for a guid that no chat has is left as it was.
pub proof fn law_check_marks_seen(m: MainView, now: u64)
    requires
        distinct_guids(m.chats),
    ensures
        forall|j: int| 0 <= j < m.chats.len() && chat_last(#[trigger] m.chats[j]) is Some ==> {
            let seen = spec_check_new_messages(m, now).0.last_seen_guids;
            &&& seen.contains_key(m.chats[j].guid@)
            &&& seen[m.chats[j].guid@] == chat_last(m.chats[j]).unwrap().guid@
        },
        forall|g: Seq<char>|
            #![trigger spec_check_new_messages(m, now).0.last_seen_guids.contains_key(g)]
            (forall|j: int| 0 <= j < m.chats.len() ==> (#[trigger] m.chats[j]).guid@ != g) ==> {
                &&& spec_check_new_messages(m, now).0.last_seen_guids.contains_key(g) == m.last_seen_guids.contains_key(g)
                &&& spec_check_new_messages(m, now).0.last_seen_guids[g] == m.last_seen_guids[g]
            },
{
    assert forall|j: int| 0 <= j < m.chats.len() && chat_last(#[trigger] m.chats[j]) is Some implies {
        let seen = spec_check_new_messages(m, now).0.last_seen_guids;
        &&& seen.contains_key(m.chats[j].guid@)
        &&& seen[m.chats[j].guid@] == chat_last(m.chats[j]).unwrap().guid@
    } by {
        lemma_check_marks_seen(m, now, j);
    }
    let n = m.chats.len();
    let seen0 = apply_pairs(m.last_seen_guids, spec_seeds(m, n));
    let tui = elapsed(now, m.last_activity) > IDLE_AFTER_MS && m.notification_fade_start is None;
    let cur = chat_guid_at(m.chats, m.selected_chat_index);
    let acc = NotifyAcc { seen: seen0, unread: m.unread_chats, notices: m.tui_notifications, effects: Seq::empty() };
    assert forall|g: Seq<char>|
        #![trigger spec_check_new_messages(m, now).0.last_seen_guids.contains_key(g)]
        (forall|j: int| 0 <= j < m.chats.len() ==> (#[trigger] m.chats[j]).guid@ != g) implies {
            &&& spec_check_new_messages(m, now).0.last_seen_guids.contains_key(g) == m.last_seen_guids.contains_key(g)
            &&& spec_check_new_messages(m, now).0.last_seen_guids[g] == m.last_seen_guids[g]
        } by {
        lemma_updates_miss(m, acc, tui, cur, n, g);
        lemma_seeds_miss(m, n, g);
    }
}

} // verus!
