//! State of the signed-in client and its abstract view.

use vstd::prelude::*;
use vstd::hash_map::StringHashMap;
use vstd::hash_set::StringHashSet;
use crate::types::{Attachment, Chat, Message};

verus! {

/// Which part of the main screen has the keyboard.
#[derive(Debug, Clone, Copy, PartialEq, Eq, Structural)]
pub enum FocusedPane {
    Chats,
    Messages,
    AttachmentPicker,
    FileChooser,
    ChatSearch,
    EmojiPicker,
}

/// Fields of the login form.
#[derive(Debug)]
pub struct LoginFields {
    pub host: String,
    pub password: String,
    pub use_private_api: bool,
    pub active_field: usize,
    pub error: Option<String>,
}

/// One emoji of the picker's catalogue.
#[derive(Debug)]
pub struct EmojiInfo {
    pub glyph: String,
    pub name: String,
    pub shortcode: Option<String>,
}

/// The emoji picker: what has been typed after `:`, the highlighted row, and
/// the matching emojis as indices into the catalogue.
#[derive(Debug)]
pub struct EmojiPickerState {
    pub query: String,
    pub selected: usize,
    pub results: Vec<usize>,
}

/// An attachment offered in the attachment picker.
#[derive(Debug)]
pub struct AttachmentItem {
    pub guid: String,
    pub name: String,
    pub mime_type: Option<String>,
}

/// Whether an inline image preview is on its way, there, or unavailable.
#[derive(Debug, Clone, Copy, PartialEq, Eq, Structural)]
pub enum ImageCacheEntry {
    Loading,
    Ready,
    Failed,
}

/// An in-terminal notification for one chat: its title and the message texts.
#[derive(Debug)]
pub struct TuiNotification {
    pub title: String,
    pub bodies: Vec<String>,
}

/// An entry of the file chooser.
#[derive(Debug)]
pub struct FileEntry {
    pub path: String,
    pub name: String,
    pub is_dir: bool,
}

/// Everything the signed-in client keeps between events.  Times are
/// milliseconds on a monotonic clock.
pub struct MainState {
    pub chats: Vec<Chat>,
    pub chat_list_selected: Option<usize>,
    pub messages: Vec<Message>,
    pub selected_chat_index: Option<usize>,
    pub contacts: StringHashMap<String>,
    pub focused_pane: FocusedPane,
    pub message_selected: Option<usize>,
    pub compose_mode: bool,
    pub compose_text: Vec<char>,
    pub compose_cursor: usize,
    pub send_error: Option<String>,
    pub last_chat_reload: u64,
    pub last_message_reload: u64,
    pub pending_load: Option<usize>,
    pub last_nav: u64,
    pub attachment_items: Vec<AttachmentItem>,
    pub attachment_selected: usize,
    pub attachment_status: Option<String>,
    pub has_more_messages: bool,
    pub status_expires: Option<u64>,
    pub pending_attachment_open: Option<(String, String)>,
    pub loading_attachment: bool,
    pub pending_send: bool,
    pub pending_at: bool,
    pub pending_file_attachments: Vec<String>,
    pub file_chooser_dir: String,
    pub file_chooser_entries: Vec<FileEntry>,
    pub file_chooser_selected: usize,
    pub file_chooser_filter: String,
    pub chat_search_query: String,
    pub chat_search_results: Vec<usize>,
    pub chat_search_selected: usize,
    pub emoji_picker_state: Option<EmojiPickerState>,
    pub emoji_catalog: Vec<EmojiInfo>,
    pub send_method: String,
    pub last_activity: u64,
    pub last_seen_guids: StringHashMap<String>,
    pub unread_chats: StringHashSet,
    pub terminal_focused: bool,
    pub drafts: StringHashMap<(Vec<char>, usize)>,
    pub api_requests_in_flight: usize,
    pub tui_notifications: Vec<(String, TuiNotification)>,
    pub notification_fade_start: Option<u64>,
    pub image_cache: StringHashMap<ImageCacheEntry>,
    pub pending_image_downloads: Vec<(String, String)>,
}

/// Abstract view of an attachment picker entry.
pub struct ItemView {
    pub guid: Seq<char>,
    pub name: Seq<char>,
    pub mime_type: Option<Seq<char>>,
}

/// Abstract view of the emoji picker.
pub struct PickerView {
    pub query: Seq<char>,
    pub selected: usize,
    pub results: Seq<usize>,
}

/// Abstract view of an emoji of the catalogue.
pub struct EmojiView {
    pub glyph: Seq<char>,
    pub name: Seq<char>,
    pub shortcode: Option<Seq<char>>,
}

/// Abstract view of an in-terminal notification, with the chat it belongs to.
pub struct NoticeView {
    pub chat: Seq<char>,
    pub title: Seq<char>,
    pub bodies: Seq<Seq<char>>,
}

/// Abstract view of a file chooser entry.
pub struct EntryView {
    pub path: Seq<char>,
    pub name: Seq<char>,
    pub is_dir: bool,
}

/// Abstract view of `MainState`: every string as its characters and every
/// map as a mathematical map.
pub struct MainView {
    pub chats: Seq<Chat>,
    pub chat_list_selected: Option<usize>,
    pub messages: Seq<Message>,
    pub selected_chat_index: Option<usize>,
    pub contacts: Map<Seq<char>, Seq<char>>,
    pub focused_pane: FocusedPane,
    pub message_selected: Option<usize>,
    pub compose_mode: bool,
    pub compose_text: Seq<char>,
    pub compose_cursor: usize,
    pub send_error: Option<Seq<char>>,
    pub last_chat_reload: u64,
    pub last_message_reload: u64,
    pub pending_load: Option<usize>,
    pub last_nav: u64,
    pub attachment_items: Seq<ItemView>,
    pub attachment_selected: usize,
    pub attachment_status: Option<Seq<char>>,
    pub has_more_messages: bool,
    pub status_expires: Option<u64>,
    pub pending_attachment_open: Option<(Seq<char>, Seq<char>)>,
    pub loading_attachment: bool,
    pub pending_send: bool,
    pub pending_at: bool,
    pub pending_file_attachments: Seq<Seq<char>>,
    pub file_chooser_dir: Seq<char>,
    pub file_chooser_entries: Seq<EntryView>,
    pub file_chooser_selected: usize,
    pub file_chooser_filter: Seq<char>,
    pub chat_search_query: Seq<char>,
    pub chat_search_results: Seq<usize>,
    pub chat_search_selected: usize,
    pub emoji_picker: Option<PickerView>,
    pub emoji_catalog: Seq<EmojiView>,
    pub send_method: Seq<char>,
    pub last_activity: u64,
    pub last_seen_guids: Map<Seq<char>, Seq<char>>,
    pub unread_chats: Set<Seq<char>>,
    pub terminal_focused: bool,
    pub drafts: Map<Seq<char>, (Seq<char>, usize)>,
    pub api_requests_in_flight: usize,
    pub tui_notifications: Seq<NoticeView>,
    pub notification_fade_start: Option<u64>,
    pub image_cache: Map<Seq<char>, ImageCacheEntry>,
    pub pending_image_downloads: Seq<(Seq<char>, Seq<char>)>,
}

/// View of an optional string.
pub open spec fn ov(o: Option<String>) -> Option<Seq<char>> {
    match o {
        Some(s) => Some(s@),
        None => None,
    }
}

/// View of a map whose values are strings.
pub open spec fn smap(m: Map<Seq<char>, String>) -> Map<Seq<char>, Seq<char>> {
    m.map_values(|v: String| v@)
}

/// Inserting into a string map and then viewing it is viewing it and then inserting.
pub proof fn lemma_smap_insert(m: Map<Seq<char>, String>, k: Seq<char>, v: String)
    ensures
        smap(m.insert(k, v)) == smap(m).insert(k, v@),
{
    assert(smap(m.insert(k, v)) =~= smap(m).insert(k, v@));
}

/// View of the drafts map.
pub open spec fn dmap(m: Map<Seq<char>, (Vec<char>, usize)>) -> Map<Seq<char>, (Seq<char>, usize)> {
    m.map_values(|v: (Vec<char>, usize)| (v.0@, v.1))
}

/// Removing a draft and then viewing the drafts is viewing them and then removing.
pub proof fn lemma_dmap_remove(m: Map<Seq<char>, (Vec<char>, usize)>, k: Seq<char>)
    ensures
        dmap(m.remove(k)) == dmap(m).remove(k),
{
    assert(dmap(m.remove(k)) =~= dmap(m).remove(k));
}

/// View of a sequence of strings.
pub open spec fn sv(s: Seq<String>) -> Seq<Seq<char>> {
    s.map_values(|x: String| x@)
}

/// View of a sequence of string pairs.
pub open spec fn pv(s: Seq<(String, String)>) -> Seq<(Seq<char>, Seq<char>)> {
    s.map_values(|x: (String, String)| (x.0@, x.1@))
}

pub open spec fn item_view(a: AttachmentItem) -> ItemView {
    ItemView { guid: a.guid@, name: a.name@, mime_type: ov(a.mime_type) }
}

pub open spec fn emoji_view(e: EmojiInfo) -> EmojiView {
    EmojiView { glyph: e.glyph@, name: e.name@, shortcode: ov(e.shortcode) }
}

pub open spec fn notice_view(n: (String, TuiNotification)) -> NoticeView {
    NoticeView { chat: n.0@, title: n.1.title@, bodies: sv(n.1.bodies@) }
}

pub open spec fn entry_view(e: FileEntry) -> EntryView {
    EntryView { path: e.path@, name: e.name@, is_dir: e.is_dir }
}

pub open spec fn picker_view(p: Option<EmojiPickerState>) -> Option<PickerView> {
    match p {
        Some(p) => Some(PickerView { query: p.query@, selected: p.selected, results: p.results@ }),
        None => None,
    }
}

/// The guid of chat `i`, if there is such a chat.
pub open spec fn chat_guid_at(chats: Seq<Chat>, i: Option<usize>) -> Option<Seq<char>> {
    match i {
        Some(i) => if i < chats.len() { Some(chats[i as int].guid@) } else { None },
        None => None,
    }
}

impl View for MainState {
    type V = MainView;

    open spec fn view(&self) -> MainView {
        MainView {
            chats: self.chats@,
            chat_list_selected: self.chat_list_selected,
            messages: self.messages@,
            selected_chat_index: self.selected_chat_index,
            contacts: smap(self.contacts@),
            focused_pane: self.focused_pane,
            message_selected: self.message_selected,
            compose_mode: self.compose_mode,
            compose_text: self.compose_text@,
            compose_cursor: self.compose_cursor,
            send_error: ov(self.send_error),
            last_chat_reload: self.last_chat_reload,
            last_message_reload: self.last_message_reload,
            pending_load: self.pending_load,
            last_nav: self.last_nav,
            attachment_items: self.attachment_items@.map_values(|a: AttachmentItem| item_view(a)),
            attachment_selected: self.attachment_selected,
            attachment_status: ov(self.attachment_status),
            has_more_messages: self.has_more_messages,
            status_expires: self.status_expires,
            pending_attachment_open: match self.pending_attachment_open {
                Some(p) => Some((p.0@, p.1@)),
                None => None,
            },
            loading_attachment: self.loading_attachment,
            pending_send: self.pending_send,
            pending_at: self.pending_at,
            pending_file_attachments: sv(self.pending_file_attachments@),
            file_chooser_dir: self.file_chooser_dir@,
            file_chooser_entries: self.file_chooser_entries@.map_values(|e: FileEntry| entry_view(e)),
            file_chooser_selected: self.file_chooser_selected,
            file_chooser_filter: self.file_chooser_filter@,
            chat_search_query: self.chat_search_query@,
            chat_search_results: self.chat_search_results@,
            chat_search_selected: self.chat_search_selected,
            emoji_picker: picker_view(self.emoji_picker_state),
            emoji_catalog: self.emoji_catalog@.map_values(|e: EmojiInfo| emoji_view(e)),
            send_method: self.send_method@,
            last_activity: self.last_activity,
            last_seen_guids: smap(self.last_seen_guids@),
            unread_chats: self.unread_chats@,
            terminal_focused: self.terminal_focused,
            drafts: dmap(self.drafts@),
            api_requests_in_flight: self.api_requests_in_flight,
            tui_notifications: self.tui_notifications@.map_values(|n: (String, TuiNotification)| notice_view(n)),
            notification_fade_start: self.notification_fade_start,
            image_cache: self.image_cache@,
            pending_image_downloads: pv(self.pending_image_downloads@),
        }
    }
}

/// What every reachable client state satisfies.
pub open spec fn view_wf(m: MainView) -> bool {
    &&& m.compose_cursor <= m.compose_text.len()
    &&& (m.message_selected matches Some(i) ==> i < m.messages.len())
    &&& m.chat_list_selected == m.selected_chat_index
    &&& (forall|k: Seq<char>| #[trigger] m.drafts.contains_key(k) ==> m.drafts[k].1 <= m.drafts[k].0.len())
    &&& (m.emoji_picker matches Some(p) ==> forall|i: int| 0 <= i < p.results.len() ==> #[trigger] p.results[i] < m.emoji_catalog.len())
}

impl MainState {
    /// The state's invariant.
    pub open spec fn wf(&self) -> bool {
        view_wf(self@)
    }
}

} // verus!
