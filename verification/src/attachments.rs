//! Opening attachments and queueing inline image previews.

use vstd::prelude::*;
use crate::display::{is_image_attachment, spec_is_image_attachment};
use crate::model::{AttachmentItem, ImageCacheEntry, ItemView, MainState, MainView, FocusedPane};
use crate::navigation::inc;
use crate::types::{Attachment, Message};

verus! {

/// The picker entry for an attachment: its guid, its file name (empty when
/// unknown) and its MIME type.
pub open spec fn att_item(a: Attachment) -> ItemView {
    ItemView {
        guid: a.guid@,
        name: match a.transfer_name { Some(n) => n@, None => Seq::empty() },
        mime_type: match a.mime_type { Some(t) => Some(t@), None => None },
    }
}

/// The attachments of the selected message (none when there is none).
pub open spec fn selected_attachments(m: MainView) -> Seq<Attachment> {
    match m.message_selected {
        Some(i) => if i < m.messages.len() {
            match m.messages[i as int].attachments {
                Some(a) => a@,
                None => Seq::empty(),
            }
        } else {
            Seq::empty()
        },
        None => Seq::empty(),
    }
}

/// The client after Enter on a message: a single attachment is queued for
/// opening; several open the attachment picker.
pub open spec fn spec_queue_selected_attachment(m: MainView) -> MainView {
    let atts = selected_attachments(m);
    if m.message_selected is None || atts.len() == 0 {
        m
    } else if atts.len() == 1 {
        let it = att_item(atts[0]);
        MainView { pending_attachment_open: Some((it.guid, it.name)), loading_attachment: true, ..m }
    } else {
        MainView {
            attachment_items: atts.map_values(|a: Attachment| att_item(a)),
            attachment_selected: 0,
            attachment_status: None,
            focused_pane: FocusedPane::AttachmentPicker,
            ..m
        }
    }
}

/// The client after Enter in the attachment picker: the highlighted attachment
/// is queued for opening.
pub open spec fn spec_queue_picker_attachment(m: MainView) -> MainView {
    if m.attachment_selected < m.attachment_items.len() {
        let it = m.attachment_items[m.attachment_selected as int];
        MainView { pending_attachment_open: Some((it.guid, it.name)), loading_attachment: true, ..m }
    } else {
        m
    }
}

/// Preview downloads to queue for a list of attachments: every image
/// attachment not yet in the cache, named by its file name or else its guid.
pub open spec fn spec_image_jobs_in(cache: Map<Seq<char>, ImageCacheEntry>, atts: Seq<Attachment>) -> Seq<(Seq<char>, Seq<char>)>
    decreases atts.len(),
{
    if atts.len() == 0 {
        Seq::empty()
    } else {
        let rest = spec_image_jobs_in(cache, atts.drop_last());
        let a = atts.last();
        if !cache.contains_key(a.guid@) && spec_is_image_attachment(a) {
            rest.push((a.guid@, match a.transfer_name { Some(n) => n@, None => a.guid@ }))
        } else {
            rest
        }
    }
}

/// Preview downloads to queue for a list of messages, message by message.
pub open spec fn spec_image_jobs(cache: Map<Seq<char>, ImageCacheEntry>, msgs: Seq<Message>) -> Seq<(Seq<char>, Seq<char>)>
    decreases msgs.len(),
{
    if msgs.len() == 0 {
        Seq::empty()
    } else {
        let rest = spec_image_jobs(cache, msgs.drop_last());
        match msgs.last().attachments {
            Some(a) => rest + spec_image_jobs_in(cache, a@),
            None => rest,
        }
    }
}

fn item_of(a: &Attachment) -> (r: AttachmentItem)
    ensures
        crate::model::item_view(r) == att_item(*a),
{
    AttachmentItem {
        guid: a.guid.clone(),
        name: match &a.transfer_name { Some(n) => n.clone(), None => String::new() },
        mime_type: match &a.mime_type { Some(t) => Some(t.clone()), None => None },
    }
}

impl MainState {
    /// Enter on a message: queue its attachment for opening, or offer its
    /// attachments in the picker.
    pub fn queue_selected_message_attachment(&mut self)
        requires
            old(self).wf(),
        ensures
            final(self).wf(),
            final(self)@ == spec_queue_selected_attachment(old(self)@),
    {
        let ghost m = self@;
        let sel = match self.message_selected {
            Some(s) => s,
            None => return,
        };
        let mut items: Vec<AttachmentItem> = Vec::new();
        if sel < self.messages.len() {
            if let Some(atts) = &self.messages[sel].attachments {
                let mut i: usize = 0;
                while i < atts.len()
                    invariant
                        i <= atts@.len(),
                        items@.map_values(|x: AttachmentItem| crate::model::item_view(x))
                            =~= atts@.take(i as int).map_values(|a: Attachment| att_item(a)),
                    decreases atts@.len() - i,
                {
                    let ghost before = items@;
                    let it = item_of(&atts[i]);
                    items.push(it);
                    assert(atts@.take(i + 1) =~= atts@.take(i as int).push(atts@[i as int]));
                    assert(items@ =~= before.push(it));
                    assert(items@.map_values(|x: AttachmentItem| crate::model::item_view(x))
                        =~= before.map_values(|x: AttachmentItem| crate::model::item_view(x)).push(crate::model::item_view(it)));
                    i += 1;
                }
                assert(atts@.take(atts@.len() as int) =~= atts@);
            }
        }
        let ghost atts = selected_attachments(m);
        assert(items@.map_values(|x: AttachmentItem| crate::model::item_view(x)) =~= atts.map_values(|a: Attachment| att_item(a)));
        if items.len() == 0 {
            return;
        }
        if items.len() == 1 {
            assert(items@.map_values(|x: AttachmentItem| crate::model::item_view(x))[0] == crate::model::item_view(items@[0]));
            let it = items.pop().unwrap();
            assert(crate::model::item_view(it) == att_item(atts[0]));
            self.pending_attachment_open = Some((it.guid, it.name));
            self.loading_attachment = true;
        } else {
            self.attachment_items = items;
            self.attachment_selected = 0;
            self.attachment_status = None;
            self.focused_pane = FocusedPane::AttachmentPicker;
        }
    }

    /// Enter in the attachment picker: queue the highlighted attachment for opening.
    pub fn queue_picker_attachment(&mut self)
        requires
            old(self).wf(),
        ensures
            final(self).wf(),
            final(self)@ == spec_queue_picker_attachment(old(self)@),
    {
        if self.attachment_selected < self.attachment_items.len() {
            let guid = self.attachment_items[self.attachment_selected].guid.clone();
            let name = self.attachment_items[self.attachment_selected].name.clone();
            self.pending_attachment_open = Some((guid, name));
            self.loading_attachment = true;
        }
    }

    /// Counts the attachment download about to start.
    pub fn begin_download(&mut self)
        requires
            old(self).wf(),
        ensures
            final(self).wf(),
            final(self)@ == (MainView { api_requests_in_flight: inc(old(self)@.api_requests_in_flight), ..old(self)@ }),
    {
        self.api_requests_in_flight = self.api_requests_in_flight.saturating_add(1);
    }

    /// Marks the preview of attachment `guid` as loading; true when its
    /// download should start (false when the cache already knows it).
    pub fn begin_image_download(&mut self, guid: &str) -> (r: bool)
        requires
            old(self).wf(),
        ensures
            final(self).wf(),
            r == !old(self)@.image_cache.contains_key(guid@),
            r ==> final(self)@ == (MainView {
                image_cache: old(self)@.image_cache.insert(guid@, ImageCacheEntry::Loading),
                ..old(self)@
            }),
            !r ==> final(self)@ == old(self)@,
    {
        if self.image_cache.contains_key(guid) {
            return false;
        }
        self.image_cache.insert(crate::text::owned(guid), ImageCacheEntry::Loading);
        true
    }

    /// Queues preview downloads for the image attachments of `messages`.
    pub fn queue_image_downloads(&mut self, messages: &Vec<Message>)
        requires
            old(self).wf(),
        ensures
            final(self).wf(),
            final(self)@ == (MainView {
                pending_image_downloads: old(self)@.pending_image_downloads + spec_image_jobs(old(self)@.image_cache, messages@),
                ..old(self)@
            }),
    {
        let ghost m = self@;
        let mut jobs: Vec<(String, String)> = Vec::new();
        let mut i: usize = 0;
        while i < messages.len()
            invariant
                i <= messages@.len(),
                self@ == m,
                crate::model::pv(jobs@) =~= spec_image_jobs(m.image_cache, messages@.take(i as int)),
            decreases messages@.len() - i,
        {
            assert(messages@.take(i + 1).drop_last() =~= messages@.take(i as int));
            if let Some(atts) = &messages[i].attachments {
                let mut j: usize = 0;
                let ghost base = crate::model::pv(jobs@);
                while j < atts.len()
                    invariant
                        j <= atts@.len(),
                        self@ == m,
                        crate::model::pv(jobs@) =~= base + spec_image_jobs_in(m.image_cache, atts@.take(j as int)),
                    decreases atts@.len() - j,
                {
                    assert(atts@.take(j + 1).drop_last() =~= atts@.take(j as int));
                    let a = &atts[j];
                    if !self.image_cache.contains_key(a.guid.as_str()) && is_image_attachment(a) {
                        let name = match &a.transfer_name { Some(n) => n.clone(), None => a.guid.clone() };
                        let ghost before = jobs@;
                        let job = (a.guid.clone(), name);
                        jobs.push(job);
                        assert(jobs@ =~= before.push(job));
                        assert(crate::model::pv(jobs@) =~= crate::model::pv(before).push((job.0@, job.1@)));
                    }
                    j += 1;
                }
                assert(atts@.take(atts@.len() as int) =~= atts@);
            }
            i += 1;
        }
        assert(messages@.take(messages@.len() as int) =~= messages@);
        let ghost old_pending = self.pending_image_downloads@;
        let ghost js = jobs@;
        self.pending_image_downloads.append(&mut jobs);
        assert(self.pending_image_downloads@ =~= old_pending + js);
        assert(crate::model::pv(old_pending + js) =~= crate::model::pv(old_pending) + crate::model::pv(js));
        assert(self@ == (MainView {
            pending_image_downloads: m.pending_image_downloads + spec_image_jobs(m.image_cache, messages@),
            ..m
        }));
    }
}

} // verus!
