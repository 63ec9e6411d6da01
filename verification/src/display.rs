//! Names shown for chats, chat search, and attachment kinds.

use vstd::prelude::*;
use crate::helpers::run_end;
use crate::model::{MainState, MainView, view_wf};
use crate::navigation::spec_lookup;
use crate::text::{
    chars_of, concat, decimal, is_whitespace, seq_contains, seq_ends_with, seq_starts_with,
    spec_decimal, spec_to_lowercase, str_contains, str_ends_with, str_starts_with,
    string_of_vec, to_lowercase,
};
use crate::types::{Attachment, Chat, Handle};

verus! {

/// The first whitespace-separated word of `s`, or `s` itself when it has none.
pub open spec fn spec_first_word(s: Seq<char>) -> Seq<char> {
    let a = run_end(s, 0, true);
    if a < s.len() {
        s.subrange(a, run_end(s, a, false))
    } else {
        s
    }
}

proof fn lemma_run_end_le(s: Seq<char>, i: int, ws: bool)
    requires
        0 <= i <= s.len(),
    ensures
        i <= run_end(s, i, ws) <= s.len(),
    decreases s.len() - i,
{
    if 0 <= i < s.len() && crate::text::spec_is_whitespace(s[i]) == ws {
        lemma_run_end_le(s, i + 1, ws);
    }
}

fn run_end_exec(v: &Vec<char>, i: usize, ws: bool) -> (j: usize)
    requires
        i <= v@.len(),
    ensures
        j == run_end(v@, i as int, ws),
        i <= j <= v@.len(),
    decreases v@.len() - i,
{
    if i < v.len() && is_whitespace(v[i]) == ws {
        run_end_exec(v, i + 1, ws)
    } else {
        i
    }
}

/// The first word of a name (`split_whitespace().next()`, or the name itself).
pub fn first_word(s: &str) -> (r: String)
    ensures
        r@ == spec_first_word(s@),
{
    let v = chars_of(s);
    let a = run_end_exec(&v, 0, true);
    if a < v.len() {
        let b = run_end_exec(&v, a, false);
        let mut out: Vec<char> = Vec::new();
        let mut i = a;
        while i < b
            invariant
                a <= i <= b,
                b <= v@.len(),
                out@ == v@.subrange(a as int, i as int),
            decreases b - i,
        {
            out.push(v[i]);
            assert(v@.subrange(a as int, i as int).push(v@[i as int]) =~= v@.subrange(a as int, i + 1));
            i += 1;
        }
        string_of_vec(&out)
    } else {
        string_of_vec(&v)
    }
}

/// First words of the known participants' contact names, in order.
pub open spec fn spec_known_names(contacts: Map<Seq<char>, Seq<char>>, ps: Seq<Handle>) -> Seq<Seq<char>>
    decreases ps.len(),
{
    if ps.len() == 0 {
        Seq::empty()
    } else {
        let rest = spec_known_names(contacts, ps.drop_last());
        match spec_lookup(contacts, ps.last().address@) {
            Some(n) => rest.push(spec_first_word(n)),
            None => rest,
        }
    }
}

/// How many participants have no contact name.
pub open spec fn spec_unknown_count(contacts: Map<Seq<char>, Seq<char>>, ps: Seq<Handle>) -> nat
    decreases ps.len(),
{
    if ps.len() == 0 {
        0
    } else {
        let rest = spec_unknown_count(contacts, ps.drop_last());
        match spec_lookup(contacts, ps.last().address@) {
            Some(_) => rest,
            None => rest + 1,
        }
    }
}

proof fn lemma_counts(contacts: Map<Seq<char>, Seq<char>>, ps: Seq<Handle>)
    ensures
        spec_known_names(contacts, ps).len() + spec_unknown_count(contacts, ps) == ps.len(),
    decreases ps.len(),
{
    if ps.len() > 0 {
        lemma_counts(contacts, ps.drop_last());
    }
}

/// Title for a group chat from the first words of the known names and the
/// number of participants without a name: up to four names are listed, the
/// rest are counted as others.
pub open spec fn spec_group_title(k: Seq<Seq<char>>, unknown: nat) -> Seq<char> {
    if unknown == 0 {
        if k.len() == 0 {
            Seq::empty()
        } else if k.len() == 1 {
            k[0]
        } else if k.len() == 2 {
            k[0] + " & "@ + k[1]
        } else if k.len() == 3 {
            k[0] + ", "@ + k[1] + ", & "@ + k[2]
        } else if k.len() == 4 {
            k[0] + ", "@ + k[1] + ", "@ + k[2] + ", & "@ + k[3]
        } else {
            k[0] + ", "@ + k[1] + ", "@ + k[2] + ", & "@ + spec_decimal((k.len() - 3) as nat)
                + " others"@
        }
    } else {
        let others: nat = unknown + if k.len() > 3 { (k.len() - 3) as nat } else { 0 };
        if k.len() == 0 {
            spec_decimal(others) + " others"@
        } else if k.len() == 1 {
            k[0] + " & "@ + spec_decimal(others) + " others"@
        } else if k.len() == 2 {
            k[0] + ", "@ + k[1] + " & "@ + spec_decimal(others) + " others"@
        } else {
            k[0] + ", "@ + k[1] + ", "@ + k[2] + " & "@ + spec_decimal(others) + " others"@
        }
    }
}

/// Name of a group chat built from its participants' contact names.
pub open spec fn spec_group_display_name(contacts: Map<Seq<char>, Seq<char>>, ps: Seq<Handle>) -> Seq<char> {
    spec_group_title(spec_known_names(contacts, ps), spec_unknown_count(contacts, ps))
}

/// The participants of a chat (none when the server sent none).
pub open spec fn chat_participants(c: Chat) -> Seq<Handle> {
    match c.participants {
        Some(p) => p@,
        None => Seq::empty(),
    }
}

/// Name shown for a chat: its own display name when non-empty; for two or
/// more participants the group name when non-empty; else the first
/// participant's contact name or address; else the chat identifier.
pub open spec fn spec_chat_display_name(contacts: Map<Seq<char>, Seq<char>>, c: Chat) -> Seq<char> {
    let ps = chat_participants(c);
    if c.display_name matches Some(d) && d@.len() > 0 {
        c.display_name->0@
    } else if ps.len() >= 2 && spec_group_display_name(contacts, ps).len() > 0 {
        spec_group_display_name(contacts, ps)
    } else if ps.len() > 0 {
        match spec_lookup(contacts, ps[0].address@) {
            Some(n) => n,
            None => ps[0].address@,
        }
    } else {
        c.chat_identifier@
    }
}

fn cat(a: String, b: &str) -> (r: String)
    ensures
        r@ == a@ + b@,
{
    concat(a.as_str(), b)
}

fn count_str(n: usize) -> (r: String)
    ensures
        r@ == spec_decimal(n as nat),
{
    decimal(n as u64)
}

impl MainState {
    /// Name of a group chat built from its participants' contact names.
    pub fn group_display_name(&self, participants: &[Handle]) -> (r: String)
        ensures
            r@ == spec_group_display_name(self@.contacts, participants@),
    {
        let mut known: Vec<String> = Vec::new();
        let mut unknown_count: usize = 0;
        let mut i: usize = 0;
        while i < participants.len()
            invariant
                i <= participants@.len(),
                known@.map_values(|s: String| s@) == spec_known_names(self@.contacts, participants@.take(i as int)),
                unknown_count == spec_unknown_count(self@.contacts, participants@.take(i as int)),
            decreases participants@.len() - i,
        {
            proof {
                lemma_counts(self@.contacts, participants@.take(i as int));
                assert(participants@.take(i + 1).drop_last() =~= participants@.take(i as int));
            }
            match self.lookup_contact(participants[i].address.as_str()) {
                Some(name) => {
                    let w = first_word(name.as_str());
                    known.push(w);
                    assert(known@.map_values(|s: String| s@) =~= spec_known_names(self@.contacts, participants@.take(i as int)).push(w@));
                },
                None => {
                    unknown_count = unknown_count + 1;
                },
            }
            i += 1;
        }
        assert(participants@.take(participants@.len() as int) =~= participants@);
        let ghost k = spec_known_names(self@.contacts, participants@);
        assert(forall|j: int| 0 <= j < known@.len() ==> known@[j]@ == k[j]) by {
            assert forall|j: int| 0 <= j < known@.len() implies known@[j]@ == k[j] by {
                assert(known@.map_values(|s: String| s@)[j] == known@[j]@);
            }
        }
        let n = known.len();
        if unknown_count == 0 {
            if n == 0 {
                String::new()
            } else if n == 1 {
                known[0].clone()
            } else if n == 2 {
                let a = cat(known[0].clone(), " & ");
                cat(a, known[1].as_str())
            } else if n == 3 {
                let a = cat(known[0].clone(), ", ");
                let a = cat(a, known[1].as_str());
                let a = cat(a, ", & ");
                cat(a, known[2].as_str())
            } else if n == 4 {
                let a = cat(known[0].clone(), ", ");
                let a = cat(a, known[1].as_str());
                let a = cat(a, ", ");
                let a = cat(a, known[2].as_str());
                let a = cat(a, ", & ");
                cat(a, known[3].as_str())
            } else {
                let a = cat(known[0].clone(), ", ");
                let a = cat(a, known[1].as_str());
                let a = cat(a, ", ");
                let a = cat(a, known[2].as_str());
                let a = cat(a, ", & ");
                let d = count_str(n - 3);
                let a = cat(a, d.as_str());
                cat(a, " others")
            }
        } else {
            proof {
                lemma_counts(self@.contacts, participants@);
            }
            let others = unknown_count + if n > 3 { n - 3 } else { 0 };
            let d = count_str(others);
            if n == 0 {
                cat(d, " others")
            } else if n == 1 {
                let a = cat(known[0].clone(), " & ");
                let a = cat(a, d.as_str());
                cat(a, " others")
            } else if n == 2 {
                let a = cat(known[0].clone(), ", ");
                let a = cat(a, known[1].as_str());
                let a = cat(a, " & ");
                let a = cat(a, d.as_str());
                cat(a, " others")
            } else {
                let a = cat(known[0].clone(), ", ");
                let a = cat(a, known[1].as_str());
                let a = cat(a, ", ");
                let a = cat(a, known[2].as_str());
                let a = cat(a, " & ");
                let a = cat(a, d.as_str());
                cat(a, " others")
            }
        }
    }

    /// Name shown for a chat in the chat list, titles and search.
    pub fn chat_display_name(&self, chat: &Chat) -> (r: String)
        ensures
            r@ == spec_chat_display_name(self@.contacts, *chat),
    {
        if let Some(d) = &chat.display_name {
            if !d.as_str().is_empty() {
                return d.clone();
            }
        }
        let empty: Vec<Handle> = Vec::new();
        let ps: &Vec<Handle> = match &chat.participants {
            Some(p) => p,
            None => &empty,
        };
        assert(ps@ == chat_participants(*chat));
        if ps.len() >= 2 {
            let name = self.group_display_name(ps.as_slice());
            if !name.as_str().is_empty() {
                return name;
            }
        }
        if ps.len() > 0 {
            match self.lookup_contact(ps[0].address.as_str()) {
                Some(n) => n.clone(),
                None => ps[0].address.clone(),
            }
        } else {
            chat.chat_identifier.clone()
        }
    }
}


/// Does `p` pass the participant test of chat search for the lowercased query `q`?
pub open spec fn spec_participant_matches(contacts: Map<Seq<char>, Seq<char>>, p: Handle, q: Seq<char>) -> bool {
    seq_contains(spec_to_lowercase(p.address@), q) || (spec_lookup(contacts, p.address@) matches Some(n)
        && seq_contains(spec_to_lowercase(n), q))
}

/// Does chat `c` match the lowercased query `q`: by its shown name, or by a
/// participant's address or contact name?
pub open spec fn spec_chat_matches(contacts: Map<Seq<char>, Seq<char>>, c: Chat, q: Seq<char>) -> bool {
    seq_contains(spec_to_lowercase(spec_chat_display_name(contacts, c)), q) || exists|j: int|
        0 <= j < chat_participants(c).len() && spec_participant_matches(contacts, #[trigger] chat_participants(c)[j], q)
}

/// Indices, in increasing order, of the first `n` chats that match `q`.
pub open spec fn spec_search_results(contacts: Map<Seq<char>, Seq<char>>, chats: Seq<Chat>, q: Seq<char>, n: nat) -> Seq<usize>
    decreases n,
{
    if n == 0 {
        Seq::empty()
    } else {
        let rest = spec_search_results(contacts, chats, q, (n - 1) as nat);
        if spec_chat_matches(contacts, chats[n - 1], q) { rest.push((n - 1) as usize) } else { rest }
    }
}

/// A selection kept inside a list of `len` rows: moved to the last row when past it.
pub open spec fn clamp_selection(sel: usize, len: nat) -> usize {
    if sel >= len { if len > 0 { (len - 1) as usize } else { 0 } } else { sel }
}

/// The client after recomputing the chat search results for its query.
pub open spec fn spec_update_chat_search(m: MainView) -> MainView {
    let q = spec_to_lowercase(m.chat_search_query);
    let res = spec_search_results(m.contacts, m.chats, q, m.chats.len());
    MainView {
        chat_search_results: res,
        chat_search_selected: clamp_selection(m.chat_search_selected, res.len()),
        ..m
    }
}

/// Does catalogue emoji `e` match the lowercased query `q` by name or shortcode?
pub open spec fn spec_emoji_matches(e: crate::model::EmojiView, q: Seq<char>) -> bool {
    seq_contains(spec_to_lowercase(e.name), q) || (e.shortcode matches Some(s) && seq_contains(spec_to_lowercase(s), q))
}

/// Indices, in increasing order, of the first `n` catalogue emojis matching `q`.
pub open spec fn spec_emoji_results(cat: Seq<crate::model::EmojiView>, q: Seq<char>, n: nat) -> Seq<usize>
    decreases n,
{
    if n == 0 {
        Seq::empty()
    } else {
        let rest = spec_emoji_results(cat, q, (n - 1) as nat);
        if spec_emoji_matches(cat[n - 1], q) { rest.push((n - 1) as usize) } else { rest }
    }
}

/// The client after recomputing the emoji picker's results for its query.
pub open spec fn spec_update_emoji_search(m: MainView) -> MainView {
    match m.emoji_picker {
        Some(p) => {
            let res = spec_emoji_results(m.emoji_catalog, spec_to_lowercase(p.query), m.emoji_catalog.len());
            MainView {
                emoji_picker: Some(crate::model::PickerView {
                    results: res,
                    selected: clamp_selection(p.selected, res.len()),
                    query: p.query,
                }),
                ..m
            }
        },
        None => m,
    }
}

proof fn lemma_emoji_results_bound(cat: Seq<crate::model::EmojiView>, q: Seq<char>, n: nat)
    ensures
        forall|i: int| 0 <= i < spec_emoji_results(cat, q, n).len() ==> #[trigger] spec_emoji_results(cat, q, n)[i] < n,
        spec_emoji_results(cat, q, n).len() <= n,
    decreases n,
{
    if n > 0 {
        lemma_emoji_results_bound(cat, q, (n - 1) as nat);
    }
}

proof fn lemma_search_results_len(contacts: Map<Seq<char>, Seq<char>>, chats: Seq<Chat>, q: Seq<char>, n: nat)
    ensures
        spec_search_results(contacts, chats, q, n).len() <= n,
        forall|i: int| 0 <= i < spec_search_results(contacts, chats, q, n).len() ==> #[trigger] spec_search_results(contacts, chats, q, n)[i] < n,
    decreases n,
{
    if n > 0 {
        lemma_search_results_len(contacts, chats, q, (n - 1) as nat);
    }
}

/// Attachments that get an inline preview: those with an `image/` MIME type,
/// or, without a MIME type, a file name with a common image extension
/// (compared in lowercase).
pub open spec fn spec_is_image_attachment(a: Attachment) -> bool {
    match a.mime_type {
        Some(m) => seq_starts_with(m@, "image/"@),
        None => match a.transfer_name {
            Some(n) => {
                let l = spec_to_lowercase(n@);
                seq_ends_with(l, ".jpg"@) || seq_ends_with(l, ".jpeg"@) || seq_ends_with(l, ".png"@)
                    || seq_ends_with(l, ".gif"@) || seq_ends_with(l, ".webp"@) || seq_ends_with(l, ".bmp"@)
                    || seq_ends_with(l, ".tiff"@)
            },
            None => false,
        },
    }
}

/// Whether an attachment is shown as an inline image.
pub fn is_image_attachment(att: &Attachment) -> (r: bool)
    ensures
        r == spec_is_image_attachment(*att),
{
    if let Some(mime) = &att.mime_type {
        return str_starts_with(mime.as_str(), "image/");
    }
    if let Some(name) = &att.transfer_name {
        let lower = to_lowercase(name.as_str());
        let l = lower.as_str();
        return str_ends_with(l, ".jpg") || str_ends_with(l, ".jpeg") || str_ends_with(l, ".png")
            || str_ends_with(l, ".gif") || str_ends_with(l, ".webp") || str_ends_with(l, ".bmp")
            || str_ends_with(l, ".tiff");
    }
    false
}

impl MainState {
    fn participant_matches(&self, p: &Handle, q: &str) -> (r: bool)
        ensures
            r == spec_participant_matches(self@.contacts, *p, q@),
    {
        let la = to_lowercase(p.address.as_str());
        if str_contains(la.as_str(), q) {
            return true;
        }
        match self.lookup_contact(p.address.as_str()) {
            Some(n) => {
                let ln = to_lowercase(n.as_str());
                str_contains(ln.as_str(), q)
            },
            None => false,
        }
    }

    fn chat_matches(&self, c: &Chat, q: &str) -> (r: bool)
        ensures
            r == spec_chat_matches(self@.contacts, *c, q@),
    {
        let name = self.chat_display_name(c);
        let lname = to_lowercase(name.as_str());
        if str_contains(lname.as_str(), q) {
            return true;
        }
        if let Some(ps) = &c.participants {
            let mut j: usize = 0;
            while j < ps.len()
                invariant
                    j <= ps@.len(),
                    ps@ == chat_participants(*c),
                    forall|k: int| 0 <= k < j ==> !spec_participant_matches(self@.contacts, #[trigger] ps@[k], q@),
                decreases ps@.len() - j,
            {
                if self.participant_matches(&ps[j], q) {
                    return true;
                }
                j += 1;
            }
        }
        false
    }

    /// Recomputes the chat search results for the current query.
    pub fn update_chat_search(&mut self)
        requires
            old(self).wf(),
        ensures
            final(self).wf(),
            final(self)@ == spec_update_chat_search(old(self)@),
    {
        let q = to_lowercase(self.chat_search_query.as_str());
        let mut res: Vec<usize> = Vec::new();
        let mut i: usize = 0;
        while i < self.chats.len()
            invariant
                i <= self@.chats.len(),
                q@ == spec_to_lowercase(self@.chat_search_query),
                res@ == spec_search_results(self@.contacts, self@.chats, q@, i as nat),
            decreases self@.chats.len() - i,
        {
            if self.chat_matches(&self.chats[i], q.as_str()) {
                res.push(i);
            }
            i += 1;
        }
        proof {
            lemma_search_results_len(self@.contacts, self@.chats, q@, self@.chats.len());
        }
        let len = res.len();
        self.chat_search_results = res;
        if self.chat_search_selected >= len {
            self.chat_search_selected = if len > 0 { len - 1 } else { 0 };
        }
    }

    /// Recomputes the emoji picker's results for its query.
    pub fn update_emoji_search(&mut self)
        requires
            old(self).wf(),
        ensures
            final(self).wf(),
            final(self)@ == spec_update_emoji_search(old(self)@),
    {
        let ghost m = self@;
        let q = match &self.emoji_picker_state {
            Some(p) => to_lowercase(p.query.as_str()),
            None => return,
        };
        let mut res: Vec<usize> = Vec::new();
        let mut i: usize = 0;
        while i < self.emoji_catalog.len()
            invariant
                i <= self@.emoji_catalog.len(),
                self@ == m,
                m.emoji_picker matches Some(p) && q@ == spec_to_lowercase(p.query),
                res@ == spec_emoji_results(m.emoji_catalog, q@, i as nat),
            decreases self@.emoji_catalog.len() - i,
        {
            let e = &self.emoji_catalog[i];
            let ln = to_lowercase(e.name.as_str());
            let mut hit = str_contains(ln.as_str(), q.as_str());
            if !hit {
                if let Some(sc) = &e.shortcode {
                    let ls = to_lowercase(sc.as_str());
                    hit = str_contains(ls.as_str(), q.as_str());
                }
            }
            assert(m.emoji_catalog[i as int] == crate::model::emoji_view(self.emoji_catalog@[i as int]));
            if hit {
                res.push(i);
            }
            i += 1;
        }
        proof {
            lemma_emoji_results_bound(m.emoji_catalog, q@, m.emoji_catalog.len());
        }
        let len = res.len();
        if let Some(p) = &mut self.emoji_picker_state {
            p.results = res;
            if p.selected >= len {
                p.selected = if len > 0 { len - 1 } else { 0 };
            }
        }
    }
}

proof fn lemma_search_results(contacts: Map<Seq<char>, Seq<char>>, chats: Seq<Chat>, q: Seq<char>, n: nat)
    requires
        n <= chats.len(),
        chats.len() <= usize::MAX,
    ensures
        forall|i: int| 0 <= i < spec_search_results(contacts, chats, q, n).len()
            ==> #[trigger] spec_search_results(contacts, chats, q, n)[i] < n,
        forall|i: int, j: int| 0 <= i < j < spec_search_results(contacts, chats, q, n).len()
            ==> spec_search_results(contacts, chats, q, n)[i] < spec_search_results(contacts, chats, q, n)[j],
        forall|k: int| 0 <= k < n ==> (spec_search_results(contacts, chats, q, n).contains(k as usize)
            <==> spec_chat_matches(contacts, #[trigger] chats[k], q)),
    decreases n,
{
    if n > 0 {
        let rest = spec_search_results(contacts, chats, q, (n - 1) as nat);
        let r = spec_search_results(contacts, chats, q, n);
        lemma_search_results(contacts, chats, q, (n - 1) as nat);
        assert forall|k: int| 0 <= k < n implies (r.contains(k as usize)
            <==> spec_chat_matches(contacts, #[trigger] chats[k], q)) by {
            if k < n - 1 {
                if r.contains(k as usize) {
                    let i = choose|i: int| 0 <= i < r.len() && r[i] == k as usize;
                    if i < rest.len() {
                        assert(rest[i] == k as usize);
                    }
                }
                if rest.contains(k as usize) {
                    let i = choose|i: int| 0 <= i < rest.len() && rest[i] == k as usize;
                    assert(r[i] == k as usize);
                }
            } else {
                if spec_chat_matches(contacts, chats[k], q) {
                    assert(r[r.len() - 1] == k as usize);
                } else if r.contains(k as usize) {
                    let i = choose|i: int| 0 <= i < r.len() && r[i] == k as usize;
                    assert(rest[i] < n - 1);
                }
            }
        }
    }
}

/// The chat search lists exactly the chats that match the query, each once,
/// in list order, and keeps its highlight on a listed row.
pub proof fn law_chat_search_lists_matches(m: MainView)
    requires
        m.chats.len() <= usize::MAX,
    ensures
        ({
            let r = spec_update_chat_search(m);
            let q = spec_to_lowercase(m.chat_search_query);
            &&& forall|i: int| 0 <= i < r.chat_search_results.len() ==> #[trigger] r.chat_search_results[i] < m.chats.len()
            &&& forall|i: int, j: int| 0 <= i < j < r.chat_search_results.len()
                    ==> r.chat_search_results[i] < r.chat_search_results[j]
            &&& forall|k: int| 0 <= k < m.chats.len() ==> (r.chat_search_results.contains(k as usize)
                    <==> spec_chat_matches(m.contacts, #[trigger] m.chats[k], q))
            &&& (r.chat_search_results.len() > 0 ==> r.chat_search_selected < r.chat_search_results.len())
        }),
{
    lemma_search_results(m.contacts, m.chats, spec_to_lowercase(m.chat_search_query), m.chats.len());
}

proof fn lemma_emoji_results(cat: Seq<crate::model::EmojiView>, q: Seq<char>, n: nat)
    requires
        n <= cat.len(),
        cat.len() <= usize::MAX,
    ensures
        forall|i: int| 0 <= i < spec_emoji_results(cat, q, n).len() ==> #[trigger] spec_emoji_results(cat, q, n)[i] < n,
        forall|i: int, j: int| 0 <= i < j < spec_emoji_results(cat, q, n).len()
            ==> spec_emoji_results(cat, q, n)[i] < spec_emoji_results(cat, q, n)[j],
        forall|k: int| 0 <= k < n ==> (spec_emoji_results(cat, q, n).contains(k as usize)
            <==> spec_emoji_matches(#[trigger] cat[k], q)),
    decreases n,
{
    if n > 0 {
        let rest = spec_emoji_results(cat, q, (n - 1) as nat);
        let r = spec_emoji_results(cat, q, n);
        lemma_emoji_results(cat, q, (n - 1) as nat);
        assert forall|k: int| 0 <= k < n implies (r.contains(k as usize) <==> spec_emoji_matches(#[trigger] cat[k], q)) by {
            if k < n - 1 {
                if r.contains(k as usize) {
                    let i = choose|i: int| 0 <= i < r.len() && r[i] == k as usize;
                    if i < rest.len() {
                        assert(rest[i] == k as usize);
                    }
                }
                if rest.contains(k as usize) {
                    let i = choose|i: int| 0 <= i < rest.len() && rest[i] == k as usize;
                    assert(r[i] == k as usize);
                }
            } else {
                if spec_emoji_matches(cat[k], q) {
                    assert(r[r.len() - 1] == k as usize);
                } else if r.contains(k as usize) {
                    let i = choose|i: int| 0 <= i < r.len() && r[i] == k as usize;
                    assert(rest[i] < n - 1);
                }
            }
        }
    }
}

/// The emoji picker lists exactly the catalogue emojis whose name or
/// shortcode contains the query (ignoring case), in catalogue order, and
/// keeps its highlight on a listed row.
pub proof fn law_emoji_search_lists_matches(m: MainView)
    requires
        m.emoji_picker is Some,
        m.emoji_catalog.len() <= usize::MAX,
    ensures
        ({
            let p = spec_update_emoji_search(m).emoji_picker.unwrap();
            let q = spec_to_lowercase(m.emoji_picker.unwrap().query);
            &&& forall|i: int| 0 <= i < p.results.len() ==> #[trigger] p.results[i] < m.emoji_catalog.len()
            &&& forall|i: int, j: int| 0 <= i < j < p.results.len() ==> p.results[i] < p.results[j]
            &&& forall|k: int| 0 <= k < m.emoji_catalog.len() ==> (p.results.contains(k as usize)
                    <==> spec_emoji_matches(#[trigger] m.emoji_catalog[k], q))
            &&& (p.results.len() > 0 ==> p.selected < p.results.len())
        }),
{
    lemma_emoji_results(m.emoji_catalog, spec_to_lowercase(m.emoji_picker.unwrap().query), m.emoji_catalog.len());
}

/// Names joined with ", ".
pub open spec fn comma_joined(k: Seq<Seq<char>>) -> Seq<char>
    decreases k.len(),
{
    if k.len() == 0 {
        Seq::empty()
    } else if k.len() == 1 {
        k[0]
    } else {
        comma_joined(k.drop_last()) + ", "@ + k.last()
    }
}

proof fn lemma_some_unknown(contacts: Map<Seq<char>, Seq<char>>, ps: Seq<Handle>, j: int)
    requires
        0 <= j < ps.len(),
        spec_lookup(contacts, ps[j].address@) is None,
    ensures
        spec_unknown_count(contacts, ps) > 0,
    decreases ps.len(),
{
    if j < ps.len() - 1 {
        lemma_some_unknown(contacts, ps.drop_last(), j);
    }
}

proof fn lemma_no_unknown(contacts: Map<Seq<char>, Seq<char>>, ps: Seq<Handle>)
    requires
        forall|j: int| 0 <= j < ps.len() ==> spec_lookup(contacts, (#[trigger] ps[j]).address@) is Some,
    ensures
        spec_unknown_count(contacts, ps) == 0,
    decreases ps.len(),
{
    if ps.len() > 0 {
        let q = ps.drop_last();
        assert forall|j: int| 0 <= j < q.len() implies spec_lookup(contacts, (#[trigger] q[j]).address@) is Some by {
            assert(q[j] == ps[j]);
        }
        lemma_no_unknown(contacts, q);
    }
}

proof fn lemma_joined_front(k: Seq<Seq<char>>)
    requires
        k.len() >= 3,
    ensures
        comma_joined(k.take(1)) == k[0],
        comma_joined(k.take(2)) == k[0] + ", "@ + k[1],
        comma_joined(k.take(3)) == k[0] + ", "@ + k[1] + ", "@ + k[2],
{
    assert(k.take(2).drop_last() =~= k.take(1));
    assert(k.take(3).drop_last() =~= k.take(2));
}

/// A group chat one of whose participants is not a contact is titled with
/// the first names of its first (up to three) contacts and then the number
/// of participants that leaves: every participant is either named or counted
/// among the others.
pub proof fn law_group_title_counts_everyone(contacts: Map<Seq<char>, Seq<char>>, ps: Seq<Handle>, j: int)
    requires
        0 <= j < ps.len(),
        spec_lookup(contacts, ps[j].address@) is None,
    ensures
        ({
            let k = spec_known_names(contacts, ps);
            let listed: int = if k.len() < 3 { k.len() as int } else { 3 };
            &&& listed <= k.len()
            &&& listed < ps.len()
            &&& spec_group_display_name(contacts, ps) == (if listed == 0 { Seq::empty() } else { comma_joined(k.take(listed)) + " & "@ })
                + spec_decimal((ps.len() - listed) as nat) + " others"@
        }),
{
    lemma_counts(contacts, ps);
    lemma_some_unknown(contacts, ps, j);
    let k = spec_known_names(contacts, ps);
    if k.len() >= 3 {
        lemma_joined_front(k);
    } else if k.len() == 2 {
        assert(k.take(2) =~= k);
        assert(k.drop_last() =~= k.take(1));
    } else if k.len() == 1 {
        assert(k.take(1) =~= k);
    }
    let u = spec_unknown_count(contacts, ps);
    let listed: int = if k.len() < 3 { k.len() as int } else { 3 };
    let others: nat = u + if k.len() > 3 { (k.len() - 3) as nat } else { 0 };
    assert(others == (ps.len() - listed) as nat);
    let d = spec_decimal(others);
    let title = spec_group_display_name(contacts, ps);
    assert(title == spec_group_title(k, u));
    if listed == 0 {
        assert(title == d + " others"@);
        assert(Seq::<char>::empty() + d =~= d);
    } else if listed == 1 {
        assert(comma_joined(k.take(1)) == k[0]);
        assert(title == k[0] + " & "@ + d + " others"@);
    } else if listed == 2 {
        assert(comma_joined(k.take(1)) == k[0]);
        assert(comma_joined(k.take(2)) == comma_joined(k.take(2).drop_last()) + ", "@ + k[1]);
        assert(comma_joined(k.take(2)) == k[0] + ", "@ + k[1]);
        assert(title == k[0] + ", "@ + k[1] + " & "@ + d + " others"@);
    } else {
        assert(comma_joined(k.take(3)) == k[0] + ", "@ + k[1] + ", "@ + k[2]);
        assert(title == k[0] + ", "@ + k[1] + ", "@ + k[2] + " & "@ + d + " others"@);
    }
}

/// A group chat whose participants are all contacts and more than four is
/// titled with the first names of the first three and the number of the
/// others.
pub proof fn law_group_title_all_contacts(contacts: Map<Seq<char>, Seq<char>>, ps: Seq<Handle>)
    requires
        ps.len() > 4,
        forall|j: int| 0 <= j < ps.len() ==> spec_lookup(contacts, (#[trigger] ps[j]).address@) is Some,
    ensures
        ({
            let k = spec_known_names(contacts, ps);
            &&& k.len() == ps.len()
            &&& spec_group_display_name(contacts, ps) == comma_joined(k.take(3)) + ", & "@
                + spec_decimal((ps.len() - 3) as nat) + " others"@
        }),
{
    lemma_counts(contacts, ps);
    lemma_no_unknown(contacts, ps);
    lemma_joined_front(spec_known_names(contacts, ps));
}

/// Chat search lists a chat exactly when, once lowercased, its shown name,
/// or the address or the contact name of one of its participants, contains
/// the lowercased query.
pub proof fn law_chat_search_by_name_or_participant(m: MainView)
    requires
        m.chats.len() <= usize::MAX,
    ensures
        forall|k: int| 0 <= k < m.chats.len() ==> (
            spec_update_chat_search(m).chat_search_results.contains(k as usize) <==> {
                let q = spec_to_lowercase(m.chat_search_query);
                let c = #[trigger] m.chats[k];
                let ps = chat_participants(c);
                ||| seq_contains(spec_to_lowercase(spec_chat_display_name(m.contacts, c)), q)
                ||| exists|j: int| 0 <= j < ps.len() && (seq_contains(spec_to_lowercase((#[trigger] ps[j]).address@), q)
                    || (spec_lookup(m.contacts, ps[j].address@) matches Some(n) && seq_contains(spec_to_lowercase(n), q)))
            }),
{
    law_chat_search_lists_matches(m);
}

} // verus!
