//! The file chooser: which entries of a directory it lists, and in what order.

use vstd::prelude::*;
use crate::model::{EntryView, FileEntry, FocusedPane, MainState, MainView, entry_view, ov, sv};
use crate::text::{chars_of, owned, seq_contains, spec_to_lowercase, str_contains, to_lowercase};

verus! {

broadcast use vstd::seq_lib::group_to_multiset_ensures;

/// Strict lexicographic order on character sequences (by code point).
pub open spec fn lex_lt(a: Seq<char>, b: Seq<char>) -> bool
    decreases a.len(),
{
    if b.len() == 0 {
        false
    } else if a.len() == 0 {
        true
    } else if a[0] != b[0] {
        a[0] < b[0]
    } else {
        lex_lt(a.drop_first(), b.drop_first())
    }
}

/// Lexicographic order, not strict.
pub open spec fn lex_le(a: Seq<char>, b: Seq<char>) -> bool {
    !lex_lt(b, a)
}

proof fn lemma_lex_asym(a: Seq<char>, b: Seq<char>)
    requires
        lex_lt(a, b),
    ensures
        !lex_lt(b, a),
    decreases a.len(),
{
    if a.len() > 0 && b.len() > 0 && a[0] == b[0] {
        lemma_lex_asym(a.drop_first(), b.drop_first());
    }
}

/// Entries in order of their names, each no later than the next.
pub open spec fn sorted_by_name(s: Seq<EntryView>) -> bool {
    forall|i: int| 0 <= i < s.len() - 1 ==> lex_le(#[trigger] s[i].name, s[i + 1].name)
}

fn lex_less(a: &Vec<char>, b: &Vec<char>) -> (r: bool)
    ensures
        r == lex_lt(a@, b@),
{
    let mut i: usize = 0;
    assert(a@.skip(0) =~= a@);
    assert(b@.skip(0) =~= b@);
    while i < a.len() && i < b.len() && a[i] == b[i]
        invariant
            i <= a@.len(),
            i <= b@.len(),
            lex_lt(a@, b@) == lex_lt(a@.skip(i as int), b@.skip(i as int)),
        decreases a@.len() - i,
    {
        assert(a@.skip(i as int).drop_first() =~= a@.skip(i + 1));
        assert(b@.skip(i as int).drop_first() =~= b@.skip(i + 1));
        i += 1;
    }
    if i >= b.len() {
        false
    } else if i >= a.len() {
        true
    } else {
        a[i] < b[i]
    }
}

fn entry_name_chars(e: &FileEntry) -> (r: Vec<char>)
    ensures
        r@ == e.name@,
{
    chars_of(e.name.as_str())
}

/// Sorts entries by name (stable insertion sort).
pub fn sort_by_name(v: Vec<FileEntry>) -> (r: Vec<FileEntry>)
    ensures
        r@.map_values(|e: FileEntry| entry_view(e)).to_multiset() == v@.map_values(|e: FileEntry| entry_view(e)).to_multiset(),
        r@.len() == v@.len(),
        sorted_by_name(r@.map_values(|e: FileEntry| entry_view(e))),
{
    let ghost orig = v@;
    let mut v = v;
    let mut r: Vec<FileEntry> = Vec::new();
    while v.len() > 0
        invariant
            r@.map_values(|e: FileEntry| entry_view(e)).to_multiset().add(v@.map_values(|e: FileEntry| entry_view(e)).to_multiset())
                == orig.map_values(|e: FileEntry| entry_view(e)).to_multiset(),
            r@.len() + v@.len() == orig.len(),
            sorted_by_name(r@.map_values(|e: FileEntry| entry_view(e))),
        decreases v@.len(),
    {
        let ghost vb = v@;
        let x = v.pop().unwrap();
        proof {
            assert(vb =~= v@.push(x));
            assert(vb.map_values(|e: FileEntry| entry_view(e)) =~= v@.map_values(|e: FileEntry| entry_view(e)).push(entry_view(x)));
            vstd::seq_lib::to_multiset_build(v@.map_values(|e: FileEntry| entry_view(e)), entry_view(x));
        }
        let xn = entry_name_chars(&x);
        let ghost rv = r@.map_values(|e: FileEntry| entry_view(e));
        let mut p: usize = 0;
        while p < r.len()
            invariant
                p <= r@.len(),
                rv == r@.map_values(|e: FileEntry| entry_view(e)),
                forall|k: int| 0 <= k < p ==> !lex_lt(xn@, #[trigger] rv[k].name),
            ensures
                p <= r@.len(),
                forall|k: int| 0 <= k < p ==> !lex_lt(xn@, #[trigger] rv[k].name),
                p < r@.len() ==> lex_lt(xn@, rv[p as int].name),
            decreases r@.len() - p,
        {
            let rn = entry_name_chars(&r[p]);
            assert(rv[p as int].name == rn@);
            if lex_less(&xn, &rn) {
                break;
            }
            p += 1;
        }
        r.insert(p, x);
        proof {
            let rv2 = r@.map_values(|e: FileEntry| entry_view(e));
            assert(rv2 =~= rv.insert(p as int, entry_view(x)));
            vstd::seq_lib::to_multiset_insert(rv, p as int, entry_view(x));
            assert forall|i: int| 0 <= i < rv2.len() - 1 implies lex_le(#[trigger] rv2[i].name, rv2[i + 1].name) by {
                if i < p - 1 {
                    assert(rv2[i] == rv[i] && rv2[i + 1] == rv[i + 1]);
                } else if i == p - 1 {
                    assert(rv2[i] == rv[i]);
                    assert(rv2[i + 1].name == xn@);
                } else if i == p {
                    assert(rv2[i].name == xn@);
                    assert(rv2[i + 1] == rv[p as int]);
                    lemma_lex_asym(xn@, rv[p as int].name);
                } else {
                    assert(rv2[i] == rv[i - 1] && rv2[i + 1] == rv[i]);
                }
            }
        }
    }
    r
}


/// Whether an entry passes the (lower-cased) filter: an empty filter passes
/// everything, any other must occur in the lower-cased name.
pub open spec fn spec_entry_passes(filter_lc: Seq<char>, e: EntryView) -> bool {
    filter_lc.len() == 0 || seq_contains(spec_to_lowercase(e.name), filter_lc)
}

/// The directories of a listing that pass the filter.
pub open spec fn dir_pred(filter_lc: Seq<char>) -> spec_fn(EntryView) -> bool {
    |e: EntryView| e.is_dir && spec_entry_passes(filter_lc, e)
}

/// The other entries of a listing that pass the filter.
pub open spec fn file_pred(filter_lc: Seq<char>) -> spec_fn(EntryView) -> bool {
    |e: EntryView| !e.is_dir && spec_entry_passes(filter_lc, e)
}

/// The `..` entry that leads to the parent directory.
pub open spec fn up_entry(link: Seq<char>) -> EntryView {
    EntryView { path: link, name: seq!['.', '.'], is_dir: true }
}

/// The `..` entry is listed when the directory has a parent and the filter is
/// empty or part of `..`.
pub open spec fn spec_up_entries(filter_lc: Seq<char>, parent_link: Option<Seq<char>>) -> Seq<EntryView> {
    match parent_link {
        Some(link) => if filter_lc.len() == 0 || seq_contains(seq!['.', '.'], filter_lc) {
            seq![up_entry(link)]
        } else {
            Seq::empty()
        },
        None => Seq::empty(),
    }
}

/// `out` holds exactly the entries of `inp`, ordered by name.
pub open spec fn sorted_arrangement(out: Seq<EntryView>, inp: Seq<EntryView>) -> bool {
    &&& out.to_multiset() == inp.to_multiset()
    &&& sorted_by_name(out)
}

/// What the chooser lists for a filter, the link to the parent directory (if
/// there is a parent) and the directory's entries: the `..` entry where it
/// applies, then the passing directories by name, then the passing files by name.
pub open spec fn spec_chooser_listing(
    filter: Seq<char>,
    parent_link: Option<Seq<char>>,
    listing: Seq<EntryView>,
    out: Seq<EntryView>,
) -> bool {
    let f = spec_to_lowercase(filter);
    let up = spec_up_entries(f, parent_link);
    let dirs = listing.filter(dir_pred(f));
    let files = listing.filter(file_pred(f));
    &&& out.len() == (up.len() + dirs.len()) as int + files.len()
    &&& out.subrange(0, up.len() as int) == up
    &&& sorted_arrangement(out.subrange(up.len() as int, (up.len() + dirs.len()) as int), dirs)
    &&& sorted_arrangement(out.subrange((up.len() + dirs.len()) as int, out.len() as int), files)
}

fn copy_entry(e: &FileEntry) -> (r: FileEntry)
    ensures
        entry_view(r) == entry_view(*e),
{
    FileEntry { path: owned(e.path.as_str()), name: owned(e.name.as_str()), is_dir: e.is_dir }
}

/// Splits a listing into the directories and the files that pass the filter,
/// each in listing order.
fn split_listing(filter_lc: &str, listing: &Vec<FileEntry>) -> (r: (Vec<FileEntry>, Vec<FileEntry>))
    ensures
        r.0@.map_values(|e: FileEntry| entry_view(e)) == listing@.map_values(|e: FileEntry| entry_view(e)).filter(dir_pred(filter_lc@)),
        r.1@.map_values(|e: FileEntry| entry_view(e)) == listing@.map_values(|e: FileEntry| entry_view(e)).filter(file_pred(filter_lc@)),
{
    let ghost lv = listing@.map_values(|e: FileEntry| entry_view(e));
    let ghost fl = filter_lc@;
    let mut dirs: Vec<FileEntry> = Vec::new();
    let mut files: Vec<FileEntry> = Vec::new();
    let n = listing.len();
    let no_filter = filter_lc.is_empty();
    let mut i: usize = 0;
    while i < n
        invariant
            n == listing@.len(),
            i <= n,
            lv == listing@.map_values(|e: FileEntry| entry_view(e)),
            fl == filter_lc@,
            no_filter == (fl.len() == 0),
            dirs@.map_values(|e: FileEntry| entry_view(e)) == lv.take(i as int).filter(dir_pred(fl)),
            files@.map_values(|e: FileEntry| entry_view(e)) == lv.take(i as int).filter(file_pred(fl)),
        decreases n - i,
    {
        let e = &listing[i];
        let pass = if no_filter {
            true
        } else {
            let lname = to_lowercase(e.name.as_str());
            str_contains(lname.as_str(), filter_lc)
        };
        proof {
            reveal(Seq::filter);
            assert(lv.take(i + 1).drop_last() =~= lv.take(i as int));
            assert(lv.take(i + 1).last() == entry_view(*e));
            assert(pass == spec_entry_passes(fl, entry_view(*e)));
        }
        if pass {
            let c = copy_entry(e);
            if e.is_dir {
                dirs.push(c);
            } else {
                files.push(c);
            }
        }
        proof {
            assert(dirs@.map_values(|e: FileEntry| entry_view(e)) =~= lv.take(i + 1).filter(dir_pred(fl)));
            assert(files@.map_values(|e: FileEntry| entry_view(e)) =~= lv.take(i + 1).filter(file_pred(fl)));
        }
        i += 1;
    }
    assert(lv.take(n as int) =~= lv);
    (dirs, files)
}

impl MainState {
    /// Lists the chooser's directory again: `parent_link` is the path of its
    /// parent (`None` at the root) and `listing` what the directory holds.
    /// The highlight goes back to the first entry.
    pub fn reload_file_chooser(&mut self, parent_link: Option<String>, listing: Vec<FileEntry>)
        requires
            old(self).wf(),
        ensures
            final(self).wf(),
            spec_chooser_listing(
                old(self)@.file_chooser_filter,
                ov(parent_link),
                listing@.map_values(|e: FileEntry| entry_view(e)),
                final(self)@.file_chooser_entries,
            ),
            final(self)@ == (MainView {
                file_chooser_entries: final(self)@.file_chooser_entries,
                file_chooser_selected: 0,
                ..old(self)@
            }),
    {
        let ghost m = self@;
        let filter_lc = to_lowercase(self.file_chooser_filter.as_str());
        let ghost fl = filter_lc@;
        let (dirs, files) = split_listing(filter_lc.as_str(), &listing);
        let mut dirs = sort_by_name(dirs);
        let mut files = sort_by_name(files);
        let mut out: Vec<FileEntry> = Vec::new();
        let ghost pl = ov(parent_link);
        match parent_link {
            Some(link) => {
                let dots = owned("..");
                proof {
                    reveal_strlit("..");
                    assert(dots@ =~= seq!['.', '.']);
                }
                let show = filter_lc.as_str().is_empty() || str_contains(dots.as_str(), filter_lc.as_str());
                if show {
                    out.push(FileEntry { path: link, name: dots, is_dir: true });
                    assert(out@.map_values(|e: FileEntry| entry_view(e)) =~= seq![up_entry(pl.unwrap())]);
                } else {
                    assert(out@.map_values(|e: FileEntry| entry_view(e)) =~= Seq::<EntryView>::empty());
                }
            },
            None => {
                assert(out@.map_values(|e: FileEntry| entry_view(e)) =~= Seq::<EntryView>::empty());
            },
        }
        let ghost up = out@.map_values(|e: FileEntry| entry_view(e));
        let ghost dv = dirs@.map_values(|e: FileEntry| entry_view(e));
        let ghost fv = files@.map_values(|e: FileEntry| entry_view(e));
        out.append(&mut dirs);
        out.append(&mut files);
        let ghost ov = out@.map_values(|e: FileEntry| entry_view(e));
        proof {
            assert(up =~= spec_up_entries(fl, pl));
            assert(ov =~= up + dv + fv);
            assert(ov.subrange(0, up.len() as int) =~= up);
            assert(ov.subrange(up.len() as int, (up.len() + dv.len()) as int) =~= dv);
            assert(ov.subrange((up.len() + dv.len()) as int, ov.len() as int) =~= fv);
        }
        self.file_chooser_entries = out;
        self.file_chooser_selected = 0;
        assert(self@ == MainView { file_chooser_entries: self@.file_chooser_entries, file_chooser_selected: 0, ..m });
    }

    /// Points the chooser at another directory and clears its filter; the
    /// caller lists the directory next.
    pub fn enter_chooser_directory(&mut self, dir: String)
        requires
            old(self).wf(),
        ensures
            final(self).wf(),
            final(self)@ == (MainView { file_chooser_dir: dir@, file_chooser_filter: Seq::empty(), ..old(self)@ }),
    {
        let ghost m = self@;
        self.file_chooser_dir = dir;
        self.file_chooser_filter = String::new();
        assert(self@ == MainView { file_chooser_dir: dir@, file_chooser_filter: Seq::empty(), ..m });
    }

    /// Attaches the chosen file to the message being written and leaves the
    /// chooser for the messages pane, out of compose mode.
    pub fn attach_chosen_file(&mut self, path: String)
        requires
            old(self).wf(),
        ensures
            final(self).wf(),
            final(self)@ == (MainView {
                pending_file_attachments: old(self)@.pending_file_attachments.push(path@),
                focused_pane: FocusedPane::Messages,
                compose_mode: false,
                ..old(self)@
            }),
    {
        let ghost m = self@;
        self.pending_file_attachments.push(path);
        self.focused_pane = FocusedPane::Messages;
        self.compose_mode = false;
        assert(sv(self.pending_file_attachments@) =~= m.pending_file_attachments.push(path@));
        assert(self@ == MainView {
            pending_file_attachments: m.pending_file_attachments.push(path@),
            focused_pane: FocusedPane::Messages,
            compose_mode: false,
            ..m
        });
    }
}

} // verus!
