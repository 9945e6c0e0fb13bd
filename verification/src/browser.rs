//! The directory model: one directory's listing, sorted directories-first and
//! case-insensitively by name, with a selection that always stays in range.
//!
//! Reading a directory from disk is the caller's business; every operation
//! that changes the listed directory takes the freshly read raw entries as an
//! argument and establishes the listing invariant over them.

use vstd::prelude::*;

use crate::seqs::lemma_insert_to_multiset;
use crate::text::{
    lemma_lex_le_total, lemma_lex_le_trans, lex_le, lower_of, lowercase, str_eq,
    str_tail_after_last, tail_after_last,
};

verus! {

#[derive(Debug, Clone)]
pub struct FileEntry {
    pub name: String,
    pub path: String,
    pub is_dir: bool,
}

/// The listing order: directories before files, and within each group the
/// case-insensitive lexicographic order of the names.
pub open spec fn entry_le(a: FileEntry, b: FileEntry) -> bool {
    if a.is_dir != b.is_dir {
        a.is_dir
    } else {
        lex_le(lower_of(a.name@), lower_of(b.name@))
    }
}

pub proof fn lemma_entry_le_total(a: FileEntry, b: FileEntry)
    ensures
        entry_le(a, b) || entry_le(b, a),
{
    if a.is_dir == b.is_dir {
        lemma_lex_le_total(lower_of(a.name@), lower_of(b.name@));
    }
}

pub proof fn lemma_entry_le_trans(a: FileEntry, b: FileEntry, c: FileEntry)
    requires
        entry_le(a, b),
        entry_le(b, c),
    ensures
        entry_le(a, c),
{
    if a.is_dir == b.is_dir && b.is_dir == c.is_dir {
        lemma_lex_le_trans(lower_of(a.name@), lower_of(b.name@), lower_of(c.name@));
    }
}

/// The sequence is sorted in the listing order.
pub open spec fn entries_sorted(s: Seq<FileEntry>) -> bool {
    forall|i: int, j: int| 0 <= i < j < s.len() ==> #[trigger] entry_le(s[i], s[j])
}

/// In a sorted listing the directories stand before the files, and within
/// each of the two groups the case-folded names never decrease.
pub proof fn lemma_listing_partitioned(s: Seq<FileEntry>)
    requires
        entries_sorted(s),
    ensures
        forall|i: int, j: int|
            0 <= i < j < s.len() && (#[trigger] s[j]).is_dir ==> (#[trigger] s[i]).is_dir,
        forall|i: int, j: int|
            0 <= i < j < s.len() && (#[trigger] s[i]).is_dir == (#[trigger] s[j]).is_dir
                ==> lex_le(lower_of(s[i].name@), lower_of(s[j].name@)),
{
    assert forall|i: int, j: int|
        0 <= i < j < s.len() && (#[trigger] s[j]).is_dir implies (#[trigger] s[i]).is_dir by {
        assert(entry_le(s[i], s[j]));
    }
    assert forall|i: int, j: int|
        0 <= i < j < s.len() && (#[trigger] s[i]).is_dir == (#[trigger] s[j]).is_dir implies lex_le(
        lower_of(s[i].name@),
        lower_of(s[j].name@),
    ) by {
        assert(entry_le(s[i], s[j]));
    }
}

/// An entry passes the hidden-file filter: either the filter is off, or the
/// name does not begin with a dot.
pub open spec fn visible(e: FileEntry, show_hidden: bool) -> bool {
    show_hidden || !(e.name@.len() > 0 && e.name@[0] == '.')
}

/// `entries` is what listing `raw` under the filter produces: the visible
/// entries, sorted in the listing order.
pub open spec fn is_listing_of(entries: Seq<FileEntry>, raw: Seq<FileEntry>, show_hidden: bool) -> bool {
    &&& entries_sorted(entries)
    &&& entries.to_multiset() == raw.filter(|e: FileEntry| visible(e, show_hidden)).to_multiset()
    &&& forall|i: int| 0 <= i < entries.len() ==> visible(#[trigger] entries[i], show_hidden)
}

/// Where a refresh leaves the selection: unchanged while still in range,
/// otherwise clamped to the last entry (or 0 on an empty listing).
pub open spec fn clamp_index(sel: int, len: int) -> int {
    if sel < len {
        sel
    } else if len == 0 {
        0
    } else {
        len - 1
    }
}

/// Decides the listing order between two entries.
fn entry_le_exec(a: &FileEntry, b: &FileEntry) -> (r: bool)
    ensures
        r == entry_le(*a, *b),
{
    if a.is_dir != b.is_dir {
        a.is_dir
    } else {
        let la = lowercase(a.name.as_str());
        let lb = lowercase(b.name.as_str());
        crate::text::str_lex_le(la.as_str(), lb.as_str())
    }
}

proof fn lemma_sorted_insert(s: Seq<FileEntry>, x: FileEntry, j: int)
    requires
        entries_sorted(s),
        0 <= j <= s.len(),
        forall|k: int| 0 <= k < j ==> entry_le(#[trigger] s[k], x),
        forall|k: int| j <= k < s.len() ==> entry_le(x, #[trigger] s[k]),
    ensures
        entries_sorted(s.insert(j, x)),
{
    let t = s.insert(j, x);
    assert forall|i1: int, i2: int| 0 <= i1 < i2 < t.len() implies #[trigger] entry_le(
        t[i1],
        t[i2],
    ) by {
        if i1 < j && i2 < j {
            assert(t[i1] == s[i1] && t[i2] == s[i2]);
        } else if i1 < j && i2 == j {
            assert(t[i1] == s[i1] && t[i2] == x);
        } else if i1 < j && i2 > j {
            assert(t[i1] == s[i1] && t[i2] == s[i2 - 1]);
            if i2 - 1 < j {
                lemma_entry_le_trans(s[i1], x, s[i2 - 1]);
            }
        } else if i1 == j {
            if i2 > j {
                assert(t[i1] == x && t[i2] == s[i2 - 1]);
            }
        } else {
            assert(t[i1] == s[i1 - 1] && t[i2] == s[i2 - 1]);
        }
    }
}

/// Inserts `x` into the sorted vector `v`, keeping it sorted.
fn insert_sorted(v: Vec<FileEntry>, x: FileEntry) -> (r: Vec<FileEntry>)
    requires
        entries_sorted(v@),
    ensures
        entries_sorted(r@),
        r@.to_multiset() == v@.to_multiset().insert(x),
        r@.len() == v@.len() + 1,
{
    let ghost orig = v@;
    let mut j: usize = 0;
    loop
        invariant
            j <= v@.len(),
            v@ == orig,
            forall|k: int| 0 <= k < j ==> entry_le(#[trigger] v@[k], x),
        ensures
            j <= v@.len(),
            v@ == orig,
            forall|k: int| 0 <= k < j ==> entry_le(#[trigger] v@[k], x),
            j < v@.len() ==> !entry_le(v@[j as int], x),
        decreases v@.len() - j,
    {
        if j == v.len() {
            break ;
        }
        if !entry_le_exec(&v[j], &x) {
            break ;
        }
        j = j + 1;
    }
    proof {
        assert forall|k: int| j <= k < v@.len() implies entry_le(x, #[trigger] v@[k]) by {
            lemma_entry_le_total(v@[j as int], x);
            if k > j {
                lemma_entry_le_trans(x, v@[j as int], v@[k]);
            }
        }
        lemma_sorted_insert(v@, x, j as int);
        lemma_insert_to_multiset(v@, x, j as int);
    }
    let mut v = v;
    v.insert(j, x);
    v
}

/// Sorts entries into the listing order: directories first, then
/// case-insensitively by name.
pub fn sort_entries(v: Vec<FileEntry>) -> (r: Vec<FileEntry>)
    ensures
        entries_sorted(r@),
        r@.to_multiset() == v@.to_multiset(),
        r@.len() == v@.len(),
{
    broadcast use vstd::seq_lib::group_to_multiset_ensures;

    let ghost orig = v@;
    let mut rest = v;
    let mut out: Vec<FileEntry> = Vec::new();
    proof {
        assert(out@.to_multiset() =~= Seq::<FileEntry>::empty().to_multiset());
        assert(orig.skip(0) =~= orig);
    }
    let mut i: usize = 0;
    while i < rest.len()
        invariant
            i <= rest@.len(),
            rest@ == orig,
            entries_sorted(out@),
            out@.len() == i,
            out@.to_multiset() == orig.take(i as int).to_multiset(),
        decreases rest@.len() - i,
    {
        let x = clone_entry(&rest[i]);
        let ghost before = out@.to_multiset();
        out = insert_sorted(out, x);
        proof {
            broadcast use vstd::seq_lib::group_to_multiset_ensures;

            let t1 = orig.take(i as int);
            let t2 = orig.take(i as int + 1);
            assert(t2 =~= t1.push(orig[i as int]));
            assert(t1.push(orig[i as int]).to_multiset() =~= t1.to_multiset().insert(
                orig[i as int],
            ));
        }
        i = i + 1;
    }
    proof {
        assert(orig.take(orig.len() as int) =~= orig);
    }
    out
}

/// Copies an entry field by field.
pub fn clone_entry(e: &FileEntry) -> (r: FileEntry)
    ensures
        r == *e,
{
    FileEntry { name: e.name.clone(), path: e.path.clone(), is_dir: e.is_dir }
}

/// Keeps the entries that pass the hidden-file filter, in order.
pub fn filter_visible(raw: Vec<FileEntry>, show_hidden: bool) -> (r: Vec<FileEntry>)
    ensures
        r@ == raw@.filter(|e: FileEntry| visible(e, show_hidden)),
{
    let ghost pred = |e: FileEntry| visible(e, show_hidden);
    let mut out: Vec<FileEntry> = Vec::new();
    proof {
        reveal(Seq::filter);
        assert(out@ =~= raw@.take(0).filter(pred));
    }
    let mut i: usize = 0;
    while i < raw.len()
        invariant
            i <= raw@.len(),
            out@ == raw@.take(i as int).filter(pred),
            pred == (|e: FileEntry| visible(e, show_hidden)),
        decreases raw@.len() - i,
    {
        let e = &raw[i];
        let keep = if show_hidden {
            true
        } else {
            let name_len: usize = e.name.as_str().unicode_len();
            if name_len > 0 {
                e.name.as_str().get_char(0) != '.'
            } else {
                true
            }
        };
        assert(keep == visible(raw@[i as int], show_hidden));
        if keep {
            out.push(clone_entry(e));
        }
        proof {
            reveal(Seq::filter);
            assert(raw@.take(i + 1).drop_last() =~= raw@.take(i as int));
            assert(raw@.take(i + 1).last() == raw@[i as int]);
        }
        i = i + 1;
    }
    proof {
        assert(raw@.take(raw@.len() as int) =~= raw@);
    }
    out
}

/// Builds a listing from raw directory entries: filters hidden names and
/// sorts what is left into the listing order.
pub fn build_listing(raw: Vec<FileEntry>, show_hidden: bool) -> (r: Vec<FileEntry>)
    ensures
        is_listing_of(r@, raw@, show_hidden),
{
    broadcast use vstd::seq_lib::group_to_multiset_ensures;

    let ghost raw_view = raw@;
    let kept = filter_visible(raw, show_hidden);
    let ghost kept_view = kept@;
    let r = sort_entries(kept);
    proof {
        let pred = |e: FileEntry| visible(e, show_hidden);
        assert forall|i: int| 0 <= i < r@.len() implies visible(#[trigger] r@[i], show_hidden) by {
            assert(r@.to_multiset().contains(r@[i]));
            assert(kept_view.to_multiset().count(r@[i]) > 0);
            assert(kept_view.contains(r@[i]));
            let k = choose|k: int| 0 <= k < kept_view.len() && kept_view[k] == r@[i];
            raw_view.lemma_filter_pred(pred, k);
        }
    }
    r
}

#[derive(Debug)]
pub struct FileBrowser {
    pub current_dir: String,
    pub entries: Vec<FileEntry>,
    pub selected_index: usize,
    pub show_hidden: bool,
}

impl FileBrowser {
    /// The browser's invariant: a sorted, filtered listing with the selection
    /// in range (0 on an empty listing).
    pub open spec fn wf(self) -> bool {
        &&& entries_sorted(self.entries@)
        &&& (forall|i: int|
            0 <= i < self.entries@.len() ==> visible(#[trigger] self.entries@[i], self.show_hidden))
        &&& (self.entries@.len() == 0 ==> self.selected_index == 0)
        &&& (self.entries@.len() > 0 ==> (self.selected_index as int) < self.entries@.len())
    }

    /// Opens a browser on `current_dir`, whose raw directory entries the
    /// caller has read; the listing is filtered, sorted, and selected at 0.
    pub fn new(current_dir: String, raw: Vec<FileEntry>, show_hidden: bool) -> (r: FileBrowser)
        ensures
            r.wf(),
            r.current_dir@ == current_dir@,
            r.show_hidden == show_hidden,
            is_listing_of(r.entries@, raw@, show_hidden),
            r.selected_index == 0,
    {
        let entries = build_listing(raw, show_hidden);
        FileBrowser { current_dir, entries, selected_index: 0, show_hidden }
    }

    /// Re-lists the same directory from freshly read raw entries, keeping the
    /// selection where possible and clamping it when the listing shrank.
    pub fn refresh(&mut self, raw: Vec<FileEntry>)
        requires
            old(self).wf(),
        ensures
            final(self).wf(),
            final(self).current_dir@ == old(self).current_dir@,
            final(self).show_hidden == old(self).show_hidden,
            is_listing_of(final(self).entries@, raw@, old(self).show_hidden),
            final(self).selected_index as int == clamp_index(
                old(self).selected_index as int,
                final(self).entries@.len() as int,
            ),
    {
        self.entries = build_listing(raw, self.show_hidden);
        if self.selected_index >= self.entries.len() {
            self.selected_index = if self.entries.len() == 0 {
                0
            } else {
                self.entries.len() - 1
            };
        }
    }

    /// Moves the selection one entry up, wrapping to the bottom; a no-op on an
    /// empty listing.
    pub fn move_up(&mut self)
        requires
            old(self).wf(),
        ensures
            final(self).wf(),
            final(self).entries == old(self).entries,
            final(self).current_dir == old(self).current_dir,
            final(self).show_hidden == old(self).show_hidden,
            old(self).entries@.len() == 0 ==> final(self).selected_index == old(self).selected_index,
            old(self).entries@.len() > 0 ==> final(self).selected_index as int == (
            if old(self).selected_index > 0 {
                old(self).selected_index - 1
            } else {
                old(self).entries@.len() - 1
            }),
    {
        if self.entries.len() == 0 {
            return ;
        }
        if self.selected_index > 0 {
            self.selected_index = self.selected_index - 1;
        } else {
            self.selected_index = self.entries.len() - 1;
        }
    }

    /// Moves the selection one entry down, wrapping to the top; a no-op on an
    /// empty listing.
    pub fn move_down(&mut self)
        requires
            old(self).wf(),
        ensures
            final(self).wf(),
            final(self).entries == old(self).entries,
            final(self).current_dir == old(self).current_dir,
            final(self).show_hidden == old(self).show_hidden,
            old(self).entries@.len() == 0 ==> final(self).selected_index == old(self).selected_index,
            old(self).entries@.len() > 0 ==> final(self).selected_index as int == (
            if (old(self).selected_index as int) < old(self).entries@.len() - 1 {
                old(self).selected_index + 1
            } else {
                0
            }),
    {
        if self.entries.len() == 0 {
            return ;
        }
        if self.selected_index < self.entries.len() - 1 {
            self.selected_index = self.selected_index + 1;
        } else {
            self.selected_index = 0;
        }
    }

    /// Selects the first entry.
    pub fn go_to_top(&mut self)
        requires
            old(self).wf(),
        ensures
            final(self).wf(),
            final(self).entries == old(self).entries,
            final(self).current_dir == old(self).current_dir,
            final(self).show_hidden == old(self).show_hidden,
            final(self).selected_index == 0,
    {
        self.selected_index = 0;
    }

    /// Selects the last entry (0 on an empty listing).
    pub fn go_to_bottom(&mut self)
        requires
            old(self).wf(),
        ensures
            final(self).wf(),
            final(self).entries == old(self).entries,
            final(self).current_dir == old(self).current_dir,
            final(self).show_hidden == old(self).show_hidden,
            final(self).selected_index as int == (if old(self).entries@.len() == 0 {
                0int
            } else {
                old(self).entries@.len() - 1
            }),
    {
        self.selected_index = if self.entries.len() == 0 {
            0
        } else {
            self.entries.len() - 1
        };
    }

    /// The selected entry, if the listing is non-empty.
    pub fn selected_entry(&self) -> (r: Option<&FileEntry>)
        requires
            self.wf(),
        ensures
            match r {
                Some(e) => self.entries@.len() > 0 && *e == self.entries@[self.selected_index as int],
                None => self.entries@.len() == 0,
            },
    {
        if self.entries.len() == 0 {
            None
        } else {
            Some(&self.entries[self.selected_index])
        }
    }

    /// Enters the selected directory, whose raw entries the caller has read;
    /// returns false (and takes no step) when the selection is not a
    /// directory.
    pub fn enter_directory(&mut self, raw: Vec<FileEntry>) -> (r: bool)
        requires
            old(self).wf(),
        ensures
            final(self).wf(),
            final(self).show_hidden == old(self).show_hidden,
            r == (old(self).entries@.len() > 0
                && old(self).entries@[old(self).selected_index as int].is_dir),
            r ==> {
                &&& final(self).current_dir@ == old(self).entries@[old(
                    self,
                ).selected_index as int].path@
                &&& is_listing_of(final(self).entries@, raw@, old(self).show_hidden)
                &&& final(self).selected_index == 0
            },
            !r ==> *final(self) == *old(self),
    {
        if self.entries.len() == 0 {
            return false;
        }
        if !self.entries[self.selected_index].is_dir {
            return false;
        }
        self.current_dir = self.entries[self.selected_index].path.clone();
        self.entries = build_listing(raw, self.show_hidden);
        self.selected_index = 0;
        true
    }

    /// The directory above the current one, if there is one: what a parent
    /// step would re-list.
    pub fn parent_dir(&self) -> (r: Option<String>)
        ensures
            match r {
                Some(p) => crate::text::parent_of(self.current_dir@) == Some(p@),
                None => crate::text::parent_of(self.current_dir@) is None,
            },
    {
        crate::text::str_parent(self.current_dir.as_str())
    }

    /// Steps to the parent directory, whose raw entries the caller has read,
    /// and re-selects the directory just left when it is still listed;
    /// returns false (and takes no step) at the filesystem root.
    pub fn go_parent(&mut self, raw: Vec<FileEntry>) -> (r: bool)
        requires
            old(self).wf(),
        ensures
            final(self).wf(),
            final(self).show_hidden == old(self).show_hidden,
            r == (crate::text::parent_of(old(self).current_dir@) is Some),
            r ==> {
                &&& Some(final(self).current_dir@) == crate::text::parent_of(
                    old(self).current_dir@,
                )
                &&& is_listing_of(final(self).entries@, raw@, old(self).show_hidden)
                &&& {
                    let old_name = tail_after_last(old(self).current_dir@, '/');
                    let idx = index_of_name(final(self).entries@, old_name);
                    final(self).selected_index as int == (if idx >= 0 {
                        idx
                    } else {
                        0int
                    })
                }
            },
            !r ==> *final(self) == *old(self),
    {
        let parent = crate::text::str_parent(self.current_dir.as_str());
        match parent {
            None => false,
            Some(p) => {
                let old_name = str_tail_after_last(self.current_dir.as_str(), '/');
                self.current_dir = p;
                self.entries = build_listing(raw, self.show_hidden);
                self.selected_index = 0;
                match find_name(&self.entries, old_name.as_str()) {
                    Some(idx) => {
                        self.selected_index = idx;
                    },
                    None => {},
                }
                true
            },
        }
    }

    /// Flips the hidden-file filter and re-lists the same directory from the
    /// freshly read raw entries.
    pub fn toggle_hidden(&mut self, raw: Vec<FileEntry>)
        requires
            old(self).wf(),
        ensures
            final(self).wf(),
            final(self).current_dir@ == old(self).current_dir@,
            final(self).show_hidden == !old(self).show_hidden,
            is_listing_of(final(self).entries@, raw@, !old(self).show_hidden),
            final(self).selected_index as int == clamp_index(
                old(self).selected_index as int,
                final(self).entries@.len() as int,
            ),
    {
        self.show_hidden = !self.show_hidden;
        self.entries = build_listing(raw, self.show_hidden);
        if self.selected_index >= self.entries.len() {
            self.selected_index = if self.entries.len() == 0 {
                0
            } else {
                self.entries.len() - 1
            };
        }
    }
}

/// Index of the first entry whose name is `name`, or -1 when none has it.
pub open spec fn index_of_name(s: Seq<FileEntry>, name: Seq<char>) -> int
    decreases s.len(),
{
    if s.len() == 0 {
        -1
    } else if s[0].name@ == name {
        0
    } else {
        let r = index_of_name(s.drop_first(), name);
        if r == -1 {
            -1
        } else {
            r + 1
        }
    }
}

pub proof fn lemma_index_of_name(s: Seq<FileEntry>, name: Seq<char>)
    ensures
        -1 <= index_of_name(s, name) < s.len(),
        index_of_name(s, name) >= 0 ==> s[index_of_name(s, name)].name@ == name,
        forall|k: int| 0 <= k < index_of_name(s, name) ==> (#[trigger] s[k]).name@ != name,
        index_of_name(s, name) == -1 ==> forall|k: int|
            0 <= k < s.len() ==> (#[trigger] s[k]).name@ != name,
    decreases s.len(),
{
    if s.len() == 0 {
    } else if s[0].name@ == name {
    } else {
        lemma_index_of_name(s.drop_first(), name);
        assert forall|k: int| 0 <= k < index_of_name(s, name) implies (#[trigger] s[k]).name@
            != name by {
            if k >= 1 {
                assert(s.drop_first()[k - 1] == s[k]);
            }
        }
        if index_of_name(s, name) == -1 {
            assert forall|k: int| 0 <= k < s.len() implies (#[trigger] s[k]).name@ != name by {
                if k >= 1 {
                    assert(s.drop_first()[k - 1] == s[k]);
                }
            }
        }
    }
}

/// Finds the first entry whose name equals `name`.
pub fn find_name(entries: &Vec<FileEntry>, name: &str) -> (r: Option<usize>)
    ensures
        match r {
            Some(i) => index_of_name(entries@, name@) == i as int && i < entries@.len(),
            None => index_of_name(entries@, name@) == -1,
        },
{
    proof {
        lemma_index_of_name(entries@, name@);
    }
    let mut i: usize = 0;
    while i < entries.len()
        invariant
            i <= entries@.len(),
            forall|k: int| 0 <= k < i ==> (#[trigger] entries@[k]).name@ != name@,
        decreases entries@.len() - i,
    {
        if str_eq(entries[i].name.as_str(), name) {
            proof {
                lemma_index_of_name(entries@, name@);
            }
            return Some(i);
        }
        i = i + 1;
    }
    proof {
        lemma_index_of_name(entries@, name@);
    }
    None
}

} // verus!
