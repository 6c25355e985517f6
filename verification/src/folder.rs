//! The folder browser of the terminal interface: which directory entries are
//! shown (subdirectories and `.wav` files), in which order, and how the
//! selection moves over them. Reading the directory is left to the caller,
//! which hands in what it read as plain values.
use vstd::prelude::*;
use crate::text::{
    ascii_lower_seq, chars_eq, chars_of, copy_string, string_of, to_ascii_lower_chars,
};

verus! {

broadcast use vstd::seq_lib::group_to_multiset_ensures;

/// What a shown entry stands for.
#[derive(Clone, Copy, Debug, PartialEq, Eq, Structural)]
pub enum FolderEntryKind {
    Parent,
    Directory,
    Wav,
}

/// One shown entry: its file name, its path and its kind.
#[derive(Debug)]
pub struct FolderEntry {
    pub name: String,
    pub path: String,
    pub kind: FolderEntryKind,
}

/// One item of a directory as it was read: file name, full path, and
/// whether it is a directory or a regular file.
#[derive(Debug)]
pub struct DirectoryItem {
    pub name: String,
    pub path: String,
    pub is_dir: bool,
    pub is_file: bool,
}

/// The outcome of reading a directory: the text of the error, or the path
/// of its parent (if it has one) and its items.
#[derive(Debug)]
pub enum DirectoryListing {
    Unreadable(String),
    Listed { parent: Option<String>, items: Vec<DirectoryItem> },
}

/// What entering the selected entry asks of the caller.
#[derive(Debug, PartialEq, Eq)]
pub enum FolderStep {
    /// Nothing is selected.
    Nothing,
    /// The browser moved into this directory, which the caller now reads.
    Navigate(String),
    /// This `.wav` file was chosen.
    Chosen(String),
}

/// The state of the browser.
#[derive(Debug)]
pub struct FolderState {
    pub directory: String,
    pub entries: Vec<FolderEntry>,
    pub selected: usize,
    pub error: Option<String>,
}

// ---------------------------------------------------------------------------
// Which items are shown
// ---------------------------------------------------------------------------

/// The index of the last `.` in `s`, or -1.
pub open spec fn last_dot(s: Seq<char>) -> int
    decreases s.len(),
{
    if s.len() == 0 {
        -1
    } else if s.last() == '.' {
        s.len() - 1
    } else {
        last_dot(s.drop_last())
    }
}

/// `Path::extension` of a file name: the text after its last `.`, where that
/// dot is not the first character.
pub open spec fn extension_of(name: Seq<char>) -> Option<Seq<char>> {
    let k = last_dot(name);
    if k > 0 {
        Some(name.subrange(k + 1, name.len() as int))
    } else {
        None
    }
}

/// Whether a file name has the extension `wav`, in any ASCII case.
pub open spec fn has_wav_extension(name: Seq<char>) -> bool {
    match extension_of(name) {
        Some(ext) => ascii_lower_seq(ext) == seq!['w', 'a', 'v'],
        None => false,
    }
}

/// The entry shown for a read item: directories, and regular files with a
/// `wav` extension; nothing for anything else.
pub open spec fn classify(item: DirectoryItem) -> Option<FolderEntry> {
    if item.is_dir {
        Some(FolderEntry { name: item.name, path: item.path, kind: FolderEntryKind::Directory })
    } else if item.is_file && has_wav_extension(item.name@) {
        Some(FolderEntry { name: item.name, path: item.path, kind: FolderEntryKind::Wav })
    } else {
        None
    }
}

/// The entries shown for the read items, in the order read.
pub open spec fn classify_all(items: Seq<DirectoryItem>) -> Seq<FolderEntry>
    decreases items.len(),
{
    if items.len() == 0 {
        seq![]
    } else {
        let rest = classify_all(items.drop_last());
        match classify(items.last()) {
            Some(e) => rest.push(e),
            None => rest,
        }
    }
}

// ---------------------------------------------------------------------------
// Order of the shown entries
// ---------------------------------------------------------------------------

/// Lexicographic `<=` of the suffixes of `a` and `b` from index `i`, by
/// character (which is the byte order of their UTF-8 text).
pub open spec fn lex_le_from(a: Seq<char>, b: Seq<char>, i: int) -> bool
    decreases a.len() - i,
{
    if i >= a.len() {
        true
    } else if i >= b.len() {
        false
    } else if a[i] != b[i] {
        a[i] < b[i]
    } else {
        lex_le_from(a, b, i + 1)
    }
}

/// Lexicographic `<=` of character sequences.
pub open spec fn lex_le(a: Seq<char>, b: Seq<char>) -> bool {
    lex_le_from(a, b, 0)
}

/// The order of the shown items: directories before `.wav` files, then by
/// ASCII-lowercased name, then by name.
pub open spec fn entry_le(x: FolderEntry, y: FolderEntry) -> bool {
    let wx = x.kind == FolderEntryKind::Wav;
    let wy = y.kind == FolderEntryKind::Wav;
    if wx != wy {
        !wx
    } else if ascii_lower_seq(x.name@) != ascii_lower_seq(y.name@) {
        lex_le(ascii_lower_seq(x.name@), ascii_lower_seq(y.name@))
    } else {
        lex_le(x.name@, y.name@)
    }
}

/// Every entry is at most every later one.
pub open spec fn sorted_entries(s: Seq<FolderEntry>) -> bool {
    forall|i: int, j: int| 0 <= i < j < s.len() ==> entry_le(#[trigger] s[i], #[trigger] s[j])
}

proof fn lemma_lex_from_total(a: Seq<char>, b: Seq<char>, i: int)
    requires
        0 <= i <= a.len(),
        i <= b.len(),
    ensures
        lex_le_from(a, b, i) || lex_le_from(b, a, i),
        lex_le_from(a, b, i) && lex_le_from(b, a, i) ==> a.len() == b.len() && forall|k: int|
            i <= k < a.len() ==> a[k] == b[k],
    decreases a.len() - i,
{
    if i < a.len() && i < b.len() && a[i] == b[i] {
        lemma_lex_from_total(a, b, i + 1);
        if lex_le_from(a, b, i) && lex_le_from(b, a, i) {
            assert forall|k: int| i <= k < a.len() implies a[k] == b[k] by {
                if k > i {
                }
            }
        }
    }
}

proof fn lemma_lex_from_trans(a: Seq<char>, b: Seq<char>, c: Seq<char>, i: int)
    requires
        0 <= i,
        lex_le_from(a, b, i),
        lex_le_from(b, c, i),
    ensures
        lex_le_from(a, c, i),
    decreases a.len() - i,
{
    if i < a.len() && i < b.len() && i < c.len() && a[i] == b[i] && b[i] == c[i] {
        lemma_lex_from_trans(a, b, c, i + 1);
    }
}

/// `lex_le` is a total order.
pub proof fn lemma_lex_le_order(a: Seq<char>, b: Seq<char>, c: Seq<char>)
    ensures
        lex_le(a, b) || lex_le(b, a),
        lex_le(a, b) && lex_le(b, a) ==> a == b,
        lex_le(a, b) && lex_le(b, c) ==> lex_le(a, c),
{
    lemma_lex_from_total(a, b, 0);
    if lex_le(a, b) && lex_le(b, a) {
        assert(a =~= b);
    }
    if lex_le(a, b) && lex_le(b, c) {
        lemma_lex_from_trans(a, b, c, 0);
    }
}

/// `entry_le` is total and transitive.
pub proof fn lemma_entry_le_order(x: FolderEntry, y: FolderEntry, z: FolderEntry)
    ensures
        entry_le(x, y) || entry_le(y, x),
        entry_le(x, y) && entry_le(y, z) ==> entry_le(x, z),
{
    let (lx, ly, lz) = (ascii_lower_seq(x.name@), ascii_lower_seq(y.name@), ascii_lower_seq(z.name@));
    lemma_lex_le_order(lx, ly, lz);
    lemma_lex_le_order(ly, lx, lz);
    lemma_lex_le_order(lx, lz, ly);
    lemma_lex_le_order(ly, lz, lx);
    lemma_lex_le_order(lz, lx, ly);
    lemma_lex_le_order(x.name@, y.name@, z.name@);
}

// ---------------------------------------------------------------------------
// Executable pieces
// ---------------------------------------------------------------------------

pub(crate) fn lex_le_exec(a: &[char], b: &[char]) -> (r: bool)
    ensures
        r == lex_le(a@, b@),
{
    let mut i: usize = 0;
    while i < a.len() && i < b.len() && a[i] == b[i]
        invariant
            i <= a.len(),
            i <= b.len(),
            lex_le(a@, b@) == lex_le_from(a@, b@, i as int),
        decreases a.len() - i,
    {
        i += 1;
    }
    if i == a.len() {
        true
    } else if i == b.len() {
        false
    } else {
        a[i] < b[i]
    }
}

fn entry_le_exec(x: &FolderEntry, y: &FolderEntry) -> (r: bool)
    ensures
        r == entry_le(*x, *y),
{
    let wx = x.kind == FolderEntryKind::Wav;
    let wy = y.kind == FolderEntryKind::Wav;
    if wx != wy {
        return !wx;
    }
    let nx = chars_of(x.name.as_str());
    let ny = chars_of(y.name.as_str());
    let lx = to_ascii_lower_chars(&nx);
    let ly = to_ascii_lower_chars(&ny);
    if !chars_eq(&lx, &ly) {
        lex_le_exec(&lx, &ly)
    } else {
        lex_le_exec(&nx, &ny)
    }
}

/// Sorts entries by `entry_le`, keeping exactly the same entries.
fn sort_entries(items: Vec<FolderEntry>) -> (r: Vec<FolderEntry>)
    ensures
        sorted_entries(r@),
        r@.to_multiset() == items@.to_multiset(),
{
    let mut rest = items;
    let mut out: Vec<FolderEntry> = Vec::new();
    while rest.len() > 0
        invariant
            sorted_entries(out@),
            out@.to_multiset().add(rest@.to_multiset()) == items@.to_multiset(),
        decreases rest.len(),
    {
        let ghost r0 = rest@;
        let x = rest.remove(0);
        let mut pos: usize = out.len();
        while pos > 0 && !entry_le_exec(&out[pos - 1], &x)
            invariant
                pos <= out.len(),
                sorted_entries(out@),
                forall|k: int| pos <= k < out.len() ==> !entry_le(#[trigger] out@[k], x),
            decreases pos,
        {
            pos -= 1;
        }
        let ghost o0 = out@;
        proof {
            assert forall|k: int| 0 <= k < pos implies entry_le(#[trigger] o0[k], x) by {
                lemma_entry_le_order(o0[k], o0[pos - 1], x);
            }
            assert forall|k: int| pos <= k < o0.len() implies entry_le(x, #[trigger] o0[k]) by {
                lemma_entry_le_order(x, o0[k], x);
            }
        }
        out.insert(pos, x);
        proof {
            let o1 = out@;
            assert(o1.remove(pos as int) == o0);
            assert(o1[pos as int] == x);
            assert(o1.to_multiset() =~= o0.to_multiset().insert(x)) by {
                assert(o0.to_multiset() =~= o1.to_multiset().remove(x));
            }
            assert(r0.to_multiset() =~= rest@.to_multiset().insert(x)) by {
                assert(r0.remove(0) == rest@);
            }
            assert forall|i: int, j: int| 0 <= i < j < o1.len() implies entry_le(
                #[trigger] o1[i],
                #[trigger] o1[j],
            ) by {
                if j < pos {
                    assert(o1[i] == o0[i] && o1[j] == o0[j]);
                } else if j == pos {
                    assert(o1[i] == o0[i]);
                } else if i == pos {
                    assert(o1[j] == o0[j - 1]);
                } else if i < pos {
                    assert(o1[i] == o0[i] && o1[j] == o0[j - 1]);
                } else {
                    assert(o1[i] == o0[i - 1] && o1[j] == o0[j - 1]);
                }
            }
            assert(out@.to_multiset().add(rest@.to_multiset()) =~= items@.to_multiset());
        }
    }
    proof {
        assert(rest@ =~= Seq::<FolderEntry>::empty());
        assert(out@.to_multiset().add(rest@.to_multiset()) =~= out@.to_multiset());
    }
    out
}

/// Whether the name has the extension `wav`, in any ASCII case.
fn is_wav_name(name: &[char]) -> (r: bool)
    ensures
        r == has_wav_extension(name@),
{
    let mut k: usize = name.len();
    assert(name@.take(k as int) == name@);
    while k > 0 && name[k - 1] != '.'
        invariant
            k <= name.len(),
            last_dot(name@) == last_dot(name@.take(k as int)),
        decreases k,
    {
        assert(name@.take(k as int).drop_last() == name@.take(k as int - 1));
        k -= 1;
    }
    if k == 0 {
        assert(last_dot(name@.take(0)) == -1);
        return false;
    }
    assert(last_dot(name@) == k - 1);
    if k == 1 {
        return false;
    }
    let mut ext: Vec<char> = Vec::new();
    let mut i: usize = k;
    while i < name.len()
        invariant
            k <= i <= name.len(),
            ext@ == name@.subrange(k as int, i as int),
        decreases name.len() - i,
    {
        ext.push(name[i]);
        i += 1;
        assert(name@.subrange(k as int, i as int) == name@.subrange(k as int, i as int - 1).push(
            name@[i as int - 1],
        ));
    }
    let low = to_ascii_lower_chars(&ext);
    let wav = ['w', 'a', 'v'];
    assert(wav@ == seq!['w', 'a', 'v']);
    chars_eq(&low, &wav)
}

/// The shown entry for a read item, if it is shown.
fn classify_item(item: DirectoryItem) -> (r: Option<FolderEntry>)
    ensures
        r == classify(item),
{
    if item.is_dir {
        Some(FolderEntry { name: item.name, path: item.path, kind: FolderEntryKind::Directory })
    } else {
        let name = chars_of(item.name.as_str());
        if item.is_file && is_wav_name(&name) {
            Some(FolderEntry { name: item.name, path: item.path, kind: FolderEntryKind::Wav })
        } else {
            None
        }
    }
}

/// The shown entries for the read items, in the order read.
fn classify_items(items: Vec<DirectoryItem>) -> (r: Vec<FolderEntry>)
    ensures
        r@ == classify_all(items@),
{
    let mut rest = items;
    let mut out: Vec<FolderEntry> = Vec::new();
    let ghost all = rest@;
    let ghost mut done: Seq<DirectoryItem> = Seq::empty();
    while rest.len() > 0
        invariant
            done + rest@ == all,
            out@ == classify_all(done),
        decreases rest.len(),
    {
        let ghost r0 = rest@;
        let item = rest.remove(0);
        let ghost it = item;
        match classify_item(item) {
            Some(e) => out.push(e),
            None => {},
        }
        proof {
            let d1 = done.push(it);
            assert(d1.drop_last() == done);
            assert(r0 == seq![it] + rest@);
            assert(d1 + rest@ =~= all);
            done = d1;
        }
    }
    proof {
        assert(done =~= all);
    }
    out
}

// ---------------------------------------------------------------------------
// The browser state
// ---------------------------------------------------------------------------

/// Whether `entries` is what the browser shows for a directory with the
/// given parent and items: `..` first when there is a parent, then the shown
/// items in the browser's order.
pub open spec fn shows_listing(
    entries: Seq<FolderEntry>,
    parent: Option<String>,
    items: Seq<DirectoryItem>,
) -> bool {
    let offset: int = if parent is Some {
        1
    } else {
        0
    };
    &&& entries.len() >= offset
    &&& (parent matches Some(p) ==> entries[0].name@ == seq!['.', '.'] && entries[0].path == p
        && entries[0].kind == FolderEntryKind::Parent)
    &&& sorted_entries(entries.skip(offset))
    &&& entries.skip(offset).to_multiset() == classify_all(items).to_multiset()
}

/// The message shown when a directory cannot be read.
pub open spec fn unreadable_message(directory: Seq<char>, error: Seq<char>) -> Seq<char> {
    "could not read "@ + directory + ": "@ + error
}

/// Whether `after` is the browser on `directory` refreshed from `listing`:
/// the selection goes back to the first entry, and the entries (or the
/// error) are those of the listing.
pub open spec fn refreshed(directory: String, after: FolderState, listing: DirectoryListing) -> bool {
    &&& after.directory == directory
    &&& after.selected == 0
    &&& match listing {
        DirectoryListing::Unreadable(err) => {
            &&& after.entries@.len() == 0
            &&& after.error matches Some(m) && m@ == unreadable_message(directory@, err@)
        },
        DirectoryListing::Listed { parent, items } => {
            &&& after.error is None
            &&& shows_listing(after.entries@, parent, items@)
        },
    }
}

/// The first index in `lo..hi` of a `.wav` entry.
pub open spec fn first_wav_in(entries: Seq<FolderEntry>, lo: int, hi: int) -> Option<int>
    decreases hi - lo,
{
    if lo >= hi {
        None
    } else if entries[lo].kind == FolderEntryKind::Wav {
        Some(lo)
    } else {
        first_wav_in(entries, lo + 1, hi)
    }
}

/// The `.wav` entry after the selected one, searching to the end and then
/// from the start again.
pub open spec fn next_wav_index(entries: Seq<FolderEntry>, selected: usize) -> Option<int> {
    let start: int = if selected == usize::MAX {
        selected as int
    } else {
        selected + 1
    };
    let wrap_end: int = if start < entries.len() {
        start
    } else {
        entries.len() as int
    };
    match first_wav_in(entries, start, entries.len() as int) {
        Some(i) => Some(i),
        None => first_wav_in(entries, 0, wrap_end),
    }
}

/// The number of `.wav` entries.
pub open spec fn wav_total(entries: Seq<FolderEntry>) -> nat
    decreases entries.len(),
{
    if entries.len() == 0 {
        0
    } else {
        wav_total(entries.drop_last()) + if entries.last().kind == FolderEntryKind::Wav {
            1nat
        } else {
            0nat
        }
    }
}

/// `x` clamped to `lo..=hi`.
pub open spec fn clamp(x: int, lo: int, hi: int) -> int {
    if x < lo {
        lo
    } else if x > hi {
        hi
    } else {
        x
    }
}

fn first_wav_exec(entries: &Vec<FolderEntry>, lo: usize, hi: usize) -> (r: Option<usize>)
    requires
        hi <= entries.len(),
    ensures
        r matches Some(i) ==> lo <= i < hi && entries@[i as int].kind == FolderEntryKind::Wav,
        match r {
            Some(i) => first_wav_in(entries@, lo as int, hi as int) == Some(i as int),
            None => first_wav_in(entries@, lo as int, hi as int) is None,
        },
{
    let mut i = lo;
    while i < hi
        invariant
            lo <= i,
            hi <= entries.len(),
            first_wav_in(entries@, lo as int, hi as int) == first_wav_in(
                entries@,
                i as int,
                hi as int,
            ),
        decreases hi - i,
    {
        if entries[i].kind == FolderEntryKind::Wav {
            return Some(i);
        }
        i += 1;
    }
    None
}

impl FolderState {
    /// A browser on `directory`, showing what was read of it.
    pub fn new(directory: String, listing: DirectoryListing) -> (s: Self)
        ensures
            refreshed(directory, s, listing),
    {
        let mut state = FolderState { directory, entries: Vec::new(), selected: 0, error: None };
        state.refresh(listing);
        state
    }

    /// Replaces the shown entries by what was read of the directory.
    pub fn refresh(&mut self, listing: DirectoryListing)
        ensures
            refreshed(old(self).directory, *final(self), listing),
    {
        self.entries.clear();
        self.error = None;
        self.selected = 0;
        match listing {
            DirectoryListing::Unreadable(err) => {
                let mut msg = chars_of("could not read ");
                let mut dir = chars_of(self.directory.as_str());
                msg.append(&mut dir);
                let mut sep = chars_of(": ");
                msg.append(&mut sep);
                let mut e = chars_of(err.as_str());
                msg.append(&mut e);
                self.error = Some(string_of(&msg));
            },
            DirectoryListing::Listed { parent, items } => {
                let ghost gparent = parent;
                let ghost gitems = items@;
                match parent {
                    Some(p) => {
                        let name = "..".to_owned();
                        proof {
                            reveal_strlit("..");
                            assert(name@ =~= seq!['.', '.']);
                        }
                        self.entries.push(FolderEntry { name, path: p, kind: FolderEntryKind::Parent });
                    },
                    None => {},
                }
                let ghost head = self.entries@;
                let shown = classify_items(items);
                let mut sorted = sort_entries(shown);
                let ghost sorted_view = sorted@;
                self.entries.append(&mut sorted);
                proof {
                    let offset: int = if gparent is Some {
                        1
                    } else {
                        0
                    };
                    assert(head.len() == offset);
                    assert(self.entries@ == head + sorted_view);
                    assert(self.entries@.skip(offset) =~= sorted_view);
                    assert(sorted_entries(self.entries@.skip(offset)));
                    assert(self.entries@.skip(offset).to_multiset() == classify_all(
                        gitems,
                    ).to_multiset());
                    if gparent is Some {
                        assert(self.entries@[0] == head[0]);
                    }
                    assert(shows_listing(self.entries@, gparent, gitems));
                }
            },
        }
    }

    /// Moves the selection by `delta`, staying on the entries.
    pub fn move_selection(&mut self, delta: isize)
        requires
            old(self).entries@.len() > 0 ==> (old(self).selected <= isize::MAX && isize::MIN <= old(
                self,
            ).selected + delta <= isize::MAX),
        ensures
            final(self).directory == old(self).directory,
            final(self).entries == old(self).entries,
            final(self).error == old(self).error,
            final(self).selected == if old(self).entries@.len() == 0 {
                0
            } else {
                clamp(old(self).selected + delta, 0, old(self).entries@.len() - 1)
            },
    {
        if self.entries.len() == 0 {
            self.selected = 0;
            return;
        }
        let current = self.selected as isize;
        let target = current + delta;
        let last = self.entries.len() - 1;
        if target < 0 {
            self.selected = 0;
        } else if target as usize > last {
            self.selected = last;
        } else {
            self.selected = target as usize;
        }
    }

    /// The selected entry, if the selection is on an entry.
    pub fn selected_entry(&self) -> (r: Option<&FolderEntry>)
        ensures
            self.selected < self.entries@.len() ==> (r matches Some(e) && *e
                == self.entries@[self.selected as int]),
            self.selected >= self.entries@.len() ==> r is None,
    {
        if self.selected < self.entries.len() {
            Some(&self.entries[self.selected])
        } else {
            None
        }
    }

    /// Enters the selected entry: a directory (or `..`) becomes the current
    /// directory, which the caller then reads and hands to `refresh`; a
    /// `.wav` file is chosen.
    pub fn enter_selected(&mut self) -> (step: FolderStep)
        ensures
            final(self).entries == old(self).entries,
            final(self).selected == old(self).selected,
            final(self).error == old(self).error,
            old(self).selected >= old(self).entries@.len() ==> step == FolderStep::Nothing
                && final(self).directory == old(self).directory,
            old(self).selected < old(self).entries@.len() ==> {
                let e = old(self).entries@[old(self).selected as int];
                if e.kind == FolderEntryKind::Wav {
                    step == FolderStep::Chosen(e.path) && final(self).directory == old(
                        self,
                    ).directory
                } else {
                    step == FolderStep::Navigate(e.path) && final(self).directory == e.path
                }
            },
    {
        if self.selected >= self.entries.len() {
            return FolderStep::Nothing;
        }
        let kind = self.entries[self.selected].kind;
        let path = copy_string(&self.entries[self.selected].path);
        match kind {
            FolderEntryKind::Wav => FolderStep::Chosen(path),
            _ => {
                self.directory = copy_string(&path);
                FolderStep::Navigate(path)
            },
        }
    }

    /// Selects the next `.wav` entry after the selection, wrapping around to
    /// the first, and gives its path; `None` when there is no `.wav` entry.
    pub fn next_wav(&mut self) -> (r: Option<String>)
        ensures
            final(self).directory == old(self).directory,
            final(self).entries == old(self).entries,
            final(self).error == old(self).error,
            match next_wav_index(old(self).entries@, old(self).selected) {
                Some(i) => final(self).selected == i && r == Some(old(self).entries@[i].path),
                None => final(self).selected == old(self).selected && r is None,
            },
    {
        let start = if self.selected == usize::MAX {
            self.selected
        } else {
            self.selected + 1
        };
        let len = self.entries.len();
        let found = if start < len {
            first_wav_exec(&self.entries, start, len)
        } else {
            None
        };
        let index = match found {
            Some(i) => Some(i),
            None => {
                let wrap_end = if start < len {
                    start
                } else {
                    len
                };
                first_wav_exec(&self.entries, 0, wrap_end)
            },
        };
        match index {
            Some(i) => {
                self.selected = i;
                Some(copy_string(&self.entries[i].path))
            },
            None => None,
        }
    }

    /// Makes `directory` the current one and shows what was read of it.
    pub fn set_directory(&mut self, directory: String, listing: DirectoryListing)
        ensures
            refreshed(directory, *final(self), listing),
    {
        self.directory = directory;
        self.refresh(listing);
    }

    /// The number of `.wav` entries.
    pub fn wav_count(&self) -> (n: usize)
        ensures
            n == wav_total(self.entries@),
    {
        let mut n: usize = 0;
        let mut i: usize = 0;
        while i < self.entries.len()
            invariant
                i <= self.entries@.len(),
                n == wav_total(self.entries@.take(i as int)),
                n <= i,
            decreases self.entries@.len() - i,
        {
            assert(self.entries@.take(i as int + 1).drop_last() == self.entries@.take(i as int));
            if self.entries[i].kind == FolderEntryKind::Wav {
                n += 1;
            }
            i += 1;
        }
        assert(self.entries@.take(self.entries@.len() as int) == self.entries@);
        n
    }
}

// ---------------------------------------------------------------------------
// Laws
// ---------------------------------------------------------------------------

proof fn lemma_first_wav_in(entries: Seq<FolderEntry>, lo: int, hi: int)
    requires
        0 <= lo,
        hi <= entries.len(),
    ensures
        first_wav_in(entries, lo, hi) matches Some(i) ==> lo <= i < hi && entries[i].kind
            == FolderEntryKind::Wav,
        first_wav_in(entries, lo, hi) matches Some(i) ==> forall|k: int|
            lo <= k < i ==> #[trigger] entries[k].kind != FolderEntryKind::Wav,
        first_wav_in(entries, lo, hi) is None <==> forall|k: int|
            lo <= k < hi ==> #[trigger] entries[k].kind != FolderEntryKind::Wav,
    decreases hi - lo,
{
    if lo < hi {
        lemma_first_wav_in(entries, lo + 1, hi);
    }
}

proof fn lemma_wav_total(entries: Seq<FolderEntry>)
    ensures
        wav_total(entries) == 0 <==> forall|k: int|
            0 <= k < entries.len() ==> #[trigger] entries[k].kind != FolderEntryKind::Wav,
    decreases entries.len(),
{
    if entries.len() > 0 {
        let d = entries.drop_last();
        lemma_wav_total(d);
        assert forall|k: int| 0 <= k < d.len() implies d[k] == entries[k] by {}
        if wav_total(entries) == 0 {
            assert forall|k: int| 0 <= k < entries.len() implies #[trigger] entries[k].kind
                != FolderEntryKind::Wav by {
                if k < d.len() {
                    assert(d[k] == entries[k]);
                }
            }
        }
    }
}

/// The selection never leaves the entries: after a move it is on an entry,
/// or 0 when there are none.
pub proof fn law_selection_stays_on_entries(len: nat, selected: int, delta: int)
    ensures
        len > 0 ==> 0 <= clamp(selected + delta, 0, len - 1) < len,
{
}

/// Stepping to the next `.wav` file finds one whenever the directory shows
/// any, wrapping past the end; the entry it selects is a `.wav` file.
pub proof fn law_next_wav_finds_any_wav(entries: Seq<FolderEntry>, selected: usize)
    ensures
        next_wav_index(entries, selected) matches Some(i) ==> 0 <= i < entries.len()
            && entries[i].kind == FolderEntryKind::Wav,
        next_wav_index(entries, selected) is None <==> wav_total(entries) == 0,
{
    let start: int = if selected == usize::MAX {
        selected as int
    } else {
        selected + 1
    };
    let len = entries.len() as int;
    let wrap_end: int = if start < len {
        start
    } else {
        len
    };
    lemma_wav_total(entries);
    lemma_first_wav_in(entries, 0, wrap_end);
    if start <= len {
        lemma_first_wav_in(entries, start, len);
    } else {
        assert(first_wav_in(entries, start, len) is None);
    }
    if next_wav_index(entries, selected) is None {
        assert forall|k: int| 0 <= k < len implies #[trigger] entries[k].kind
            != FolderEntryKind::Wav by {
            if k < wrap_end {
            } else {
                assert(start <= k);
            }
        }
    }
}

/// Stepping to the next `.wav` file moves forward: when some `.wav` entry
/// lies after the selection, the step selects the nearest one after it;
/// only when none does, it wraps to the first `.wav` entry of the listing
/// (the entries of a listing, like any vector's, number at most
/// `usize::MAX`).
pub proof fn law_next_wav_moves_forward(entries: Seq<FolderEntry>, selected: usize)
    requires
        entries.len() <= usize::MAX,
    ensures
        (exists|k: int| selected < k < entries.len() && #[trigger] entries[k].kind == FolderEntryKind::Wav)
            ==> (next_wav_index(entries, selected) matches Some(i) && selected < i < entries.len()
            && entries[i].kind == FolderEntryKind::Wav && forall|k: int|
            selected < k < i ==> #[trigger] entries[k].kind != FolderEntryKind::Wav),
        (forall|k: int| selected < k < entries.len() ==> #[trigger] entries[k].kind != FolderEntryKind::Wav)
            && (exists|k: int| 0 <= k < entries.len() && #[trigger] entries[k].kind == FolderEntryKind::Wav)
            ==> (next_wav_index(entries, selected) matches Some(i) && 0 <= i <= selected && i
            < entries.len() && entries[i].kind == FolderEntryKind::Wav && forall|k: int|
            0 <= k < i ==> #[trigger] entries[k].kind != FolderEntryKind::Wav),
{
    let start: int = if selected == usize::MAX {
        selected as int
    } else {
        selected + 1
    };
    let len = entries.len() as int;
    let wrap_end: int = if start < len {
        start
    } else {
        len
    };
    lemma_first_wav_in(entries, 0, wrap_end);
    if start <= len {
        lemma_first_wav_in(entries, start, len);
    }
    if exists|k: int| selected < k < entries.len() && #[trigger] entries[k].kind == FolderEntryKind::Wav {
        let k = choose|k: int| selected < k < entries.len() && #[trigger] entries[k].kind == FolderEntryKind::Wav;
        assert(start <= k);
        assert(first_wav_in(entries, start, len) is Some);
    } else if exists|k: int| 0 <= k < entries.len() && #[trigger] entries[k].kind == FolderEntryKind::Wav {
        let k = choose|k: int| 0 <= k < entries.len() && #[trigger] entries[k].kind == FolderEntryKind::Wav;
        if start <= len {
            assert forall|j: int| start <= j < len implies #[trigger] entries[j].kind != FolderEntryKind::Wav by {
                assert(selected < j);
            }
        } else {
            assert(first_wav_in(entries, start, len) is None);
        }
        assert(k < wrap_end);
        assert(first_wav_in(entries, 0, wrap_end) is Some);
    }
}

} // verus!
