//! The entries of a directory on a device, read from a listing in long
//! format and put in order: directories first, then files, each group
//! ascending by name.

use crate::text::{chars_of, lines, lines_of, split_whitespace, tokens_of};
use vstd::prelude::*;
use vstd::string::StringExecFns;

verus! {

/// One entry of a directory.
#[derive(Clone, Debug)]
pub struct FileEntry {
    /// The name of the entry within its directory.
    pub name: String,
    /// Whether the entry is a directory.
    pub is_dir: bool,
}

/// An entry as plain values.
pub struct FileEntryView {
    pub name: Seq<char>,
    pub is_dir: bool,
}

impl View for FileEntry {
    type V = FileEntryView;

    open spec fn view(&self) -> FileEntryView {
        FileEntryView { name: self.name@, is_dir: self.is_dir }
    }
}

impl DeepView for FileEntry {
    type V = FileEntryView;

    open spec fn deep_view(&self) -> FileEntryView {
        self@
    }
}

/// The name `.`, which stands for the directory itself.
pub open spec fn dot() -> Seq<char> {
    seq!['.']
}

/// The name `..`, which stands for the directory above.
pub open spec fn dot_dot() -> Seq<char> {
    seq!['.', '.']
}

/// The word that opens the summary line of a listing.
pub open spec fn total() -> Seq<char> {
    seq!['t', 'o', 't', 'a', 'l']
}

/// The entry that one line of the listing describes. An empty line, a line
/// that begins with `total`, a line without a token and a line whose last
/// token is `.` or `..` describe none. Otherwise the name is the last token,
/// and the entry is a directory exactly if the line begins with `d`.
pub open spec fn entry_of(line: Seq<char>) -> Option<FileEntryView> {
    let t = tokens_of(line);
    if line.len() == 0 || total().is_prefix_of(line) || t.len() == 0 || t.last() == dot()
        || t.last() == dot_dot() {
        None
    } else {
        Some(FileEntryView { name: t.last(), is_dir: line[0] == 'd' })
    }
}

/// The entries that `lines` describe, in the order of the lines.
pub open spec fn entries_in(lines: Seq<Seq<char>>) -> Seq<FileEntryView>
    decreases lines.len(),
{
    if lines.len() == 0 {
        Seq::empty()
    } else {
        let before = entries_in(lines.drop_last());
        match entry_of(lines.last()) {
            Some(e) => before.push(e),
            None => before,
        }
    }
}

/// Whether no entry of `s` is named `.` or `..`.
pub open spec fn no_dot_entries(s: Seq<FileEntryView>) -> bool {
    forall|i: int| 0 <= i < s.len() ==> (#[trigger] s[i]).name != dot() && s[i].name != dot_dot()
}

/// Whether `a` comes no later than `b` from position `i` on, where they
/// agree before `i`: character by character, by code point, a text before
/// every text that it begins.
pub open spec fn text_le_from(a: Seq<char>, b: Seq<char>, i: int) -> bool
    decreases a.len() - i,
{
    if i < 0 || i >= a.len() {
        true
    } else if i >= b.len() {
        false
    } else if a[i] != b[i] {
        (a[i] as u32) < (b[i] as u32)
    } else {
        text_le_from(a, b, i + 1)
    }
}

/// Whether the text `a` comes no later than `b` in lexicographic order.
pub open spec fn text_le(a: Seq<char>, b: Seq<char>) -> bool {
    text_le_from(a, b, 0)
}

/// Whether the entry `a` comes no later than `b`: a directory before a
/// file, and two of one kind by their names.
pub open spec fn entry_le(a: FileEntryView, b: FileEntryView) -> bool {
    if a.is_dir == b.is_dir {
        text_le(a.name, b.name)
    } else {
        a.is_dir
    }
}

/// Whether `s` is in order.
pub open spec fn ordered(s: Seq<FileEntryView>) -> bool {
    forall|i: int, j: int| 0 <= i < j < s.len() ==> entry_le(s[i], s[j])
}

/// Where `e` goes into the ordered `s`: behind the last entry that comes no
/// later than `e`.
pub open spec fn insert_pos(s: Seq<FileEntryView>, e: FileEntryView) -> int
    decreases s.len(),
{
    if s.len() == 0 || entry_le(s.last(), e) {
        s.len() as int
    } else {
        insert_pos(s.drop_last(), e)
    }
}

/// `s` with `e` put in at its place.
pub open spec fn insert_entry(s: Seq<FileEntryView>, e: FileEntryView) -> Seq<FileEntryView> {
    s.insert(insert_pos(s, e), e)
}

/// The entries of `s` in order.
pub open spec fn sort_entries(s: Seq<FileEntryView>) -> Seq<FileEntryView>
    decreases s.len(),
{
    if s.len() == 0 {
        s
    } else {
        insert_entry(sort_entries(s.drop_last()), s.last())
    }
}

/// The entries that the listing `text` shows, in order.
pub open spec fn listing_of(text: Seq<char>) -> Seq<FileEntryView> {
    sort_entries(entries_in(lines_of(text)))
}

/// From any position on, of two texts one comes no later than the other.
pub proof fn lemma_text_le_from_total(a: Seq<char>, b: Seq<char>, i: int)
    requires
        0 <= i,
    ensures
        text_le_from(a, b, i) || text_le_from(b, a, i),
    decreases a.len() - i,
{
    if i < a.len() && i < b.len() {
        if a[i] == b[i] {
            lemma_text_le_from_total(a, b, i + 1);
        } else {
            vstd::utf8::char_u32_cast(a[i], a[i] as u32);
            vstd::utf8::char_u32_cast(b[i], b[i] as u32);
        }
    }
}

/// Two texts that agree before `i` and of which, from `i` on, each comes no
/// later than the other are equal.
pub proof fn lemma_text_le_from_antisymmetric(a: Seq<char>, b: Seq<char>, i: int)
    requires
        0 <= i <= a.len(),
        i <= b.len(),
        forall|k: int| 0 <= k < i ==> a[k] == b[k],
        text_le_from(a, b, i),
        text_le_from(b, a, i),
    ensures
        a == b,
    decreases a.len() - i,
{
    if i < a.len() {
        lemma_text_le_from_antisymmetric(a, b, i + 1);
    } else {
        assert(a =~= b);
    }
}

/// The order from a position on is transitive.
pub proof fn lemma_text_le_from_transitive(a: Seq<char>, b: Seq<char>, c: Seq<char>, i: int)
    requires
        0 <= i,
        text_le_from(a, b, i),
        text_le_from(b, c, i),
    ensures
        text_le_from(a, c, i),
    decreases a.len() - i,
{
    if i < a.len() && a[i] == b[i] && b[i] == c[i] {
        lemma_text_le_from_transitive(a, b, c, i + 1);
    }
}

/// The order of entries is total: of two entries one comes no later than the
/// other.
pub proof fn lemma_entry_le_total(a: FileEntryView, b: FileEntryView)
    ensures
        entry_le(a, b) || entry_le(b, a),
{
    lemma_text_le_from_total(a.name, b.name, 0);
}

/// The order of entries is antisymmetric: two entries of which each comes no
/// later than the other are the same entry.
pub proof fn lemma_entry_le_antisymmetric(a: FileEntryView, b: FileEntryView)
    requires
        entry_le(a, b),
        entry_le(b, a),
    ensures
        a == b,
{
    lemma_text_le_from_antisymmetric(a.name, b.name, 0);
}

/// The order of entries is transitive.
pub proof fn lemma_entry_le_transitive(a: FileEntryView, b: FileEntryView, c: FileEntryView)
    requires
        entry_le(a, b),
        entry_le(b, c),
    ensures
        entry_le(a, c),
{
    if a.is_dir == b.is_dir && b.is_dir == c.is_dir {
        lemma_text_le_from_transitive(a.name, b.name, c.name, 0);
    }
}

/// The place of `e` in `s`: the entry before it comes no later than `e`, and
/// every entry from it on comes later than `e`.
pub proof fn lemma_insert_pos(s: Seq<FileEntryView>, e: FileEntryView)
    ensures
        0 <= insert_pos(s, e) <= s.len(),
        insert_pos(s, e) > 0 ==> entry_le(s[insert_pos(s, e) - 1], e),
        forall|j: int| insert_pos(s, e) <= j < s.len() ==> !entry_le(s[j], e),
    decreases s.len(),
{
    if s.len() > 0 && !entry_le(s.last(), e) {
        let t = s.drop_last();
        lemma_insert_pos(t, e);
        assert forall|j: int| insert_pos(s, e) <= j < s.len() implies !entry_le(s[j], e) by {
            if j < t.len() {
                assert(s[j] == t[j]);
            }
        }
        if insert_pos(s, e) > 0 {
            assert(s[insert_pos(s, e) - 1] == t[insert_pos(t, e) - 1]);
        }
    }
}

/// Putting an entry into an ordered sequence keeps it ordered, and adds that
/// entry and nothing else.
pub proof fn lemma_insert_entry(s: Seq<FileEntryView>, e: FileEntryView)
    requires
        ordered(s),
    ensures
        ordered(insert_entry(s, e)),
        insert_entry(s, e).len() == s.len() + 1,
        insert_entry(s, e).to_multiset() == s.to_multiset().insert(e),
{
    let p = insert_pos(s, e);
    let r = insert_entry(s, e);
    lemma_insert_pos(s, e);
    s.insert_ensures(p, e);
    vstd::seq_lib::to_multiset_insert(s, p, e);
    assert forall|i: int, j: int| 0 <= i < j < r.len() implies entry_le(r[i], r[j]) by {
        if j < p {
            assert(r[i] == s[i] && r[j] == s[j]);
        } else if j == p {
            assert(r[i] == s[i]);
            if i < p - 1 {
                lemma_entry_le_transitive(s[i], s[p - 1], e);
            }
        } else if i == p {
            assert(r[j] == s[j - 1]);
            lemma_entry_le_total(s[j - 1], e);
        } else if i < p {
            assert(r[i] == s[i] && r[j] == s[j - 1]);
        } else {
            assert(r[i] == s[i - 1] && r[j] == s[j - 1]);
        }
    }
}

/// Sorting gives an ordered sequence that holds the same entries, each as
/// often as before.
pub proof fn lemma_sort_entries(s: Seq<FileEntryView>)
    ensures
        ordered(sort_entries(s)),
        sort_entries(s).len() == s.len(),
        sort_entries(s).to_multiset() == s.to_multiset(),
    decreases s.len(),
{
    if s.len() > 0 {
        let t = s.drop_last();
        lemma_sort_entries(t);
        lemma_insert_entry(sort_entries(t), s.last());
        vstd::seq_lib::to_multiset_build(t, s.last());
        assert(t.push(s.last()) == s);
    }
}

/// In an ordered sequence no file stands before a directory, and of two
/// entries of one kind the earlier has the name that comes no later.
pub proof fn lemma_ordered_means_directories_first(s: Seq<FileEntryView>)
    requires
        ordered(s),
    ensures
        forall|i: int, j: int|
            0 <= i < j < s.len() && #[trigger] s[j].is_dir ==> #[trigger] s[i].is_dir,
        forall|i: int, j: int|
            0 <= i < j < s.len() && s[i].is_dir == s[j].is_dir ==> text_le(
                #[trigger] s[i].name,
                #[trigger] s[j].name,
            ),
{
    assert forall|i: int, j: int|
        0 <= i < j < s.len() && #[trigger] s[j].is_dir implies #[trigger] s[i].is_dir by {
        assert(entry_le(s[i], s[j]));
    }
    assert forall|i: int, j: int|
        0 <= i < j < s.len() && s[i].is_dir == s[j].is_dir implies text_le(
        #[trigger] s[i].name,
        #[trigger] s[j].name,
    ) by {
        assert(entry_le(s[i], s[j]));
    }
}

/// The last entry of an ordered sequence comes no earlier than any entry of
/// the sequence.
proof fn lemma_last_is_greatest(s: Seq<FileEntryView>, e: FileEntryView)
    requires
        ordered(s),
        s.contains(e),
    ensures
        entry_le(e, s.last()),
{
    let j = choose|j: int| 0 <= j < s.len() && s[j] == e;
    if j == s.len() - 1 {
        lemma_entry_le_total(e, e);
    }
}

/// The order leaves no choice: two ordered sequences that hold the same
/// entries, each as often as the other, are the same sequence.
pub proof fn lemma_ordered_is_unique(a: Seq<FileEntryView>, b: Seq<FileEntryView>)
    requires
        ordered(a),
        ordered(b),
        a.to_multiset() == b.to_multiset(),
    ensures
        a == b,
    decreases a.len(),
{
    vstd::seq_lib::to_multiset_len(a);
    vstd::seq_lib::to_multiset_len(b);
    if a.len() == 0 {
        assert(a =~= b);
    } else {
        let x = a.last();
        let y = b.last();
        assert(a.contains(x)) by {
            assert(a[a.len() - 1] == x);
        }
        assert(b.contains(y)) by {
            assert(b[b.len() - 1] == y);
        }
        vstd::seq_lib::to_multiset_contains(a, x);
        vstd::seq_lib::to_multiset_contains(b, x);
        vstd::seq_lib::to_multiset_contains(a, y);
        vstd::seq_lib::to_multiset_contains(b, y);
        lemma_last_is_greatest(b, x);
        lemma_last_is_greatest(a, y);
        lemma_entry_le_antisymmetric(x, y);
        let a0 = a.drop_last();
        let b0 = b.drop_last();
        assert(a0 =~= a.remove(a.len() - 1));
        assert(b0 =~= b.remove(b.len() - 1));
        vstd::seq_lib::to_multiset_remove(a, a.len() - 1);
        vstd::seq_lib::to_multiset_remove(b, b.len() - 1);
        assert forall|i: int, j: int| 0 <= i < j < a0.len() implies entry_le(a0[i], a0[j]) by {
            assert(a0[i] == a[i] && a0[j] == a[j]);
        }
        assert forall|i: int, j: int| 0 <= i < j < b0.len() implies entry_le(b0[i], b0[j]) by {
            assert(b0[i] == b[i] && b0[j] == b[j]);
        }
        lemma_ordered_is_unique(a0, b0);
        assert(a =~= a0.push(x));
        assert(b =~= b0.push(y));
    }
}

/// No line gives an entry named `.` or `..`.
pub proof fn lemma_entries_in_no_dot(lines: Seq<Seq<char>>)
    ensures
        no_dot_entries(entries_in(lines)),
    decreases lines.len(),
{
    if lines.len() > 0 {
        lemma_entries_in_no_dot(lines.drop_last());
    }
}

/// A listing is in order, holds exactly the entries that its lines describe,
/// each as often as it is described, and none named `.` or `..`.
pub proof fn lemma_listing_of(text: Seq<char>)
    ensures
        ordered(listing_of(text)),
        listing_of(text).to_multiset() == entries_in(lines_of(text)).to_multiset(),
        no_dot_entries(listing_of(text)),
{
    let found = entries_in(lines_of(text));
    let sorted = listing_of(text);
    lemma_sort_entries(found);
    lemma_entries_in_no_dot(lines_of(text));
    assert forall|i: int| 0 <= i < sorted.len() implies (#[trigger] sorted[i]).name != dot()
        && sorted[i].name != dot_dot() by {
        vstd::seq_lib::to_multiset_contains(sorted, sorted[i]);
        vstd::seq_lib::to_multiset_contains(found, sorted[i]);
        assert(sorted.contains(sorted[i]));
        let j = choose|j: int| 0 <= j < found.len() && found[j] == sorted[i];
        assert(found[j].name != dot());
    }
}

/// Compares two texts given by their characters.
fn chars_le(a: &Vec<char>, b: &Vec<char>) -> (r: bool)
    ensures
        r == text_le(a@, b@),
{
    let mut i: usize = 0;
    while i < a.len() && i < b.len() && a[i] == b[i]
        invariant
            text_le_from(a@, b@, i as int) == text_le(a@, b@),
        decreases a.len() - i,
    {
        i += 1;
    }
    if i >= a.len() {
        true
    } else if i >= b.len() {
        false
    } else {
        let x: u32 = a[i] as u32;
        let y: u32 = b[i] as u32;
        x < y
    }
}

/// Whether the name `a` comes no later than `b` in lexicographic order.
pub fn name_le(a: &str, b: &str) -> (r: bool)
    ensures
        r == text_le(a@, b@),
{
    let x = chars_of(a);
    let y = chars_of(b);
    chars_le(&x, &y)
}

impl FileEntry {
    /// Whether this entry comes no later than `other` in a listing.
    pub fn no_later_than(&self, other: &FileEntry) -> (r: bool)
        ensures
            r == entry_le(self@, other@),
    {
        if self.is_dir == other.is_dir {
            name_le(self.name.as_str(), other.name.as_str())
        } else {
            self.is_dir
        }
    }
}

/// Puts `entry` into `list` behind the last entry that comes no later.
pub fn insert_sorted(list: &mut Vec<FileEntry>, entry: FileEntry)
    ensures
        final(list).deep_view() == insert_entry(old(list).deep_view(), entry@),
{
    let ghost s = list.deep_view();
    let mut pos: usize = list.len();
    assert(s.take(pos as int) == s);
    while pos > 0 && !list[pos - 1].no_later_than(&entry)
        invariant
            pos <= list.len(),
            s == list.deep_view(),
            s.len() == list.len(),
            insert_pos(s.take(pos as int), entry@) == insert_pos(s, entry@),
        decreases pos,
    {
        assert(s.take(pos as int).drop_last() == s.take(pos - 1));
        pos -= 1;
    }
    list.insert(pos, entry);
    assert(final(list).deep_view() =~= s.insert(pos as int, entry@));
}

/// Reads one line of a listing in long format.
pub fn parse_listing_line(line: &str) -> (r: Option<FileEntry>)
    ensures
        r.deep_view() == entry_of(line@),
        r matches Some(entry) ==> entry.is_dir == (line@[0] == 'd'),
{
    let v = chars_of(line);
    if v.len() == 0 {
        return None;
    }
    if v.len() >= 5 && v[0] == 't' && v[1] == 'o' && v[2] == 't' && v[3] == 'a' && v[4] == 'l' {
        return None;
    }
    let is_dir = v[0] == 'd';
    let mut parts = split_whitespace(line);
    let ghost t = parts.deep_view();
    assert(t.len() == parts.len());
    match parts.pop() {
        None => None,
        Some(name) => {
            assert(name@ == t.last());
            let w = chars_of(name.as_str());
            if w.len() == 1 && w[0] == '.' {
                assert(name@ =~= dot());
                None
            } else if w.len() == 2 && w[0] == '.' && w[1] == '.' {
                assert(name@ =~= dot_dot());
                None
            } else {
                Some(FileEntry { name, is_dir })
            }
        },
    }
}

/// Reads a listing in long format: every line that describes an entry gives
/// one, and the entries come out in order.
pub fn parse_listing(text: &str) -> (out: Vec<FileEntry>)
    ensures
        out.deep_view() == listing_of(text@),
        ordered(out.deep_view()),
        out.deep_view().to_multiset() == entries_in(lines_of(text@)).to_multiset(),
        no_dot_entries(out.deep_view()),
{
    let all = lines(text);
    let ghost ls = all.deep_view();
    let mut out: Vec<FileEntry> = Vec::new();
    let mut i: usize = 0;
    assert(ls.len() == all.len());
    assert(ls.take(0) == Seq::<Seq<char>>::empty());
    while i < all.len()
        invariant
            i <= all.len(),
            ls == all.deep_view(),
            ls.len() == all.len(),
            out.deep_view() == sort_entries(entries_in(ls.take(i as int))),
        decreases all.len() - i,
    {
        assert(ls[i as int] == all[i as int]@);
        assert(ls.take(i + 1).drop_last() == ls.take(i as int));
        assert(ls.take(i + 1).last() == all[i as int]@);
        match parse_listing_line(all[i].as_str()) {
            Some(e) => {
                let ghost before = entries_in(ls.take(i as int));
                assert(before.push(e@).drop_last() == before);
                insert_sorted(&mut out, e);
            },
            None => {},
        }
        i += 1;
    }
    assert(ls.take(all.len() as int) == ls);
    proof {
        lemma_listing_of(text@);
    }
    out
}

} // verus!
