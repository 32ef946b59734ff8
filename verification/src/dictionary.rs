use vstd::prelude::*;

use crate::trie::Trie;
use crate::text::{find_char, first_index_of, is_space, lemma_first_index_of, trim, trim_bounds, trim_end, trim_start};

verus! {

/// One dictionary entry: `source` is replaced by `target`.
#[derive(Debug, Clone, PartialEq, Eq)]
pub struct DictEntry {
    pub source: String,
    pub target: String,
}

impl DictEntry {
    pub fn new(source: &str, target: &str) -> (e: DictEntry)
        ensures
            e.source@ == source@,
            e.target@ == target@,
    {
        DictEntry { source: source.to_owned(), target: target.to_owned() }
    }

    /// A copy of the entry.
    pub(crate) fn duplicate(&self) -> (e: DictEntry)
        ensures
            e == *self,
    {
        DictEntry { source: self.source.clone(), target: self.target.clone() }
    }
}

/// A dictionary: either text in the compact `source target|source target` format,
/// or a list of entries.
#[derive(Debug, Clone, PartialEq, Eq)]
pub enum Dict {
    Raw(String),
    Entries(Vec<DictEntry>),
}

/// What a dictionary holds: its text, or its entries as pairs `(source, target)`.
pub enum DictView {
    Text(Seq<char>),
    Pairs(Seq<(Seq<char>, Seq<char>)>),
}

impl View for Dict {
    type V = DictView;

    open spec fn view(&self) -> DictView {
        match self {
            Dict::Raw(s) => DictView::Text(s@),
            Dict::Entries(v) => DictView::Pairs(entry_pairs(v@)),
        }
    }
}

impl Dict {
    /// A dictionary in the compact text format.
    pub fn from_static(data: &'static str) -> (d: Dict)
        ensures
            d@ == DictView::Text(data@),
    {
        Dict::Raw(data.to_owned())
    }

    /// A dictionary in the compact text format.
    pub fn from_string(data: &str) -> (d: Dict)
        ensures
            d@ == DictView::Text(data@),
    {
        Dict::Raw(data.to_owned())
    }

    /// A dictionary made of a list of entries.
    pub fn from_entries(entries: Vec<DictEntry>) -> (d: Dict)
        ensures
            d@ == DictView::Pairs(entry_pairs(entries@)),
    {
        Dict::Entries(entries)
    }

    /// Adds the dictionary's entries to `trie`, in order.
    pub(crate) fn load_into(&self, trie: &mut Trie)
        ensures
            final(trie)@ == insert_all(old(trie)@, dict_entries(self@)),
    {
        match self {
            Dict::Raw(data) => trie.load_dict_str(data.as_str()),
            Dict::Entries(entries) => trie.load_entries(entries.as_slice()),
        }
    }

    /// A copy of the dictionary.
    pub(crate) fn duplicate(&self) -> (d: Dict)
        ensures
            d@ == self@,
    {
        match self {
            Dict::Raw(s) => Dict::Raw(s.clone()),
            Dict::Entries(v) => {
                let mut w: Vec<DictEntry> = Vec::new();
                let mut i: usize = 0;
                while i < v.len()
                    invariant
                        i <= v@.len(),
                        w@ == v@.take(i as int),
                    decreases v@.len() - i,
                {
                    w.push(v[i].duplicate());
                    i += 1;
                    assert(w@ =~= v@.take(i as int));
                }
                assert(v@.take(i as int) =~= v@);
                assert(entry_pairs(w@) =~= entry_pairs(v@));
                Dict::Entries(w)
            },
        }
    }
}

/// A sequence of dictionaries that are loaded into one trie, one after the other.
#[derive(Debug, Clone, PartialEq, Eq)]
pub struct DictGroup {
    dicts: Vec<Dict>,
}

/// What a list of dictionaries holds, in order.
pub open spec fn dict_views(v: Seq<Dict>) -> Seq<DictView> {
    v.map_values(|d: Dict| d@)
}

impl View for DictGroup {
    type V = Seq<DictView>;

    /// The dictionaries of the group, in order.
    closed spec fn view(&self) -> Seq<DictView> {
        dict_views(self.dicts@)
    }
}

/// Copies of `v[0..n]`.
fn duplicate_dicts(v: &Vec<Dict>) -> (w: Vec<Dict>)
    ensures
        dict_views(w@) == dict_views(v@),
{
    let mut w: Vec<Dict> = Vec::new();
    let mut i: usize = 0;
    while i < v.len()
        invariant
            i <= v@.len(),
            w@.len() == i,
            forall|k: int| 0 <= k < i ==> #[trigger] w@[k]@ == v@[k]@,
        decreases v@.len() - i,
    {
        w.push(v[i].duplicate());
        i += 1;
    }
    assert(dict_views(w@) =~= dict_views(v@));
    w
}

impl DictGroup {
    pub fn new(dicts: Vec<Dict>) -> (g: DictGroup)
        ensures
            g@ == dict_views(dicts@),
    {
        DictGroup { dicts }
    }

    /// A group of dictionaries in the compact text format, in the order given.
    pub fn from_strings(dicts: Vec<&'static str>) -> (g: DictGroup)
        ensures
            g@.len() == dicts@.len(),
            forall|i: int| 0 <= i < dicts@.len() ==> #[trigger] g@[i] == DictView::Text(dicts@[i]@),
    {
        let mut v: Vec<Dict> = Vec::new();
        let mut i: usize = 0;
        while i < dicts.len()
            invariant
                i <= dicts@.len(),
                v@.len() == i,
                forall|j: int| 0 <= j < i ==> #[trigger] v@[j]@ == DictView::Text(dicts@[j]@),
            decreases dicts@.len() - i,
        {
            v.push(Dict::from_static(dicts[i]));
            i += 1;
        }
        DictGroup { dicts: v }
    }

    /// A group of dictionaries, each made of one list of entries, in the order given.
    pub fn from_entry_sets(dicts: Vec<Vec<DictEntry>>) -> (g: DictGroup)
        ensures
            g@.len() == dicts@.len(),
            forall|i: int|
                0 <= i < dicts@.len() ==> #[trigger] g@[i] == DictView::Pairs(entry_pairs(dicts@[i]@)),
    {
        let mut sets = dicts;
        let ghost orig = sets@;
        let mut v: Vec<Dict> = Vec::new();
        while sets.len() > 0
            invariant
                v@.len() + sets@.len() == orig.len(),
                sets@ == orig.take(sets@.len() as int),
                forall|j: int| 0 <= j < v@.len() ==> #[trigger] v@[j] == Dict::Entries(orig[orig.len() - 1 - j]),
            decreases sets@.len(),
        {
            let ghost n = sets@.len();
            assert(orig.take(n as int)[n - 1] == orig[n - 1]);
            let entries = sets.pop().unwrap();
            assert(entries == orig[n - 1]);
            v.push(Dict::Entries(entries));
            assert(sets@ =~= orig.take(sets@.len() as int));
        }
        let mut w: Vec<Dict> = Vec::new();
        while v.len() > 0
            invariant
                v@.len() + w@.len() == orig.len(),
                forall|j: int| 0 <= j < v@.len() ==> #[trigger] v@[j] == Dict::Entries(orig[orig.len() - 1 - j]),
                forall|j: int| 0 <= j < w@.len() ==> #[trigger] w@[j] == Dict::Entries(orig[j]),
            decreases v@.len(),
        {
            let d = v.pop().unwrap();
            w.push(d);
        }
        DictGroup { dicts: w }
    }

    /// The group followed by one more dictionary.
    pub fn concat(&self, dict: Dict) -> (g: DictGroup)
        ensures
            g@ == self@.push(dict@),
    {
        let mut dicts = duplicate_dicts(&self.dicts);
        let ghost before = dicts@;
        dicts.push(dict);
        assert(dict_views(dicts@) =~= dict_views(before).push(dict@));
        DictGroup { dicts }
    }

    /// The group followed by more dictionaries, in the order given.
    pub fn concat_group(&self, dicts: Vec<Dict>) -> (g: DictGroup)
        ensures
            g@ == self@ + dict_views(dicts@),
    {
        let mut combined = duplicate_dicts(&self.dicts);
        let ghost before = combined@;
        let mut extra = dicts;
        combined.append(&mut extra);
        assert(dict_views(combined@) =~= dict_views(before) + dict_views(dicts@));
        DictGroup { dicts: combined }
    }

    pub fn len(&self) -> (n: usize)
        ensures
            n == self@.len(),
    {
        self.dicts.len()
    }

    pub fn is_empty(&self) -> (b: bool)
        ensures
            b == (self@.len() == 0),
    {
        self.dicts.len() == 0
    }

    /// Adds the entries of every dictionary of the group to `trie`, one dictionary
    /// after the other.
    pub(crate) fn load_into(&self, trie: &mut Trie)
        ensures
            final(trie)@ == insert_all(old(trie)@, dicts_entries(self@)),
    {
        let dicts = &self.dicts;
        let mut i: usize = 0;
        assert(dict_views(dicts@).take(0) =~= Seq::<DictView>::empty());
        while i < dicts.len()
            invariant
                i <= dicts@.len(),
                dict_views(dicts@) == self@,
                trie@ == insert_all(old(trie)@, dicts_entries(dict_views(dicts@).take(i as int))),
            decreases dicts@.len() - i,
        {
            dicts[i].load_into(trie);
            proof {
                let t = dict_views(dicts@).take(i + 1);
                assert(t.drop_last() =~= dict_views(dicts@).take(i as int));
                lemma_insert_all_concat(
                    old(trie)@,
                    dicts_entries(t.drop_last()),
                    dict_entries(t.last()),
                );
            }
            i += 1;
        }
        assert(dict_views(dicts@).take(i as int) =~= self@);
    }

    /// A copy of the group.
    pub(crate) fn duplicate(&self) -> (g: DictGroup)
        ensures
            g@ == self@,
    {
        let dicts = duplicate_dicts(&self.dicts);
        DictGroup { dicts }
    }
}

/// The entry separators of the compact format.
pub open spec fn is_entry_separator(c: char) -> bool {
    c == '|' || c == '\n'
}

/// The first position of an entry separator in `s`, if any.
pub open spec fn first_separator(s: Seq<char>) -> Option<int> {
    if exists|i: int| 0 <= i < s.len() && is_entry_separator(s[i]) {
        Some(
            choose|i: int|
                0 <= i < s.len() && is_entry_separator(s[i]) && forall|j: int|
                    0 <= j < i ==> !is_entry_separator(s[j]),
        )
    } else {
        None
    }
}

pub proof fn lemma_first_separator(s: Seq<char>)
    ensures
        first_separator(s) matches Some(k) ==> 0 <= k < s.len() && is_entry_separator(s[k])
            && forall|j: int| 0 <= j < k ==> !is_entry_separator(s[j]),
        first_separator(s) is None ==> forall|j: int| 0 <= j < s.len() ==> !is_entry_separator(s[j]),
{
    if exists|i: int| 0 <= i < s.len() && is_entry_separator(s[i]) {
        let i = choose|i: int| 0 <= i < s.len() && is_entry_separator(s[i]);
        let w = least_separator(s, i);
    }
}

proof fn least_separator(s: Seq<char>, i: int) -> (w: int)
    requires
        0 <= i < s.len(),
        is_entry_separator(s[i]),
    ensures
        0 <= w <= i,
        is_entry_separator(s[w]),
        forall|j: int| 0 <= j < w ==> !is_entry_separator(s[j]),
    decreases i,
{
    if exists|j: int| 0 <= j < i && is_entry_separator(s[j]) {
        let j = choose|j: int| 0 <= j < i && is_entry_separator(s[j]);
        least_separator(s, j)
    } else {
        i
    }
}

/// The entry that one line of the compact format holds: the line is trimmed; an
/// empty line holds none; otherwise the line is split at its first tab, or, where
/// it has no tab, at its first space; a line with neither holds no entry.
pub open spec fn parse_line(line: Seq<char>) -> Option<(Seq<char>, Seq<char>)> {
    let t = trim(line);
    if t.len() == 0 {
        None
    } else {
        match first_index_of(t, '\t') {
            Some(k) => Some((t.take(k), t.skip(k + 1))),
            None => match first_index_of(t, ' ') {
                Some(k) => Some((t.take(k), t.skip(k + 1))),
                None => None,
            },
        }
    }
}

/// The entries of one line, as a sequence of at most one entry.
pub open spec fn line_entries(line: Seq<char>) -> Seq<(Seq<char>, Seq<char>)> {
    match parse_line(line) {
        Some(e) => seq![e],
        None => Seq::empty(),
    }
}

/// The entries of a dictionary text, in order: the text is cut into lines at each
/// `|` and each newline, and each line is read by `parse_line`.
pub open spec fn text_entries(s: Seq<char>) -> Seq<(Seq<char>, Seq<char>)>
    decreases s.len(),
{
    proof {
        lemma_first_separator(s);
    }
    match first_separator(s) {
        Some(k) => line_entries(s.take(k)) + text_entries(s.skip(k + 1)),
        None => line_entries(s),
    }
}

/// The pairs `(source, target)` of a list of entries.
pub open spec fn entry_pairs(entries: Seq<DictEntry>) -> Seq<(Seq<char>, Seq<char>)> {
    entries.map_values(|e: DictEntry| (e.source@, e.target@))
}

/// The entries of a dictionary, in order.
pub open spec fn dict_entries(d: DictView) -> Seq<(Seq<char>, Seq<char>)> {
    match d {
        DictView::Text(s) => text_entries(s),
        DictView::Pairs(p) => p,
    }
}

/// The entries of a sequence of dictionaries, one dictionary after the other.
pub open spec fn dicts_entries(dicts: Seq<DictView>) -> Seq<(Seq<char>, Seq<char>)>
    decreases dicts.len(),
{
    if dicts.len() == 0 {
        Seq::empty()
    } else {
        dicts_entries(dicts.drop_last()) + dict_entries(dicts.last())
    }
}

/// `m` with the entries added in order, so that a later entry for a source replaces
/// an earlier one.
pub open spec fn insert_all(
    m: Map<Seq<char>, Seq<char>>,
    entries: Seq<(Seq<char>, Seq<char>)>,
) -> Map<Seq<char>, Seq<char>>
    decreases entries.len(),
{
    if entries.len() == 0 {
        m
    } else {
        insert_all(m.insert(entries[0].0, entries[0].1), entries.skip(1))
    }
}

pub proof fn lemma_insert_all_concat(
    m: Map<Seq<char>, Seq<char>>,
    a: Seq<(Seq<char>, Seq<char>)>,
    b: Seq<(Seq<char>, Seq<char>)>,
)
    ensures
        insert_all(m, a + b) == insert_all(insert_all(m, a), b),
    decreases a.len(),
{
    if a.len() == 0 {
        assert(a + b =~= b);
    } else {
        assert((a + b).skip(1) =~= a.skip(1) + b);
        lemma_insert_all_concat(m.insert(a[0].0, a[0].1), a.skip(1), b);
    }
}

/// A later entry for a source replaces every earlier one.
pub proof fn law_later_entry_wins(
    m: Map<Seq<char>, Seq<char>>,
    entries: Seq<(Seq<char>, Seq<char>)>,
    source: Seq<char>,
    target: Seq<char>,
)
    ensures
        insert_all(m, entries.push((source, target))).contains_key(source),
        insert_all(m, entries.push((source, target)))[source] == target,
{
    let last = seq![(source, target)];
    assert(entries.push((source, target)) =~= entries + last);
    lemma_insert_all_concat(m, entries, last);
    let x = insert_all(m, entries);
    assert(last.skip(1) =~= Seq::<(Seq<char>, Seq<char>)>::empty());
    assert(insert_all(x.insert(source, target), last.skip(1)) == x.insert(source, target));
}

/// The entries of a dictionary text are those of its first line followed by those
/// of the text after the first separator (`|` or a newline).
pub proof fn law_text_entries_split(line: Seq<char>, sep: char, rest: Seq<char>)
    requires
        is_entry_separator(sep),
        forall|i: int| 0 <= i < line.len() ==> !is_entry_separator(#[trigger] line[i]),
    ensures
        text_entries(line.push(sep) + rest) == line_entries(line) + text_entries(rest),
{
    let s = line.push(sep) + rest;
    lemma_first_separator(s);
    assert(s[line.len() as int] == sep);
    let k = first_separator(s)->0;
    if k < line.len() {
        assert(s[k] == line[k]);
    }
    assert(k == line.len());
    assert(s.take(k) =~= line);
    assert(s.skip(k + 1) =~= rest);
}

/// Whether `s[i..j]` is one of the lines of the text `s`: it runs between two
/// entry separators, or the start or the end of the text, and holds none.
pub open spec fn is_line_of(s: Seq<char>, i: int, j: int) -> bool {
    &&& 0 <= i <= j <= s.len()
    &&& i == 0 || is_entry_separator(s[i - 1])
    &&& j == s.len() || is_entry_separator(s[j])
    &&& forall|k: int| i <= k < j ==> !is_entry_separator(#[trigger] s[k])
}

/// The condition under which a line holds no entry: once trimmed, it is empty or
/// holds neither a tab nor a space.
pub open spec fn is_entryless_line(line: Seq<char>) -> bool {
    let t = trim(line);
    t.len() == 0 || (!t.contains('\t') && !t.contains(' '))
}

/// A text none of whose lines holds an entry (each is, once trimmed, empty or holds
/// neither a tab nor a space) adds nothing: a dictionary loaded with it stays as it
/// was.
pub proof fn law_text_without_entries_adds_nothing(m: Map<Seq<char>, Seq<char>>, s: Seq<char>)
    requires
        forall|i: int, j: int| is_line_of(s, i, j) ==> #[trigger] is_entryless_line(s.subrange(i, j)),
    ensures
        text_entries(s) == Seq::<(Seq<char>, Seq<char>)>::empty(),
        insert_all(m, text_entries(s)) == m,
    decreases s.len(),
{
    lemma_first_separator(s);
    match first_separator(s) {
        Some(k) => {
            assert(is_line_of(s, 0, k));
            assert(s.take(k) =~= s.subrange(0, k));
            assert(is_entryless_line(s.subrange(0, k)));
            assert(parse_line(s.take(k)) is None);
            let rest = s.skip(k + 1);
            assert forall|i: int, j: int| is_line_of(rest, i, j) implies #[trigger] is_entryless_line(
                rest.subrange(i, j),
            ) by {
                assert(rest.subrange(i, j) =~= s.subrange(i + k + 1, j + k + 1));
                assert forall|q: int| i + k + 1 <= q < j + k + 1 implies !is_entry_separator(
                    #[trigger] s[q],
                ) by {
                    assert(s[q] == rest[q - k - 1]);
                }
                if i > 0 {
                    assert(s[i + k] == rest[i - 1]);
                }
                if j < rest.len() {
                    assert(s[j + k + 1] == rest[j]);
                }
                assert(is_line_of(s, i + k + 1, j + k + 1));
                assert(is_entryless_line(s.subrange(i + k + 1, j + k + 1)));
            }
            law_text_without_entries_adds_nothing(m, rest);
            assert(line_entries(s.take(k)) + text_entries(rest) =~= Seq::<(Seq<char>, Seq<char>)>::empty());
        },
        None => {
            assert(is_line_of(s, 0, s.len() as int));
            assert(s.subrange(0, s.len() as int) =~= s);
            assert(is_entryless_line(s.subrange(0, s.len() as int)));
        },
    }
}

/// A line that, once trimmed, is empty or holds neither a tab nor a space holds no
/// entry.
pub proof fn law_malformed_line_ignored(line: Seq<char>)
    requires
        is_entryless_line(line),
    ensures
        line_entries(line) == Seq::<(Seq<char>, Seq<char>)>::empty(),
{
}

/// Loading a group loads its dictionaries in order: the group with one more
/// dictionary holds the group's words with that dictionary's entries added after.
pub proof fn law_group_loads_in_order(dicts: Seq<DictView>, d: DictView, m: Map<Seq<char>, Seq<char>>)
    ensures
        insert_all(m, dicts_entries(dicts.push(d))) == insert_all(insert_all(m, dicts_entries(dicts)), dict_entries(d)),
{
    assert(dicts.push(d).drop_last() =~= dicts);
    lemma_insert_all_concat(m, dicts_entries(dicts), dict_entries(d));
}

/// The position of the first entry separator in `v[from..to]`, if any.
pub(crate) fn find_separator(v: &Vec<char>, from: usize, to: usize) -> (r: Option<usize>)
    requires
        from <= to <= v@.len(),
    ensures
        r == (match first_separator(v@.subrange(from as int, to as int)) {
            Some(k) => Some((from + k) as usize),
            None => None::<usize>,
        }),
{
    let ghost s = v@.subrange(from as int, to as int);
    let mut i = from;
    while i < to
        invariant
            from <= i <= to <= v@.len(),
            s == v@.subrange(from as int, to as int),
            forall|j: int| 0 <= j < i - from ==> !is_entry_separator(s[j]),
        decreases to - i,
    {
        let c = v[i];
        if c == '|' || c == '\n' {
            proof {
                let k = (i - from) as int;
                assert(is_entry_separator(s[k]));
                lemma_first_separator(s);
                let w = first_separator(s)->0;
                if w < k {
                    assert(!is_entry_separator(s[w]));
                }
                if k < w {
                    assert(!is_entry_separator(s[k]));
                }
            }
            return Some(i);
        }
        i += 1;
    }
    proof {
        lemma_first_separator(s);
    }
    None
}

/// Reads the line `v[from..to]`: where it holds an entry, the result is `(lo, k, hi)`
/// with source `v[lo..k]` and target `v[k + 1..hi]`.
pub(crate) fn parse_line_at(v: &Vec<char>, from: usize, to: usize) -> (r: Option<(usize, usize, usize)>)
    requires
        from <= to <= v@.len(),
    ensures
        match parse_line(v@.subrange(from as int, to as int)) {
            Some((src, tgt)) => r matches Some((lo, k, hi)) && lo <= k < hi <= v@.len() && src
                == v@.subrange(lo as int, k as int) && tgt == v@.subrange(k + 1, hi as int),
            None => r is None,
        },
{
    let (lo, hi) = trim_bounds(v, from, to);
    let ghost t = v@.subrange(lo as int, hi as int);
    proof {
        lemma_first_index_of(t, '\t');
        lemma_first_index_of(t, ' ');
    }
    if lo == hi {
        return None;
    }
    let split = match find_char(v, lo, hi, '\t') {
        Some(k) => Some(k),
        None => find_char(v, lo, hi, ' '),
    };
    match split {
        Some(k) => {
            assert(t.take(k - lo) =~= v@.subrange(lo as int, k as int));
            assert(t.skip(k - lo + 1) =~= v@.subrange(k + 1, hi as int));
            Some((lo, k, hi))
        },
        None => None,
    }
}

/// Whether the characters of `w` from position `i` on are neither whitespace nor
/// entry separators.
pub open spec fn plain_from(w: Seq<char>, i: int) -> bool
    decreases w.len() - i,
{
    if 0 <= i < w.len() {
        !is_space(w[i]) && !is_entry_separator(w[i]) && plain_from(w, i + 1)
    } else {
        true
    }
}

/// A word that can stand on either side of an entry of the compact format: not
/// empty, with no whitespace and no entry separator.
pub open spec fn plain_word(w: Seq<char>) -> bool {
    w.len() > 0 && plain_from(w, 0)
}

proof fn lemma_plain_from(w: Seq<char>, i: int)
    requires
        0 <= i,
        plain_from(w, i),
    ensures
        forall|k: int| i <= k < w.len() ==> !is_space(#[trigger] w[k]) && !is_entry_separator(w[k]),
    decreases w.len() - i,
{
    if i < w.len() {
        lemma_plain_from(w, i + 1);
    }
}

/// One line `a<TAB>b` of plain words, then a newline, reads as the entry `(a, b)`
/// followed by the entries of the rest.
proof fn lemma_entry_line(a: Seq<char>, b: Seq<char>, rest: Seq<char>, text: Seq<char>)
    requires
        plain_word(a),
        plain_word(b),
        text == a + seq!['\t'] + b + seq!['\n'] + rest,
    ensures
        text_entries(text) == seq![(a, b)] + text_entries(rest),
{
    lemma_plain_from(a, 0);
    lemma_plain_from(b, 0);
    let line = a + seq!['\t'] + b;
    let s = line + seq!['\n'] + rest;
    let k = line.len() as int;
    assert(is_space('\t'));
    assert forall|j: int| 0 <= j < k implies !is_entry_separator(#[trigger] s[j]) by {
        assert(s[j] == line[j]);
        if j < a.len() {
            assert(line[j] == a[j]);
        } else if j > a.len() {
            assert(line[j] == b[j - a.len() - 1]);
        }
    }
    assert(s[k] == '\n');
    lemma_first_separator(s);
    assert(first_separator(s) == Some(k)) by {
        if let Some(x) = first_separator(s) {
            if x < k {
                assert(!is_entry_separator(s[x]));
            }
            if x > k {
                assert(!is_entry_separator(s[k]));
            }
        }
    }
    assert(s.take(k) =~= line);
    assert(s.skip(k + 1) =~= rest);
    assert(line[0] == a[0]);
    assert(line.last() == b.last());
    assert(trim_start(line) == line);
    assert(trim_end(line) == line);
    assert(trim(line) == line);
    lemma_first_index_of(line, '\t');
    let n = a.len() as int;
    assert(line[n] == '\t');
    assert(first_index_of(line, '\t') == Some(n)) by {
        if let Some(x) = first_index_of(line, '\t') {
            if x < n {
                assert(line[x] == a[x]);
            }
        }
    }
    assert(line.take(n) =~= a);
    assert(line.skip(n + 1) =~= b);
    assert(parse_line(line) == Some((a, b)));
}

proof fn lemma_text_entries_empty()
    ensures
        text_entries(Seq::<char>::empty()) == Seq::<(Seq<char>, Seq<char>)>::empty(),
{
    lemma_first_separator(Seq::<char>::empty());
    assert(parse_line(Seq::<char>::empty()) is None) by {
        assert(trim_start(Seq::<char>::empty()) == Seq::<char>::empty());
        assert(trim_end(Seq::<char>::empty()) == Seq::<char>::empty());
    }
}


/// The entries of the text `s` (`text_entries`), under a name whose definition is
/// kept out of sight, so that a long text can be read one line at a time.
#[verifier::opaque]
pub open spec fn entries_of(s: Seq<char>) -> Seq<(Seq<char>, Seq<char>)> {
    text_entries(s)
}

/// Where the text `s` has, at position `o`, a line `a<TAB>b` of plain words ended by
/// a newline, the entries from `o` on are `(a, b)` followed by those after the line.
pub proof fn lemma_entry_at(s: Seq<char>, o: int, a: Seq<char>, b: Seq<char>)
    requires
        plain_word(a),
        plain_word(b),
        0 <= o,
        o + a.len() + b.len() + 2 <= s.len(),
        s.subrange(o, o + a.len() + b.len() + 2) == a + seq!['\t'] + b + seq!['\n'],
    ensures
        entries_of(s.skip(o)) == seq![(a, b)] + entries_of(s.skip(o + a.len() + b.len() + 2)),
{
    reveal(entries_of);
    let e = o + a.len() + b.len() + 2;
    let t = s.skip(o);
    let u = a + seq!['\t'] + b + seq!['\n'] + s.skip(e);
    assert forall|q: int| 0 <= q < t.len() implies t[q] == u[q] by {
        if q < e - o {
            assert(t[q] == s.subrange(o, e)[q]);
        }
    }
    assert(t =~= u);
    lemma_entry_line(a, b, s.skip(e), t);
}

/// Past its end, a text holds no entry.
pub proof fn lemma_entries_at_end(s: Seq<char>)
    ensures
        entries_of(s.skip(s.len() as int)) == Seq::<(Seq<char>, Seq<char>)>::empty(),
{
    reveal(entries_of);
    assert(s.skip(s.len() as int) =~= Seq::<char>::empty());
    lemma_text_entries_empty();
}

/// The target of the last entry for source `k` among the first `n` entries of `p`,
/// if there is one.
pub open spec fn last_target(p: Seq<(Seq<char>, Seq<char>)>, k: Seq<char>, n: int) -> Option<Seq<char>>
    decreases n,
{
    if n <= 0 {
        None
    } else if p[n - 1].0 == k {
        Some(p[n - 1].1)
    } else {
        last_target(p, k, n - 1)
    }
}

/// Adding entries in order leaves each source with the target of its last entry;
/// a source with no entry keeps what it had.
pub proof fn law_last_entry_counts(m: Map<Seq<char>, Seq<char>>, p: Seq<(Seq<char>, Seq<char>)>, k: Seq<char>, n: int)
    requires
        0 <= n <= p.len(),
    ensures
        match last_target(p, k, n) {
            Some(v) => insert_all(m, p.take(n)).contains_key(k) && insert_all(m, p.take(n))[k] == v,
            None => insert_all(m, p.take(n)).contains_key(k) == m.contains_key(k) && (m.contains_key(k)
                ==> insert_all(m, p.take(n))[k] == m[k]),
        },
    decreases n,
{
    if n == 0 {
        assert(p.take(0) =~= Seq::<(Seq<char>, Seq<char>)>::empty());
    } else {
        law_last_entry_counts(m, p, k, n - 1);
        let last = seq![p[n - 1]];
        assert(p.take(n) =~= p.take(n - 1) + last);
        lemma_insert_all_concat(m, p.take(n - 1), last);
        let x = insert_all(m, p.take(n - 1));
        assert(last.skip(1) =~= Seq::<(Seq<char>, Seq<char>)>::empty());
        let y = x.insert(p[n - 1].0, p[n - 1].1);
        assert(insert_all(y, Seq::<(Seq<char>, Seq<char>)>::empty()) == y);
        assert(insert_all(x, last) == y);
    }
}

} // verus!
