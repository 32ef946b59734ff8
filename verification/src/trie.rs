use std::collections::HashMap;
use vstd::prelude::*;

use crate::dictionary::{
    DictEntry, DictGroup, dicts_entries, entry_pairs, find_separator, insert_all,
    lemma_first_separator, lemma_insert_all_concat, line_entries, parse_line_at, text_entries,
};
use crate::text::{chars_of, push_char, string_of};

verus! {

/// The length of the longest non-empty prefix of `s`, of at most `n` characters,
/// that is a key of `dict`; `0` when there is none.
pub open spec fn longest_key_len(dict: Map<Seq<char>, Seq<char>>, s: Seq<char>, n: nat) -> nat
    decreases n,
{
    if n == 0 {
        0
    } else if dict.contains_key(s.take(n as int)) {
        n
    } else {
        longest_key_len(dict, s, (n - 1) as nat)
    }
}

pub proof fn lemma_longest_key_len_bound(dict: Map<Seq<char>, Seq<char>>, s: Seq<char>, n: nat)
    ensures
        longest_key_len(dict, s, n) <= n,
        longest_key_len(dict, s, n) > 0 ==> dict.contains_key(
            s.take(longest_key_len(dict, s, n) as int),
        ),
    decreases n,
{
    if n > 0 {
        lemma_longest_key_len_bound(dict, s, (n - 1) as nat);
    }
}

proof fn lemma_longest_key_len_stable(dict: Map<Seq<char>, Seq<char>>, s: Seq<char>, m: nat, n: nat)
    requires
        m <= n,
        forall|k: int| m < k <= n ==> !#[trigger] dict.contains_key(s.take(k)),
    ensures
        longest_key_len(dict, s, n) == longest_key_len(dict, s, m),
    decreases n,
{
    if n > m {
        lemma_longest_key_len_stable(dict, s, m, (n - 1) as nat);
    }
}


/// Greedy longest-match conversion of `s` with `dict`: at each position the longest
/// non-empty key that starts there is replaced by its value; a character that starts
/// no key is copied unchanged.
pub open spec fn convert_text(dict: Map<Seq<char>, Seq<char>>, s: Seq<char>) -> Seq<char>
    decreases s.len(),
{
    if s.len() == 0 {
        Seq::empty()
    } else {
        let k = longest_key_len(dict, s, s.len());
        proof {
            lemma_longest_key_len_bound(dict, s, s.len());
        }
        if k == 0 {
            seq![s[0]] + convert_text(dict, s.skip(1))
        } else {
            dict[s.take(k as int)] + convert_text(dict, s.skip(k as int))
        }
    }
}

/// The characters on the way from the root to node `i`, where `parents[j]` holds the
/// parent of node `j` and the character of the edge from it.
spec fn path_in(parents: Seq<(usize, char)>, i: int) -> Seq<char>
    decreases i,
{
    if 0 < i < parents.len() && parents[i].0 < i {
        path_in(parents, parents[i].0 as int).push(parents[i].1)
    } else {
        Seq::empty()
    }
}

proof fn lemma_path_in_push(parents: Seq<(usize, char)>, x: (usize, char), i: int)
    requires
        0 <= i < parents.len(),
    ensures
        path_in(parents.push(x), i) == path_in(parents, i),
    decreases i,
{
    let q = parents.push(x);
    assert(q[i] == parents[i]);
    if 0 < i && parents[i].0 < i {
        lemma_path_in_push(parents, x, parents[i].0 as int);
    }
}

/// The longest word wins: where the longest word of `dict` that starts `s` has `k`
/// characters, the conversion of `s` is that word's target followed by the
/// conversion of the rest.
pub proof fn law_longest_match_wins(dict: Map<Seq<char>, Seq<char>>, s: Seq<char>, k: int)
    requires
        1 <= k <= s.len(),
        dict.contains_key(s.take(k)),
        forall|j: int| k < j <= s.len() ==> !#[trigger] dict.contains_key(s.take(j)),
    ensures
        convert_text(dict, s) == dict[s.take(k)] + convert_text(dict, s.skip(k)),
{
    lemma_longest_key_len_stable(dict, s, k as nat, s.len());
    assert(longest_key_len(dict, s, k as nat) == k);
}

/// Text in which no word of `dict` occurs is kept as it is.
pub proof fn law_text_without_words_is_kept(dict: Map<Seq<char>, Seq<char>>, s: Seq<char>)
    requires
        forall|i: int, j: int| 0 <= i < j <= s.len() ==> !#[trigger] dict.contains_key(s.subrange(i, j)),
    ensures
        convert_text(dict, s) == s,
    decreases s.len(),
{
    if s.len() > 0 {
        assert forall|k: int| 0 < k <= s.len() implies !#[trigger] dict.contains_key(s.take(k)) by {
            assert(s.take(k) =~= s.subrange(0, k));
        }
        lemma_longest_key_len_stable(dict, s, 0, s.len());
        let t = s.skip(1);
        assert forall|i: int, j: int| 0 <= i < j <= t.len() implies !#[trigger] dict.contains_key(
            t.subrange(i, j),
        ) by {
            assert(t.subrange(i, j) =~= s.subrange(i + 1, j + 1));
        }
        law_text_without_words_is_kept(dict, t);
        assert(seq![s[0]] + t =~= s);
    }
}

/// The nodes of a trie: node `0` is the root, `children[i]` maps the code of the
/// character of each edge leaving node `i` to the node that the edge leads to,
/// `parents[i]` holds the parent of node `i` and the character of the edge from it,
/// and `values[i]` is the target of the word that ends at node `i`, if any. The
/// edges are keyed by the character's code (`u32`), an integer key whose hashing
/// and equality the hash map's contract covers.
#[derive(Debug)]
struct Nodes {
    children: Vec<HashMap<u32, usize>>,
    parents: Vec<(usize, char)>,
    values: Vec<Option<String>>,
}

impl View for Nodes {
    type V = Map<Seq<char>, Seq<char>>;

    /// The words of the trie and their targets.
    closed spec fn view(&self) -> Map<Seq<char>, Seq<char>> {
        self.words()
    }
}

/// Distinct characters have distinct codes.
proof fn lemma_char_code_injective(a: char, b: char)
    ensures
        a as u32 == b as u32 ==> a == b,
{
}

impl Nodes {
    closed spec fn len(&self) -> int {
        self.children@.len() as int
    }

    /// The path of each node.
    closed spec fn paths(&self) -> Seq<Seq<char>> {
        Seq::new(self.children@.len(), |i: int| path_in(self.parents@, i))
    }

    closed spec fn has_word_at(&self, s: Seq<char>, i: int) -> bool {
        0 <= i < self.len() && self.paths()[i] == s && self.values@[i] is Some
    }

    /// The words: the paths of the nodes that hold a target.
    closed spec fn words(&self) -> Map<Seq<char>, Seq<char>> {
        Map::new(
            |s: Seq<char>| exists|i: int| self.has_word_at(s, i),
            |s: Seq<char>| self.values@[choose|i: int| self.has_word_at(s, i)]->0@,
        )
    }

    proof fn lemma_words(&self)
        requires
            self.values@.len() == self.len(),
            forall|i: int, j: int|
                0 <= i < self.len() && 0 <= j < self.len() && i != j ==> #[trigger] self.paths()[i]
                    != #[trigger] self.paths()[j],
        ensures
            forall|i: int|
                0 <= i < self.len() ==> (#[trigger] self.values@[i] is Some <==> self.words().contains_key(
                    self.paths()[i],
                )),
            forall|i: int|
                0 <= i < self.len() && #[trigger] self.values@[i] is Some ==> self.words()[self.paths()[i]]
                    == self.values@[i]->0@,
            forall|s: Seq<char>| #[trigger] self.words().contains_key(s) ==> self.has_path(s),
    {
        assert forall|i: int|
            0 <= i < self.len() implies (#[trigger] self.values@[i] is Some <==> self.words().contains_key(
                self.paths()[i],
            )) by {
            if self.words().contains_key(self.paths()[i]) {
                let j = choose|j: int| self.has_word_at(self.paths()[i], j);
                assert(j == i);
            }
            if self.values@[i] is Some {
                assert(self.has_word_at(self.paths()[i], i));
            }
        }
        assert forall|i: int|
            0 <= i < self.len() && #[trigger] self.values@[i] is Some implies self.words()[self.paths()[i]]
                == self.values@[i]->0@ by {
            assert(self.has_word_at(self.paths()[i], i));
            let j = choose|j: int| self.has_word_at(self.paths()[i], j);
            assert(j == i);
        }
        assert forall|s: Seq<char>| #[trigger] self.words().contains_key(s) implies self.has_path(s) by {
            let j = choose|j: int| self.has_word_at(s, j);
            assert(self.paths()[j] == s);
        }
    }

    closed spec fn has_path(&self, s: Seq<char>) -> bool {
        exists|i: int| 0 <= i < self.len() && #[trigger] self.paths()[i] == s
    }

    /// The node that the edge along `c` leaving node `i` leads to, if there is one.
    closed spec fn child(&self, i: int, c: char) -> Option<usize> {
        let m = self.children@[i]@;
        if m.contains_key(c as u32) {
            Some(m[c as u32])
        } else {
            None
        }
    }

    closed spec fn has_parent_edge(&self, j: int) -> bool {
        exists|i: int, c: char| 0 <= i < self.len() && #[trigger] self.child(i, c) is Some && self.child(i, c)->0 == j
    }

    /// The internal invariant of the trie.
    closed spec fn wf(&self) -> bool {
        &&& self.children@.len() == self.len()
        &&& self.values@.len() == self.len()
        &&& self.parents@.len() == self.len()
        &&& self.len() >= 1
        &&& forall|i: int, c: char|
            0 <= i < self.len() && #[trigger] self.child(i, c) is Some ==> {
                let n = self.child(i, c)->0;
                &&& n < self.len()
                &&& self.paths()[n as int] == self.paths()[i].push(c)
            }
        &&& forall|i: int, j: int|
            0 <= i < self.len() && 0 <= j < self.len() && i != j ==> #[trigger] self.paths()[i]
                != #[trigger] self.paths()[j]
        &&& forall|j: int| 0 < j < self.len() ==> #[trigger] self.has_parent_edge(j)
        &&& forall|j: int, m: int|
            0 <= j < self.len() && 0 <= m <= self.paths()[j].len() ==> #[trigger] self.has_path(
                self.paths()[j].take(m),
            )
        &&& forall|i: int|
            0 <= i < self.len() ==> (#[trigger] self.values@[i] is Some <==> self.words().contains_key(
                self.paths()[i],
            ))
        &&& forall|i: int|
            0 <= i < self.len() && #[trigger] self.values@[i] is Some ==> self.words()[self.paths()[i]]
                == self.values@[i]->0@
        &&& forall|s: Seq<char>| #[trigger] self.words().contains_key(s) ==> self.has_path(s)
    }

    /// An empty trie.
    fn new() -> (t: Nodes)
        ensures
            t.wf(),
            t@ == Map::<Seq<char>, Seq<char>>::empty(),
    {
        let mut children: Vec<HashMap<u32, usize>> = Vec::new();
        children.push(HashMap::new());
        let mut values: Vec<Option<String>> = Vec::new();
        values.push(None);
        let mut parents: Vec<(usize, char)> = Vec::new();
        parents.push((0, '\0'));
        let t = Nodes { children, parents, values };
        assert(t.paths()[0] == Seq::<char>::empty());
        proof {
            t.lemma_words();
        }
        assert(t.words() =~= Map::<Seq<char>, Seq<char>>::empty());
        assert forall|j: int, m: int|
            0 <= j < t.len() && 0 <= m <= t.paths()[j].len() implies #[trigger] t.has_path(
                t.paths()[j].take(m),
            ) by {
            assert(t.paths()[0].take(m) =~= t.paths()[0]);
        }
        t
    }

    /// Adds a node below `node` along character `c`; the words are unchanged.
    fn push_child(&mut self, node: usize, c: char) -> (n: usize)
        requires
            old(self).wf(),
            node < old(self).len(),
            !old(self).has_path(old(self).paths()[node as int].push(c)),
        ensures
            final(self).wf(),
            final(self)@ == old(self)@,
            n < final(self).len(),
            final(self).paths()[n as int] == old(self).paths()[node as int].push(c),
            forall|i: int| 0 <= i < old(self).len() ==> #[trigger] final(self).paths()[i] == old(self).paths()[i],
            final(self).len() == old(self).len() + 1,
    {
        let n = self.children.len();
        let ghost old_t = *self;
        let ghost p = self.paths()[node as int].push(c);
        self.children.push(HashMap::new());
        self.values.push(None);
        self.parents.push((node, c));
        self.children[node].insert(c as u32, n);
        proof {
            let t = *self;
            assert forall|i: int| 0 <= i < old_t.len() implies #[trigger] t.paths()[i] == old_t.paths()[i] by {
                lemma_path_in_push(old_t.parents@, (node, c), i);
            }
            assert(t.parents@[n as int] == (node, c));
            lemma_path_in_push(old_t.parents@, (node, c), node as int);
            assert(t.paths()[n as int] == p);
            assert forall|i: int, d: char| 0 <= i < old_t.len() && !(i == node && d == c) implies #[trigger] t.child(i, d)
                == old_t.child(i, d) by {
                if i != node as int {
                    assert(t.children@[i] == old_t.children@[i]);
                } else {
                    lemma_char_code_injective(d, c);
                }
            }
            assert(t.child(node as int, c) == Some(n));
            assert(t.children@[n as int]@ == Map::<u32, usize>::empty());
            assert forall|i: int, d: char|
                0 <= i < t.len() && #[trigger] t.child(i, d) is Some implies {
                    let m = t.child(i, d)->0;
                    &&& m < t.len()
                    &&& t.paths()[m as int] == t.paths()[i].push(d)
                } by {
                if i < old_t.len() && !(i == node && d == c) {
                    assert(old_t.child(i, d) is Some);
                }
            }
            assert forall|i: int, j: int|
                0 <= i < t.len() && 0 <= j < t.len() && i != j implies #[trigger] t.paths()[i]
                    != #[trigger] t.paths()[j] by {
                if i == n as int {
                    assert(old_t.paths()[j] == t.paths()[j]);
                } else if j == n as int {
                    assert(old_t.paths()[i] == t.paths()[i]);
                }
            }
            assert forall|j: int| 0 < j < t.len() implies #[trigger] t.has_parent_edge(j) by {
                if j == n as int {
                    assert(t.child(node as int, c) == Some(n));
                } else {
                    assert(old_t.has_parent_edge(j));
                    let (i, d) = choose|i: int, d: char|
                        0 <= i < old_t.len() && #[trigger] old_t.child(i, d) is Some && old_t.child(i, d)->0 == j;
                    if i == node && d == c {
                        assert(!old_t.has_path(p));
                        assert(old_t.paths()[j] == p);
                    }
                    assert(t.child(i, d) == old_t.child(i, d));
                }
            }
            assert forall|s: Seq<char>| old_t.has_path(s) implies t.has_path(s) by {
                let i = choose|i: int| 0 <= i < old_t.len() && #[trigger] old_t.paths()[i] == s;
                assert(t.paths()[i] == s);
            }
            assert forall|j: int, m: int|
                0 <= j < t.len() && 0 <= m <= t.paths()[j].len() implies #[trigger] t.has_path(
                    t.paths()[j].take(m),
                ) by {
                if j == n as int {
                    if m == p.len() {
                        assert(p.take(m) =~= p);
                        assert(t.paths()[n as int] == p);
                    } else {
                        assert(p.take(m) =~= old_t.paths()[node as int].take(m));
                        assert(old_t.has_path(old_t.paths()[node as int].take(m)));
                    }
                } else {
                    assert(old_t.has_path(old_t.paths()[j].take(m)));
                }
            }
            t.lemma_words();
            assert forall|s: Seq<char>| #[trigger] t.words().contains_key(s) == old_t.words().contains_key(s) by {
                if t.words().contains_key(s) {
                    let j = choose|j: int| t.has_word_at(s, j);
                    assert(old_t.has_word_at(s, j));
                }
                if old_t.words().contains_key(s) {
                    let j = choose|j: int| old_t.has_word_at(s, j);
                    assert(t.has_word_at(s, j));
                }
            }
            assert forall|s: Seq<char>| #[trigger] t.words().contains_key(s) implies t.words()[s] == old_t.words()[s] by {
                let j = choose|j: int| t.has_word_at(s, j);
                assert(old_t.has_word_at(s, j));
                assert(t.words()[t.paths()[j]] == t.values@[j]->0@);
                assert(old_t.words()[old_t.paths()[j]] == old_t.values@[j]->0@);
            }
            assert(t.words() =~= old_t.words());
        }
        n
    }

    /// Adds the word `src[from..to]` with target `target`.
    fn insert_word(&mut self, src: &Vec<char>, from: usize, to: usize, target: String)
        requires
            old(self).wf(),
            from <= to <= src@.len(),
        ensures
            final(self).wf(),
            final(self)@ == old(self)@.insert(src@.subrange(from as int, to as int), target@),
    {
        let ghost word = src@.subrange(from as int, to as int);
        let mut node: usize = 0;
        let mut idx: usize = from;
        assert(word.take(0) =~= Seq::<char>::empty());
        while idx < to
            invariant
                self.wf(),
                self@ == old(self)@,
                from <= idx <= to <= src@.len(),
                word == src@.subrange(from as int, to as int),
                node < self.len(),
                self.paths()[node as int] == word.take(idx - from),
            decreases to - idx,
        {
            let c = src[idx];
            assert(word.take(idx - from).push(c) =~= word.take(idx + 1 - from));
            match self.find_child(node, c) {
                Some(next) => {
                    node = next;
                },
                None => {
                    node = self.push_child(node, c);
                },
            }
            idx += 1;
        }
        assert(word.take(to - from) =~= word);
        let ghost old_t = *self;
        self.values.set(node, Some(target));
        proof {
            let t = *self;
            assert(t.paths() =~= old_t.paths());
            t.lemma_words();
            let m = old_t.words().insert(word, target@);
            assert(t.values@[node as int] is Some);
            assert forall|s: Seq<char>| #[trigger] t.words().contains_key(s) == m.contains_key(s) by {
                if s != word {
                    if t.words().contains_key(s) {
                        let j = choose|j: int| t.has_word_at(s, j);
                        assert(old_t.has_word_at(s, j));
                    }
                    if old_t.words().contains_key(s) {
                        let j = choose|j: int| old_t.has_word_at(s, j);
                        assert(t.has_word_at(s, j));
                    }
                }
            }
            assert forall|s: Seq<char>| #[trigger] t.words().contains_key(s) implies t.words()[s] == m[s] by {
                let j = choose|j: int| t.has_word_at(s, j);
                assert(t.words()[t.paths()[j]] == t.values@[j]->0@);
                if s != word {
                    assert(j != node);
                    assert(old_t.has_word_at(s, j));
                    assert(old_t.words()[old_t.paths()[j]] == old_t.values@[j]->0@);
                }
            }
            assert(t.words() =~= m);
            assert forall|j: int, m: int|
                0 <= j < t.len() && 0 <= m <= t.paths()[j].len() implies #[trigger] t.has_path(
                    t.paths()[j].take(m),
                ) by {
                assert(old_t.has_path(old_t.paths()[j].take(m)));
                let i = choose|i: int| 0 <= i < old_t.len() && #[trigger] old_t.paths()[i] == old_t.paths()[j].take(m);
                assert(t.paths()[i] == t.paths()[j].take(m));
            }
            assert forall|i: int, d: char|
                0 <= i < t.len() && #[trigger] t.child(i, d) is Some implies {
                    let m = t.child(i, d)->0;
                    &&& m < t.len()
                    &&& t.paths()[m as int] == t.paths()[i].push(d)
                } by {
                assert(t.child(i, d) == old_t.child(i, d));
            }
            assert forall|j: int| 0 < j < t.len() implies #[trigger] t.has_parent_edge(j) by {
                assert(old_t.has_parent_edge(j));
                let (i, d) = choose|i: int, d: char|
                    0 <= i < old_t.len() && #[trigger] old_t.child(i, d) is Some && old_t.child(i, d)->0 == j;
                assert(t.child(i, d) == old_t.child(i, d));
            }
        }
    }

    /// Adds the word `source` with target `target`, replacing an earlier target of
    /// the same word.
    fn add_word(&mut self, source: &str, target: &str)
        requires
            old(self).wf(),
        ensures
            final(self).wf(),
            final(self)@ == old(self)@.insert(source@, target@),
    {
        let src = chars_of(source);
        self.insert_word(&src, 0, src.len(), target.to_owned());
        assert(src@.subrange(0, src@.len() as int) =~= source@);
    }

    /// Adds the entries of a dictionary text in the compact format, in order.
    fn load_dict_str(&mut self, dict: &str)
        requires
            old(self).wf(),
        ensures
            final(self).wf(),
            final(self)@ == insert_all(old(self)@, text_entries(dict@)),
    {
        let chars = chars_of(dict);
        let len = chars.len();
        let mut start: usize = 0;
        assert(chars@.skip(0) =~= chars@);
        loop
            invariant
                self.wf(),
                start <= len == chars@.len(),
                insert_all(self@, text_entries(chars@.skip(start as int))) == insert_all(
                    old(self)@,
                    text_entries(dict@),
                ),
            decreases len - start,
        {
            let ghost rest = chars@.skip(start as int);
            let sep = find_separator(&chars, start, len);
            let end = match sep {
                Some(k) => k,
                None => len,
            };
            let ghost line = chars@.subrange(start as int, end as int);
            let ghost before = self@;
            proof {
                lemma_first_separator(rest);
                assert(chars@.subrange(start as int, len as int) =~= rest);
                assert(line =~= rest.take(end - start));
                if end < len {
                    assert(rest.skip(end - start + 1) =~= chars@.skip(end + 1));
                    lemma_insert_all_concat(before, line_entries(line), text_entries(chars@.skip(end + 1)));
                } else {
                    assert(rest.take(end - start) =~= rest);
                }
            }
            match parse_line_at(&chars, start, end) {
                Some((lo, k, hi)) => {
                    let target = string_of(&chars, k + 1, hi);
                    self.insert_word(&chars, lo, k, target);
                },
                None => {},
            }
            proof {
                let l = line_entries(line);
                if l.len() > 0 {
                    let e = l[0];
                    assert(l.skip(1) =~= Seq::<(Seq<char>, Seq<char>)>::empty());
                    assert(insert_all(before.insert(e.0, e.1), l.skip(1)) == before.insert(e.0, e.1));
                }
                assert(self@ == insert_all(before, l));
            }
            match sep {
                Some(k) => {
                    start = k + 1;
                },
                None => {
                    return;
                },
            }
        }
    }

    /// Converts `input` by longest match: at each position the longest word of the
    /// trie (of at least one character) that starts there is replaced by its target;
    /// a character that starts no word is kept.
    fn convert(&self, input: &str) -> (r: String)
        requires
            self.wf(),
        ensures
            r@ == convert_text(self@, input@),
    {
        let chars = chars_of(input);
        let mut result = String::new();
        let mut i: usize = 0;
        let ghost d = self@;
        assert(chars@.skip(0) =~= chars@);
        assert(result@ + chars@ =~= chars@);
        while i < chars.len()
            invariant
                self.wf(),
                d == self@,
                i <= chars@.len(),
                result@ + convert_text(d, chars@.skip(i as int)) == convert_text(d, chars@),
            decreases chars@.len() - i,
        {
            let ghost rest = chars@.skip(i as int);
            let mut node: usize = 0;
            let mut j: usize = i;
            let mut best: Option<(usize, usize)> = None;
            let mut stuck = false;
            assert(chars@.subrange(i as int, i as int) =~= Seq::<char>::empty());
            while j < chars.len() && !stuck
                invariant
                    self.wf(),
                    d == self@,
                    rest == chars@.skip(i as int),
                    i < chars@.len(),
                    i <= j <= chars@.len(),
                    node < self.len(),
                    self.paths()[node as int] == chars@.subrange(i as int, j as int),
                    stuck ==> j < chars@.len() && !self.has_path(
                        chars@.subrange(i as int, j + 1),
                    ),
                    match best {
                        None => longest_key_len(d, rest, (j - i) as nat) == 0,
                        Some((e, n)) => {
                            &&& i < e <= j
                            &&& longest_key_len(d, rest, (j - i) as nat) == e - i
                            &&& n < self.len()
                            &&& self.paths()[n as int] == chars@.subrange(i as int, e as int)
                            &&& self.values@[n as int] is Some
                        },
                    },
                decreases chars@.len() - j, if stuck { 0int } else { 1int },
            {
                let c = chars[j];
                assert(chars@.subrange(i as int, j as int).push(c) =~= chars@.subrange(
                    i as int,
                    j + 1,
                ));
                match self.find_child(node, c) {
                    None => {
                        stuck = true;
                    },
                    Some(next) => {
                        j += 1;
                        node = next;
                        assert(rest.take((j - i) as int) =~= chars@.subrange(i as int, j as int));
                        if self.values[next].is_some() {
                            best = Some((j, next));
                        }
                    },
                }
            }
            proof {
                let n = rest.len();
                assert(n == chars@.len() - i);
                if stuck {
                    assert forall|k: int| (j - i) < k <= n implies !#[trigger] d.contains_key(
                        rest.take(k),
                    ) by {
                        if d.contains_key(rest.take(k)) {
                            assert(self.has_path(rest.take(k)));
                            let q = choose|q: int|
                                0 <= q < self.len() && #[trigger] self.paths()[q] == rest.take(k);
                            assert(self.has_path(self.paths()[q].take(j - i + 1)));
                            assert(self.paths()[q].take(j - i + 1) =~= chars@.subrange(
                                i as int,
                                j + 1,
                            ));
                        }
                    }
                }
                lemma_longest_key_len_stable(d, rest, (j - i) as nat, n);
                lemma_longest_key_len_bound(d, rest, n);
            }
            match best {
                Some((e, n)) => {
                    let value = self.values[n].as_ref().unwrap();
                    proof {
                        assert(rest.take((e - i) as int) =~= chars@.subrange(i as int, e as int));
                        assert(rest.skip((e - i) as int) =~= chars@.skip(e as int));
                        assert(d[rest.take((e - i) as int)] == value@);
                    }
                    result.append(value.as_str());
                    i = e;
                },
                None => {
                    proof {
                        assert(rest[0] == chars@[i as int]);
                        assert(rest.skip(1) =~= chars@.skip(i + 1));
                    }
                    push_char(&mut result, chars[i]);
                    i += 1;
                },
            }
            proof {
                assert(result@ + convert_text(d, chars@.skip(i as int)) =~= convert_text(d, chars@));
            }
        }
        assert(chars@.skip(i as int) =~= Seq::<char>::empty());
        result
    }

    /// The child of `node` along character `c`, if there is one.
    fn find_child(&self, node: usize, c: char) -> (r: Option<usize>)
        requires
            self.wf(),
            node < self.len(),
        ensures
            match r {
                Some(n) => n < self.len() && self.paths()[n as int] == self.paths()[node as int].push(c),
                None => !self.has_path(self.paths()[node as int].push(c)),
            },
    {
        let r = match self.children[node].get(&(c as u32)) {
            Some(n) => Some(*n),
            None => None,
        };
        proof {
            assert(r == self.child(node as int, c));
            let p = self.paths()[node as int].push(c);
            if r is None && self.has_path(p) {
                let j = choose|j: int| 0 <= j < self.len() && #[trigger] self.paths()[j] == p;
                assert(self.paths()[j].len() > 0);
                assert(j != 0);
                assert(self.has_parent_edge(j));
                let (i, d) = choose|i: int, d: char|
                    0 <= i < self.len() && #[trigger] self.child(i, d) is Some && self.child(i, d)->0 == j;
                assert(self.paths()[j] == self.paths()[i].push(d));
                assert(self.paths()[i] =~= p.drop_last());
                assert(self.paths()[node as int] =~= p.drop_last());
                assert(i == node);
                assert(self.paths()[i].push(d).last() == d);
                assert(p.last() == c);
                assert(d == c);
            }
        }
        r
    }
}

impl Nodes {
    /// A copy of the nodes, edge for edge and target for target.
    fn copy(&self) -> (r: Nodes)
        requires
            self.wf(),
        ensures
            r.wf(),
            r@ == self@,
    {
        let mut children: Vec<HashMap<u32, usize>> = Vec::new();
        let mut i: usize = 0;
        while i < self.children.len()
            invariant
                i <= self.children@.len(),
                children@.len() == i,
                forall|q: int| 0 <= q < i ==> (#[trigger] children@[q])@ == self.children@[q]@,
            decreases self.children@.len() - i,
        {
            children.push(self.children[i].clone());
            i += 1;
        }
        let mut parents: Vec<(usize, char)> = Vec::new();
        let mut i: usize = 0;
        while i < self.parents.len()
            invariant
                i <= self.parents@.len(),
                parents@ == self.parents@.take(i as int),
            decreases self.parents@.len() - i,
        {
            parents.push(self.parents[i]);
            i += 1;
            assert(parents@ =~= self.parents@.take(i as int));
        }
        assert(self.parents@.take(i as int) =~= self.parents@);
        let mut values: Vec<Option<String>> = Vec::new();
        let mut i: usize = 0;
        while i < self.values.len()
            invariant
                i <= self.values@.len(),
                values@.len() == i,
                forall|q: int|
                    0 <= q < i ==> ((#[trigger] values@[q]) is Some <==> self.values@[q] is Some),
                forall|q: int| 0 <= q < i && (#[trigger] values@[q]) is Some ==> values@[q]->0@ == self.values@[q]->0@,
            decreases self.values@.len() - i,
        {
            let v = match &self.values[i] {
                Some(t) => Some(t.clone()),
                None => None,
            };
            values.push(v);
            i += 1;
        }
        let r = Nodes { children, parents, values };
        proof {
            assert(r.paths() =~= self.paths());
            r.lemma_words();
            assert forall|s: Seq<char>| #[trigger] r.words().contains_key(s) == self.words().contains_key(s) by {
                if r.words().contains_key(s) {
                    let j = choose|j: int| r.has_word_at(s, j);
                    assert(self.has_word_at(s, j));
                }
                if self.words().contains_key(s) {
                    let j = choose|j: int| self.has_word_at(s, j);
                    assert(r.has_word_at(s, j));
                }
            }
            assert forall|s: Seq<char>| #[trigger] r.words().contains_key(s) implies r.words()[s] == self.words()[s] by {
                let j = choose|j: int| r.has_word_at(s, j);
                assert(self.has_word_at(s, j));
                assert(r.words()[r.paths()[j]] == r.values@[j]->0@);
                assert(self.words()[self.paths()[j]] == self.values@[j]->0@);
            }
            assert(r.words() =~= self.words());
            assert forall|i: int, d: char| 0 <= i < r.len() implies #[trigger] r.child(i, d) == self.child(i, d) by {
                assert(r.children@[i]@ == self.children@[i]@);
            }
            assert forall|j: int| 0 < j < r.len() implies #[trigger] r.has_parent_edge(j) by {
                assert(self.has_parent_edge(j));
                let (i, d) = choose|i: int, d: char|
                    0 <= i < self.len() && #[trigger] self.child(i, d) is Some && self.child(i, d)->0 == j;
                assert(r.child(i, d) == self.child(i, d));
            }
            assert forall|j: int, m: int|
                0 <= j < r.len() && 0 <= m <= r.paths()[j].len() implies #[trigger] r.has_path(
                    r.paths()[j].take(m),
                ) by {
                assert(self.has_path(self.paths()[j].take(m)));
                let i = choose|i: int| 0 <= i < self.len() && #[trigger] self.paths()[i] == self.paths()[j].take(m);
                assert(r.paths()[i] == r.paths()[j].take(m));
            }
        }
        r
    }
}

/// A dictionary stored as a trie, read by longest match.
#[derive(Debug)]
pub struct Trie {
    nodes: Nodes,
}

impl View for Trie {
    type V = Map<Seq<char>, Seq<char>>;

    /// The words of the trie and their targets.
    closed spec fn view(&self) -> Map<Seq<char>, Seq<char>> {
        self.nodes@
    }
}

impl Default for Trie {
    /// An empty trie.
    fn default() -> (t: Trie)
        ensures
            t@ == Map::<Seq<char>, Seq<char>>::empty(),
    {
        Trie::new()
    }
}

impl Clone for Trie {
    /// A trie with the same words and targets.
    fn clone(&self) -> (t: Trie)
        ensures
            t@ == self@,
    {
        proof {
            use_type_invariant(self);
        }
        Trie { nodes: self.nodes.copy() }
    }
}

impl Trie {
    #[verifier::type_invariant]
    spec fn nodes_wf(self) -> bool {
        self.nodes.wf()
    }

    /// An empty trie.
    pub fn new() -> (t: Trie)
        ensures
            t@ == Map::<Seq<char>, Seq<char>>::empty(),
    {
        Trie { nodes: Nodes::new() }
    }

    /// Adds the word `source` with target `target`, replacing an earlier target of
    /// the same word.
    pub fn add_word(&mut self, source: &str, target: &str)
        ensures
            final(self)@ == old(self)@.insert(source@, target@),
    {
        proof {
            use_type_invariant(&*self);
        }
        let mut nodes = Nodes::new();
        std::mem::swap(&mut nodes, &mut self.nodes);
        nodes.add_word(source, target);
        self.nodes = nodes;
    }

    /// Adds the entries of a dictionary text in the compact format, in order.
    pub fn load_dict_str(&mut self, dict: &str)
        ensures
            final(self)@ == insert_all(old(self)@, text_entries(dict@)),
    {
        proof {
            use_type_invariant(&*self);
        }
        let mut nodes = Nodes::new();
        std::mem::swap(&mut nodes, &mut self.nodes);
        nodes.load_dict_str(dict);
        self.nodes = nodes;
    }

    /// Adds a list of entries, in order.
    pub fn load_entries(&mut self, dict: &[DictEntry])
        ensures
            final(self)@ == insert_all(old(self)@, entry_pairs(dict@)),
    {
        let mut i: usize = 0;
        assert(entry_pairs(dict@).skip(0) =~= entry_pairs(dict@));
        while i < dict.len()
            invariant
                i <= dict@.len(),
                insert_all(self@, entry_pairs(dict@).skip(i as int)) == insert_all(
                    old(self)@,
                    entry_pairs(dict@),
                ),
            decreases dict@.len() - i,
        {
            let entry = &dict[i];
            let ghost rest = entry_pairs(dict@).skip(i as int);
            assert(rest[0] == (entry.source@, entry.target@));
            assert(rest.skip(1) =~= entry_pairs(dict@).skip(i + 1));
            self.add_word(entry.source.as_str(), entry.target.as_str());
            i += 1;
        }
        assert(entry_pairs(dict@).skip(i as int) =~= Seq::<(Seq<char>, Seq<char>)>::empty());
    }

    /// Adds the entries of every dictionary of a group, one dictionary after the other.
    pub fn load_dict_group(&mut self, group: &DictGroup)
        ensures
            final(self)@ == insert_all(old(self)@, dicts_entries(group@)),
    {
        group.load_into(self);
    }

    /// Converts `input` by longest match: at each position the longest word of the
    /// trie (of at least one character) that starts there is replaced by its target;
    /// a character that starts no word is kept.
    pub fn convert(&self, input: &str) -> (r: String)
        ensures
            r@ == convert_text(self@, input@),
    {
        proof {
            use_type_invariant(self);
        }
        self.nodes.convert(input)
    }
}

} // verus!
