use vstd::prelude::*;

use crate::dict_data;
use crate::dictionary::{
    DictView, dict_entries, dicts_entries, entries_of, insert_all, last_target, law_last_entry_counts, lemma_entries_at_end,
    lemma_entry_at, plain_from, text_entries,
};
use crate::locale::{from, to};
use crate::pipeline::{group_dict, undoes};

verus! {

/// Whether, for each entry `(s, t)` of `e` from position `j` on with `s != t`, the last
/// entry for `t` in `src` has target `s`.
spec fn undone_from(e: Seq<(Seq<char>, Seq<char>)>, src: Seq<(Seq<char>, Seq<char>)>, j: int) -> bool
    decreases e.len() - j,
{
    if 0 <= j < e.len() {
        (e[j].0 != e[j].1 ==> last_target(src, e[j].1, src.len() as int) == Some(e[j].0)) && undone_from(
            e,
            src,
            j + 1,
        )
    } else {
        true
    }
}

proof fn lemma_undone_from(e: Seq<(Seq<char>, Seq<char>)>, src: Seq<(Seq<char>, Seq<char>)>, j: int)
    requires
        0 <= j,
        undone_from(e, src, j),
    ensures
        forall|i: int|
            j <= i < e.len() && (#[trigger] e[i]).0 != e[i].1 ==> last_target(src, e[i].1, src.len() as int)
                == Some(e[i].0),
    decreases e.len() - j,
{
    if j < e.len() {
        lemma_undone_from(e, src, j + 1);
    }
}

proof fn lemma_undoes(
    source: Seq<DictView>,
    target: Seq<DictView>,
    e: Seq<(Seq<char>, Seq<char>)>,
    src: Seq<(Seq<char>, Seq<char>)>,
)
    requires
        dicts_entries(target) == e,
        dicts_entries(source) == src,
        undone_from(e, src, 0),
    ensures
        undoes(source, target),
{
    lemma_undone_from(e, src, 0);
    assert(src.take(src.len() as int) =~= src);
    assert forall|j: int|
        0 <= j < e.len() && (#[trigger] e[j]).0 != e[j].1 implies group_dict(source).contains_key(e[j].1)
            && group_dict(source)[e[j].1] == e[j].0 by {
        law_last_entry_counts(Map::empty(), src, e[j].1, src.len() as int);
    }
}

proof fn lemma_one_dict(d: DictView)
    ensures
        dicts_entries(seq![d]) == dict_entries(d),
{
    assert(seq![d].drop_last() =~= Seq::<DictView>::empty());
    assert(dicts_entries(Seq::<DictView>::empty()) == Seq::<(Seq<char>, Seq<char>)>::empty());
    assert(seq![d].last() == d);
    assert(Seq::<(Seq<char>, Seq<char>)>::empty() + dict_entries(d) =~= dict_entries(d));
}

proof fn lemma_two_dicts(d: DictView, f: DictView)
    ensures
        dicts_entries(seq![d, f]) == dict_entries(d) + dict_entries(f),
{
    assert(seq![d, f].drop_last() =~= seq![d]);
    lemma_one_dict(d);
}

/// The entries of the dictionary of Taiwan forms.
pub open spec fn tw_variant_pairs() -> Seq<(Seq<char>, Seq<char>)> {
    seq![
        (seq!['僞'], seq!['偽']),
        (seq!['啓'], seq!['啟']),
        (seq!['喫'], seq!['吃']),
        (seq!['嫺'], seq!['嫻']),
        (seq!['嬀'], seq!['媯']),
        (seq!['峯'], seq!['峰']),
        (seq!['幺'], seq!['么']),
        (seq!['擡'], seq!['抬']),
        (seq!['棱'], seq!['稜']),
        (seq!['為'], seq!['為']),
        (seq!['爲'], seq!['為']),
        (seq!['牀'], seq!['床']),
        (seq!['綫'], seq!['線']),
        (seq!['羣'], seq!['群']),
        (seq!['衆'], seq!['眾']),
        (seq!['説'], seq!['說']),
        (seq!['衞'], seq!['衛']),
        (seq!['裏'], seq!['裡']),
        (seq!['鉢'], seq!['缽']),
        (seq!['麪'], seq!['麵']),
        (seq!['黴'], seq!['霉']),
        (seq!['粘', '土'], seq!['黏', '土']),
        (seq!['着'], seq!['著'])
    ]
}

/// `TW_VARIANTS` holds exactly the entries of `tw_variant_pairs()`, in order.
#[verifier::spinoff_prover]
#[verifier::rlimit(100)]
proof fn lemma_tw_variant_pairs_entries()
    ensures
        text_entries(dict_data::TW_VARIANTS@) == tw_variant_pairs(),
{
    let s = dict_data::TW_VARIANTS@;
    assert(entries_of(s) == tw_variant_pairs()) by {
        reveal_strlit("僞\t偽\n啓\t啟\n喫\t吃\n嫺\t嫻\n嬀\t媯\n峯\t峰\n幺\t么\n擡\t抬\n棱\t稜\n為\t為\n爲\t為\n牀\t床\n綫\t線\n羣\t群\n衆\t眾\n説\t說\n衞\t衛\n裏\t裡\n鉢\t缽\n麪\t麵\n黴\t霉\n粘土\t黏土\n着\t著\n");
        reveal_with_fuel(plain_from, 9);
        assert(s.skip(0) =~= s);
        assert(s.subrange(0, 4) =~= seq!['僞'] + seq!['\t'] + seq!['偽'] + seq!['\n']);
        lemma_entry_at(s, 0, seq!['僞'], seq!['偽']);
        assert(s.subrange(4, 8) =~= seq!['啓'] + seq!['\t'] + seq!['啟'] + seq!['\n']);
        lemma_entry_at(s, 4, seq!['啓'], seq!['啟']);
        assert(s.subrange(8, 12) =~= seq!['喫'] + seq!['\t'] + seq!['吃'] + seq!['\n']);
        lemma_entry_at(s, 8, seq!['喫'], seq!['吃']);
        assert(s.subrange(12, 16) =~= seq!['嫺'] + seq!['\t'] + seq!['嫻'] + seq!['\n']);
        lemma_entry_at(s, 12, seq!['嫺'], seq!['嫻']);
        assert(s.subrange(16, 20) =~= seq!['嬀'] + seq!['\t'] + seq!['媯'] + seq!['\n']);
        lemma_entry_at(s, 16, seq!['嬀'], seq!['媯']);
        assert(s.subrange(20, 24) =~= seq!['峯'] + seq!['\t'] + seq!['峰'] + seq!['\n']);
        lemma_entry_at(s, 20, seq!['峯'], seq!['峰']);
        assert(s.subrange(24, 28) =~= seq!['幺'] + seq!['\t'] + seq!['么'] + seq!['\n']);
        lemma_entry_at(s, 24, seq!['幺'], seq!['么']);
        assert(s.subrange(28, 32) =~= seq!['擡'] + seq!['\t'] + seq!['抬'] + seq!['\n']);
        lemma_entry_at(s, 28, seq!['擡'], seq!['抬']);
        assert(s.subrange(32, 36) =~= seq!['棱'] + seq!['\t'] + seq!['稜'] + seq!['\n']);
        lemma_entry_at(s, 32, seq!['棱'], seq!['稜']);
        assert(s.subrange(36, 40) =~= seq!['為'] + seq!['\t'] + seq!['為'] + seq!['\n']);
        lemma_entry_at(s, 36, seq!['為'], seq!['為']);
        assert(s.subrange(40, 44) =~= seq!['爲'] + seq!['\t'] + seq!['為'] + seq!['\n']);
        lemma_entry_at(s, 40, seq!['爲'], seq!['為']);
        assert(s.subrange(44, 48) =~= seq!['牀'] + seq!['\t'] + seq!['床'] + seq!['\n']);
        lemma_entry_at(s, 44, seq!['牀'], seq!['床']);
        assert(s.subrange(48, 52) =~= seq!['綫'] + seq!['\t'] + seq!['線'] + seq!['\n']);
        lemma_entry_at(s, 48, seq!['綫'], seq!['線']);
        assert(s.subrange(52, 56) =~= seq!['羣'] + seq!['\t'] + seq!['群'] + seq!['\n']);
        lemma_entry_at(s, 52, seq!['羣'], seq!['群']);
        assert(s.subrange(56, 60) =~= seq!['衆'] + seq!['\t'] + seq!['眾'] + seq!['\n']);
        lemma_entry_at(s, 56, seq!['衆'], seq!['眾']);
        assert(s.subrange(60, 64) =~= seq!['説'] + seq!['\t'] + seq!['說'] + seq!['\n']);
        lemma_entry_at(s, 60, seq!['説'], seq!['說']);
        assert(s.subrange(64, 68) =~= seq!['衞'] + seq!['\t'] + seq!['衛'] + seq!['\n']);
        lemma_entry_at(s, 64, seq!['衞'], seq!['衛']);
        assert(s.subrange(68, 72) =~= seq!['裏'] + seq!['\t'] + seq!['裡'] + seq!['\n']);
        lemma_entry_at(s, 68, seq!['裏'], seq!['裡']);
        assert(s.subrange(72, 76) =~= seq!['鉢'] + seq!['\t'] + seq!['缽'] + seq!['\n']);
        lemma_entry_at(s, 72, seq!['鉢'], seq!['缽']);
        assert(s.subrange(76, 80) =~= seq!['麪'] + seq!['\t'] + seq!['麵'] + seq!['\n']);
        lemma_entry_at(s, 76, seq!['麪'], seq!['麵']);
        assert(s.subrange(80, 84) =~= seq!['黴'] + seq!['\t'] + seq!['霉'] + seq!['\n']);
        lemma_entry_at(s, 80, seq!['黴'], seq!['霉']);
        assert(s.subrange(84, 90) =~= seq!['粘', '土'] + seq!['\t'] + seq!['黏', '土'] + seq!['\n']);
        lemma_entry_at(s, 84, seq!['粘', '土'], seq!['黏', '土']);
        assert(s.subrange(90, 94) =~= seq!['着'] + seq!['\t'] + seq!['著'] + seq!['\n']);
        lemma_entry_at(s, 90, seq!['着'], seq!['著']);
        lemma_entries_at_end(s);
        assert(tw_variant_pairs() =~= seq![(seq!['僞'], seq!['偽'])] + (seq![(seq!['啓'], seq!['啟'])] + (seq![(seq!['喫'], seq!['吃'])] + (seq![(seq!['嫺'], seq!['嫻'])] + (seq![(seq!['嬀'], seq!['媯'])] + (seq![(seq!['峯'], seq!['峰'])] + (seq![(seq!['幺'], seq!['么'])] + (seq![(seq!['擡'], seq!['抬'])] + (seq![(seq!['棱'], seq!['稜'])] + (seq![(seq!['為'], seq!['為'])] + (seq![(seq!['爲'], seq!['為'])] + (seq![(seq!['牀'], seq!['床'])] + (seq![(seq!['綫'], seq!['線'])] + (seq![(seq!['羣'], seq!['群'])] + (seq![(seq!['衆'], seq!['眾'])] + (seq![(seq!['説'], seq!['說'])] + (seq![(seq!['衞'], seq!['衛'])] + (seq![(seq!['裏'], seq!['裡'])] + (seq![(seq!['鉢'], seq!['缽'])] + (seq![(seq!['麪'], seq!['麵'])] + (seq![(seq!['黴'], seq!['霉'])] + (seq![(seq!['粘', '土'], seq!['黏', '土'])] + (seq![(seq!['着'], seq!['著'])] + (Seq::<(Seq<char>, Seq<char>)>::empty()))))))))))))))))))))))));
    }
    reveal(entries_of);
}

/// The entries of the dictionary from Taiwan forms back to traditional characters.
pub open spec fn tw_variant_rev_pairs() -> Seq<(Seq<char>, Seq<char>)> {
    seq![
        (seq!['偽'], seq!['僞']),
        (seq!['啟'], seq!['啓']),
        (seq!['吃'], seq!['喫']),
        (seq!['嫻'], seq!['嫺']),
        (seq!['媯'], seq!['嬀']),
        (seq!['峰'], seq!['峯']),
        (seq!['么'], seq!['幺']),
        (seq!['抬'], seq!['擡']),
        (seq!['稜'], seq!['棱']),
        (seq!['為'], seq!['爲']),
        (seq!['床'], seq!['牀']),
        (seq!['線'], seq!['綫']),
        (seq!['群'], seq!['羣']),
        (seq!['眾'], seq!['衆']),
        (seq!['說'], seq!['説']),
        (seq!['衛'], seq!['衞']),
        (seq!['裡'], seq!['裏']),
        (seq!['缽'], seq!['鉢']),
        (seq!['麵'], seq!['麪']),
        (seq!['霉'], seq!['黴']),
        (seq!['著'], seq!['着'])
    ]
}

/// `TW_VARIANTS_REV` holds exactly the entries of `tw_variant_rev_pairs()`, in order.
#[verifier::spinoff_prover]
#[verifier::rlimit(100)]
proof fn lemma_tw_variant_rev_pairs_entries()
    ensures
        text_entries(dict_data::TW_VARIANTS_REV@) == tw_variant_rev_pairs(),
{
    let s = dict_data::TW_VARIANTS_REV@;
    assert(entries_of(s) == tw_variant_rev_pairs()) by {
        reveal_strlit("偽\t僞\n啟\t啓\n吃\t喫\n嫻\t嫺\n媯\t嬀\n峰\t峯\n么\t幺\n抬\t擡\n稜\t棱\n為\t爲\n床\t牀\n線\t綫\n群\t羣\n眾\t衆\n說\t説\n衛\t衞\n裡\t裏\n缽\t鉢\n麵\t麪\n霉\t黴\n著\t着\n");
        reveal_with_fuel(plain_from, 9);
        assert(s.skip(0) =~= s);
        assert(s.subrange(0, 4) =~= seq!['偽'] + seq!['\t'] + seq!['僞'] + seq!['\n']);
        lemma_entry_at(s, 0, seq!['偽'], seq!['僞']);
        assert(s.subrange(4, 8) =~= seq!['啟'] + seq!['\t'] + seq!['啓'] + seq!['\n']);
        lemma_entry_at(s, 4, seq!['啟'], seq!['啓']);
        assert(s.subrange(8, 12) =~= seq!['吃'] + seq!['\t'] + seq!['喫'] + seq!['\n']);
        lemma_entry_at(s, 8, seq!['吃'], seq!['喫']);
        assert(s.subrange(12, 16) =~= seq!['嫻'] + seq!['\t'] + seq!['嫺'] + seq!['\n']);
        lemma_entry_at(s, 12, seq!['嫻'], seq!['嫺']);
        assert(s.subrange(16, 20) =~= seq!['媯'] + seq!['\t'] + seq!['嬀'] + seq!['\n']);
        lemma_entry_at(s, 16, seq!['媯'], seq!['嬀']);
        assert(s.subrange(20, 24) =~= seq!['峰'] + seq!['\t'] + seq!['峯'] + seq!['\n']);
        lemma_entry_at(s, 20, seq!['峰'], seq!['峯']);
        assert(s.subrange(24, 28) =~= seq!['么'] + seq!['\t'] + seq!['幺'] + seq!['\n']);
        lemma_entry_at(s, 24, seq!['么'], seq!['幺']);
        assert(s.subrange(28, 32) =~= seq!['抬'] + seq!['\t'] + seq!['擡'] + seq!['\n']);
        lemma_entry_at(s, 28, seq!['抬'], seq!['擡']);
        assert(s.subrange(32, 36) =~= seq!['稜'] + seq!['\t'] + seq!['棱'] + seq!['\n']);
        lemma_entry_at(s, 32, seq!['稜'], seq!['棱']);
        assert(s.subrange(36, 40) =~= seq!['為'] + seq!['\t'] + seq!['爲'] + seq!['\n']);
        lemma_entry_at(s, 36, seq!['為'], seq!['爲']);
        assert(s.subrange(40, 44) =~= seq!['床'] + seq!['\t'] + seq!['牀'] + seq!['\n']);
        lemma_entry_at(s, 40, seq!['床'], seq!['牀']);
        assert(s.subrange(44, 48) =~= seq!['線'] + seq!['\t'] + seq!['綫'] + seq!['\n']);
        lemma_entry_at(s, 44, seq!['線'], seq!['綫']);
        assert(s.subrange(48, 52) =~= seq!['群'] + seq!['\t'] + seq!['羣'] + seq!['\n']);
        lemma_entry_at(s, 48, seq!['群'], seq!['羣']);
        assert(s.subrange(52, 56) =~= seq!['眾'] + seq!['\t'] + seq!['衆'] + seq!['\n']);
        lemma_entry_at(s, 52, seq!['眾'], seq!['衆']);
        assert(s.subrange(56, 60) =~= seq!['說'] + seq!['\t'] + seq!['説'] + seq!['\n']);
        lemma_entry_at(s, 56, seq!['說'], seq!['説']);
        assert(s.subrange(60, 64) =~= seq!['衛'] + seq!['\t'] + seq!['衞'] + seq!['\n']);
        lemma_entry_at(s, 60, seq!['衛'], seq!['衞']);
        assert(s.subrange(64, 68) =~= seq!['裡'] + seq!['\t'] + seq!['裏'] + seq!['\n']);
        lemma_entry_at(s, 64, seq!['裡'], seq!['裏']);
        assert(s.subrange(68, 72) =~= seq!['缽'] + seq!['\t'] + seq!['鉢'] + seq!['\n']);
        lemma_entry_at(s, 68, seq!['缽'], seq!['鉢']);
        assert(s.subrange(72, 76) =~= seq!['麵'] + seq!['\t'] + seq!['麪'] + seq!['\n']);
        lemma_entry_at(s, 72, seq!['麵'], seq!['麪']);
        assert(s.subrange(76, 80) =~= seq!['霉'] + seq!['\t'] + seq!['黴'] + seq!['\n']);
        lemma_entry_at(s, 76, seq!['霉'], seq!['黴']);
        assert(s.subrange(80, 84) =~= seq!['著'] + seq!['\t'] + seq!['着'] + seq!['\n']);
        lemma_entry_at(s, 80, seq!['著'], seq!['着']);
        lemma_entries_at_end(s);
        assert(tw_variant_rev_pairs() =~= seq![(seq!['偽'], seq!['僞'])] + (seq![(seq!['啟'], seq!['啓'])] + (seq![(seq!['吃'], seq!['喫'])] + (seq![(seq!['嫻'], seq!['嫺'])] + (seq![(seq!['媯'], seq!['嬀'])] + (seq![(seq!['峰'], seq!['峯'])] + (seq![(seq!['么'], seq!['幺'])] + (seq![(seq!['抬'], seq!['擡'])] + (seq![(seq!['稜'], seq!['棱'])] + (seq![(seq!['為'], seq!['爲'])] + (seq![(seq!['床'], seq!['牀'])] + (seq![(seq!['線'], seq!['綫'])] + (seq![(seq!['群'], seq!['羣'])] + (seq![(seq!['眾'], seq!['衆'])] + (seq![(seq!['說'], seq!['説'])] + (seq![(seq!['衛'], seq!['衞'])] + (seq![(seq!['裡'], seq!['裏'])] + (seq![(seq!['缽'], seq!['鉢'])] + (seq![(seq!['麵'], seq!['麪'])] + (seq![(seq!['霉'], seq!['黴'])] + (seq![(seq!['著'], seq!['着'])] + (Seq::<(Seq<char>, Seq<char>)>::empty()))))))))))))))))))))));
    }
    reveal(entries_of);
}

/// The entries of the dictionary from Taiwan phrases back to traditional phrases.
pub open spec fn tw_variant_rev_phrase_pairs() -> Seq<(Seq<char>, Seq<char>)> {
    seq![
        (seq!['一', '口', '吃', '個'], seq!['一', '口', '喫', '個']),
        (seq!['吃', '口', '令'], seq!['喫', '口', '令']),
        (seq!['吃', '癟'], seq!['喫', '癟']),
        (seq!['吃', '虧'], seq!['喫', '虧']),
        (seq!['裡', '裡', '外', '外'], seq!['裏', '裏', '外', '外']),
        (seq!['黏', '土'], seq!['粘', '土'])
    ]
}

/// `TW_VARIANTS_REV_PHRASES` holds exactly the entries of `tw_variant_rev_phrase_pairs()`, in order.
#[verifier::spinoff_prover]
#[verifier::rlimit(100)]
proof fn lemma_tw_variant_rev_phrase_pairs_entries()
    ensures
        text_entries(dict_data::TW_VARIANTS_REV_PHRASES@) == tw_variant_rev_phrase_pairs(),
{
    let s = dict_data::TW_VARIANTS_REV_PHRASES@;
    assert(entries_of(s) == tw_variant_rev_phrase_pairs()) by {
        reveal_strlit("一口吃個\t一口喫個\n吃口令\t喫口令\n吃癟\t喫癟\n吃虧\t喫虧\n裡裡外外\t裏裏外外\n黏土\t粘土\n");
        reveal_with_fuel(plain_from, 9);
        assert(s.skip(0) =~= s);
        assert(s.subrange(0, 10) =~= seq!['一', '口', '吃', '個'] + seq!['\t'] + seq!['一', '口', '喫', '個'] + seq!['\n']);
        lemma_entry_at(s, 0, seq!['一', '口', '吃', '個'], seq!['一', '口', '喫', '個']);
        assert(s.subrange(10, 18) =~= seq!['吃', '口', '令'] + seq!['\t'] + seq!['喫', '口', '令'] + seq!['\n']);
        lemma_entry_at(s, 10, seq!['吃', '口', '令'], seq!['喫', '口', '令']);
        assert(s.subrange(18, 24) =~= seq!['吃', '癟'] + seq!['\t'] + seq!['喫', '癟'] + seq!['\n']);
        lemma_entry_at(s, 18, seq!['吃', '癟'], seq!['喫', '癟']);
        assert(s.subrange(24, 30) =~= seq!['吃', '虧'] + seq!['\t'] + seq!['喫', '虧'] + seq!['\n']);
        lemma_entry_at(s, 24, seq!['吃', '虧'], seq!['喫', '虧']);
        assert(s.subrange(30, 40) =~= seq!['裡', '裡', '外', '外'] + seq!['\t'] + seq!['裏', '裏', '外', '外'] + seq!['\n']);
        lemma_entry_at(s, 30, seq!['裡', '裡', '外', '外'], seq!['裏', '裏', '外', '外']);
        assert(s.subrange(40, 46) =~= seq!['黏', '土'] + seq!['\t'] + seq!['粘', '土'] + seq!['\n']);
        lemma_entry_at(s, 40, seq!['黏', '土'], seq!['粘', '土']);
        lemma_entries_at_end(s);
        assert(tw_variant_rev_phrase_pairs() =~= seq![(seq!['一', '口', '吃', '個'], seq!['一', '口', '喫', '個'])] + (seq![(seq!['吃', '口', '令'], seq!['喫', '口', '令'])] + (seq![(seq!['吃', '癟'], seq!['喫', '癟'])] + (seq![(seq!['吃', '虧'], seq!['喫', '虧'])] + (seq![(seq!['裡', '裡', '外', '外'], seq!['裏', '裏', '外', '外'])] + (seq![(seq!['黏', '土'], seq!['粘', '土'])] + (Seq::<(Seq<char>, Seq<char>)>::empty())))))));
    }
    reveal(entries_of);
}

/// The entries of the `tw` source group, in the order in which they are loaded.
spec fn tw_source_pairs() -> Seq<(Seq<char>, Seq<char>)> {
    tw_variant_rev_pairs() + tw_variant_rev_phrase_pairs()
}

#[verifier::spinoff_prover]
#[verifier::rlimit(100)]
proof fn lemma_tw_undone()
    ensures
        undone_from(tw_variant_pairs(), tw_source_pairs(), 0),
{
    assert(undone_from(tw_variant_pairs(), tw_source_pairs(), 0)) by {
        assert(tw_source_pairs()[0].0.len() == 1 && tw_source_pairs()[0].0[0] == '偽' && tw_source_pairs()[0].0[0] == '偽');
        assert(tw_source_pairs()[1].0.len() == 1 && tw_source_pairs()[1].0[0] == '啟' && tw_source_pairs()[1].0[0] == '啟');
        assert(tw_source_pairs()[2].0.len() == 1 && tw_source_pairs()[2].0[0] == '吃' && tw_source_pairs()[2].0[0] == '吃');
        assert(tw_source_pairs()[3].0.len() == 1 && tw_source_pairs()[3].0[0] == '嫻' && tw_source_pairs()[3].0[0] == '嫻');
        assert(tw_source_pairs()[4].0.len() == 1 && tw_source_pairs()[4].0[0] == '媯' && tw_source_pairs()[4].0[0] == '媯');
        assert(tw_source_pairs()[5].0.len() == 1 && tw_source_pairs()[5].0[0] == '峰' && tw_source_pairs()[5].0[0] == '峰');
        assert(tw_source_pairs()[6].0.len() == 1 && tw_source_pairs()[6].0[0] == '么' && tw_source_pairs()[6].0[0] == '么');
        assert(tw_source_pairs()[7].0.len() == 1 && tw_source_pairs()[7].0[0] == '抬' && tw_source_pairs()[7].0[0] == '抬');
        assert(tw_source_pairs()[8].0.len() == 1 && tw_source_pairs()[8].0[0] == '稜' && tw_source_pairs()[8].0[0] == '稜');
        assert(tw_source_pairs()[9].0.len() == 1 && tw_source_pairs()[9].0[0] == '為' && tw_source_pairs()[9].0[0] == '為');
        assert(tw_source_pairs()[10].0.len() == 1 && tw_source_pairs()[10].0[0] == '床' && tw_source_pairs()[10].0[0] == '床');
        assert(tw_source_pairs()[11].0.len() == 1 && tw_source_pairs()[11].0[0] == '線' && tw_source_pairs()[11].0[0] == '線');
        assert(tw_source_pairs()[12].0.len() == 1 && tw_source_pairs()[12].0[0] == '群' && tw_source_pairs()[12].0[0] == '群');
        assert(tw_source_pairs()[13].0.len() == 1 && tw_source_pairs()[13].0[0] == '眾' && tw_source_pairs()[13].0[0] == '眾');
        assert(tw_source_pairs()[14].0.len() == 1 && tw_source_pairs()[14].0[0] == '說' && tw_source_pairs()[14].0[0] == '說');
        assert(tw_source_pairs()[15].0.len() == 1 && tw_source_pairs()[15].0[0] == '衛' && tw_source_pairs()[15].0[0] == '衛');
        assert(tw_source_pairs()[16].0.len() == 1 && tw_source_pairs()[16].0[0] == '裡' && tw_source_pairs()[16].0[0] == '裡');
        assert(tw_source_pairs()[17].0.len() == 1 && tw_source_pairs()[17].0[0] == '缽' && tw_source_pairs()[17].0[0] == '缽');
        assert(tw_source_pairs()[18].0.len() == 1 && tw_source_pairs()[18].0[0] == '麵' && tw_source_pairs()[18].0[0] == '麵');
        assert(tw_source_pairs()[19].0.len() == 1 && tw_source_pairs()[19].0[0] == '霉' && tw_source_pairs()[19].0[0] == '霉');
        assert(tw_source_pairs()[20].0.len() == 1 && tw_source_pairs()[20].0[0] == '著' && tw_source_pairs()[20].0[0] == '著');
        assert(tw_source_pairs()[21].0.len() == 4 && tw_source_pairs()[21].0[0] == '一' && tw_source_pairs()[21].0[3] == '個');
        assert(tw_source_pairs()[22].0.len() == 3 && tw_source_pairs()[22].0[0] == '吃' && tw_source_pairs()[22].0[2] == '令');
        assert(tw_source_pairs()[23].0.len() == 2 && tw_source_pairs()[23].0[0] == '吃' && tw_source_pairs()[23].0[1] == '癟');
        assert(tw_source_pairs()[24].0.len() == 2 && tw_source_pairs()[24].0[0] == '吃' && tw_source_pairs()[24].0[1] == '虧');
        assert(tw_source_pairs()[25].0.len() == 4 && tw_source_pairs()[25].0[0] == '裡' && tw_source_pairs()[25].0[3] == '外');
        assert(tw_source_pairs()[26].0.len() == 2 && tw_source_pairs()[26].0[0] == '黏' && tw_source_pairs()[26].0[1] == '土');
        assert(tw_variant_pairs()[0].0.len() == 1 && tw_variant_pairs()[0].0[0] == '僞' && tw_variant_pairs()[0].0[0] == '僞');
        assert(tw_variant_pairs()[0].1.len() == 1 && tw_variant_pairs()[0].1[0] == '偽' && tw_variant_pairs()[0].1[0] == '偽');
        assert(tw_variant_pairs()[1].0.len() == 1 && tw_variant_pairs()[1].0[0] == '啓' && tw_variant_pairs()[1].0[0] == '啓');
        assert(tw_variant_pairs()[1].1.len() == 1 && tw_variant_pairs()[1].1[0] == '啟' && tw_variant_pairs()[1].1[0] == '啟');
        assert(tw_variant_pairs()[2].0.len() == 1 && tw_variant_pairs()[2].0[0] == '喫' && tw_variant_pairs()[2].0[0] == '喫');
        assert(tw_variant_pairs()[2].1.len() == 1 && tw_variant_pairs()[2].1[0] == '吃' && tw_variant_pairs()[2].1[0] == '吃');
        assert(tw_variant_pairs()[3].0.len() == 1 && tw_variant_pairs()[3].0[0] == '嫺' && tw_variant_pairs()[3].0[0] == '嫺');
        assert(tw_variant_pairs()[3].1.len() == 1 && tw_variant_pairs()[3].1[0] == '嫻' && tw_variant_pairs()[3].1[0] == '嫻');
        assert(tw_variant_pairs()[4].0.len() == 1 && tw_variant_pairs()[4].0[0] == '嬀' && tw_variant_pairs()[4].0[0] == '嬀');
        assert(tw_variant_pairs()[4].1.len() == 1 && tw_variant_pairs()[4].1[0] == '媯' && tw_variant_pairs()[4].1[0] == '媯');
        assert(tw_variant_pairs()[5].0.len() == 1 && tw_variant_pairs()[5].0[0] == '峯' && tw_variant_pairs()[5].0[0] == '峯');
        assert(tw_variant_pairs()[5].1.len() == 1 && tw_variant_pairs()[5].1[0] == '峰' && tw_variant_pairs()[5].1[0] == '峰');
        assert(tw_variant_pairs()[6].0.len() == 1 && tw_variant_pairs()[6].0[0] == '幺' && tw_variant_pairs()[6].0[0] == '幺');
        assert(tw_variant_pairs()[6].1.len() == 1 && tw_variant_pairs()[6].1[0] == '么' && tw_variant_pairs()[6].1[0] == '么');
        assert(tw_variant_pairs()[7].0.len() == 1 && tw_variant_pairs()[7].0[0] == '擡' && tw_variant_pairs()[7].0[0] == '擡');
        assert(tw_variant_pairs()[7].1.len() == 1 && tw_variant_pairs()[7].1[0] == '抬' && tw_variant_pairs()[7].1[0] == '抬');
        assert(tw_variant_pairs()[8].0.len() == 1 && tw_variant_pairs()[8].0[0] == '棱' && tw_variant_pairs()[8].0[0] == '棱');
        assert(tw_variant_pairs()[8].1.len() == 1 && tw_variant_pairs()[8].1[0] == '稜' && tw_variant_pairs()[8].1[0] == '稜');
        assert(tw_variant_pairs()[9].0.len() == 1 && tw_variant_pairs()[9].0[0] == '為' && tw_variant_pairs()[9].0[0] == '為');
        assert(tw_variant_pairs()[9].1.len() == 1 && tw_variant_pairs()[9].1[0] == '為' && tw_variant_pairs()[9].1[0] == '為');
        assert(tw_variant_pairs()[10].0.len() == 1 && tw_variant_pairs()[10].0[0] == '爲' && tw_variant_pairs()[10].0[0] == '爲');
        assert(tw_variant_pairs()[10].1.len() == 1 && tw_variant_pairs()[10].1[0] == '為' && tw_variant_pairs()[10].1[0] == '為');
        assert(tw_variant_pairs()[11].0.len() == 1 && tw_variant_pairs()[11].0[0] == '牀' && tw_variant_pairs()[11].0[0] == '牀');
        assert(tw_variant_pairs()[11].1.len() == 1 && tw_variant_pairs()[11].1[0] == '床' && tw_variant_pairs()[11].1[0] == '床');
        assert(tw_variant_pairs()[12].0.len() == 1 && tw_variant_pairs()[12].0[0] == '綫' && tw_variant_pairs()[12].0[0] == '綫');
        assert(tw_variant_pairs()[12].1.len() == 1 && tw_variant_pairs()[12].1[0] == '線' && tw_variant_pairs()[12].1[0] == '線');
        assert(tw_variant_pairs()[13].0.len() == 1 && tw_variant_pairs()[13].0[0] == '羣' && tw_variant_pairs()[13].0[0] == '羣');
        assert(tw_variant_pairs()[13].1.len() == 1 && tw_variant_pairs()[13].1[0] == '群' && tw_variant_pairs()[13].1[0] == '群');
        assert(tw_variant_pairs()[14].0.len() == 1 && tw_variant_pairs()[14].0[0] == '衆' && tw_variant_pairs()[14].0[0] == '衆');
        assert(tw_variant_pairs()[14].1.len() == 1 && tw_variant_pairs()[14].1[0] == '眾' && tw_variant_pairs()[14].1[0] == '眾');
        assert(tw_variant_pairs()[15].0.len() == 1 && tw_variant_pairs()[15].0[0] == '説' && tw_variant_pairs()[15].0[0] == '説');
        assert(tw_variant_pairs()[15].1.len() == 1 && tw_variant_pairs()[15].1[0] == '說' && tw_variant_pairs()[15].1[0] == '說');
        assert(tw_variant_pairs()[16].0.len() == 1 && tw_variant_pairs()[16].0[0] == '衞' && tw_variant_pairs()[16].0[0] == '衞');
        assert(tw_variant_pairs()[16].1.len() == 1 && tw_variant_pairs()[16].1[0] == '衛' && tw_variant_pairs()[16].1[0] == '衛');
        assert(tw_variant_pairs()[17].0.len() == 1 && tw_variant_pairs()[17].0[0] == '裏' && tw_variant_pairs()[17].0[0] == '裏');
        assert(tw_variant_pairs()[17].1.len() == 1 && tw_variant_pairs()[17].1[0] == '裡' && tw_variant_pairs()[17].1[0] == '裡');
        assert(tw_variant_pairs()[18].0.len() == 1 && tw_variant_pairs()[18].0[0] == '鉢' && tw_variant_pairs()[18].0[0] == '鉢');
        assert(tw_variant_pairs()[18].1.len() == 1 && tw_variant_pairs()[18].1[0] == '缽' && tw_variant_pairs()[18].1[0] == '缽');
        assert(tw_variant_pairs()[19].0.len() == 1 && tw_variant_pairs()[19].0[0] == '麪' && tw_variant_pairs()[19].0[0] == '麪');
        assert(tw_variant_pairs()[19].1.len() == 1 && tw_variant_pairs()[19].1[0] == '麵' && tw_variant_pairs()[19].1[0] == '麵');
        assert(tw_variant_pairs()[20].0.len() == 1 && tw_variant_pairs()[20].0[0] == '黴' && tw_variant_pairs()[20].0[0] == '黴');
        assert(tw_variant_pairs()[20].1.len() == 1 && tw_variant_pairs()[20].1[0] == '霉' && tw_variant_pairs()[20].1[0] == '霉');
        assert(tw_variant_pairs()[21].0.len() == 2 && tw_variant_pairs()[21].0[0] == '粘' && tw_variant_pairs()[21].0[1] == '土');
        assert(tw_variant_pairs()[21].1.len() == 2 && tw_variant_pairs()[21].1[0] == '黏' && tw_variant_pairs()[21].1[1] == '土');
        assert(tw_variant_pairs()[22].0.len() == 1 && tw_variant_pairs()[22].0[0] == '着' && tw_variant_pairs()[22].0[0] == '着');
        assert(tw_variant_pairs()[22].1.len() == 1 && tw_variant_pairs()[22].1[0] == '著' && tw_variant_pairs()[22].1[0] == '著');
        reveal_with_fuel(undone_from, 25);
        reveal_with_fuel(last_target, 29);
    }
}

proof fn lemma_tw_target_entries()
    ensures
        dicts_entries(to::tw_dicts()) == tw_variant_pairs(),
{
    lemma_tw_variant_pairs_entries();
    lemma_one_dict(DictView::Text(dict_data::TW_VARIANTS@));
}

proof fn lemma_tw_source_entries()
    ensures
        dicts_entries(from::tw_dicts()) == tw_source_pairs(),
{
    lemma_tw_variant_rev_pairs_entries();
    lemma_tw_variant_rev_phrase_pairs_entries();
    lemma_two_dicts(DictView::Text(dict_data::TW_VARIANTS_REV@), DictView::Text(dict_data::TW_VARIANTS_REV_PHRASES@));
}

/// The `tw` source group undoes the `tw` target group.
pub proof fn lemma_tw_undoes()
    ensures
        undoes(from::tw_dicts(), to::tw_dicts()),
{
    lemma_tw_target_entries();
    lemma_tw_source_entries();
    lemma_tw_undone();
    lemma_undoes(from::tw_dicts(), to::tw_dicts(), tw_variant_pairs(), tw_source_pairs());
}

/// The entries of the dictionary of Hong Kong forms.
pub open spec fn hk_variant_pairs() -> Seq<(Seq<char>, Seq<char>)> {
    seq![
        (seq!['僞'], seq!['偽']),
        (seq!['兌'], seq!['兑']),
        (seq!['叄'], seq!['叁']),
        (seq!['只'], seq!['只']),
        (seq!['啓'], seq!['啓']),
        (seq!['喫'], seq!['吃']),
        (seq!['囪'], seq!['囱']),
        (seq!['妝'], seq!['妝']),
        (seq!['媼'], seq!['媪']),
        (seq!['嬀'], seq!['嬀']),
        (seq!['悅'], seq!['悦']),
        (seq!['慍'], seq!['愠']),
        (seq!['戶'], seq!['户']),
        (seq!['挩'], seq!['捝']),
        (seq!['搵'], seq!['揾']),
        (seq!['擡'], seq!['抬']),
        (seq!['敓'], seq!['敚']),
        (seq!['敘'], seq!['敍']),
        (seq!['晉'], seq!['晋']),
        (seq!['溫'], seq!['温']),
        (seq!['爲'], seq!['為']),
        (seq!['牀'], seq!['牀']),
        (seq!['痩'], seq!['瘦']),
        (seq!['眾'], seq!['衆']),
        (seq!['稅'], seq!['税']),
        (seq!['竈'], seq!['灶']),
        (seq!['糉'], seq!['粽']),
        (seq!['綠'], seq!['緑']),
        (seq!['纔'], seq!['才']),
        (seq!['脫'], seq!['脱']),
        (seq!['蔥'], seq!['葱']),
        (seq!['衛'], seq!['衞']),
        (seq!['裏'], seq!['裏']),
        (seq!['說'], seq!['説']),
        (seq!['蛻'], seq!['蜕']),
        (seq!['覈'], seq!['核']),
        (seq!['鉤'], seq!['鈎']),
        (seq!['銳'], seq!['鋭']),
        (seq!['閱'], seq!['閲']),
        (seq!['鰮'], seq!['鰛']),
        (seq!['麪'], seq!['麵'])
    ]
}

/// `HK_VARIANTS` holds exactly the entries of `hk_variant_pairs()`, in order.
#[verifier::spinoff_prover]
#[verifier::rlimit(100)]
proof fn lemma_hk_variant_pairs_entries()
    ensures
        text_entries(dict_data::HK_VARIANTS@) == hk_variant_pairs(),
{
    let s = dict_data::HK_VARIANTS@;
    assert(entries_of(s) == hk_variant_pairs()) by {
        reveal_strlit("僞\t偽\n兌\t兑\n叄\t叁\n只\t只\n啓\t啓\n喫\t吃\n囪\t囱\n妝\t妝\n媼\t媪\n嬀\t嬀\n悅\t悦\n慍\t愠\n戶\t户\n挩\t捝\n搵\t揾\n擡\t抬\n敓\t敚\n敘\t敍\n晉\t晋\n溫\t温\n爲\t為\n牀\t牀\n痩\t瘦\n眾\t衆\n稅\t税\n竈\t灶\n糉\t粽\n綠\t緑\n纔\t才\n脫\t脱\n蔥\t葱\n衛\t衞\n裏\t裏\n說\t説\n蛻\t蜕\n覈\t核\n鉤\t鈎\n銳\t鋭\n閱\t閲\n鰮\t鰛\n麪\t麵\n");
        reveal_with_fuel(plain_from, 9);
        assert(s.skip(0) =~= s);
        assert(s.subrange(0, 4) =~= seq!['僞'] + seq!['\t'] + seq!['偽'] + seq!['\n']);
        lemma_entry_at(s, 0, seq!['僞'], seq!['偽']);
        assert(s.subrange(4, 8) =~= seq!['兌'] + seq!['\t'] + seq!['兑'] + seq!['\n']);
        lemma_entry_at(s, 4, seq!['兌'], seq!['兑']);
        assert(s.subrange(8, 12) =~= seq!['叄'] + seq!['\t'] + seq!['叁'] + seq!['\n']);
        lemma_entry_at(s, 8, seq!['叄'], seq!['叁']);
        assert(s.subrange(12, 16) =~= seq!['只'] + seq!['\t'] + seq!['只'] + seq!['\n']);
        lemma_entry_at(s, 12, seq!['只'], seq!['只']);
        assert(s.subrange(16, 20) =~= seq!['啓'] + seq!['\t'] + seq!['啓'] + seq!['\n']);
        lemma_entry_at(s, 16, seq!['啓'], seq!['啓']);
        assert(s.subrange(20, 24) =~= seq!['喫'] + seq!['\t'] + seq!['吃'] + seq!['\n']);
        lemma_entry_at(s, 20, seq!['喫'], seq!['吃']);
        assert(s.subrange(24, 28) =~= seq!['囪'] + seq!['\t'] + seq!['囱'] + seq!['\n']);
        lemma_entry_at(s, 24, seq!['囪'], seq!['囱']);
        assert(s.subrange(28, 32) =~= seq!['妝'] + seq!['\t'] + seq!['妝'] + seq!['\n']);
        lemma_entry_at(s, 28, seq!['妝'], seq!['妝']);
        assert(s.subrange(32, 36) =~= seq!['媼'] + seq!['\t'] + seq!['媪'] + seq!['\n']);
        lemma_entry_at(s, 32, seq!['媼'], seq!['媪']);
        assert(s.subrange(36, 40) =~= seq!['嬀'] + seq!['\t'] + seq!['嬀'] + seq!['\n']);
        lemma_entry_at(s, 36, seq!['嬀'], seq!['嬀']);
        assert(s.subrange(40, 44) =~= seq!['悅'] + seq!['\t'] + seq!['悦'] + seq!['\n']);
        lemma_entry_at(s, 40, seq!['悅'], seq!['悦']);
        assert(s.subrange(44, 48) =~= seq!['慍'] + seq!['\t'] + seq!['愠'] + seq!['\n']);
        lemma_entry_at(s, 44, seq!['慍'], seq!['愠']);
        assert(s.subrange(48, 52) =~= seq!['戶'] + seq!['\t'] + seq!['户'] + seq!['\n']);
        lemma_entry_at(s, 48, seq!['戶'], seq!['户']);
        assert(s.subrange(52, 56) =~= seq!['挩'] + seq!['\t'] + seq!['捝'] + seq!['\n']);
        lemma_entry_at(s, 52, seq!['挩'], seq!['捝']);
        assert(s.subrange(56, 60) =~= seq!['搵'] + seq!['\t'] + seq!['揾'] + seq!['\n']);
        lemma_entry_at(s, 56, seq!['搵'], seq!['揾']);
        assert(s.subrange(60, 64) =~= seq!['擡'] + seq!['\t'] + seq!['抬'] + seq!['\n']);
        lemma_entry_at(s, 60, seq!['擡'], seq!['抬']);
        assert(s.subrange(64, 68) =~= seq!['敓'] + seq!['\t'] + seq!['敚'] + seq!['\n']);
        lemma_entry_at(s, 64, seq!['敓'], seq!['敚']);
        assert(s.subrange(68, 72) =~= seq!['敘'] + seq!['\t'] + seq!['敍'] + seq!['\n']);
        lemma_entry_at(s, 68, seq!['敘'], seq!['敍']);
        assert(s.subrange(72, 76) =~= seq!['晉'] + seq!['\t'] + seq!['晋'] + seq!['\n']);
        lemma_entry_at(s, 72, seq!['晉'], seq!['晋']);
        assert(s.subrange(76, 80) =~= seq!['溫'] + seq!['\t'] + seq!['温'] + seq!['\n']);
        lemma_entry_at(s, 76, seq!['溫'], seq!['温']);
        assert(s.subrange(80, 84) =~= seq!['爲'] + seq!['\t'] + seq!['為'] + seq!['\n']);
        lemma_entry_at(s, 80, seq!['爲'], seq!['為']);
        assert(s.subrange(84, 88) =~= seq!['牀'] + seq!['\t'] + seq!['牀'] + seq!['\n']);
        lemma_entry_at(s, 84, seq!['牀'], seq!['牀']);
        assert(s.subrange(88, 92) =~= seq!['痩'] + seq!['\t'] + seq!['瘦'] + seq!['\n']);
        lemma_entry_at(s, 88, seq!['痩'], seq!['瘦']);
        assert(s.subrange(92, 96) =~= seq!['眾'] + seq!['\t'] + seq!['衆'] + seq!['\n']);
        lemma_entry_at(s, 92, seq!['眾'], seq!['衆']);
        assert(s.subrange(96, 100) =~= seq!['稅'] + seq!['\t'] + seq!['税'] + seq!['\n']);
        lemma_entry_at(s, 96, seq!['稅'], seq!['税']);
        assert(s.subrange(100, 104) =~= seq!['竈'] + seq!['\t'] + seq!['灶'] + seq!['\n']);
        lemma_entry_at(s, 100, seq!['竈'], seq!['灶']);
        assert(s.subrange(104, 108) =~= seq!['糉'] + seq!['\t'] + seq!['粽'] + seq!['\n']);
        lemma_entry_at(s, 104, seq!['糉'], seq!['粽']);
        assert(s.subrange(108, 112) =~= seq!['綠'] + seq!['\t'] + seq!['緑'] + seq!['\n']);
        lemma_entry_at(s, 108, seq!['綠'], seq!['緑']);
        assert(s.subrange(112, 116) =~= seq!['纔'] + seq!['\t'] + seq!['才'] + seq!['\n']);
        lemma_entry_at(s, 112, seq!['纔'], seq!['才']);
        assert(s.subrange(116, 120) =~= seq!['脫'] + seq!['\t'] + seq!['脱'] + seq!['\n']);
        lemma_entry_at(s, 116, seq!['脫'], seq!['脱']);
        assert(s.subrange(120, 124) =~= seq!['蔥'] + seq!['\t'] + seq!['葱'] + seq!['\n']);
        lemma_entry_at(s, 120, seq!['蔥'], seq!['葱']);
        assert(s.subrange(124, 128) =~= seq!['衛'] + seq!['\t'] + seq!['衞'] + seq!['\n']);
        lemma_entry_at(s, 124, seq!['衛'], seq!['衞']);
        assert(s.subrange(128, 132) =~= seq!['裏'] + seq!['\t'] + seq!['裏'] + seq!['\n']);
        lemma_entry_at(s, 128, seq!['裏'], seq!['裏']);
        assert(s.subrange(132, 136) =~= seq!['說'] + seq!['\t'] + seq!['説'] + seq!['\n']);
        lemma_entry_at(s, 132, seq!['說'], seq!['説']);
        assert(s.subrange(136, 140) =~= seq!['蛻'] + seq!['\t'] + seq!['蜕'] + seq!['\n']);
        lemma_entry_at(s, 136, seq!['蛻'], seq!['蜕']);
        assert(s.subrange(140, 144) =~= seq!['覈'] + seq!['\t'] + seq!['核'] + seq!['\n']);
        lemma_entry_at(s, 140, seq!['覈'], seq!['核']);
        assert(s.subrange(144, 148) =~= seq!['鉤'] + seq!['\t'] + seq!['鈎'] + seq!['\n']);
        lemma_entry_at(s, 144, seq!['鉤'], seq!['鈎']);
        assert(s.subrange(148, 152) =~= seq!['銳'] + seq!['\t'] + seq!['鋭'] + seq!['\n']);
        lemma_entry_at(s, 148, seq!['銳'], seq!['鋭']);
        assert(s.subrange(152, 156) =~= seq!['閱'] + seq!['\t'] + seq!['閲'] + seq!['\n']);
        lemma_entry_at(s, 152, seq!['閱'], seq!['閲']);
        assert(s.subrange(156, 160) =~= seq!['鰮'] + seq!['\t'] + seq!['鰛'] + seq!['\n']);
        lemma_entry_at(s, 156, seq!['鰮'], seq!['鰛']);
        assert(s.subrange(160, 164) =~= seq!['麪'] + seq!['\t'] + seq!['麵'] + seq!['\n']);
        lemma_entry_at(s, 160, seq!['麪'], seq!['麵']);
        lemma_entries_at_end(s);
        assert(hk_variant_pairs() =~= seq![(seq!['僞'], seq!['偽'])] + (seq![(seq!['兌'], seq!['兑'])] + (seq![(seq!['叄'], seq!['叁'])] + (seq![(seq!['只'], seq!['只'])] + (seq![(seq!['啓'], seq!['啓'])] + (seq![(seq!['喫'], seq!['吃'])] + (seq![(seq!['囪'], seq!['囱'])] + (seq![(seq!['妝'], seq!['妝'])] + (seq![(seq!['媼'], seq!['媪'])] + (seq![(seq!['嬀'], seq!['嬀'])] + (seq![(seq!['悅'], seq!['悦'])] + (seq![(seq!['慍'], seq!['愠'])] + (seq![(seq!['戶'], seq!['户'])] + (seq![(seq!['挩'], seq!['捝'])] + (seq![(seq!['搵'], seq!['揾'])] + (seq![(seq!['擡'], seq!['抬'])] + (seq![(seq!['敓'], seq!['敚'])] + (seq![(seq!['敘'], seq!['敍'])] + (seq![(seq!['晉'], seq!['晋'])] + (seq![(seq!['溫'], seq!['温'])] + (seq![(seq!['爲'], seq!['為'])] + (seq![(seq!['牀'], seq!['牀'])] + (seq![(seq!['痩'], seq!['瘦'])] + (seq![(seq!['眾'], seq!['衆'])] + (seq![(seq!['稅'], seq!['税'])] + (seq![(seq!['竈'], seq!['灶'])] + (seq![(seq!['糉'], seq!['粽'])] + (seq![(seq!['綠'], seq!['緑'])] + (seq![(seq!['纔'], seq!['才'])] + (seq![(seq!['脫'], seq!['脱'])] + (seq![(seq!['蔥'], seq!['葱'])] + (seq![(seq!['衛'], seq!['衞'])] + (seq![(seq!['裏'], seq!['裏'])] + (seq![(seq!['說'], seq!['説'])] + (seq![(seq!['蛻'], seq!['蜕'])] + (seq![(seq!['覈'], seq!['核'])] + (seq![(seq!['鉤'], seq!['鈎'])] + (seq![(seq!['銳'], seq!['鋭'])] + (seq![(seq!['閱'], seq!['閲'])] + (seq![(seq!['鰮'], seq!['鰛'])] + (seq![(seq!['麪'], seq!['麵'])] + (Seq::<(Seq<char>, Seq<char>)>::empty()))))))))))))))))))))))))))))))))))))))))));
    }
    reveal(entries_of);
}

/// The entries of the dictionary from Hong Kong forms back to traditional characters.
pub open spec fn hk_variant_rev_pairs() -> Seq<(Seq<char>, Seq<char>)> {
    seq![
        (seq!['偽'], seq!['僞']),
        (seq!['兑'], seq!['兌']),
        (seq!['叁'], seq!['叄']),
        (seq!['吃'], seq!['喫']),
        (seq!['囱'], seq!['囪']),
        (seq!['媪'], seq!['媼']),
        (seq!['悦'], seq!['悅']),
        (seq!['愠'], seq!['慍']),
        (seq!['户'], seq!['戶']),
        (seq!['捝'], seq!['挩']),
        (seq!['揾'], seq!['搵']),
        (seq!['抬'], seq!['擡']),
        (seq!['敚'], seq!['敓']),
        (seq!['敍'], seq!['敘']),
        (seq!['晋'], seq!['晉']),
        (seq!['温'], seq!['溫']),
        (seq!['為'], seq!['爲']),
        (seq!['瘦'], seq!['痩']),
        (seq!['衆'], seq!['眾']),
        (seq!['税'], seq!['稅']),
        (seq!['灶'], seq!['竈']),
        (seq!['粽'], seq!['糉']),
        (seq!['緑'], seq!['綠']),
        (seq!['才'], seq!['纔']),
        (seq!['脱'], seq!['脫']),
        (seq!['葱'], seq!['蔥']),
        (seq!['衞'], seq!['衛']),
        (seq!['説'], seq!['說']),
        (seq!['蜕'], seq!['蛻']),
        (seq!['核'], seq!['覈']),
        (seq!['鈎'], seq!['鉤']),
        (seq!['鋭'], seq!['銳']),
        (seq!['閲'], seq!['閱']),
        (seq!['鰛'], seq!['鰮']),
        (seq!['麵'], seq!['麪'])
    ]
}

/// `HK_VARIANTS_REV` holds exactly the entries of `hk_variant_rev_pairs()`, in order.
#[verifier::spinoff_prover]
#[verifier::rlimit(100)]
proof fn lemma_hk_variant_rev_pairs_entries()
    ensures
        text_entries(dict_data::HK_VARIANTS_REV@) == hk_variant_rev_pairs(),
{
    let s = dict_data::HK_VARIANTS_REV@;
    assert(entries_of(s) == hk_variant_rev_pairs()) by {
        reveal_strlit("偽\t僞\n兑\t兌\n叁\t叄\n吃\t喫\n囱\t囪\n媪\t媼\n悦\t悅\n愠\t慍\n户\t戶\n捝\t挩\n揾\t搵\n抬\t擡\n敚\t敓\n敍\t敘\n晋\t晉\n温\t溫\n為\t爲\n瘦\t痩\n衆\t眾\n税\t稅\n灶\t竈\n粽\t糉\n緑\t綠\n才\t纔\n脱\t脫\n葱\t蔥\n衞\t衛\n説\t說\n蜕\t蛻\n核\t覈\n鈎\t鉤\n鋭\t銳\n閲\t閱\n鰛\t鰮\n麵\t麪\n");
        reveal_with_fuel(plain_from, 9);
        assert(s.skip(0) =~= s);
        assert(s.subrange(0, 4) =~= seq!['偽'] + seq!['\t'] + seq!['僞'] + seq!['\n']);
        lemma_entry_at(s, 0, seq!['偽'], seq!['僞']);
        assert(s.subrange(4, 8) =~= seq!['兑'] + seq!['\t'] + seq!['兌'] + seq!['\n']);
        lemma_entry_at(s, 4, seq!['兑'], seq!['兌']);
        assert(s.subrange(8, 12) =~= seq!['叁'] + seq!['\t'] + seq!['叄'] + seq!['\n']);
        lemma_entry_at(s, 8, seq!['叁'], seq!['叄']);
        assert(s.subrange(12, 16) =~= seq!['吃'] + seq!['\t'] + seq!['喫'] + seq!['\n']);
        lemma_entry_at(s, 12, seq!['吃'], seq!['喫']);
        assert(s.subrange(16, 20) =~= seq!['囱'] + seq!['\t'] + seq!['囪'] + seq!['\n']);
        lemma_entry_at(s, 16, seq!['囱'], seq!['囪']);
        assert(s.subrange(20, 24) =~= seq!['媪'] + seq!['\t'] + seq!['媼'] + seq!['\n']);
        lemma_entry_at(s, 20, seq!['媪'], seq!['媼']);
        assert(s.subrange(24, 28) =~= seq!['悦'] + seq!['\t'] + seq!['悅'] + seq!['\n']);
        lemma_entry_at(s, 24, seq!['悦'], seq!['悅']);
        assert(s.subrange(28, 32) =~= seq!['愠'] + seq!['\t'] + seq!['慍'] + seq!['\n']);
        lemma_entry_at(s, 28, seq!['愠'], seq!['慍']);
        assert(s.subrange(32, 36) =~= seq!['户'] + seq!['\t'] + seq!['戶'] + seq!['\n']);
        lemma_entry_at(s, 32, seq!['户'], seq!['戶']);
        assert(s.subrange(36, 40) =~= seq!['捝'] + seq!['\t'] + seq!['挩'] + seq!['\n']);
        lemma_entry_at(s, 36, seq!['捝'], seq!['挩']);
        assert(s.subrange(40, 44) =~= seq!['揾'] + seq!['\t'] + seq!['搵'] + seq!['\n']);
        lemma_entry_at(s, 40, seq!['揾'], seq!['搵']);
        assert(s.subrange(44, 48) =~= seq!['抬'] + seq!['\t'] + seq!['擡'] + seq!['\n']);
        lemma_entry_at(s, 44, seq!['抬'], seq!['擡']);
        assert(s.subrange(48, 52) =~= seq!['敚'] + seq!['\t'] + seq!['敓'] + seq!['\n']);
        lemma_entry_at(s, 48, seq!['敚'], seq!['敓']);
        assert(s.subrange(52, 56) =~= seq!['敍'] + seq!['\t'] + seq!['敘'] + seq!['\n']);
        lemma_entry_at(s, 52, seq!['敍'], seq!['敘']);
        assert(s.subrange(56, 60) =~= seq!['晋'] + seq!['\t'] + seq!['晉'] + seq!['\n']);
        lemma_entry_at(s, 56, seq!['晋'], seq!['晉']);
        assert(s.subrange(60, 64) =~= seq!['温'] + seq!['\t'] + seq!['溫'] + seq!['\n']);
        lemma_entry_at(s, 60, seq!['温'], seq!['溫']);
        assert(s.subrange(64, 68) =~= seq!['為'] + seq!['\t'] + seq!['爲'] + seq!['\n']);
        lemma_entry_at(s, 64, seq!['為'], seq!['爲']);
        assert(s.subrange(68, 72) =~= seq!['瘦'] + seq!['\t'] + seq!['痩'] + seq!['\n']);
        lemma_entry_at(s, 68, seq!['瘦'], seq!['痩']);
        assert(s.subrange(72, 76) =~= seq!['衆'] + seq!['\t'] + seq!['眾'] + seq!['\n']);
        lemma_entry_at(s, 72, seq!['衆'], seq!['眾']);
        assert(s.subrange(76, 80) =~= seq!['税'] + seq!['\t'] + seq!['稅'] + seq!['\n']);
        lemma_entry_at(s, 76, seq!['税'], seq!['稅']);
        assert(s.subrange(80, 84) =~= seq!['灶'] + seq!['\t'] + seq!['竈'] + seq!['\n']);
        lemma_entry_at(s, 80, seq!['灶'], seq!['竈']);
        assert(s.subrange(84, 88) =~= seq!['粽'] + seq!['\t'] + seq!['糉'] + seq!['\n']);
        lemma_entry_at(s, 84, seq!['粽'], seq!['糉']);
        assert(s.subrange(88, 92) =~= seq!['緑'] + seq!['\t'] + seq!['綠'] + seq!['\n']);
        lemma_entry_at(s, 88, seq!['緑'], seq!['綠']);
        assert(s.subrange(92, 96) =~= seq!['才'] + seq!['\t'] + seq!['纔'] + seq!['\n']);
        lemma_entry_at(s, 92, seq!['才'], seq!['纔']);
        assert(s.subrange(96, 100) =~= seq!['脱'] + seq!['\t'] + seq!['脫'] + seq!['\n']);
        lemma_entry_at(s, 96, seq!['脱'], seq!['脫']);
        assert(s.subrange(100, 104) =~= seq!['葱'] + seq!['\t'] + seq!['蔥'] + seq!['\n']);
        lemma_entry_at(s, 100, seq!['葱'], seq!['蔥']);
        assert(s.subrange(104, 108) =~= seq!['衞'] + seq!['\t'] + seq!['衛'] + seq!['\n']);
        lemma_entry_at(s, 104, seq!['衞'], seq!['衛']);
        assert(s.subrange(108, 112) =~= seq!['説'] + seq!['\t'] + seq!['說'] + seq!['\n']);
        lemma_entry_at(s, 108, seq!['説'], seq!['說']);
        assert(s.subrange(112, 116) =~= seq!['蜕'] + seq!['\t'] + seq!['蛻'] + seq!['\n']);
        lemma_entry_at(s, 112, seq!['蜕'], seq!['蛻']);
        assert(s.subrange(116, 120) =~= seq!['核'] + seq!['\t'] + seq!['覈'] + seq!['\n']);
        lemma_entry_at(s, 116, seq!['核'], seq!['覈']);
        assert(s.subrange(120, 124) =~= seq!['鈎'] + seq!['\t'] + seq!['鉤'] + seq!['\n']);
        lemma_entry_at(s, 120, seq!['鈎'], seq!['鉤']);
        assert(s.subrange(124, 128) =~= seq!['鋭'] + seq!['\t'] + seq!['銳'] + seq!['\n']);
        lemma_entry_at(s, 124, seq!['鋭'], seq!['銳']);
        assert(s.subrange(128, 132) =~= seq!['閲'] + seq!['\t'] + seq!['閱'] + seq!['\n']);
        lemma_entry_at(s, 128, seq!['閲'], seq!['閱']);
        assert(s.subrange(132, 136) =~= seq!['鰛'] + seq!['\t'] + seq!['鰮'] + seq!['\n']);
        lemma_entry_at(s, 132, seq!['鰛'], seq!['鰮']);
        assert(s.subrange(136, 140) =~= seq!['麵'] + seq!['\t'] + seq!['麪'] + seq!['\n']);
        lemma_entry_at(s, 136, seq!['麵'], seq!['麪']);
        lemma_entries_at_end(s);
        assert(hk_variant_rev_pairs() =~= seq![(seq!['偽'], seq!['僞'])] + (seq![(seq!['兑'], seq!['兌'])] + (seq![(seq!['叁'], seq!['叄'])] + (seq![(seq!['吃'], seq!['喫'])] + (seq![(seq!['囱'], seq!['囪'])] + (seq![(seq!['媪'], seq!['媼'])] + (seq![(seq!['悦'], seq!['悅'])] + (seq![(seq!['愠'], seq!['慍'])] + (seq![(seq!['户'], seq!['戶'])] + (seq![(seq!['捝'], seq!['挩'])] + (seq![(seq!['揾'], seq!['搵'])] + (seq![(seq!['抬'], seq!['擡'])] + (seq![(seq!['敚'], seq!['敓'])] + (seq![(seq!['敍'], seq!['敘'])] + (seq![(seq!['晋'], seq!['晉'])] + (seq![(seq!['温'], seq!['溫'])] + (seq![(seq!['為'], seq!['爲'])] + (seq![(seq!['瘦'], seq!['痩'])] + (seq![(seq!['衆'], seq!['眾'])] + (seq![(seq!['税'], seq!['稅'])] + (seq![(seq!['灶'], seq!['竈'])] + (seq![(seq!['粽'], seq!['糉'])] + (seq![(seq!['緑'], seq!['綠'])] + (seq![(seq!['才'], seq!['纔'])] + (seq![(seq!['脱'], seq!['脫'])] + (seq![(seq!['葱'], seq!['蔥'])] + (seq![(seq!['衞'], seq!['衛'])] + (seq![(seq!['説'], seq!['說'])] + (seq![(seq!['蜕'], seq!['蛻'])] + (seq![(seq!['核'], seq!['覈'])] + (seq![(seq!['鈎'], seq!['鉤'])] + (seq![(seq!['鋭'], seq!['銳'])] + (seq![(seq!['閲'], seq!['閱'])] + (seq![(seq!['鰛'], seq!['鰮'])] + (seq![(seq!['麵'], seq!['麪'])] + (Seq::<(Seq<char>, Seq<char>)>::empty()))))))))))))))))))))))))))))))))))));
    }
    reveal(entries_of);
}

/// The entries of the dictionary from Hong Kong phrases back to traditional phrases.
pub open spec fn hk_variant_rev_phrase_pairs() -> Seq<(Seq<char>, Seq<char>)> {
    seq![
        (seq!['一', '口', '吃', '個'], seq!['一', '口', '喫', '個']),
        (seq!['吃', '口', '令'], seq!['喫', '口', '令']),
        (seq!['吃', '癟'], seq!['喫', '癟']),
        (seq!['吃', '虧'], seq!['喫', '虧']),
        (seq!['鈎', '心', '鬥', '角'], seq!['鉤', '心', '鬥', '角']),
        (seq!['鈎', '針'], seq!['鉤', '針']),
        (seq!['鈎', '子'], seq!['鉤', '子'])
    ]
}

/// `HK_VARIANTS_REV_PHRASES` holds exactly the entries of `hk_variant_rev_phrase_pairs()`, in order.
#[verifier::spinoff_prover]
#[verifier::rlimit(100)]
proof fn lemma_hk_variant_rev_phrase_pairs_entries()
    ensures
        text_entries(dict_data::HK_VARIANTS_REV_PHRASES@) == hk_variant_rev_phrase_pairs(),
{
    let s = dict_data::HK_VARIANTS_REV_PHRASES@;
    assert(entries_of(s) == hk_variant_rev_phrase_pairs()) by {
        reveal_strlit("一口吃個\t一口喫個\n吃口令\t喫口令\n吃癟\t喫癟\n吃虧\t喫虧\n鈎心鬥角\t鉤心鬥角\n鈎針\t鉤針\n鈎子\t鉤子\n");
        reveal_with_fuel(plain_from, 9);
        assert(s.skip(0) =~= s);
        assert(s.subrange(0, 10) =~= seq!['一', '口', '吃', '個'] + seq!['\t'] + seq!['一', '口', '喫', '個'] + seq!['\n']);
        lemma_entry_at(s, 0, seq!['一', '口', '吃', '個'], seq!['一', '口', '喫', '個']);
        assert(s.subrange(10, 18) =~= seq!['吃', '口', '令'] + seq!['\t'] + seq!['喫', '口', '令'] + seq!['\n']);
        lemma_entry_at(s, 10, seq!['吃', '口', '令'], seq!['喫', '口', '令']);
        assert(s.subrange(18, 24) =~= seq!['吃', '癟'] + seq!['\t'] + seq!['喫', '癟'] + seq!['\n']);
        lemma_entry_at(s, 18, seq!['吃', '癟'], seq!['喫', '癟']);
        assert(s.subrange(24, 30) =~= seq!['吃', '虧'] + seq!['\t'] + seq!['喫', '虧'] + seq!['\n']);
        lemma_entry_at(s, 24, seq!['吃', '虧'], seq!['喫', '虧']);
        assert(s.subrange(30, 40) =~= seq!['鈎', '心', '鬥', '角'] + seq!['\t'] + seq!['鉤', '心', '鬥', '角'] + seq!['\n']);
        lemma_entry_at(s, 30, seq!['鈎', '心', '鬥', '角'], seq!['鉤', '心', '鬥', '角']);
        assert(s.subrange(40, 46) =~= seq!['鈎', '針'] + seq!['\t'] + seq!['鉤', '針'] + seq!['\n']);
        lemma_entry_at(s, 40, seq!['鈎', '針'], seq!['鉤', '針']);
        assert(s.subrange(46, 52) =~= seq!['鈎', '子'] + seq!['\t'] + seq!['鉤', '子'] + seq!['\n']);
        lemma_entry_at(s, 46, seq!['鈎', '子'], seq!['鉤', '子']);
        lemma_entries_at_end(s);
        assert(hk_variant_rev_phrase_pairs() =~= seq![(seq!['一', '口', '吃', '個'], seq!['一', '口', '喫', '個'])] + (seq![(seq!['吃', '口', '令'], seq!['喫', '口', '令'])] + (seq![(seq!['吃', '癟'], seq!['喫', '癟'])] + (seq![(seq!['吃', '虧'], seq!['喫', '虧'])] + (seq![(seq!['鈎', '心', '鬥', '角'], seq!['鉤', '心', '鬥', '角'])] + (seq![(seq!['鈎', '針'], seq!['鉤', '針'])] + (seq![(seq!['鈎', '子'], seq!['鉤', '子'])] + (Seq::<(Seq<char>, Seq<char>)>::empty()))))))));
    }
    reveal(entries_of);
}

/// The entries of the `hk` source group, in the order in which they are loaded.
spec fn hk_source_pairs() -> Seq<(Seq<char>, Seq<char>)> {
    hk_variant_rev_pairs() + hk_variant_rev_phrase_pairs()
}

#[verifier::spinoff_prover]
#[verifier::rlimit(100)]
proof fn lemma_hk_undone()
    ensures
        undone_from(hk_variant_pairs(), hk_source_pairs(), 0),
{
    assert(undone_from(hk_variant_pairs(), hk_source_pairs(), 0)) by {
        assert(hk_source_pairs()[0].0.len() == 1 && hk_source_pairs()[0].0[0] == '偽' && hk_source_pairs()[0].0[0] == '偽');
        assert(hk_source_pairs()[1].0.len() == 1 && hk_source_pairs()[1].0[0] == '兑' && hk_source_pairs()[1].0[0] == '兑');
        assert(hk_source_pairs()[2].0.len() == 1 && hk_source_pairs()[2].0[0] == '叁' && hk_source_pairs()[2].0[0] == '叁');
        assert(hk_source_pairs()[3].0.len() == 1 && hk_source_pairs()[3].0[0] == '吃' && hk_source_pairs()[3].0[0] == '吃');
        assert(hk_source_pairs()[4].0.len() == 1 && hk_source_pairs()[4].0[0] == '囱' && hk_source_pairs()[4].0[0] == '囱');
        assert(hk_source_pairs()[5].0.len() == 1 && hk_source_pairs()[5].0[0] == '媪' && hk_source_pairs()[5].0[0] == '媪');
        assert(hk_source_pairs()[6].0.len() == 1 && hk_source_pairs()[6].0[0] == '悦' && hk_source_pairs()[6].0[0] == '悦');
        assert(hk_source_pairs()[7].0.len() == 1 && hk_source_pairs()[7].0[0] == '愠' && hk_source_pairs()[7].0[0] == '愠');
        assert(hk_source_pairs()[8].0.len() == 1 && hk_source_pairs()[8].0[0] == '户' && hk_source_pairs()[8].0[0] == '户');
        assert(hk_source_pairs()[9].0.len() == 1 && hk_source_pairs()[9].0[0] == '捝' && hk_source_pairs()[9].0[0] == '捝');
        assert(hk_source_pairs()[10].0.len() == 1 && hk_source_pairs()[10].0[0] == '揾' && hk_source_pairs()[10].0[0] == '揾');
        assert(hk_source_pairs()[11].0.len() == 1 && hk_source_pairs()[11].0[0] == '抬' && hk_source_pairs()[11].0[0] == '抬');
        assert(hk_source_pairs()[12].0.len() == 1 && hk_source_pairs()[12].0[0] == '敚' && hk_source_pairs()[12].0[0] == '敚');
        assert(hk_source_pairs()[13].0.len() == 1 && hk_source_pairs()[13].0[0] == '敍' && hk_source_pairs()[13].0[0] == '敍');
        assert(hk_source_pairs()[14].0.len() == 1 && hk_source_pairs()[14].0[0] == '晋' && hk_source_pairs()[14].0[0] == '晋');
        assert(hk_source_pairs()[15].0.len() == 1 && hk_source_pairs()[15].0[0] == '温' && hk_source_pairs()[15].0[0] == '温');
        assert(hk_source_pairs()[16].0.len() == 1 && hk_source_pairs()[16].0[0] == '為' && hk_source_pairs()[16].0[0] == '為');
        assert(hk_source_pairs()[17].0.len() == 1 && hk_source_pairs()[17].0[0] == '瘦' && hk_source_pairs()[17].0[0] == '瘦');
        assert(hk_source_pairs()[18].0.len() == 1 && hk_source_pairs()[18].0[0] == '衆' && hk_source_pairs()[18].0[0] == '衆');
        assert(hk_source_pairs()[19].0.len() == 1 && hk_source_pairs()[19].0[0] == '税' && hk_source_pairs()[19].0[0] == '税');
        assert(hk_source_pairs()[20].0.len() == 1 && hk_source_pairs()[20].0[0] == '灶' && hk_source_pairs()[20].0[0] == '灶');
        assert(hk_source_pairs()[21].0.len() == 1 && hk_source_pairs()[21].0[0] == '粽' && hk_source_pairs()[21].0[0] == '粽');
        assert(hk_source_pairs()[22].0.len() == 1 && hk_source_pairs()[22].0[0] == '緑' && hk_source_pairs()[22].0[0] == '緑');
        assert(hk_source_pairs()[23].0.len() == 1 && hk_source_pairs()[23].0[0] == '才' && hk_source_pairs()[23].0[0] == '才');
        assert(hk_source_pairs()[24].0.len() == 1 && hk_source_pairs()[24].0[0] == '脱' && hk_source_pairs()[24].0[0] == '脱');
        assert(hk_source_pairs()[25].0.len() == 1 && hk_source_pairs()[25].0[0] == '葱' && hk_source_pairs()[25].0[0] == '葱');
        assert(hk_source_pairs()[26].0.len() == 1 && hk_source_pairs()[26].0[0] == '衞' && hk_source_pairs()[26].0[0] == '衞');
        assert(hk_source_pairs()[27].0.len() == 1 && hk_source_pairs()[27].0[0] == '説' && hk_source_pairs()[27].0[0] == '説');
        assert(hk_source_pairs()[28].0.len() == 1 && hk_source_pairs()[28].0[0] == '蜕' && hk_source_pairs()[28].0[0] == '蜕');
        assert(hk_source_pairs()[29].0.len() == 1 && hk_source_pairs()[29].0[0] == '核' && hk_source_pairs()[29].0[0] == '核');
        assert(hk_source_pairs()[30].0.len() == 1 && hk_source_pairs()[30].0[0] == '鈎' && hk_source_pairs()[30].0[0] == '鈎');
        assert(hk_source_pairs()[31].0.len() == 1 && hk_source_pairs()[31].0[0] == '鋭' && hk_source_pairs()[31].0[0] == '鋭');
        assert(hk_source_pairs()[32].0.len() == 1 && hk_source_pairs()[32].0[0] == '閲' && hk_source_pairs()[32].0[0] == '閲');
        assert(hk_source_pairs()[33].0.len() == 1 && hk_source_pairs()[33].0[0] == '鰛' && hk_source_pairs()[33].0[0] == '鰛');
        assert(hk_source_pairs()[34].0.len() == 1 && hk_source_pairs()[34].0[0] == '麵' && hk_source_pairs()[34].0[0] == '麵');
        assert(hk_source_pairs()[35].0.len() == 4 && hk_source_pairs()[35].0[0] == '一' && hk_source_pairs()[35].0[3] == '個');
        assert(hk_source_pairs()[36].0.len() == 3 && hk_source_pairs()[36].0[0] == '吃' && hk_source_pairs()[36].0[2] == '令');
        assert(hk_source_pairs()[37].0.len() == 2 && hk_source_pairs()[37].0[0] == '吃' && hk_source_pairs()[37].0[1] == '癟');
        assert(hk_source_pairs()[38].0.len() == 2 && hk_source_pairs()[38].0[0] == '吃' && hk_source_pairs()[38].0[1] == '虧');
        assert(hk_source_pairs()[39].0.len() == 4 && hk_source_pairs()[39].0[0] == '鈎' && hk_source_pairs()[39].0[3] == '角');
        assert(hk_source_pairs()[40].0.len() == 2 && hk_source_pairs()[40].0[0] == '鈎' && hk_source_pairs()[40].0[1] == '針');
        assert(hk_source_pairs()[41].0.len() == 2 && hk_source_pairs()[41].0[0] == '鈎' && hk_source_pairs()[41].0[1] == '子');
        assert(hk_variant_pairs()[0].0.len() == 1 && hk_variant_pairs()[0].0[0] == '僞' && hk_variant_pairs()[0].0[0] == '僞');
        assert(hk_variant_pairs()[0].1.len() == 1 && hk_variant_pairs()[0].1[0] == '偽' && hk_variant_pairs()[0].1[0] == '偽');
        assert(hk_variant_pairs()[1].0.len() == 1 && hk_variant_pairs()[1].0[0] == '兌' && hk_variant_pairs()[1].0[0] == '兌');
        assert(hk_variant_pairs()[1].1.len() == 1 && hk_variant_pairs()[1].1[0] == '兑' && hk_variant_pairs()[1].1[0] == '兑');
        assert(hk_variant_pairs()[2].0.len() == 1 && hk_variant_pairs()[2].0[0] == '叄' && hk_variant_pairs()[2].0[0] == '叄');
        assert(hk_variant_pairs()[2].1.len() == 1 && hk_variant_pairs()[2].1[0] == '叁' && hk_variant_pairs()[2].1[0] == '叁');
        assert(hk_variant_pairs()[3].0.len() == 1 && hk_variant_pairs()[3].0[0] == '只' && hk_variant_pairs()[3].0[0] == '只');
        assert(hk_variant_pairs()[3].1.len() == 1 && hk_variant_pairs()[3].1[0] == '只' && hk_variant_pairs()[3].1[0] == '只');
        assert(hk_variant_pairs()[4].0.len() == 1 && hk_variant_pairs()[4].0[0] == '啓' && hk_variant_pairs()[4].0[0] == '啓');
        assert(hk_variant_pairs()[4].1.len() == 1 && hk_variant_pairs()[4].1[0] == '啓' && hk_variant_pairs()[4].1[0] == '啓');
        assert(hk_variant_pairs()[5].0.len() == 1 && hk_variant_pairs()[5].0[0] == '喫' && hk_variant_pairs()[5].0[0] == '喫');
        assert(hk_variant_pairs()[5].1.len() == 1 && hk_variant_pairs()[5].1[0] == '吃' && hk_variant_pairs()[5].1[0] == '吃');
        assert(hk_variant_pairs()[6].0.len() == 1 && hk_variant_pairs()[6].0[0] == '囪' && hk_variant_pairs()[6].0[0] == '囪');
        assert(hk_variant_pairs()[6].1.len() == 1 && hk_variant_pairs()[6].1[0] == '囱' && hk_variant_pairs()[6].1[0] == '囱');
        assert(hk_variant_pairs()[7].0.len() == 1 && hk_variant_pairs()[7].0[0] == '妝' && hk_variant_pairs()[7].0[0] == '妝');
        assert(hk_variant_pairs()[7].1.len() == 1 && hk_variant_pairs()[7].1[0] == '妝' && hk_variant_pairs()[7].1[0] == '妝');
        assert(hk_variant_pairs()[8].0.len() == 1 && hk_variant_pairs()[8].0[0] == '媼' && hk_variant_pairs()[8].0[0] == '媼');
        assert(hk_variant_pairs()[8].1.len() == 1 && hk_variant_pairs()[8].1[0] == '媪' && hk_variant_pairs()[8].1[0] == '媪');
        assert(hk_variant_pairs()[9].0.len() == 1 && hk_variant_pairs()[9].0[0] == '嬀' && hk_variant_pairs()[9].0[0] == '嬀');
        assert(hk_variant_pairs()[9].1.len() == 1 && hk_variant_pairs()[9].1[0] == '嬀' && hk_variant_pairs()[9].1[0] == '嬀');
        assert(hk_variant_pairs()[10].0.len() == 1 && hk_variant_pairs()[10].0[0] == '悅' && hk_variant_pairs()[10].0[0] == '悅');
        assert(hk_variant_pairs()[10].1.len() == 1 && hk_variant_pairs()[10].1[0] == '悦' && hk_variant_pairs()[10].1[0] == '悦');
        assert(hk_variant_pairs()[11].0.len() == 1 && hk_variant_pairs()[11].0[0] == '慍' && hk_variant_pairs()[11].0[0] == '慍');
        assert(hk_variant_pairs()[11].1.len() == 1 && hk_variant_pairs()[11].1[0] == '愠' && hk_variant_pairs()[11].1[0] == '愠');
        assert(hk_variant_pairs()[12].0.len() == 1 && hk_variant_pairs()[12].0[0] == '戶' && hk_variant_pairs()[12].0[0] == '戶');
        assert(hk_variant_pairs()[12].1.len() == 1 && hk_variant_pairs()[12].1[0] == '户' && hk_variant_pairs()[12].1[0] == '户');
        assert(hk_variant_pairs()[13].0.len() == 1 && hk_variant_pairs()[13].0[0] == '挩' && hk_variant_pairs()[13].0[0] == '挩');
        assert(hk_variant_pairs()[13].1.len() == 1 && hk_variant_pairs()[13].1[0] == '捝' && hk_variant_pairs()[13].1[0] == '捝');
        assert(hk_variant_pairs()[14].0.len() == 1 && hk_variant_pairs()[14].0[0] == '搵' && hk_variant_pairs()[14].0[0] == '搵');
        assert(hk_variant_pairs()[14].1.len() == 1 && hk_variant_pairs()[14].1[0] == '揾' && hk_variant_pairs()[14].1[0] == '揾');
        assert(hk_variant_pairs()[15].0.len() == 1 && hk_variant_pairs()[15].0[0] == '擡' && hk_variant_pairs()[15].0[0] == '擡');
        assert(hk_variant_pairs()[15].1.len() == 1 && hk_variant_pairs()[15].1[0] == '抬' && hk_variant_pairs()[15].1[0] == '抬');
        assert(hk_variant_pairs()[16].0.len() == 1 && hk_variant_pairs()[16].0[0] == '敓' && hk_variant_pairs()[16].0[0] == '敓');
        assert(hk_variant_pairs()[16].1.len() == 1 && hk_variant_pairs()[16].1[0] == '敚' && hk_variant_pairs()[16].1[0] == '敚');
        assert(hk_variant_pairs()[17].0.len() == 1 && hk_variant_pairs()[17].0[0] == '敘' && hk_variant_pairs()[17].0[0] == '敘');
        assert(hk_variant_pairs()[17].1.len() == 1 && hk_variant_pairs()[17].1[0] == '敍' && hk_variant_pairs()[17].1[0] == '敍');
        assert(hk_variant_pairs()[18].0.len() == 1 && hk_variant_pairs()[18].0[0] == '晉' && hk_variant_pairs()[18].0[0] == '晉');
        assert(hk_variant_pairs()[18].1.len() == 1 && hk_variant_pairs()[18].1[0] == '晋' && hk_variant_pairs()[18].1[0] == '晋');
        assert(hk_variant_pairs()[19].0.len() == 1 && hk_variant_pairs()[19].0[0] == '溫' && hk_variant_pairs()[19].0[0] == '溫');
        assert(hk_variant_pairs()[19].1.len() == 1 && hk_variant_pairs()[19].1[0] == '温' && hk_variant_pairs()[19].1[0] == '温');
        assert(hk_variant_pairs()[20].0.len() == 1 && hk_variant_pairs()[20].0[0] == '爲' && hk_variant_pairs()[20].0[0] == '爲');
        assert(hk_variant_pairs()[20].1.len() == 1 && hk_variant_pairs()[20].1[0] == '為' && hk_variant_pairs()[20].1[0] == '為');
        assert(hk_variant_pairs()[21].0.len() == 1 && hk_variant_pairs()[21].0[0] == '牀' && hk_variant_pairs()[21].0[0] == '牀');
        assert(hk_variant_pairs()[21].1.len() == 1 && hk_variant_pairs()[21].1[0] == '牀' && hk_variant_pairs()[21].1[0] == '牀');
        assert(hk_variant_pairs()[22].0.len() == 1 && hk_variant_pairs()[22].0[0] == '痩' && hk_variant_pairs()[22].0[0] == '痩');
        assert(hk_variant_pairs()[22].1.len() == 1 && hk_variant_pairs()[22].1[0] == '瘦' && hk_variant_pairs()[22].1[0] == '瘦');
        assert(hk_variant_pairs()[23].0.len() == 1 && hk_variant_pairs()[23].0[0] == '眾' && hk_variant_pairs()[23].0[0] == '眾');
        assert(hk_variant_pairs()[23].1.len() == 1 && hk_variant_pairs()[23].1[0] == '衆' && hk_variant_pairs()[23].1[0] == '衆');
        assert(hk_variant_pairs()[24].0.len() == 1 && hk_variant_pairs()[24].0[0] == '稅' && hk_variant_pairs()[24].0[0] == '稅');
        assert(hk_variant_pairs()[24].1.len() == 1 && hk_variant_pairs()[24].1[0] == '税' && hk_variant_pairs()[24].1[0] == '税');
        assert(hk_variant_pairs()[25].0.len() == 1 && hk_variant_pairs()[25].0[0] == '竈' && hk_variant_pairs()[25].0[0] == '竈');
        assert(hk_variant_pairs()[25].1.len() == 1 && hk_variant_pairs()[25].1[0] == '灶' && hk_variant_pairs()[25].1[0] == '灶');
        assert(hk_variant_pairs()[26].0.len() == 1 && hk_variant_pairs()[26].0[0] == '糉' && hk_variant_pairs()[26].0[0] == '糉');
        assert(hk_variant_pairs()[26].1.len() == 1 && hk_variant_pairs()[26].1[0] == '粽' && hk_variant_pairs()[26].1[0] == '粽');
        assert(hk_variant_pairs()[27].0.len() == 1 && hk_variant_pairs()[27].0[0] == '綠' && hk_variant_pairs()[27].0[0] == '綠');
        assert(hk_variant_pairs()[27].1.len() == 1 && hk_variant_pairs()[27].1[0] == '緑' && hk_variant_pairs()[27].1[0] == '緑');
        assert(hk_variant_pairs()[28].0.len() == 1 && hk_variant_pairs()[28].0[0] == '纔' && hk_variant_pairs()[28].0[0] == '纔');
        assert(hk_variant_pairs()[28].1.len() == 1 && hk_variant_pairs()[28].1[0] == '才' && hk_variant_pairs()[28].1[0] == '才');
        assert(hk_variant_pairs()[29].0.len() == 1 && hk_variant_pairs()[29].0[0] == '脫' && hk_variant_pairs()[29].0[0] == '脫');
        assert(hk_variant_pairs()[29].1.len() == 1 && hk_variant_pairs()[29].1[0] == '脱' && hk_variant_pairs()[29].1[0] == '脱');
        assert(hk_variant_pairs()[30].0.len() == 1 && hk_variant_pairs()[30].0[0] == '蔥' && hk_variant_pairs()[30].0[0] == '蔥');
        assert(hk_variant_pairs()[30].1.len() == 1 && hk_variant_pairs()[30].1[0] == '葱' && hk_variant_pairs()[30].1[0] == '葱');
        assert(hk_variant_pairs()[31].0.len() == 1 && hk_variant_pairs()[31].0[0] == '衛' && hk_variant_pairs()[31].0[0] == '衛');
        assert(hk_variant_pairs()[31].1.len() == 1 && hk_variant_pairs()[31].1[0] == '衞' && hk_variant_pairs()[31].1[0] == '衞');
        assert(hk_variant_pairs()[32].0.len() == 1 && hk_variant_pairs()[32].0[0] == '裏' && hk_variant_pairs()[32].0[0] == '裏');
        assert(hk_variant_pairs()[32].1.len() == 1 && hk_variant_pairs()[32].1[0] == '裏' && hk_variant_pairs()[32].1[0] == '裏');
        assert(hk_variant_pairs()[33].0.len() == 1 && hk_variant_pairs()[33].0[0] == '說' && hk_variant_pairs()[33].0[0] == '說');
        assert(hk_variant_pairs()[33].1.len() == 1 && hk_variant_pairs()[33].1[0] == '説' && hk_variant_pairs()[33].1[0] == '説');
        assert(hk_variant_pairs()[34].0.len() == 1 && hk_variant_pairs()[34].0[0] == '蛻' && hk_variant_pairs()[34].0[0] == '蛻');
        assert(hk_variant_pairs()[34].1.len() == 1 && hk_variant_pairs()[34].1[0] == '蜕' && hk_variant_pairs()[34].1[0] == '蜕');
        assert(hk_variant_pairs()[35].0.len() == 1 && hk_variant_pairs()[35].0[0] == '覈' && hk_variant_pairs()[35].0[0] == '覈');
        assert(hk_variant_pairs()[35].1.len() == 1 && hk_variant_pairs()[35].1[0] == '核' && hk_variant_pairs()[35].1[0] == '核');
        assert(hk_variant_pairs()[36].0.len() == 1 && hk_variant_pairs()[36].0[0] == '鉤' && hk_variant_pairs()[36].0[0] == '鉤');
        assert(hk_variant_pairs()[36].1.len() == 1 && hk_variant_pairs()[36].1[0] == '鈎' && hk_variant_pairs()[36].1[0] == '鈎');
        assert(hk_variant_pairs()[37].0.len() == 1 && hk_variant_pairs()[37].0[0] == '銳' && hk_variant_pairs()[37].0[0] == '銳');
        assert(hk_variant_pairs()[37].1.len() == 1 && hk_variant_pairs()[37].1[0] == '鋭' && hk_variant_pairs()[37].1[0] == '鋭');
        assert(hk_variant_pairs()[38].0.len() == 1 && hk_variant_pairs()[38].0[0] == '閱' && hk_variant_pairs()[38].0[0] == '閱');
        assert(hk_variant_pairs()[38].1.len() == 1 && hk_variant_pairs()[38].1[0] == '閲' && hk_variant_pairs()[38].1[0] == '閲');
        assert(hk_variant_pairs()[39].0.len() == 1 && hk_variant_pairs()[39].0[0] == '鰮' && hk_variant_pairs()[39].0[0] == '鰮');
        assert(hk_variant_pairs()[39].1.len() == 1 && hk_variant_pairs()[39].1[0] == '鰛' && hk_variant_pairs()[39].1[0] == '鰛');
        assert(hk_variant_pairs()[40].0.len() == 1 && hk_variant_pairs()[40].0[0] == '麪' && hk_variant_pairs()[40].0[0] == '麪');
        assert(hk_variant_pairs()[40].1.len() == 1 && hk_variant_pairs()[40].1[0] == '麵' && hk_variant_pairs()[40].1[0] == '麵');
        reveal_with_fuel(undone_from, 43);
        reveal_with_fuel(last_target, 44);
    }
}

proof fn lemma_hk_target_entries()
    ensures
        dicts_entries(to::hk_dicts()) == hk_variant_pairs(),
{
    lemma_hk_variant_pairs_entries();
    lemma_one_dict(DictView::Text(dict_data::HK_VARIANTS@));
}

proof fn lemma_hk_source_entries()
    ensures
        dicts_entries(from::hk_dicts()) == hk_source_pairs(),
{
    lemma_hk_variant_rev_pairs_entries();
    lemma_hk_variant_rev_phrase_pairs_entries();
    lemma_two_dicts(DictView::Text(dict_data::HK_VARIANTS_REV@), DictView::Text(dict_data::HK_VARIANTS_REV_PHRASES@));
}

/// The `hk` source group undoes the `hk` target group.
pub proof fn lemma_hk_undoes()
    ensures
        undoes(from::hk_dicts(), to::hk_dicts()),
{
    lemma_hk_target_entries();
    lemma_hk_source_entries();
    lemma_hk_undone();
    lemma_undoes(from::hk_dicts(), to::hk_dicts(), hk_variant_pairs(), hk_source_pairs());
}

} // verus!
