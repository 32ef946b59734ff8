use vstd::prelude::*;

use crate::pipeline::{
    Converter, LocalePreset, LocaleStage, LocaleTable, build_outcome, convert_all, group_dict, undoes,
    law_passthrough_leaves_stage_out, lemma_named_locale_stage, locale_stage, lookup_locale, table_view,
};
use crate::OpenCCError;
use crate::text::is_space;
use crate::dictionary::DictGroup;

pub mod from;
pub mod to;
pub mod variants;

verus! {

/// The source-locale table of the full preset.
pub open spec fn from_table() -> LocaleTable {
    seq![("cn"@, from::cn_dicts()), ("hk"@, from::hk_dicts()), ("tw"@, from::tw_dicts()), ("tw2"@, from::tw2_dicts()), ("twp"@, from::twp_dicts()), ("jp"@, from::jp_dicts())]
}

/// The target-locale table of the full preset.
pub open spec fn to_table() -> LocaleTable {
    seq![("cn"@, to::cn_dicts()), ("hk"@, to::hk_dicts()), ("tw"@, to::tw_dicts()), ("tw2"@, to::tw2_dicts()), ("twp"@, to::twp_dicts()), ("jp"@, to::jp_dicts())]
}

/// Every source locale with its group.
pub fn from_map() -> (m: Vec<(&'static str, DictGroup)>)
    ensures
        table_view(m@) == from_table(),
{
    let m = vec![("cn", from::cn()), ("hk", from::hk()), ("tw", from::tw()), ("tw2", from::tw2()), ("twp", from::twp()), ("jp", from::jp())];
    assert(table_view(m@) =~= from_table());
    m
}

/// Every target locale with its group.
pub fn to_map() -> (m: Vec<(&'static str, DictGroup)>)
    ensures
        table_view(m@) == to_table(),
{
    let m = vec![("cn", to::cn()), ("hk", to::hk()), ("tw", to::tw()), ("tw2", to::tw2()), ("twp", to::twp()), ("jp", to::jp())];
    assert(table_view(m@) =~= to_table());
    m
}

/// The full preset: every source locale and every target locale.
pub fn preset() -> (p: LocalePreset)
    ensures
        p@ == (from_table(), to_table()),
{
    LocalePreset::new(from_map(), to_map())
}

/// Each name of the full preset's tables selects the group listed with it.
pub proof fn lemma_full_preset_names(k: int)
    requires
        0 <= k < 6,
    ensures
        from_table()[k].0 == to_table()[k].0,
        lookup_locale(from_table(), from_table()[k].0) == Some(from_table()[k].1),
        lookup_locale(to_table(), to_table()[k].0) == Some(to_table()[k].1),
        locale_stage(from_table()[k].0, from_table()) == LocaleStage::Group(from_table()[k].1),
        locale_stage(to_table()[k].0, to_table()) == LocaleStage::Group(to_table()[k].1),
{
    reveal_strlit("cn");
    reveal_strlit("hk");
    reveal_strlit("tw");
    reveal_strlit("tw2");
    reveal_strlit("twp");
    reveal_strlit("jp");
    reveal_strlit("t");
    reveal_with_fuel(lookup_locale, 7);
    let f = from_table();
    let t = to_table();
    assert(f.drop_last() =~= f.take(5));
    assert(f.take(5).drop_last() =~= f.take(4));
    assert(f.take(4).drop_last() =~= f.take(3));
    assert(f.take(3).drop_last() =~= f.take(2));
    assert(f.take(2).drop_last() =~= f.take(1));
    assert(f.take(1).drop_last() =~= f.take(0));
    assert(t.drop_last() =~= t.take(5));
    assert(t.take(5).drop_last() =~= t.take(4));
    assert(t.take(4).drop_last() =~= t.take(3));
    assert(t.take(3).drop_last() =~= t.take(2));
    assert(t.take(2).drop_last() =~= t.take(1));
    assert(t.take(1).drop_last() =~= t.take(0));
    let name = f[k].0;
    assert(forall|j: int| 0 <= j < 6 && j != k ==> f[j].0 != name) by {
        assert("cn"@[0] != "hk"@[0] && "cn"@[0] != "tw"@[0] && "cn"@[0] != "jp"@[0]);
        assert("hk"@[0] != "tw"@[0] && "hk"@[0] != "jp"@[0] && "tw"@[0] != "jp"@[0]);
        assert("tw2"@[2] != "twp"@[2]);
    }
    assert(!is_space(name[0]));
    assert(!is_space(name.last()));
    assert(name != "t"@);
    assert(lookup_locale(f, name) == Some(f[k].1));
    assert(lookup_locale(t, name) == Some(t[k].1));
    lemma_named_locale_stage(name, f, f[k].1);
    lemma_named_locale_stage(name, t, t[k].1);
}

/// In the full preset the locale `t` loads no dictionary for its stage: `t` to `t`
/// gives a converter with no stage, which keeps every text; a locale of the tables
/// to `t` gives the one stage of its source group, and `t` to a locale the one stage
/// of its target group.
pub proof fn law_full_preset_passthrough(
    k: int,
    to_t: Result<Converter, OpenCCError>,
    from_t: Result<Converter, OpenCCError>,
    t_to_t: Result<Converter, OpenCCError>,
)
    requires
        0 <= k < 6,
        build_outcome((from_table(), to_table()), from_table()[k].0, "t"@, to_t),
        build_outcome((from_table(), to_table()), "t"@, to_table()[k].0, from_t),
        build_outcome((from_table(), to_table()), "t"@, "t"@, t_to_t),
    ensures
        to_t matches Ok(c) && c@ == seq![group_dict(from_table()[k].1)],
        from_t matches Ok(c) && c@ == seq![group_dict(to_table()[k].1)],
        t_to_t matches Ok(c) && c@ == Seq::<Map<Seq<char>, Seq<char>>>::empty() && forall|s: Seq<char>|
            #[trigger] convert_all(c@, s) == s,
{
    lemma_full_preset_names(k);
    let p = (from_table(), to_table());
    law_passthrough_leaves_stage_out(p, from_table()[k].0, "t"@, to_t);
    law_passthrough_leaves_stage_out(p, "t"@, to_table()[k].0, from_t);
    law_passthrough_leaves_stage_out(p, "t"@, "t"@, t_to_t);
}

/// The `hk` source stage undoes the `hk` target stage: every Hong Kong form that
/// the target stage writes for a character or phrase, the source stage reads back
/// as that character or phrase.
pub proof fn law_hk_source_undoes_hk_target()
    ensures
        lookup_locale(from_table(), "hk"@) matches Some(source) && lookup_locale(to_table(), "hk"@) matches Some(
            target,
        ) && undoes(source, target),
{
    lemma_full_preset_names(1);
    variants::lemma_hk_undoes();
}

/// The `tw` source stage undoes the `tw` target stage: every Taiwan form that the
/// target stage writes for a character or phrase, the source stage reads back as
/// that character or phrase.
pub proof fn law_tw_source_undoes_tw_target()
    ensures
        lookup_locale(from_table(), "tw"@) matches Some(source) && lookup_locale(to_table(), "tw"@) matches Some(
            target,
        ) && undoes(source, target),
{
    lemma_full_preset_names(2);
    variants::lemma_tw_undoes();
}

/// The Taiwan stages share their variants: the `tw2` and `twp` target stages start
/// with the dictionary of the `tw` target stage, and their source stages start with
/// that of the `tw` source stage.
pub proof fn law_taiwan_stages_share_variants()
    ensures
        to::tw_dicts().len() == 1,
        to::tw2_dicts()[0] == to::tw_dicts()[0],
        to::twp_dicts()[0] == to::tw_dicts()[0],
        from::tw2_dicts()[0] == from::tw_dicts()[0],
        from::twp_dicts()[0] == from::tw_dicts()[0],
        from::twp_dicts()[1] == from::tw_dicts()[1],
{
}

} // verus!
