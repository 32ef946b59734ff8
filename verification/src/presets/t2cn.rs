use vstd::prelude::*;

use crate::dictionary::DictGroup;
use crate::locale;
use crate::locale::lemma_full_preset_names;
use crate::pipeline::{
    Converter, ConverterOptions, LocalePreset, LocaleTable, OpenCCError, build_outcome, lookup_locale, converter_builder,
    table_view,
};

verus! {

/// The source-locale table of this preset.
pub open spec fn from_table() -> LocaleTable {
    seq![("hk"@, locale::from::hk_dicts()), ("tw"@, locale::from::tw_dicts()), ("tw2"@, locale::from::tw2_dicts()), ("twp"@, locale::from::twp_dicts()), ("jp"@, locale::from::jp_dicts())]
}

/// The target-locale table of this preset.
pub open spec fn to_table() -> LocaleTable {
    seq![("cn"@, locale::to::cn_dicts())]
}

/// The preset from the traditional locales to simplified Chinese.
pub fn locale() -> (p: LocalePreset)
    ensures
        p@ == (from_table(), to_table()),
{
    let from: Vec<(&'static str, DictGroup)> = vec![("hk", locale::from::hk()), ("tw", locale::from::tw()), ("tw2", locale::from::tw2()), ("twp", locale::from::twp()), ("jp", locale::from::jp())];
    let to: Vec<(&'static str, DictGroup)> = vec![("cn", locale::to::cn())];
    assert(table_view(from@) =~= from_table());
    assert(table_view(to@) =~= to_table());
    LocalePreset::new(from, to)
}

/// A converter from locale `from` to locale `to` with this preset.
pub fn converter(from: &str, to: &str) -> (r: Result<Converter, OpenCCError>)
    ensures
        build_outcome((from_table(), to_table()), from@, to@, r),
{
    converter_with_options(&ConverterOptions::new(from, to))
}

/// A converter for the locales of `options` with this preset.
pub fn converter_with_options(options: &ConverterOptions) -> (r: Result<Converter, OpenCCError>)
    ensures
        build_outcome((from_table(), to_table()), options.from@, options.to@, r),
{
    let build = converter_builder(locale());
    build(options)
}

/// Each locale of this preset selects, on each side, the group that it selects in
/// the full preset.
pub proof fn law_agrees_with_full_preset()
    ensures
        forall|i: int|
            0 <= i < from_table().len() ==> lookup_locale(locale::from_table(), #[trigger] from_table()[i].0)
                == Some(from_table()[i].1),
        forall|i: int|
            0 <= i < to_table().len() ==> lookup_locale(locale::to_table(), #[trigger] to_table()[i].0)
                == Some(to_table()[i].1),
{
    lemma_full_preset_names(0);
    lemma_full_preset_names(1);
    lemma_full_preset_names(2);
    lemma_full_preset_names(3);
    lemma_full_preset_names(4);
    lemma_full_preset_names(5);
    assert(from_table()[0] == locale::from_table()[1]);
    assert(from_table()[1] == locale::from_table()[2]);
    assert(from_table()[2] == locale::from_table()[3]);
    assert(from_table()[3] == locale::from_table()[4]);
    assert(from_table()[4] == locale::from_table()[5]);
    assert(to_table()[0] == locale::to_table()[0]);
}

} // verus!
