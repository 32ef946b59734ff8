use vstd::prelude::*;

use crate::locale;
use crate::pipeline::{
    Converter, ConverterOptions, LocalePreset, LocaleTable, OpenCCError, build_outcome, converter_builder,
};

verus! {

/// The source-locale table of this preset.
pub open spec fn from_table() -> LocaleTable {
    locale::from_table()
}

/// The target-locale table of this preset.
pub open spec fn to_table() -> LocaleTable {
    locale::to_table()
}

/// The full preset: every source locale and every target locale.
pub fn locale() -> (p: LocalePreset)
    ensures
        p@ == (from_table(), to_table()),
{
    locale::preset()
}

/// A converter from locale `from` to locale `to` with this preset.
pub fn converter(from: &str, to: &str) -> (r: Result<Converter, OpenCCError>)
    ensures
        build_outcome((from_table(), to_table()), from@, to@, r),
{
    converter_with_options(&ConverterOptions::new(from, to))
}

/// A converter for the locales of `options` with this preset.
pub fn converter_with_options(options: &ConverterOptions) -> (r: Result<Converter, OpenCCError>)
    ensures
        build_outcome((from_table(), to_table()), options.from@, options.to@, r),
{
    let build = converter_builder(locale());
    build(options)
}

} // verus!
