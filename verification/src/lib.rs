use vstd::prelude::*;

mod dict_data;
pub mod dictionary;
pub mod html;
pub mod locale;
pub mod pipeline;
pub mod presets;
pub mod text;
pub mod trie;

pub use dictionary::{Dict, DictEntry, DictGroup, DictView};
pub use pipeline::{
    Converter, ConverterOptions, LocalePreset, OpenCCError, converter_builder, converter_factory,
    custom_converter_from_entries, custom_converter_from_string,
};
pub use trie::Trie;
pub use html::{HtmlConverter, XmlElement, XmlNode};

verus! {

/// A converter from locale `from` to locale `to` with the full preset.
pub fn converter(from: &str, to: &str) -> (r: Result<Converter, OpenCCError>)
    ensures
        pipeline::build_outcome((locale::from_table(), locale::to_table()), from@, to@, r),
{
    converter_with_options(&ConverterOptions::new(from, to))
}

/// A converter for the locales of `options` with the full preset.
pub fn converter_with_options(options: &ConverterOptions) -> (r: Result<Converter, OpenCCError>)
    ensures
        pipeline::build_outcome(
            (locale::from_table(), locale::to_table()),
            options.from@,
            options.to@,
            r,
        ),
{
    let build = converter_builder(locale::preset());
    build(options)
}

} // verus!
