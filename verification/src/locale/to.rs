use vstd::prelude::*;

use crate::dict_data;
use crate::dictionary::{DictGroup, DictView};

verus! {

/// The dictionaries of the `cn` stage: traditional characters to simplified Chinese (mainland China).
pub open spec fn cn_dicts() -> Seq<DictView> {
    seq![DictView::Text(dict_data::TS_CHARACTERS@), DictView::Text(dict_data::TS_PHRASES@)]
}

/// Traditional characters to simplified Chinese (mainland China).
pub fn cn() -> (g: DictGroup)
    ensures
        g@ == cn_dicts(),
{
    let g = DictGroup::from_strings(vec![dict_data::TS_CHARACTERS, dict_data::TS_PHRASES]);
    assert(g@ =~= cn_dicts());
    g
}

/// The dictionaries of the `hk` stage: traditional characters to Hong Kong forms.
pub open spec fn hk_dicts() -> Seq<DictView> {
    seq![DictView::Text(dict_data::HK_VARIANTS@)]
}

/// Traditional characters to Hong Kong forms.
pub fn hk() -> (g: DictGroup)
    ensures
        g@ == hk_dicts(),
{
    let g = DictGroup::from_strings(vec![dict_data::HK_VARIANTS]);
    assert(g@ =~= hk_dicts());
    g
}

/// The dictionaries of the `tw` stage: traditional characters to Taiwan forms.
pub open spec fn tw_dicts() -> Seq<DictView> {
    seq![DictView::Text(dict_data::TW_VARIANTS@)]
}

/// Traditional characters to Taiwan forms.
pub fn tw() -> (g: DictGroup)
    ensures
        g@ == tw_dicts(),
{
    let g = DictGroup::from_strings(vec![dict_data::TW_VARIANTS]);
    assert(g@ =~= tw_dicts());
    g
}

/// The dictionaries of the `tw2` stage: traditional characters to Taiwan forms and terms preferred in Taiwan.
pub open spec fn tw2_dicts() -> Seq<DictView> {
    seq![DictView::Text(dict_data::TW_VARIANTS@), DictView::Text(dict_data::TW_PHRASES_CUSTOM_EXTRA@), DictView::Text(dict_data::TW_PHRASES_CUSTOM@)]
}

/// Traditional characters to Taiwan forms and terms preferred in Taiwan.
pub fn tw2() -> (g: DictGroup)
    ensures
        g@ == tw2_dicts(),
{
    let g = DictGroup::from_strings(vec![dict_data::TW_VARIANTS, dict_data::TW_PHRASES_CUSTOM_EXTRA, dict_data::TW_PHRASES_CUSTOM]);
    assert(g@ =~= tw2_dicts());
    g
}

/// The dictionaries of the `twp` stage: traditional characters to Taiwan forms and Taiwan terms (IT, names and others).
pub open spec fn twp_dicts() -> Seq<DictView> {
    seq![DictView::Text(dict_data::TW_VARIANTS@), DictView::Text(dict_data::TW_PHRASES_IT@), DictView::Text(dict_data::TW_PHRASES_NAME@), DictView::Text(dict_data::TW_PHRASES_OTHER@)]
}

/// Traditional characters to Taiwan forms and Taiwan terms (IT, names and others).
pub fn twp() -> (g: DictGroup)
    ensures
        g@ == twp_dicts(),
{
    let g = DictGroup::from_strings(vec![dict_data::TW_VARIANTS, dict_data::TW_PHRASES_IT, dict_data::TW_PHRASES_NAME, dict_data::TW_PHRASES_OTHER]);
    assert(g@ =~= twp_dicts());
    g
}

/// The dictionaries of the `jp` stage: traditional characters to Japanese forms.
pub open spec fn jp_dicts() -> Seq<DictView> {
    seq![DictView::Text(dict_data::JP_VARIANTS@)]
}

/// Traditional characters to Japanese forms.
pub fn jp() -> (g: DictGroup)
    ensures
        g@ == jp_dicts(),
{
    let g = DictGroup::from_strings(vec![dict_data::JP_VARIANTS]);
    assert(g@ =~= jp_dicts());
    g
}

} // verus!
