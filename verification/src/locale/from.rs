use vstd::prelude::*;

use crate::dict_data;
use crate::dictionary::{DictGroup, DictView};

verus! {

/// The dictionaries of the `cn` stage: simplified Chinese (mainland China) to traditional characters.
pub open spec fn cn_dicts() -> Seq<DictView> {
    seq![DictView::Text(dict_data::ST_CHARACTERS@), DictView::Text(dict_data::ST_PHRASES@)]
}

/// Simplified Chinese (mainland China) to traditional characters.
pub fn cn() -> (g: DictGroup)
    ensures
        g@ == cn_dicts(),
{
    let g = DictGroup::from_strings(vec![dict_data::ST_CHARACTERS, dict_data::ST_PHRASES]);
    assert(g@ =~= cn_dicts());
    g
}

/// The dictionaries of the `hk` stage: hong Kong forms to traditional characters.
pub open spec fn hk_dicts() -> Seq<DictView> {
    seq![DictView::Text(dict_data::HK_VARIANTS_REV@), DictView::Text(dict_data::HK_VARIANTS_REV_PHRASES@)]
}

/// Hong Kong forms to traditional characters.
pub fn hk() -> (g: DictGroup)
    ensures
        g@ == hk_dicts(),
{
    let g = DictGroup::from_strings(vec![dict_data::HK_VARIANTS_REV, dict_data::HK_VARIANTS_REV_PHRASES]);
    assert(g@ =~= hk_dicts());
    g
}

/// The dictionaries of the `tw` stage: taiwan forms to traditional characters.
pub open spec fn tw_dicts() -> Seq<DictView> {
    seq![DictView::Text(dict_data::TW_VARIANTS_REV@), DictView::Text(dict_data::TW_VARIANTS_REV_PHRASES@)]
}

/// Taiwan forms to traditional characters.
pub fn tw() -> (g: DictGroup)
    ensures
        g@ == tw_dicts(),
{
    let g = DictGroup::from_strings(vec![dict_data::TW_VARIANTS_REV, dict_data::TW_VARIANTS_REV_PHRASES]);
    assert(g@ =~= tw_dicts());
    g
}

/// The dictionaries of the `tw2` stage: taiwan forms and terms preferred in Taiwan to traditional characters.
pub open spec fn tw2_dicts() -> Seq<DictView> {
    seq![DictView::Text(dict_data::TW_VARIANTS_REV@), DictView::Text(dict_data::TW_PHRASES_CUSTOM_EXTRA_REV@), DictView::Text(dict_data::TW_PHRASES_CUSTOM_REV@)]
}

/// Taiwan forms and terms preferred in Taiwan to traditional characters.
pub fn tw2() -> (g: DictGroup)
    ensures
        g@ == tw2_dicts(),
{
    let g = DictGroup::from_strings(vec![dict_data::TW_VARIANTS_REV, dict_data::TW_PHRASES_CUSTOM_EXTRA_REV, dict_data::TW_PHRASES_CUSTOM_REV]);
    assert(g@ =~= tw2_dicts());
    g
}

/// The dictionaries of the `twp` stage: taiwan forms and Taiwan terms (IT, names and others) to traditional characters.
pub open spec fn twp_dicts() -> Seq<DictView> {
    seq![DictView::Text(dict_data::TW_VARIANTS_REV@), DictView::Text(dict_data::TW_VARIANTS_REV_PHRASES@), DictView::Text(dict_data::TW_PHRASES_REV@)]
}

/// Taiwan forms and Taiwan terms (IT, names and others) to traditional characters.
pub fn twp() -> (g: DictGroup)
    ensures
        g@ == twp_dicts(),
{
    let g = DictGroup::from_strings(vec![dict_data::TW_VARIANTS_REV, dict_data::TW_VARIANTS_REV_PHRASES, dict_data::TW_PHRASES_REV]);
    assert(g@ =~= twp_dicts());
    g
}

/// The dictionaries of the `jp` stage: japanese shinjitai to traditional characters.
pub open spec fn jp_dicts() -> Seq<DictView> {
    seq![DictView::Text(dict_data::JP_VARIANTS_REV@), DictView::Text(dict_data::JP_SHINJITAI_CHARACTERS@), DictView::Text(dict_data::JP_SHINJITAI_PHRASES@)]
}

/// Japanese shinjitai to traditional characters.
pub fn jp() -> (g: DictGroup)
    ensures
        g@ == jp_dicts(),
{
    let g = DictGroup::from_strings(vec![dict_data::JP_VARIANTS_REV, dict_data::JP_SHINJITAI_CHARACTERS, dict_data::JP_SHINJITAI_PHRASES]);
    assert(g@ =~= jp_dicts());
    g
}

} // verus!
