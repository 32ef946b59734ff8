use vstd::prelude::*;

use crate::dictionary::{Dict, DictEntry, DictGroup, DictView, dicts_entries, entry_pairs, insert_all, text_entries};
use crate::text::{chars_of, is_space, str_eq, trim, trim_bounds, trim_end, trim_start};
use crate::trie::{Trie, convert_text};

verus! {

/// The errors of the library.
#[derive(Debug, Clone, PartialEq, Eq)]
pub enum OpenCCError {
    MissingLocale { kind: &'static str },
    UnknownLocale { kind: &'static str, locale: String },
    NullDictionaryGroup,
    Xml(String),
}

impl OpenCCError {
    /// The human-readable message of the error.
    pub fn message(&self) -> (m: String)
        ensures
            m@ == error_message(*self),
    {
        match self {
            OpenCCError::MissingLocale { kind } => {
                let m = String::from_str("Please provide the `");
                let m = m.concat(kind);
                m.concat("` option")
            },
            OpenCCError::UnknownLocale { kind, locale } => {
                let m = String::from_str("Unknown locale `");
                let m = m.concat(locale.as_str());
                let m = m.concat("` for `");
                let m = m.concat(kind);
                m.concat("` option")
            },
            OpenCCError::NullDictionaryGroup => String::from_str("Dictionary group cannot be null."),
            OpenCCError::Xml(message) => {
                let m = String::from_str("XML error: ");
                m.concat(message.as_str())
            },
        }
    }
}

/// The message of an error.
pub open spec fn error_message(e: OpenCCError) -> Seq<char> {
    match e {
        OpenCCError::MissingLocale { kind } => "Please provide the `"@ + kind@ + "` option"@,
        OpenCCError::UnknownLocale { kind, locale } => "Unknown locale `"@ + locale@ + "` for `"@
            + kind@ + "` option"@,
        OpenCCError::NullDictionaryGroup => "Dictionary group cannot be null."@,
        OpenCCError::Xml(message) => "XML error: "@ + message@,
    }
}

/// The source and target locales of a converter.
#[derive(Debug, Clone, PartialEq, Eq)]
pub struct ConverterOptions {
    pub from: String,
    pub to: String,
}

impl ConverterOptions {
    pub fn new(from: &str, to: &str) -> (o: ConverterOptions)
        ensures
            o.from@ == from@,
            o.to@ == to@,
    {
        ConverterOptions { from: from.to_owned(), to: to.to_owned() }
    }
}

impl Default for ConverterOptions {
    fn default() -> (o: ConverterOptions)
        ensures
            o.from@ == Seq::<char>::empty(),
            o.to@ == Seq::<char>::empty(),
    {
        ConverterOptions { from: String::new(), to: String::new() }
    }
}

/// The dictionary that a trie holds after a group of dictionaries is loaded into an
/// empty trie.
pub open spec fn group_dict(g: Seq<DictView>) -> Map<Seq<char>, Seq<char>> {
    insert_all(Map::empty(), dicts_entries(g))
}

/// Whether loading the group `source` undoes what the group `target` changes: for
/// each entry `(s, t)` of `target` with `s != t`, the dictionary of `source` maps
/// `t` back to `s`.
pub open spec fn undoes(source: Seq<DictView>, target: Seq<DictView>) -> bool {
    forall|j: int|
        0 <= j < dicts_entries(target).len() && (#[trigger] dicts_entries(target)[j]).0 != dicts_entries(
            target,
        )[j].1 ==> group_dict(source).contains_key(dicts_entries(target)[j].1) && group_dict(
            source,
        )[dicts_entries(target)[j].1] == dicts_entries(target)[j].0
}

/// `s` converted by each dictionary in turn, the first dictionary first.
pub open spec fn convert_all(dicts: Seq<Map<Seq<char>, Seq<char>>>, s: Seq<char>) -> Seq<char>
    decreases dicts.len(),
{
    if dicts.len() == 0 {
        s
    } else {
        convert_text(dicts.last(), convert_all(dicts.drop_last(), s))
    }
}

/// The stages of a converter apply one after the other, the first stage first.
pub proof fn law_stages_apply_in_order(
    first: Map<Seq<char>, Seq<char>>,
    second: Map<Seq<char>, Seq<char>>,
    s: Seq<char>,
)
    ensures
        convert_all(seq![first, second], s) == convert_text(second, convert_text(first, s)),
{
    assert(seq![first, second].drop_last() =~= seq![first]);
    assert(seq![first].drop_last() =~= Seq::<Map<Seq<char>, Seq<char>>>::empty());
    assert(convert_all(Seq::empty(), s) == s);
    assert(convert_all(seq![first], s) == convert_text(first, s));
}

/// A converter with no stage keeps the text as it is.
pub proof fn law_no_stage_keeps_text(s: Seq<char>)
    ensures
        convert_all(Seq::empty(), s) == s,
{
}

/// A converter: one trie per dictionary group, applied one after the other.
#[derive(Debug, Clone)]
pub struct Converter {
    tries: Vec<Trie>,
}

impl View for Converter {
    type V = Seq<Map<Seq<char>, Seq<char>>>;

    /// The dictionaries of the converter, in the order in which they are applied.
    closed spec fn view(&self) -> Seq<Map<Seq<char>, Seq<char>>> {
        self.tries@.map_values(|t: Trie| t@)
    }
}

impl Converter {
    /// A converter with one trie per group, each loaded with its group's dictionaries.
    pub fn new(dict_groups: Vec<DictGroup>) -> (c: Converter)
        ensures
            c@ == dict_groups@.map_values(|g: DictGroup| group_dict(g@)),
    {
        let mut tries: Vec<Trie> = Vec::new();
        let mut i: usize = 0;
        while i < dict_groups.len()
            invariant
                i <= dict_groups@.len(),
                tries@.len() == i,
                forall|k: int| 0 <= k < i ==> #[trigger] tries@[k]@ == group_dict(dict_groups@[k]@),
            decreases dict_groups@.len() - i,
        {
            let mut trie = Trie::new();
            trie.load_dict_group(&dict_groups[i]);
            tries.push(trie);
            i += 1;
        }
        let c = Converter { tries };
        assert(c@ =~= dict_groups@.map_values(|g: DictGroup| group_dict(g@)));
        c
    }

    /// Converts `input` with each trie in turn.
    pub fn convert(&self, input: &str) -> (r: String)
        ensures
            r@ == convert_all(self@, input@),
    {
        let mut current = input.to_owned();
        let mut i: usize = 0;
        assert(self@.take(0) =~= Seq::<Map<Seq<char>, Seq<char>>>::empty());
        while i < self.tries.len()
            invariant
                i <= self.tries@.len(),
                current@ == convert_all(self@.take(i as int), input@),
            decreases self.tries@.len() - i,
        {
            let next = self.tries[i].convert(current.as_str());
            proof {
                assert(self@.take(i + 1).drop_last() =~= self@.take(i as int));
            }
            current = next;
            i += 1;
        }
        assert(self@.take(i as int) =~= self@);
        current
    }
}

/// A converter with one dictionary group per stage.
pub fn converter_factory(dict_groups: Vec<DictGroup>) -> (c: Converter)
    ensures
        c@ == dict_groups@.map_values(|g: DictGroup| group_dict(g@)),
{
    Converter::new(dict_groups)
}

/// A one-stage converter with a dictionary in the compact text format.
pub fn custom_converter_from_string(dict: &str) -> (c: Converter)
    ensures
        c@ == seq![insert_all(Map::empty(), text_entries(dict@))],
{
    let mut dicts: Vec<Dict> = Vec::new();
    dicts.push(Dict::from_string(dict));
    let ghost dv = dicts@;
    let group = DictGroup::new(dicts);
    assert(group@ =~= seq![dv[0]@]);
    let mut groups: Vec<DictGroup> = Vec::new();
    groups.push(group);
    let c = Converter::new(groups);
    proof {
        let g = groups@[0]@;
        assert(g.len() == 1);
        assert(g.drop_last() =~= Seq::<DictView>::empty());
        assert(dicts_entries(g.drop_last()) =~= Seq::<(Seq<char>, Seq<char>)>::empty());
        assert(dicts_entries(g) =~= text_entries(dict@));
    }
    assert(c@ =~= seq![insert_all(Map::empty(), text_entries(dict@))]);
    c
}

/// A one-stage converter with a list of entries.
pub fn custom_converter_from_entries(entries: Vec<DictEntry>) -> (c: Converter)
    ensures
        c@ == seq![insert_all(Map::empty(), entry_pairs(entries@))],
{
    let ghost pairs = entry_pairs(entries@);
    let mut dicts: Vec<Dict> = Vec::new();
    dicts.push(Dict::from_entries(entries));
    let ghost dv = dicts@;
    let group = DictGroup::new(dicts);
    assert(group@ =~= seq![dv[0]@]);
    let mut groups: Vec<DictGroup> = Vec::new();
    groups.push(group);
    let c = Converter::new(groups);
    proof {
        let g = groups@[0]@;
        assert(g.len() == 1);
        assert(g.drop_last() =~= Seq::<DictView>::empty());
        assert(dicts_entries(g.drop_last()) =~= Seq::<(Seq<char>, Seq<char>)>::empty());
        assert(dicts_entries(g) =~= pairs);
    }
    assert(c@ =~= seq![insert_all(Map::empty(), pairs)]);
    c
}

/// A locale table: each locale name with the dictionaries of its group.
pub type LocaleTable = Seq<(Seq<char>, Seq<DictView>)>;

/// What a list of `(locale, group)` pairs holds.
pub open spec fn table_view(t: Seq<(&'static str, DictGroup)>) -> LocaleTable {
    t.map_values(|e: (&'static str, DictGroup)| (e.0@, e.1@))
}

/// The group of locale `name` in table `t`; where the name occurs more than once,
/// the last occurrence counts, as when the pairs are inserted into a map in order.
pub open spec fn lookup_locale(t: LocaleTable, name: Seq<char>) -> Option<Seq<DictView>>
    decreases t.len(),
{
    if t.len() == 0 {
        None
    } else if t.last().0 == name {
        Some(t.last().1)
    } else {
        lookup_locale(t.drop_last(), name)
    }
}

/// How a locale option selects one stage of a converter.
pub enum LocaleStage {
    /// The option is empty or only whitespace.
    Missing,
    /// The option is `t`: the stage is left out.
    Passthrough,
    /// The option names no locale of the table.
    Unknown,
    /// The option names a locale: the stage uses its group.
    Group(Seq<DictView>),
}

/// The stage that locale option `name` selects in table `t`.
pub open spec fn locale_stage(name: Seq<char>, t: LocaleTable) -> LocaleStage {
    if trim(name).len() == 0 {
        LocaleStage::Missing
    } else if name == "t"@ {
        LocaleStage::Passthrough
    } else {
        match lookup_locale(t, name) {
            None => LocaleStage::Unknown,
            Some(g) => LocaleStage::Group(g),
        }
    }
}

/// The groups that a stage contributes: one, or none.
pub open spec fn stage_groups(s: LocaleStage) -> Seq<Seq<DictView>> {
    match s {
        LocaleStage::Group(g) => seq![g],
        _ => Seq::empty(),
    }
}

/// Whether `r` reports stage `s` of the option `kind` with value `name` as an
/// error, the way a converter builder does.
pub open spec fn stage_error(s: LocaleStage, kind: Seq<char>, name: Seq<char>, r: Result<Converter, OpenCCError>) -> bool {
    match s {
        LocaleStage::Missing => (r matches Err(OpenCCError::MissingLocale { kind: k }) && k@ == kind),
        LocaleStage::Unknown => (r matches Err(OpenCCError::UnknownLocale { kind: k, locale: l })
            && k@ == kind && l@ == name),
        _ => false,
    }
}

/// Whether a stage is an error.
pub open spec fn stage_fails(s: LocaleStage) -> bool {
    s is Missing || s is Unknown
}

/// What building a converter from tables `preset` and locales `from` and `to` gives:
/// the first failing option (`from` before `to`) is reported; otherwise the converter
/// applies the `from` group and then the `to` group, each where it is selected.
pub open spec fn build_outcome(
    preset: (LocaleTable, LocaleTable),
    from: Seq<char>,
    to: Seq<char>,
    r: Result<Converter, OpenCCError>,
) -> bool {
    let f = locale_stage(from, preset.0);
    let t = locale_stage(to, preset.1);
    if stage_fails(f) {
        stage_error(f, "from"@, from, r)
    } else if stage_fails(t) {
        stage_error(t, "to"@, to, r)
    } else {
        r matches Ok(c) && c@ == (stage_groups(f) + stage_groups(t)).map_values(
            |g: Seq<DictView>| group_dict(g),
        )
    }
}

/// A locale option that is neither blank nor `t` and that names a locale of `t`
/// selects that locale's group.
pub proof fn lemma_named_locale_stage(name: Seq<char>, t: LocaleTable, g: Seq<DictView>)
    requires
        name.len() > 0,
        !is_space(name[0]),
        !is_space(name.last()),
        name != "t"@,
        lookup_locale(t, name) == Some(g),
    ensures
        locale_stage(name, t) == LocaleStage::Group(g),
{
    assert(trim_start(name) == name);
    assert(trim_end(name) == name);
}

proof fn lemma_t_is_passthrough(t: LocaleTable)
    ensures
        locale_stage("t"@, t) == LocaleStage::Passthrough,
{
    reveal_strlit("t");
    assert(trim("t"@) == "t"@) by {
        assert(!is_space('t'));
        assert("t"@.drop_last() =~= Seq::<char>::empty());
        assert("t"@.skip(1) =~= Seq::<char>::empty());
        assert(trim_start("t"@) == "t"@);
        assert(trim_end("t"@) == "t"@);
    }
}

/// The locale `t` leaves its stage out, on either side: with `t` on both sides the
/// converter has no stage and keeps every text as it is; with `t` on one side and,
/// on the other, a locale that names a group, the converter has that group's stage
/// alone.
pub proof fn law_passthrough_leaves_stage_out(
    preset: (LocaleTable, LocaleTable),
    from: Seq<char>,
    to: Seq<char>,
    r: Result<Converter, OpenCCError>,
)
    requires
        build_outcome(preset, from, to, r),
    ensures
        from == "t"@ && to == "t"@ ==> (r matches Ok(c) && c@ == Seq::<Map<Seq<char>, Seq<char>>>::empty()
            && forall|s: Seq<char>| #[trigger] convert_all(c@, s) == s),
        from == "t"@ ==> (locale_stage(to, preset.1) matches LocaleStage::Group(g) ==> (r matches Ok(c)
            && c@ == seq![group_dict(g)])),
        to == "t"@ ==> (locale_stage(from, preset.0) matches LocaleStage::Group(g) ==> (r matches Ok(c)
            && c@ == seq![group_dict(g)])),
{
    lemma_t_is_passthrough(preset.0);
    lemma_t_is_passthrough(preset.1);
    let f = locale_stage(from, preset.0);
    let t = locale_stage(to, preset.1);
    if from == "t"@ && to == "t"@ {
        assert(stage_groups(f) + stage_groups(t) =~= Seq::<Seq<DictView>>::empty());
        let c = r->Ok_0;
        assert(c@ =~= Seq::<Map<Seq<char>, Seq<char>>>::empty());
    }
    if from == "t"@ {
        if let LocaleStage::Group(g) = t {
            assert(stage_groups(f) + stage_groups(t) =~= seq![g]);
            let c = r->Ok_0;
            assert(c@ =~= seq![group_dict(g)]);
        }
    }
    if to == "t"@ {
        if let LocaleStage::Group(g) = f {
            assert(stage_groups(f) + stage_groups(t) =~= seq![g]);
            let c = r->Ok_0;
            assert(c@ =~= seq![group_dict(g)]);
        }
    }
}

/// The locale tables of a converter builder: the groups for the source locale and
/// the groups for the target locale.
#[derive(Debug, Clone)]
pub struct LocalePreset {
    from: Vec<(&'static str, DictGroup)>,
    to: Vec<(&'static str, DictGroup)>,
}

impl View for LocalePreset {
    type V = (LocaleTable, LocaleTable);

    closed spec fn view(&self) -> (LocaleTable, LocaleTable) {
        (table_view(self.from@), table_view(self.to@))
    }
}

impl LocalePreset {
    pub fn new(from: Vec<(&'static str, DictGroup)>, to: Vec<(&'static str, DictGroup)>) -> (p: LocalePreset)
        ensures
            p@ == (table_view(from@), table_view(to@)),
    {
        LocalePreset { from, to }
    }

    /// The table of source locales.
    pub fn from(&self) -> (t: &Vec<(&'static str, DictGroup)>)
        ensures
            table_view(t@) == self@.0,
    {
        &self.from
    }

    /// The table of target locales.
    pub fn to(&self) -> (t: &Vec<(&'static str, DictGroup)>)
        ensures
            table_view(t@) == self@.1,
    {
        &self.to
    }
}

/// What a list of groups holds.
pub open spec fn group_views(v: Seq<DictGroup>) -> Seq<Seq<DictView>> {
    v.map_values(|g: DictGroup| g@)
}

/// Appends the group that `locale` selects in `map` to `dict_groups`, or reports
/// why it selects none.
fn add_dict_group(
    kind: &'static str,
    locale: &str,
    map: &Vec<(&'static str, DictGroup)>,
    dict_groups: &mut Vec<DictGroup>,
) -> (r: Result<(), OpenCCError>)
    ensures
        match locale_stage(locale@, table_view(map@)) {
            LocaleStage::Missing => (r matches Err(OpenCCError::MissingLocale { kind: k }) && k == kind)
                && group_views(final(dict_groups)@) == group_views(old(dict_groups)@),
            LocaleStage::Passthrough => r is Ok && group_views(final(dict_groups)@) == group_views(
                old(dict_groups)@,
            ),
            LocaleStage::Unknown => (r matches Err(OpenCCError::UnknownLocale { kind: k, locale: l })
                && k == kind && l@ == locale@) && group_views(final(dict_groups)@) == group_views(
                old(dict_groups)@,
            ),
            LocaleStage::Group(g) => r is Ok && group_views(final(dict_groups)@) == group_views(
                old(dict_groups)@,
            ).push(g),
        },
{
    let chars = chars_of(locale);
    let (lo, hi) = trim_bounds(&chars, 0, chars.len());
    assert(chars@.subrange(0, chars@.len() as int) =~= locale@);
    assert(trim(locale@).len() == hi - lo);
    if lo == hi {
        return Err(OpenCCError::MissingLocale { kind });
    }
    if str_eq(locale, "t") {
        return Ok(());
    }
    let ghost t = table_view(map@);
    let mut i = map.len();
    assert(t.take(i as int) =~= t);
    while i > 0
        invariant
            i <= map@.len(),
            t == table_view(map@),
            lookup_locale(t.take(i as int), locale@) == lookup_locale(t, locale@),
            dict_groups@ == old(dict_groups)@,
            trim(locale@).len() > 0,
            locale@ != "t"@,
        decreases i,
    {
        let entry = &map[i - 1];
        proof {
            let ti = t.take(i as int);
            assert(ti.drop_last() =~= t.take(i - 1));
            assert(ti.last() == (entry.0@, entry.1@));
        }
        if str_eq(entry.0, locale) {
            let g = entry.1.duplicate();
            let ghost before = group_views(dict_groups@);
            dict_groups.push(g);
            assert(group_views(dict_groups@) =~= before.push(g@));
            return Ok(());
        }
        i -= 1;
    }
    assert(t.take(0) =~= Seq::<(Seq<char>, Seq<DictView>)>::empty());
    Err(OpenCCError::UnknownLocale { kind, locale: locale.to_owned() })
}

/// A converter from tables `preset` and the locales of `options`.
fn build_converter(preset: &LocalePreset, options: &ConverterOptions) -> (r: Result<Converter, OpenCCError>)
    ensures
        build_outcome(preset@, options.from@, options.to@, r),
{
    let mut dict_groups: Vec<DictGroup> = Vec::new();
    let ghost f = locale_stage(options.from@, preset@.0);
    let ghost t = locale_stage(options.to@, preset@.1);
    match add_dict_group("from", options.from.as_str(), &preset.from, &mut dict_groups) {
        Ok(()) => {},
        Err(e) => {
            return Err(e);
        },
    }
    match add_dict_group("to", options.to.as_str(), &preset.to, &mut dict_groups) {
        Ok(()) => {},
        Err(e) => {
            return Err(e);
        },
    }
    let c = Converter::new(dict_groups);
    assert(group_views(dict_groups@) =~= stage_groups(f) + stage_groups(t));
    assert(c@ =~= (stage_groups(f) + stage_groups(t)).map_values(|g: Seq<DictView>| group_dict(g)));
    Ok(c)
}

/// A function that builds a converter from the tables of `locale_preset` and the
/// locales of its options.
pub fn converter_builder(locale_preset: LocalePreset) -> (f: impl Fn(&ConverterOptions) -> Result<Converter, OpenCCError>)
    ensures
        forall|o: &ConverterOptions| #[trigger] f.requires((o,)),
        forall|o: &ConverterOptions, r: Result<Converter, OpenCCError>|
            f.ensures((o,), r) ==> build_outcome(locale_preset@, o.from@, o.to@, r),
{
    move |options: &ConverterOptions| -> (r: Result<Converter, OpenCCError>)
        ensures
            build_outcome(locale_preset@, options.from@, options.to@, r),
        { build_converter(&locale_preset, options) }
}

} // verus!
