use vstd::prelude::*;

use crate::pipeline::{Converter, OpenCCError, convert_all};
use crate::text::{chars_of, is_space, str_eq};
use vstd::utf8::{decode_utf8, valid_utf8};

verus! {

/// A node of an XML document.
#[derive(Debug)]
pub enum XmlNode {
    Element(XmlElement),
    Comment(String),
    CData(String),
    Text(String),
    ProcessingInstruction(String, Option<String>),
}

/// An XML element: its name with prefix and namespaces, its attributes as
/// `(name, value)` pairs, and its children.
#[derive(Debug)]
pub struct XmlElement {
    pub prefix: Option<String>,
    pub namespace: Option<String>,
    pub namespaces: Option<Vec<(String, String)>>,
    pub name: String,
    pub attributes: Vec<(String, String)>,
    pub children: Vec<XmlNode>,
}

/// Attributes as `(name, value)` pairs.
pub type Attrs = Seq<(Seq<char>, Seq<char>)>;

/// What a list of string pairs holds.
pub open spec fn pair_views(v: Seq<(String, String)>) -> Attrs {
    v.map_values(|p: (String, String)| (p.0@, p.1@))
}

/// What an optional list of string pairs holds.
pub open spec fn opt_pair_views(v: Option<Vec<(String, String)>>) -> Option<Attrs> {
    match v {
        Some(w) => Some(pair_views(w@)),
        None => None,
    }
}

/// What an optional string holds.
pub open spec fn opt_view(s: Option<String>) -> Option<Seq<char>> {
    match s {
        Some(t) => Some(t@),
        None => None,
    }
}

/// Whether two nodes hold the same document.
pub open spec fn same_node(a: XmlNode, b: XmlNode) -> bool
    decreases a,
{
    match (a, b) {
        (XmlNode::Element(x), XmlNode::Element(y)) => same_element(x, y),
        (XmlNode::Comment(x), XmlNode::Comment(y)) => x@ == y@,
        (XmlNode::CData(x), XmlNode::CData(y)) => x@ == y@,
        (XmlNode::Text(x), XmlNode::Text(y)) => x@ == y@,
        (XmlNode::ProcessingInstruction(x, p), XmlNode::ProcessingInstruction(y, q)) => x@ == y@
            && opt_view(p) == opt_view(q),
        _ => false,
    }
}

/// Whether two elements hold the same document.
pub open spec fn same_element(a: XmlElement, b: XmlElement) -> bool
    decreases a,
{
    &&& opt_view(a.prefix) == opt_view(b.prefix)
    &&& opt_view(a.namespace) == opt_view(b.namespace)
    &&& opt_pair_views(a.namespaces) == opt_pair_views(b.namespaces)
    &&& a.name@ == b.name@
    &&& pair_views(a.attributes@) == pair_views(b.attributes@)
    &&& a.children@.len() == b.children@.len()
    &&& forall|i: int|
        0 <= i < a.children@.len() ==> same_node(#[trigger] a.children@[i], b.children@[i])
}

/// The position of attribute `key` in `attrs`, if any. Where a name occurs more
/// than once the last pair counts, as in the map of attributes that a document is
/// written from, where a later value replaces an earlier one.
pub open spec fn attr_index(attrs: Attrs, key: Seq<char>) -> Option<int> {
    if exists|i: int| 0 <= i < attrs.len() && attrs[i].0 == key {
        Some(
            choose|i: int|
                0 <= i < attrs.len() && attrs[i].0 == key && forall|j: int|
                    i < j < attrs.len() ==> attrs[j].0 != key,
        )
    } else {
        None
    }
}

/// The last position of `key` in `attrs`, from position `i` on, where `key` stands
/// at `i`.
proof fn greatest_attr_index(attrs: Attrs, key: Seq<char>, i: int) -> (w: int)
    requires
        0 <= i < attrs.len(),
        attrs[i].0 == key,
    ensures
        i <= w < attrs.len(),
        attrs[w].0 == key,
        forall|j: int| w < j < attrs.len() ==> attrs[j].0 != key,
    decreases attrs.len() - i,
{
    if exists|j: int| i < j < attrs.len() && attrs[j].0 == key {
        let j = choose|j: int| i < j < attrs.len() && attrs[j].0 == key;
        greatest_attr_index(attrs, key, j)
    } else {
        i
    }
}

/// `attr_index` gives the last position of `key`, and `None` only when `key` does
/// not occur.
pub proof fn lemma_attr_index(attrs: Attrs, key: Seq<char>)
    ensures
        attr_index(attrs, key) matches Some(k) ==> 0 <= k < attrs.len() && attrs[k].0 == key
            && forall|j: int| k < j < attrs.len() ==> attrs[j].0 != key,
        attr_index(attrs, key) is None ==> forall|j: int| 0 <= j < attrs.len() ==> attrs[j].0 != key,
{
    if exists|i: int| 0 <= i < attrs.len() && attrs[i].0 == key {
        let i = choose|i: int| 0 <= i < attrs.len() && attrs[i].0 == key;
        let w = greatest_attr_index(attrs, key, i);
    }
}

/// The value of attribute `key`, if the element has it.
pub open spec fn attr_value(attrs: Attrs, key: Seq<char>) -> Option<Seq<char>> {
    match attr_index(attrs, key) {
        Some(k) => Some(attrs[k].1),
        None => None,
    }
}

/// The code of `c` with ASCII upper-case letters lowered.
pub open spec fn ascii_lower(c: char) -> u32 {
    if 0x41 <= c as u32 <= 0x5a {
        (c as u32 + 0x20) as u32
    } else {
        c as u32
    }
}

/// Whether `a` and `b` are equal up to ASCII case.
pub open spec fn same_ignoring_ascii_case(a: Seq<char>, b: Seq<char>) -> bool {
    a.len() == b.len() && forall|i: int| 0 <= i < a.len() ==> ascii_lower(#[trigger] a[i]) == ascii_lower(b[i])
}

/// Whether `w` occurs in `s` as a whole whitespace-separated word.
pub open spec fn has_word(s: Seq<char>, w: Seq<char>) -> bool {
    exists|i: int|
        0 <= i && i + w.len() <= s.len() && #[trigger] s.subrange(i, i + w.len()) == w && (i == 0
            || is_space(s[i - 1])) && (i + w.len() == s.len() || is_space(s[i + w.len()]))
}

/// Whether the `class` attribute lists `ignore-opencc`.
pub open spec fn ignored(attrs: Attrs) -> bool {
    match attr_value(attrs, "class"@) {
        Some(v) => has_word(v, "ignore-opencc"@),
        None => false,
    }
}

/// Whether the text of an element is converted, given the `lang` attribute and whether
/// the text around it is: a `lang` equal to the source tag starts conversion, another
/// non-empty `lang` stops it.
pub open spec fn lang_scope(attrs: Attrs, matched: bool, from: Seq<char>) -> bool {
    match attr_index(attrs, "lang"@) {
        Some(k) => if attrs[k].1 == from {
            true
        } else if attrs[k].1.len() > 0 {
            false
        } else {
            matched
        },
        None => matched,
    }
}

/// The attributes with a `lang` equal to the source tag replaced by the target tag.
pub open spec fn attrs_after_lang(attrs: Attrs, from: Seq<char>, to: Seq<char>) -> Attrs {
    match attr_index(attrs, "lang"@) {
        Some(k) => if attrs[k].1 == from {
            attrs.update(k, (attrs[k].0, to))
        } else {
            attrs
        },
        None => attrs,
    }
}

/// The attributes with the value of `key`, if present, converted.
pub open spec fn convert_attr(attrs: Attrs, key: Seq<char>, conv: Seq<Map<Seq<char>, Seq<char>>>) -> Attrs {
    match attr_index(attrs, key) {
        Some(k) => attrs.update(k, (attrs[k].0, convert_all(conv, attrs[k].1))),
        None => attrs,
    }
}

/// Whether attribute `key` is present and equal to `value` up to ASCII case.
pub open spec fn attr_is(attrs: Attrs, key: Seq<char>, value: Seq<char>) -> bool {
    match attr_value(attrs, key) {
        Some(v) => same_ignoring_ascii_case(v, value),
        None => false,
    }
}

/// The attributes of an element whose text is converted: the `content` of a
/// `meta` named `description` or `keywords`, the `alt` of an `img`, and the `value`
/// of an `input` of type `button` are converted.
pub open spec fn attrs_after_content(attrs: Attrs, name: Seq<char>, conv: Seq<Map<Seq<char>, Seq<char>>>) -> Attrs {
    if same_ignoring_ascii_case(name, "meta"@) {
        if attr_is(attrs, "name"@, "description"@) || attr_is(attrs, "name"@, "keywords"@) {
            convert_attr(attrs, "content"@, conv)
        } else {
            attrs
        }
    } else if same_ignoring_ascii_case(name, "img"@) {
        convert_attr(attrs, "alt"@, conv)
    } else if same_ignoring_ascii_case(name, "input"@) {
        if attr_is(attrs, "type"@, "button"@) {
            convert_attr(attrs, "value"@, conv)
        } else {
            attrs
        }
    } else {
        attrs
    }
}

/// Whether an element's content is never converted (`script` and `style`).
pub open spec fn keeps_content(name: Seq<char>) -> bool {
    same_ignoring_ascii_case(name, "script"@) || same_ignoring_ascii_case(name, "style"@)
}

/// Whether node `r` is node `n` converted with `conv`, where `matched` says whether
/// the text around `n` is converted.
pub open spec fn converted_node(
    conv: Seq<Map<Seq<char>, Seq<char>>>,
    n: XmlNode,
    r: XmlNode,
    matched: bool,
    from: Seq<char>,
    to: Seq<char>,
) -> bool
    decreases n,
{
    match (n, r) {
        (XmlNode::Element(x), XmlNode::Element(y)) => converted_element(conv, x, y, matched, from, to),
        (XmlNode::Text(x), XmlNode::Text(y)) => y@ == if matched {
            convert_all(conv, x@)
        } else {
            x@
        },
        _ => same_node(n, r),
    }
}

/// Whether element `r` is element `e` converted with `conv` from language tag `from`
/// to `to`, where `matched` says whether the text around `e` is converted. An element
/// of class `ignore-opencc` is kept whole. A `lang` equal to `from` becomes `to`. In
/// the converted part, text nodes and some attribute values are converted, except
/// inside `script` and `style`.
pub open spec fn converted_element(
    conv: Seq<Map<Seq<char>, Seq<char>>>,
    e: XmlElement,
    r: XmlElement,
    matched: bool,
    from: Seq<char>,
    to: Seq<char>,
) -> bool
    decreases e,
{
    let a0 = pair_views(e.attributes@);
    if ignored(a0) {
        same_element(e, r)
    } else {
        let m = lang_scope(a0, matched, from);
        let a1 = attrs_after_lang(a0, from, to);
        &&& opt_view(r.prefix) == opt_view(e.prefix)
        &&& opt_view(r.namespace) == opt_view(e.namespace)
        &&& opt_pair_views(r.namespaces) == opt_pair_views(e.namespaces)
        &&& r.name@ == e.name@
        &&& r.children@.len() == e.children@.len()
        &&& if m && keeps_content(e.name@) {
            &&& pair_views(r.attributes@) == a1
            &&& forall|i: int|
                0 <= i < e.children@.len() ==> same_node(#[trigger] e.children@[i], r.children@[i])
        } else {
            &&& pair_views(r.attributes@) == if m {
                attrs_after_content(a1, e.name@, conv)
            } else {
                a1
            }
            &&& forall|i: int|
                0 <= i < e.children@.len() ==> converted_node(
                    conv,
                    #[trigger] e.children@[i],
                    r.children@[i],
                    m,
                    from,
                    to,
                )
        }
    }
}

fn copy_opt_string(s: &Option<String>) -> (r: Option<String>)
    ensures
        opt_view(r) == opt_view(*s),
{
    match s {
        Some(x) => Some(x.clone()),
        None => None,
    }
}

fn copy_pairs(v: &Vec<(String, String)>) -> (r: Vec<(String, String)>)
    ensures
        pair_views(r@) == pair_views(v@),
{
    let mut r: Vec<(String, String)> = Vec::new();
    let mut i: usize = 0;
    while i < v.len()
        invariant
            i <= v@.len(),
            r@.len() == i,
            forall|k: int| 0 <= k < i ==> (#[trigger] r@[k]).0@ == v@[k].0@ && r@[k].1@ == v@[k].1@,
        decreases v@.len() - i,
    {
        let (a, b) = &v[i];
        r.push((a.clone(), b.clone()));
        i += 1;
    }
    assert(pair_views(r@) =~= pair_views(v@));
    r
}

fn copy_opt_pairs(v: &Option<Vec<(String, String)>>) -> (r: Option<Vec<(String, String)>>)
    ensures
        opt_pair_views(r) == opt_pair_views(*v),
{
    match v {
        Some(w) => Some(copy_pairs(w)),
        None => None,
    }
}

impl XmlNode {
    /// A copy of the node.
    pub fn duplicate(&self) -> (r: XmlNode)
        ensures
            same_node(*self, r),
        decreases self,
    {
        match self {
            XmlNode::Element(e) => XmlNode::Element(e.duplicate()),
            XmlNode::Text(t) => XmlNode::Text(t.clone()),
            XmlNode::Comment(t) => XmlNode::Comment(t.clone()),
            XmlNode::CData(t) => XmlNode::CData(t.clone()),
            XmlNode::ProcessingInstruction(t, d) => XmlNode::ProcessingInstruction(
                t.clone(),
                copy_opt_string(d),
            ),
        }
    }
}

impl XmlElement {
    /// A copy of the element.
    pub fn duplicate(&self) -> (r: XmlElement)
        ensures
            same_element(*self, r),
        decreases self,
    {
        let mut children: Vec<XmlNode> = Vec::new();
        let mut i: usize = 0;
        while i < self.children.len()
            invariant
                i <= self.children@.len(),
                children@.len() == i,
                forall|k: int| 0 <= k < i ==> same_node(#[trigger] self.children@[k], children@[k]),
            decreases self.children@.len() - i,
        {
            children.push(self.children[i].duplicate());
            i += 1;
        }
        XmlElement {
            prefix: copy_opt_string(&self.prefix),
            namespace: copy_opt_string(&self.namespace),
            namespaces: copy_opt_pairs(&self.namespaces),
            name: self.name.clone(),
            attributes: copy_pairs(&self.attributes),
            children,
        }
    }
}

/// The position of attribute `key` in `attrs`, if it is there.
fn find_attr(attrs: &Vec<(String, String)>, key: &str) -> (r: Option<usize>)
    ensures
        match r {
            Some(k) => attr_index(pair_views(attrs@), key@) == Some(k as int) && k < attrs@.len(),
            None => attr_index(pair_views(attrs@), key@) is None,
        },
{
    let ghost a = pair_views(attrs@);
    let mut i: usize = attrs.len();
    while i > 0
        invariant
            i <= attrs@.len(),
            a == pair_views(attrs@),
            forall|j: int| i <= j < attrs@.len() ==> a[j].0 != key@,
        decreases i,
    {
        if str_eq(attrs[i - 1].0.as_str(), key) {
            proof {
                let k = i - 1;
                assert(a[k].0 == key@);
                lemma_attr_index(a, key@);
                let w = attr_index(a, key@)->0;
                if w < k {
                    assert(a[k].0 != key@);
                }
                if k < w {
                    assert(a[w].0 != key@);
                }
            }
            return Some(i - 1);
        }
        i -= 1;
    }
    proof {
        lemma_attr_index(a, key@);
    }
    None
}

/// `str::eq_ignore_ascii_case`: whether `a` and `b` are equal up to ASCII case.
pub fn eq_ignore_ascii_case(a: &str, b: &str) -> (r: bool)
    ensures
        r == same_ignoring_ascii_case(a@, b@),
{
    let x = chars_of(a);
    let y = chars_of(b);
    if x.len() != y.len() {
        return false;
    }
    let mut i: usize = 0;
    while i < x.len()
        invariant
            x@ == a@,
            y@ == b@,
            x@.len() == y@.len(),
            i <= x@.len(),
            forall|j: int| 0 <= j < i ==> ascii_lower(#[trigger] x@[j]) == ascii_lower(y@[j]),
        decreases x@.len() - i,
    {
        let p = x[i] as u32;
        let q = y[i] as u32;
        let lp = if 0x41 <= p && p <= 0x5a { p + 0x20 } else { p };
        let lq = if 0x41 <= q && q <= 0x5a { q + 0x20 } else { q };
        if lp != lq {
            assert(ascii_lower(x@[i as int]) != ascii_lower(y@[i as int]));
            return false;
        }
        i += 1;
    }
    true
}

/// Whether `w` occurs in `s` as a whole whitespace-separated word.
fn contains_word(s: &Vec<char>, w: &Vec<char>) -> (r: bool)
    ensures
        r == has_word(s@, w@),
{
    if w.len() > s.len() {
        return false;
    }
    let last = s.len() - w.len();
    let mut i: usize = 0;
    loop
        invariant
            w@.len() <= s@.len() <= usize::MAX,
            i <= last,
            last == s@.len() - w@.len(),
            forall|p: int|
                0 <= p < i ==> !(#[trigger] s@.subrange(p, p + w@.len()) == w@ && (p == 0 || is_space(
                    s@[p - 1],
                )) && (p + w@.len() == s@.len() || is_space(s@[p + w@.len()]))),
        decreases last - i,
    {
        let mut k: usize = 0;
        let mut same = true;
        while k < w.len() && same
            invariant
                w@.len() <= s@.len() <= usize::MAX,
                i <= last,
                last == s@.len() - w@.len(),
                k <= w@.len(),
                same ==> forall|q: int| 0 <= q < k ==> s@[i + q] == w@[q],
                !same ==> s@.subrange(i as int, i + w@.len()) != w@,
            decreases w@.len() - k, if same { 1int } else { 0int },
        {
            if s[i + k] != w[k] {
                same = false;
                assert(s@.subrange(i as int, i + w@.len())[k as int] != w@[k as int]);
            } else {
                k += 1;
            }
        }
        if same {
            assert(s@.subrange(i as int, i + w@.len()) =~= w@);
        }
        let before = i == 0 || crate::text::is_whitespace(s[i - 1]);
        let after = i == last || crate::text::is_whitespace(s[i + w.len()]);
        if same && before && after {
            return true;
        }
        if i == last {
            return false;
        }
        i += 1;
    }
}

/// Whether an element's `class` attribute lists `ignore-opencc`.
fn has_ignore_class(element: &XmlElement) -> (r: bool)
    ensures
        r == ignored(pair_views(element.attributes@)),
{
    match find_attr(&element.attributes, "class") {
        Some(k) => {
            let class = chars_of(element.attributes[k].1.as_str());
            let word = chars_of("ignore-opencc");
            assert(pair_views(element.attributes@)[k as int].1 == class@);
            contains_word(&class, &word)
        },
        None => false,
    }
}

/// Converts the value of attribute `key`, if present.
fn convert_attr_value(converter: &Converter, attrs: &mut Vec<(String, String)>, key: &str)
    ensures
        pair_views(final(attrs)@) == convert_attr(pair_views(old(attrs)@), key@, converter@),
{
    let ghost a = pair_views(attrs@);
    proof {
        lemma_attr_index(a, key@);
    }
    match find_attr(attrs, key) {
        Some(k) => {
            let name = attrs[k].0.clone();
            let value = converter.convert(attrs[k].1.as_str());
            attrs.set(k, (name, value));
            assert(pair_views(attrs@) =~= convert_attr(a, key@, converter@));
        },
        None => {},
    }
}

/// Whether attribute `key` is present and equal to `value` up to ASCII case.
fn attr_equals_ignoring_case(attrs: &Vec<(String, String)>, key: &str, value: &str) -> (r: bool)
    ensures
        r == attr_is(pair_views(attrs@), key@, value@),
{
    match find_attr(attrs, key) {
        Some(k) => eq_ignore_ascii_case(attrs[k].1.as_str(), value),
        None => false,
    }
}

/// `element` converted with `converter` from language tag `from` to `to`, where
/// `lang_matched` says whether the text around it is converted.
fn convert_element(
    converter: &Converter,
    element: &XmlElement,
    lang_matched: bool,
    from: &str,
    to: &str,
) -> (r: XmlElement)
    ensures
        converted_element(converter@, *element, r, lang_matched, from@, to@),
    decreases element,
{
    if has_ignore_class(element) {
        return element.duplicate();
    }
    let ghost a0 = pair_views(element.attributes@);
    let mut attributes = copy_pairs(&element.attributes);
    let mut matched = lang_matched;
    proof {
        lemma_attr_index(a0, "lang"@);
    }
    match find_attr(&attributes, "lang") {
        Some(k) => {
            if str_eq(attributes[k].1.as_str(), from) {
                matched = true;
                let key = attributes[k].0.clone();
                attributes.set(k, (key, to.to_owned()));
                assert(pair_views(attributes@) =~= attrs_after_lang(a0, from@, to@));
            } else if !attributes[k].1.as_str().is_empty() {
                matched = false;
            }
        },
        None => {},
    }
    assert(pair_views(attributes@) == attrs_after_lang(a0, from@, to@));
    let name = element.name.as_str();
    let keep = matched && (eq_ignore_ascii_case(name, "script") || eq_ignore_ascii_case(name, "style"));
    if matched && !keep {
        if eq_ignore_ascii_case(name, "meta") {
            if attr_equals_ignoring_case(&attributes, "name", "description")
                || attr_equals_ignoring_case(&attributes, "name", "keywords") {
                convert_attr_value(converter, &mut attributes, "content");
            }
        } else if eq_ignore_ascii_case(name, "img") {
            convert_attr_value(converter, &mut attributes, "alt");
        } else if eq_ignore_ascii_case(name, "input") {
            if attr_equals_ignoring_case(&attributes, "type", "button") {
                convert_attr_value(converter, &mut attributes, "value");
            }
        }
    }
    let mut children: Vec<XmlNode> = Vec::new();
    let mut i: usize = 0;
    while i < element.children.len()
        invariant
            i <= element.children@.len(),
            children@.len() == i,
            keep ==> forall|k: int|
                0 <= k < i ==> same_node(#[trigger] element.children@[k], children@[k]),
            !keep ==> forall|k: int|
                0 <= k < i ==> converted_node(
                    converter@,
                    #[trigger] element.children@[k],
                    children@[k],
                    matched,
                    from@,
                    to@,
                ),
        decreases element.children@.len() - i,
    {
        let child = &element.children[i];
        let c = if keep {
            child.duplicate()
        } else {
            match child {
                XmlNode::Element(e) => XmlNode::Element(convert_element(converter, e, matched, from, to)),
                XmlNode::Text(t) => {
                    if matched {
                        XmlNode::Text(converter.convert(t.as_str()))
                    } else {
                        XmlNode::Text(t.clone())
                    }
                },
                _ => child.duplicate(),
            }
        };
        children.push(c);
        i += 1;
    }
    XmlElement {
        prefix: copy_opt_string(&element.prefix),
        namespace: copy_opt_string(&element.namespace),
        namespaces: copy_opt_pairs(&element.namespaces),
        name: element.name.clone(),
        attributes,
        children,
    }
}

#[verifier::external_type_specification]
#[verifier::external_body]
pub struct ExElement(xmltree::Element);

#[verifier::external_type_specification]
#[verifier::external_body]
pub struct ExXMLNode(xmltree::XMLNode);

/// The message with which `xmltree::Element::parse` refuses the text `xml`, or `None`
/// where it reads a document from it.
pub uninterp spec fn xml_parse_error(xml: Seq<char>) -> Option<Seq<char>>;

/// The document that `xmltree::Element::parse` reads from the text `xml`, where it
/// reads one.
pub uninterp spec fn xml_parsed(xml: Seq<char>) -> XmlElement;

/// Reads the XML text `xml` with `xmltree::Element::parse` (over its UTF-8 bytes).
/// Whether the text is refused, and the message of the refusal (the `Display` text
/// of `xmltree::ParseError`), depend on the text alone and are named by
/// `xml_parse_error`. The document read depends on the text alone too (with the
/// `attribute-order` feature of `xmltree`, attributes stand in the order of the
/// text) and is named by `xml_parsed`.
#[verifier::external_body]
fn parse_document(xml: &str) -> (r: Result<XmlElement, String>)
    ensures
        match r {
            Ok(e) => xml_parse_error(xml@) is None && e == xml_parsed(xml@),
            Err(m) => xml_parse_error(xml@) == Some(m@),
        },
{
    match xmltree::Element::parse(xml.as_bytes()) {
        Ok(root) => Ok(import_element(root)),
        Err(err) => Err(err.to_string()),
    }
}

/// Moves the fields of an `xmltree::Element` into an `XmlElement`, one for one.
#[verifier::external_body]
fn import_element(e: xmltree::Element) -> XmlElement {
    XmlElement {
        prefix: e.prefix,
        namespace: e.namespace,
        namespaces: e.namespaces.map(|ns| ns.0.into_iter().collect()),
        name: e.name,
        attributes: e.attributes.into_iter().collect(),
        children: e.children.into_iter().map(import_node).collect(),
    }
}

/// Moves an `xmltree::XMLNode` into an `XmlNode`, variant for variant.
#[verifier::external_body]
fn import_node(n: xmltree::XMLNode) -> XmlNode {
    match n {
        xmltree::XMLNode::Element(e) => XmlNode::Element(import_element(e)),
        xmltree::XMLNode::Comment(s) => XmlNode::Comment(s),
        xmltree::XMLNode::CData(s) => XmlNode::CData(s),
        xmltree::XMLNode::Text(s) => XmlNode::Text(s),
        xmltree::XMLNode::ProcessingInstruction(s, d) => XmlNode::ProcessingInstruction(s, d),
    }
}

/// Copies an `XmlElement` into an `xmltree::Element`, field for field.
#[verifier::external_body]
fn export_element(e: &XmlElement) -> xmltree::Element {
    xmltree::Element {
        prefix: e.prefix.clone(),
        namespace: e.namespace.clone(),
        namespaces: e.namespaces.as_ref().map(|ns| xmltree::Namespace(ns.iter().cloned().collect())),
        name: e.name.clone(),
        attributes: e.attributes.iter().cloned().collect(),
        children: e.children.iter().map(export_node).collect(),
    }
}

/// Copies an `XmlNode` into an `xmltree::XMLNode`, variant for variant.
#[verifier::external_body]
fn export_node(n: &XmlNode) -> xmltree::XMLNode {
    match n {
        XmlNode::Element(e) => xmltree::XMLNode::Element(export_element(e)),
        XmlNode::Comment(s) => xmltree::XMLNode::Comment(s.clone()),
        XmlNode::CData(s) => xmltree::XMLNode::CData(s.clone()),
        XmlNode::Text(s) => xmltree::XMLNode::Text(s.clone()),
        XmlNode::ProcessingInstruction(s, d) => xmltree::XMLNode::ProcessingInstruction(s.clone(), d.clone()),
    }
}

/// What `xmltree::Element::write` gives for the document `root`: the bytes written,
/// or the `Display` text of the error.
pub uninterp spec fn xml_written(root: XmlElement) -> Result<Seq<u8>, Seq<char>>;

/// Writes `root` as an XML document with `xmltree::Element::write`, into bytes; an
/// error is given by its `Display` text. The outcome depends on `root` alone (with
/// the `attribute-order` feature of `xmltree`, attributes are written in the order
/// in which they stand) and is named by `xml_written`.
#[verifier::external_body]
fn write_document(root: &XmlElement) -> (r: Result<Vec<u8>, String>)
    ensures
        match r {
            Ok(bytes) => xml_written(*root) == Ok::<Seq<u8>, Seq<char>>(bytes@),
            Err(m) => xml_written(*root) == Err::<Seq<u8>, Seq<char>>(m@),
        },
{
    let mut output: Vec<u8> = Vec::new();
    match export_element(root).write(&mut output) {
        Ok(()) => Ok(output),
        Err(err) => Err(err.to_string()),
    }
}

/// The `Display` text of the error that `String::from_utf8` gives for `bytes` that
/// are not UTF-8 (it reports where the first invalid sequence starts and how long
/// it is, which depends on the bytes alone).
pub uninterp spec fn utf8_error_text(bytes: Seq<u8>) -> Seq<char>;

/// `String::from_utf8`: the text that `bytes` encode in UTF-8, or the `Display` text
/// of the error where they are not UTF-8, named by `utf8_error_text`.
#[verifier::external_body]
fn string_from_utf8(bytes: Vec<u8>) -> (r: Result<String, String>)
    ensures
        r is Ok <==> valid_utf8(bytes@),
        r matches Ok(s) ==> s@ == decode_utf8(bytes@),
        r matches Err(m) ==> m@ == utf8_error_text(bytes@),
{
    match String::from_utf8(bytes) {
        Ok(text) => Ok(text),
        Err(err) => Err(err.to_string()),
    }
}

/// Converts the text of an XML-compatible HTML document with a converter, and can
/// restore the document as it was read.
pub struct HtmlConverter {
    converter: Converter,
    root: XmlElement,
    parsed: XmlElement,
    from_lang_tag: String,
    to_lang_tag: String,
}

impl HtmlConverter {
    /// The document as it stands.
    pub closed spec fn document(&self) -> XmlElement {
        self.root
    }

    /// The document as it was read.
    pub closed spec fn parsed_document(&self) -> XmlElement {
        self.parsed
    }

    /// The language tag whose text is converted.
    pub closed spec fn from_tag(&self) -> Seq<char> {
        self.from_lang_tag@
    }

    /// The language tag that replaces it.
    pub closed spec fn to_tag(&self) -> Seq<char> {
        self.to_lang_tag@
    }

    /// The dictionaries of the converter, in the order in which they are applied.
    pub closed spec fn dictionaries(&self) -> Seq<Map<Seq<char>, Seq<char>>> {
        self.converter@
    }

    /// A converter for a document that has been read: `Ok` with the document, or
    /// `Err` with the message of the reader.
    pub fn from_document(
        converter: Converter,
        document: Result<XmlElement, String>,
        from_lang_tag: &str,
        to_lang_tag: &str,
    ) -> (r: Result<HtmlConverter, OpenCCError>)
        ensures
            match document {
                Ok(root) => r matches Ok(h) && same_element(root, h.document()) && same_element(
                    root,
                    h.parsed_document(),
                ) && h.from_tag() == from_lang_tag@ && h.to_tag() == to_lang_tag@ && h.dictionaries()
                    == converter@,
                Err(m) => r matches Err(OpenCCError::Xml(e)) && e@ == m@,
            },
    {
        match document {
            Ok(root) => {
                let parsed = root.duplicate();
                proof {
                    lemma_same_element_reflexive(root);
                }
                Ok(HtmlConverter {
                    converter,
                    root,
                    parsed,
                    from_lang_tag: from_lang_tag.to_owned(),
                    to_lang_tag: to_lang_tag.to_owned(),
                })
            },
            Err(m) => Err(OpenCCError::Xml(m)),
        }
    }

    /// Reads the XML text `xml` and makes a converter for it.
    pub fn from_xml_str(converter: Converter, xml: &str, from_lang_tag: &str, to_lang_tag: &str) -> (r:
        Result<HtmlConverter, OpenCCError>)
        ensures
            match xml_parse_error(xml@) {
                None => r matches Ok(h) && same_element(xml_parsed(xml@), h.document())
                    && same_element(xml_parsed(xml@), h.parsed_document())
                    && h.from_tag() == from_lang_tag@ && h.to_tag() == to_lang_tag@ && h.dictionaries()
                    == converter@,
                Some(m) => r matches Err(OpenCCError::Xml(e)) && e@ == m,
            },
    {
        let document = parse_document(xml);
        let ghost read = document;
        let r = HtmlConverter::from_document(converter, document, from_lang_tag, to_lang_tag);
        proof {
            if r is Ok {
                let h = r->Ok_0;
                let root = read->Ok_0;
                assert(root == xml_parsed(xml@));
            }
        }
        r
    }

    /// Converts the document: see `converted_element`, starting outside the source
    /// language.
    pub fn convert(&mut self)
        ensures
            converted_element(
                old(self).dictionaries(),
                old(self).document(),
                final(self).document(),
                false,
                old(self).from_tag(),
                old(self).to_tag(),
            ),
            final(self).parsed_document() == old(self).parsed_document(),
            final(self).from_tag() == old(self).from_tag(),
            final(self).to_tag() == old(self).to_tag(),
            final(self).dictionaries() == old(self).dictionaries(),
    {
        let root = convert_element(
            &self.converter,
            &self.root,
            false,
            self.from_lang_tag.as_str(),
            self.to_lang_tag.as_str(),
        );
        self.root = root;
    }

    /// Puts back the document as it was read.
    pub fn restore(&mut self)
        ensures
            same_element(old(self).parsed_document(), final(self).document()),
            final(self).parsed_document() == old(self).parsed_document(),
            final(self).from_tag() == old(self).from_tag(),
            final(self).to_tag() == old(self).to_tag(),
            final(self).dictionaries() == old(self).dictionaries(),
    {
        self.root = self.parsed.duplicate();
    }

    /// The document as it stands.
    pub fn root(&self) -> (r: &XmlElement)
        ensures
            *r == self.document(),
    {
        &self.root
    }

    /// The document written as XML text.
    pub fn to_xml_string(&self) -> (r: Result<String, OpenCCError>)
        ensures
            match xml_written(self.document()) {
                Ok(bytes) => if valid_utf8(bytes) {
                    r matches Ok(s) && s@ == decode_utf8(bytes)
                } else {
                    r matches Err(OpenCCError::Xml(e)) && e@ == utf8_error_text(bytes)
                },
                Err(m) => r matches Err(OpenCCError::Xml(e)) && e@ == m,
            },
    {
        match write_document(&self.root) {
            Ok(bytes) => match string_from_utf8(bytes) {
                Ok(text) => Ok(text),
                Err(m) => Err(OpenCCError::Xml(m)),
            },
            Err(m) => Err(OpenCCError::Xml(m)),
        }
    }
}

pub proof fn lemma_same_node_reflexive(a: XmlNode)
    ensures
        same_node(a, a),
    decreases a,
{
    match a {
        XmlNode::Element(x) => lemma_same_element_reflexive(x),
        _ => {},
    }
}

pub proof fn lemma_same_element_reflexive(a: XmlElement)
    ensures
        same_element(a, a),
    decreases a,
{
    assert forall|i: int| 0 <= i < a.children@.len() implies same_node(#[trigger] a.children@[i], a.children@[i]) by {
        lemma_same_node_reflexive(a.children@[i]);
    }
}

pub proof fn lemma_same_node_symmetric(a: XmlNode, b: XmlNode)
    requires
        same_node(a, b),
    ensures
        same_node(b, a),
    decreases a,
{
    match (a, b) {
        (XmlNode::Element(x), XmlNode::Element(y)) => lemma_same_element_symmetric(x, y),
        _ => {},
    }
}

pub proof fn lemma_same_element_symmetric(a: XmlElement, b: XmlElement)
    requires
        same_element(a, b),
    ensures
        same_element(b, a),
    decreases a,
{
    assert forall|i: int| 0 <= i < b.children@.len() implies same_node(#[trigger] b.children@[i], a.children@[i]) by {
        lemma_same_node_symmetric(a.children@[i], b.children@[i]);
    }
}

pub proof fn lemma_same_node_transitive(a: XmlNode, b: XmlNode, c: XmlNode)
    requires
        same_node(a, b),
        same_node(b, c),
    ensures
        same_node(a, c),
    decreases a,
{
    match (a, b, c) {
        (XmlNode::Element(x), XmlNode::Element(y), XmlNode::Element(z)) => lemma_same_element_transitive(x, y, z),
        _ => {},
    }
}

pub proof fn lemma_same_element_transitive(a: XmlElement, b: XmlElement, c: XmlElement)
    requires
        same_element(a, b),
        same_element(b, c),
    ensures
        same_element(a, c),
    decreases a,
{
    assert forall|i: int| 0 <= i < a.children@.len() implies same_node(#[trigger] a.children@[i], c.children@[i]) by {
        lemma_same_node_transitive(a.children@[i], b.children@[i], c.children@[i]);
    }
}

/// Restoring after converting gives back the document as it was read: for a
/// converter just made from a document (`fresh`), converted (`converted`) and then
/// restored (`restored`), the restored document is the document of `fresh`.
pub proof fn law_restore_undoes_convert(fresh: HtmlConverter, converted: HtmlConverter, restored: HtmlConverter)
    requires
        same_element(fresh.parsed_document(), fresh.document()),
        converted.parsed_document() == fresh.parsed_document(),
        same_element(converted.parsed_document(), restored.document()),
    ensures
        same_element(fresh.document(), restored.document()),
{
    lemma_same_element_symmetric(fresh.parsed_document(), fresh.document());
    lemma_same_element_transitive(fresh.document(), fresh.parsed_document(), restored.document());
}

/// Whatever sequence of `convert` and `restore` calls follows the reading of the
/// text `xml`, a `restore` at the end gives back the document read: `states` are the
/// converter right after `from_xml_str` and after each call, every call keeps the
/// document as read, and the last call is a `restore`.
pub proof fn law_restore_after_any_calls(xml: Seq<char>, states: Seq<HtmlConverter>)
    requires
        states.len() >= 1,
        same_element(xml_parsed(xml), states[0].parsed_document()),
        forall|i: int|
            0 < i < states.len() ==> #[trigger] states[i].parsed_document() == states[i
                - 1].parsed_document(),
        same_element(states.last().parsed_document(), states.last().document()),
    ensures
        same_element(xml_parsed(xml), states.last().document()),
{
    law_document_read_is_kept(xml, states);
    lemma_same_element_transitive(
        xml_parsed(xml),
        states.last().parsed_document(),
        states.last().document(),
    );
}

/// Along any sequence of `convert` and `restore` calls after the reading of the text
/// `xml`, the converter keeps the document read, so a `restore` at any point gives
/// it back: `states` are the converter right after `from_xml_str` and after each
/// call, and every call keeps the document as read.
pub proof fn law_document_read_is_kept(xml: Seq<char>, states: Seq<HtmlConverter>)
    requires
        states.len() >= 1,
        same_element(xml_parsed(xml), states[0].parsed_document()),
        forall|i: int|
            0 < i < states.len() ==> #[trigger] states[i].parsed_document() == states[i
                - 1].parsed_document(),
    ensures
        same_element(xml_parsed(xml), states.last().parsed_document()),
    decreases states.len(),
{
    if states.len() > 1 {
        let shorter = states.drop_last();
        assert forall|i: int|
            0 < i < shorter.len() implies #[trigger] shorter[i].parsed_document() == shorter[i
                - 1].parsed_document() by {
            assert(shorter[i] == states[i]);
            assert(shorter[i - 1] == states[i - 1]);
        }
        assert(shorter[0] == states[0]);
        law_document_read_is_kept(xml, shorter);
        assert(states[states.len() - 1].parsed_document() == states[states.len() - 2].parsed_document());
    }
}

/// A word is found exactly where it stands between whitespace or the ends of the
/// text: `w` is a word of `s` if and only if `s` is `p + w + q`, where `p` is empty
/// or ends in whitespace and `q` is empty or starts with whitespace.
pub proof fn law_word_between_spaces(s: Seq<char>, w: Seq<char>)
    ensures
        has_word(s, w) <==> exists|p: Seq<char>, q: Seq<char>|
            s == p + w + q && (p.len() == 0 || is_space(p.last())) && (q.len() == 0 || is_space(q[0])),
{
    if has_word(s, w) {
        let i = choose|i: int|
            0 <= i && i + w.len() <= s.len() && #[trigger] s.subrange(i, i + w.len()) == w && (i == 0
                || is_space(s[i - 1])) && (i + w.len() == s.len() || is_space(s[i + w.len()]));
        let p = s.take(i);
        let q = s.skip(i + w.len());
        assert(s =~= p + w + q);
        assert(p.len() == 0 || is_space(p.last()));
        assert(q.len() == 0 || is_space(q[0]));
    }
    assert forall|p: Seq<char>, q: Seq<char>|
        s == p + w + q && (p.len() == 0 || is_space(p.last())) && (q.len() == 0 || is_space(
            q[0],
        )) implies has_word(s, w) by {
        let i = p.len() as int;
        assert(s.subrange(i, i + w.len()) =~= w);
        if i > 0 {
            assert(s[i - 1] == p.last());
        }
        if i + w.len() < s.len() {
            assert(s[i + w.len()] == q[0]);
        }
    }
}

/// An element whose `class` lists `ignore-opencc` anywhere, between whitespace or
/// the ends of the value, is kept whole by a conversion.
pub proof fn law_ignore_class_keeps_element(
    conv: Seq<Map<Seq<char>, Seq<char>>>,
    e: XmlElement,
    r: XmlElement,
    matched: bool,
    from: Seq<char>,
    to: Seq<char>,
    p: Seq<char>,
    q: Seq<char>,
)
    requires
        converted_element(conv, e, r, matched, from, to),
        attr_value(pair_views(e.attributes@), "class"@) == Some(p + "ignore-opencc"@ + q),
        p.len() == 0 || is_space(p.last()),
        q.len() == 0 || is_space(q[0]),
    ensures
        same_element(e, r),
{
    law_word_between_spaces(p + "ignore-opencc"@ + q, "ignore-opencc"@);
    assert(ignored(pair_views(e.attributes@)));
}

/// Rewriting the value of one attribute keeps the position of every name.
proof fn lemma_attr_index_after_update(attrs: Attrs, k: int, v: Seq<char>, key: Seq<char>)
    requires
        0 <= k < attrs.len(),
    ensures
        attr_index(attrs.update(k, (attrs[k].0, v)), key) == attr_index(attrs, key),
{
    let b = attrs.update(k, (attrs[k].0, v));
    assert forall|j: int| 0 <= j < attrs.len() implies #[trigger] b[j].0 == attrs[j].0 by {}
    lemma_attr_index(attrs, key);
    lemma_attr_index(b, key);
    if attr_index(attrs, key) is Some {
        let x = attr_index(attrs, key)->0;
        assert(b[x].0 == key);
        let y = attr_index(b, key)->0;
        assert(attrs[y].0 == key);
        if x < y {
            assert(attrs[y].0 != key);
        }
        if y < x {
            assert(b[x].0 != key);
        }
    } else if attr_index(b, key) is Some {
        let y = attr_index(b, key)->0;
        assert(attrs[y].0 == key);
    }
}

/// The `lang` rewrite changes no attribute but `lang`.
proof fn lemma_lang_rewrite_keeps_others(attrs: Attrs, from: Seq<char>, to: Seq<char>, key: Seq<char>)
    requires
        key != "lang"@,
    ensures
        attr_value(attrs_after_lang(attrs, from, to), key) == attr_value(attrs, key),
{
    lemma_attr_index(attrs, "lang"@);
    if let Some(k) = attr_index(attrs, "lang"@) {
        lemma_attr_index_after_update(attrs, k, to, key);
        lemma_attr_index(attrs, key);
        if attr_index(attrs, key) == Some(k) {
            assert(attrs[k].0 == key);
        }
    }
}

/// A conversion never changes the `value` of an `input` element whose `type` is
/// absent or is not `button` (up to ASCII case).
pub proof fn law_only_button_inputs_convert_value(
    conv: Seq<Map<Seq<char>, Seq<char>>>,
    e: XmlElement,
    r: XmlElement,
    matched: bool,
    from: Seq<char>,
    to: Seq<char>,
)
    requires
        converted_element(conv, e, r, matched, from, to),
        same_ignoring_ascii_case(e.name@, "input"@),
        attr_value(pair_views(e.attributes@), "type"@) matches Some(t) ==> !same_ignoring_ascii_case(
            t,
            "button"@,
        ),
    ensures
        attr_value(pair_views(r.attributes@), "value"@) == attr_value(pair_views(e.attributes@), "value"@),
{
    reveal_strlit("lang");
    reveal_strlit("type");
    reveal_strlit("value");
    reveal_strlit("input");
    reveal_strlit("meta");
    reveal_strlit("img");
    let a0 = pair_views(e.attributes@);
    if !ignored(a0) {
        let a1 = attrs_after_lang(a0, from, to);
        assert("type"@ != "lang"@) by {
            assert("type"@[0] != "lang"@[0]);
        }
        assert("value"@ != "lang"@) by {
            assert("value"@.len() != "lang"@.len());
        }
        lemma_lang_rewrite_keeps_others(a0, from, to, "type"@);
        lemma_lang_rewrite_keeps_others(a0, from, to, "value"@);
        assert(!same_ignoring_ascii_case(e.name@, "meta"@)) by {
            assert(e.name@.len() == 5);
        }
        assert(!same_ignoring_ascii_case(e.name@, "img"@)) by {
            assert(e.name@.len() == 5);
        }
        assert(!attr_is(a1, "type"@, "button"@));
        assert(attrs_after_content(a1, e.name@, conv) == a1);
    }
}

/// Converting the value of attribute `key` converts that value and leaves every
/// other attribute as it was.
proof fn lemma_convert_attr_values(attrs: Attrs, key: Seq<char>, conv: Seq<Map<Seq<char>, Seq<char>>>, other: Seq<char>)
    ensures
        attr_value(convert_attr(attrs, key, conv), key) == match attr_value(attrs, key) {
            Some(v) => Some(convert_all(conv, v)),
            None => None,
        },
        other != key ==> attr_value(convert_attr(attrs, key, conv), other) == attr_value(attrs, other),
{
    lemma_attr_index(attrs, key);
    if let Some(k) = attr_index(attrs, key) {
        lemma_attr_index_after_update(attrs, k, convert_all(conv, attrs[k].1), key);
        lemma_attr_index_after_update(attrs, k, convert_all(conv, attrs[k].1), other);
        lemma_attr_index(attrs, other);
        if other != key && attr_index(attrs, other) == Some(k) {
            assert(attrs[k].0 == other);
        }
    }
}

/// The `lang` rewrite turns a `lang` equal to `from` into `to` and keeps any other.
proof fn lemma_lang_rewrite_value(attrs: Attrs, from: Seq<char>, to: Seq<char>)
    ensures
        attr_value(attrs_after_lang(attrs, from, to), "lang"@) == if attr_value(attrs, "lang"@) == Some(from) {
            Some(to)
        } else {
            attr_value(attrs, "lang"@)
        },
{
    lemma_attr_index(attrs, "lang"@);
    if let Some(k) = attr_index(attrs, "lang"@) {
        lemma_attr_index_after_update(attrs, k, to, "lang"@);
    }
}

/// Whether the element's `class` does not list `ignore-opencc`.
pub open spec fn not_ignored_class(attrs: Attrs) -> bool {
    attr_value(attrs, "class"@) matches Some(v) ==> !has_word(v, "ignore-opencc"@)
}

/// Whether an element's text is in the source language: its `lang` is `from`, or it
/// has no `lang` and the text around it is in the source language.
pub open spec fn in_source_language(attrs: Attrs, matched: bool, from: Seq<char>) -> bool {
    attr_value(attrs, "lang"@) == Some(from) || (matched && attr_value(attrs, "lang"@) is None)
}

proof fn lemma_in_scope(attrs: Attrs, matched: bool, from: Seq<char>)
    requires
        in_source_language(attrs, matched, from),
    ensures
        lang_scope(attrs, matched, from),
{
}

/// A `lang` equal to the source tag is rewritten to the target tag, unless the
/// element is of class `ignore-opencc`.
pub proof fn law_lang_retagged(
    conv: Seq<Map<Seq<char>, Seq<char>>>,
    e: XmlElement,
    r: XmlElement,
    matched: bool,
    from: Seq<char>,
    to: Seq<char>,
)
    requires
        converted_element(conv, e, r, matched, from, to),
        not_ignored_class(pair_views(e.attributes@)),
        attr_value(pair_views(e.attributes@), "lang"@) == Some(from),
    ensures
        attr_value(pair_views(r.attributes@), "lang"@) == Some(to),
{
    reveal_strlit("lang");
    reveal_strlit("content");
    reveal_strlit("alt");
    reveal_strlit("value");
    let a0 = pair_views(e.attributes@);
    let a1 = attrs_after_lang(a0, from, to);
    lemma_lang_rewrite_value(a0, from, to);
    assert("content"@ != "lang"@) by {
        assert("content"@.len() != "lang"@.len());
    }
    assert("alt"@ != "lang"@) by {
        assert("alt"@.len() != "lang"@.len());
    }
    assert("value"@ != "lang"@) by {
        assert("value"@.len() != "lang"@.len());
    }
    lemma_convert_attr_values(a1, "content"@, conv, "lang"@);
    lemma_convert_attr_values(a1, "alt"@, conv, "lang"@);
    lemma_convert_attr_values(a1, "value"@, conv, "lang"@);
}

/// Text directly inside an element in the source language is converted, unless the
/// element is of class `ignore-opencc` or is a `script` or `style` element.
pub proof fn law_text_in_source_language_converted(
    conv: Seq<Map<Seq<char>, Seq<char>>>,
    e: XmlElement,
    r: XmlElement,
    matched: bool,
    from: Seq<char>,
    to: Seq<char>,
    i: int,
)
    requires
        converted_element(conv, e, r, matched, from, to),
        not_ignored_class(pair_views(e.attributes@)),
        in_source_language(pair_views(e.attributes@), matched, from),
        !same_ignoring_ascii_case(e.name@, "script"@),
        !same_ignoring_ascii_case(e.name@, "style"@),
        0 <= i < e.children@.len(),
        e.children@[i] is Text,
    ensures
        r.children@[i] matches XmlNode::Text(y) && y@ == convert_all(conv, e.children@[i]->Text_0@),
{
    lemma_in_scope(pair_views(e.attributes@), matched, from);
    assert(converted_node(conv, e.children@[i], r.children@[i], true, from, to));
}

/// Text directly inside an element whose `lang` is another language is kept.
pub proof fn law_text_in_other_language_kept(
    conv: Seq<Map<Seq<char>, Seq<char>>>,
    e: XmlElement,
    r: XmlElement,
    matched: bool,
    from: Seq<char>,
    to: Seq<char>,
    i: int,
)
    requires
        converted_element(conv, e, r, matched, from, to),
        attr_value(pair_views(e.attributes@), "lang"@) matches Some(l) && l != from && l.len() > 0,
        0 <= i < e.children@.len(),
        e.children@[i] is Text,
    ensures
        r.children@[i] matches XmlNode::Text(y) && y@ == e.children@[i]->Text_0@,
{
    let a0 = pair_views(e.attributes@);
    if ignored(a0) {
        assert(same_node(e.children@[i], r.children@[i]));
    } else {
        assert(!lang_scope(a0, matched, from));
        assert(converted_node(conv, e.children@[i], r.children@[i], false, from, to));
    }
}

/// The content of a `script` or `style` element is never converted.
pub proof fn law_script_and_style_kept(
    conv: Seq<Map<Seq<char>, Seq<char>>>,
    e: XmlElement,
    r: XmlElement,
    matched: bool,
    from: Seq<char>,
    to: Seq<char>,
    i: int,
)
    requires
        converted_element(conv, e, r, matched, from, to),
        same_ignoring_ascii_case(e.name@, "script"@) || same_ignoring_ascii_case(e.name@, "style"@),
        0 <= i < e.children@.len(),
    ensures
        same_node(e.children@[i], r.children@[i]) || (!lang_scope(pair_views(e.attributes@), matched, from)
            && converted_node(conv, e.children@[i], r.children@[i], false, from, to)),
{
    let a0 = pair_views(e.attributes@);
    if ignored(a0) {
        assert(same_node(e.children@[i], r.children@[i]));
    } else if lang_scope(a0, matched, from) {
        assert(keeps_content(e.name@));
        assert(same_node(e.children@[i], r.children@[i]));
    }
}

/// In the source language, the `value` of an `input` of type `button` (up to ASCII
/// case) is converted, unless the element is of class `ignore-opencc`.
pub proof fn law_button_value_converted(
    conv: Seq<Map<Seq<char>, Seq<char>>>,
    e: XmlElement,
    r: XmlElement,
    matched: bool,
    from: Seq<char>,
    to: Seq<char>,
    v: Seq<char>,
)
    requires
        converted_element(conv, e, r, matched, from, to),
        not_ignored_class(pair_views(e.attributes@)),
        in_source_language(pair_views(e.attributes@), matched, from),
        same_ignoring_ascii_case(e.name@, "input"@),
        attr_value(pair_views(e.attributes@), "type"@) matches Some(t) && same_ignoring_ascii_case(t, "button"@),
        attr_value(pair_views(e.attributes@), "value"@) == Some(v),
    ensures
        attr_value(pair_views(r.attributes@), "value"@) == Some(convert_all(conv, v)),
{
    reveal_strlit("lang");
    reveal_strlit("type");
    reveal_strlit("value");
    reveal_strlit("input");
    reveal_strlit("meta");
    reveal_strlit("img");
    reveal_strlit("script");
    reveal_strlit("style");
    let a0 = pair_views(e.attributes@);
    lemma_in_scope(a0, matched, from);
    let a1 = attrs_after_lang(a0, from, to);
    assert("type"@ != "lang"@) by {
        assert("type"@[0] != "lang"@[0]);
    }
    assert("value"@ != "lang"@) by {
        assert("value"@.len() != "lang"@.len());
    }
    lemma_lang_rewrite_keeps_others(a0, from, to, "type"@);
    lemma_lang_rewrite_keeps_others(a0, from, to, "value"@);
    assert(!same_ignoring_ascii_case(e.name@, "meta"@)) by {
        assert(e.name@.len() == 5);
    }
    assert(!same_ignoring_ascii_case(e.name@, "img"@)) by {
        assert(e.name@.len() == 5);
    }
    assert(!keeps_content(e.name@)) by {
        assert(e.name@.len() == 5);
        assert(ascii_lower(e.name@[0]) == ascii_lower('i'));
        assert(ascii_lower('i') != ascii_lower('s'));
    }
    assert(attr_is(a1, "type"@, "button"@));
    lemma_convert_attr_values(a1, "value"@, conv, "value"@);
}

/// In the source language, the `alt` of an `img` is converted, unless the element
/// is of class `ignore-opencc`.
pub proof fn law_img_alt_converted(
    conv: Seq<Map<Seq<char>, Seq<char>>>,
    e: XmlElement,
    r: XmlElement,
    matched: bool,
    from: Seq<char>,
    to: Seq<char>,
    v: Seq<char>,
)
    requires
        converted_element(conv, e, r, matched, from, to),
        not_ignored_class(pair_views(e.attributes@)),
        in_source_language(pair_views(e.attributes@), matched, from),
        same_ignoring_ascii_case(e.name@, "img"@),
        attr_value(pair_views(e.attributes@), "alt"@) == Some(v),
    ensures
        attr_value(pair_views(r.attributes@), "alt"@) == Some(convert_all(conv, v)),
{
    reveal_strlit("lang");
    reveal_strlit("alt");
    reveal_strlit("meta");
    reveal_strlit("img");
    reveal_strlit("script");
    reveal_strlit("style");
    let a0 = pair_views(e.attributes@);
    lemma_in_scope(a0, matched, from);
    let a1 = attrs_after_lang(a0, from, to);
    assert("alt"@ != "lang"@) by {
        assert("alt"@.len() != "lang"@.len());
    }
    lemma_lang_rewrite_keeps_others(a0, from, to, "alt"@);
    assert(!same_ignoring_ascii_case(e.name@, "meta"@)) by {
        assert(e.name@.len() == 3);
    }
    assert(!keeps_content(e.name@)) by {
        assert(e.name@.len() == 3);
    }
    lemma_convert_attr_values(a1, "alt"@, conv, "alt"@);
}

/// In the source language, the `content` of a `meta` named `description` or
/// `keywords` (up to ASCII case) is converted, and that of any other `meta` is kept,
/// unless the element is of class `ignore-opencc`.
pub proof fn law_meta_content(
    conv: Seq<Map<Seq<char>, Seq<char>>>,
    e: XmlElement,
    r: XmlElement,
    matched: bool,
    from: Seq<char>,
    to: Seq<char>,
    v: Seq<char>,
)
    requires
        converted_element(conv, e, r, matched, from, to),
        not_ignored_class(pair_views(e.attributes@)),
        in_source_language(pair_views(e.attributes@), matched, from),
        same_ignoring_ascii_case(e.name@, "meta"@),
        attr_value(pair_views(e.attributes@), "content"@) == Some(v),
    ensures
        attr_value(pair_views(r.attributes@), "content"@) == if attr_value(pair_views(e.attributes@), "name"@)
            matches Some(n) && (same_ignoring_ascii_case(n, "description"@) || same_ignoring_ascii_case(
            n,
            "keywords"@,
        )) {
            Some(convert_all(conv, v))
        } else {
            Some(v)
        },
{
    reveal_strlit("lang");
    reveal_strlit("name");
    reveal_strlit("content");
    reveal_strlit("meta");
    reveal_strlit("script");
    reveal_strlit("style");
    let a0 = pair_views(e.attributes@);
    lemma_in_scope(a0, matched, from);
    let a1 = attrs_after_lang(a0, from, to);
    assert("content"@ != "lang"@) by {
        assert("content"@.len() != "lang"@.len());
    }
    assert("name"@ != "lang"@) by {
        assert("name"@[0] != "lang"@[0]);
    }
    lemma_lang_rewrite_keeps_others(a0, from, to, "content"@);
    lemma_lang_rewrite_keeps_others(a0, from, to, "name"@);
    assert(!keeps_content(e.name@)) by {
        assert(e.name@.len() == 4);
    }
    lemma_convert_attr_values(a1, "content"@, conv, "content"@);
}

} // verus!
