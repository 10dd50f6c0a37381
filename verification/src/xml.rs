//! The structural XML body synthesizer: walks an intermediate tree
//! description — JSON objects that mark a node as a matcher or a generator,
//! or a plain element — and produces an XML document while recording
//! matching rules and generators at the corresponding paths.

use vstd::prelude::*;
use crate::generators::{
    add_gen_data,
    GenData,
    Generator,
    GeneratorCategory,
    Generators,
    GenEntryData,
};
use crate::json::{jdata_get, jdata_of, key_idx, key_idx_from, lemma_get_is_idx, JsonData, JsonNum, JsonValue, NumData};
use crate::json_codec::json_string_data;
use crate::json_codec::json_to_string;
use crate::matching_rules::{
    add_rule_data,
    EntryData,
    MatchingRule,
    MatchingRuleCategory,
    RuleData,
    RuleLogic,
};
use crate::path_exp::{PathExpression, TokenData};
use crate::strings::{str_concat, str_eq};

verus! {

/// An XML element: its name, its attributes in order, its children in order.
#[derive(Debug)]
pub struct XmlElement {
    /// The element name.
    pub name: String,
    /// The attributes, in the order they were set.
    pub attributes: Vec<(String, String)>,
    /// The child nodes, in document order.
    pub children: Vec<XmlNode>,
}

/// An XML node: an element or a text node.
#[derive(Debug)]
pub enum XmlNode {
    /// An element node.
    Element(XmlElement),
    /// A text node.
    Text(String),
}

/// Spec-level mirror of `XmlElement`.
#[verifier::ext_equal]
pub struct ElemData {
    /// The element name.
    pub name: Seq<char>,
    /// The attributes, in the order they were set.
    pub attributes: Seq<(Seq<char>, Seq<char>)>,
    /// The child nodes, in document order.
    pub children: Seq<NodeData>,
}

/// Spec-level mirror of `XmlNode`.
#[verifier::ext_equal]
pub enum NodeData {
    /// An element node.
    Element(ElemData),
    /// A text node.
    Text(Seq<char>),
}

/// The mathematical value of an XML element.
pub open spec fn elem_data(e: XmlElement) -> ElemData
    decreases e,
{
    ElemData {
        name: e.name@,
        attributes: Seq::new(
            e.attributes@.len(),
            |i: int|
                if 0 <= i < e.attributes@.len() {
                    (e.attributes@[i].0@, e.attributes@[i].1@)
                } else {
                    (Seq::<char>::empty(), Seq::<char>::empty())
                },
        ),
        children: Seq::new(
            e.children@.len(),
            |i: int|
                if 0 <= i < e.children@.len() {
                    node_data(e.children@[i])
                } else {
                    NodeData::Text(Seq::empty())
                },
        ),
    }
}

/// The mathematical value of an XML node.
pub open spec fn node_data(n: XmlNode) -> NodeData
    decreases n,
{
    match n {
        XmlNode::Element(e) => NodeData::Element(elem_data(e)),
        XmlNode::Text(t) => NodeData::Text(t@),
    }
}

impl View for XmlElement {
    type V = ElemData;

    open spec fn view(&self) -> ElemData {
        elem_data(*self)
    }
}

impl View for XmlNode {
    type V = NodeData;

    open spec fn view(&self) -> NodeData {
        node_data(*self)
    }
}

/// A child node is structurally smaller than its element.
pub proof fn lemma_child_smaller(e: XmlElement, i: int)
    requires
        0 <= i < e.children@.len(),
    ensures
        decreases_to!(e => e.children@[i]),
{
    assert(decreases_to!(e => e.children));
    assert(decreases_to!(e.children => e.children@[i]));
}

impl Clone for XmlElement {
    /// A deep copy with the same model value.
    fn clone(&self) -> (r: Self)
        ensures
            r@ == self@,
        decreases *self,
    {
        let name = self.name.clone();
        let mut attributes: Vec<(String, String)> = Vec::new();
        let mut i: usize = 0;
        while i < self.attributes.len()
            invariant
                i <= self.attributes@.len(),
                attributes@.len() == i,
                forall|j: int|
                    0 <= j < i ==> attributes@[j].0@ == self.attributes@[j].0@
                        && attributes@[j].1@ == self.attributes@[j].1@,
            decreases self.attributes@.len() - i,
        {
            let a = &self.attributes[i];
            attributes.push((a.0.clone(), a.1.clone()));
            i = i + 1;
        }
        let mut children: Vec<XmlNode> = Vec::new();
        let mut k: usize = 0;
        while k < self.children.len()
            invariant
                k <= self.children@.len(),
                children@.len() == k,
                forall|j: int|
                    0 <= j < k ==> node_data(children@[j]) == node_data(self.children@[j]),
            decreases self.children@.len() - k,
        {
            proof {
                lemma_child_smaller(*self, k as int);
            }
            children.push(self.children[k].clone());
            k = k + 1;
        }
        let r = XmlElement { name, attributes, children };
        proof {
            assert(r@.attributes =~= self@.attributes);
            assert(r@.children =~= self@.children);
            assert(r@ =~~= self@);
        }
        r
    }
}

impl Clone for XmlNode {
    /// A deep copy with the same model value.
    fn clone(&self) -> (r: Self)
        ensures
            r@ == self@,
        decreases *self,
    {
        match self {
            XmlNode::Element(e) => XmlNode::Element(e.clone()),
            XmlNode::Text(t) => XmlNode::Text(t.clone()),
        }
    }
}

/// A deep copy of an element: its attributes and its descendant tree.
pub fn duplicate_element(el: &XmlElement) -> (r: XmlElement)
    ensures
        r@ == el@,
{
    el.clone()
}

#[verifier::external_type_specification]
#[verifier::external_body]
pub struct ExSxdDocument<'d>(sxd_document::dom::Document<'d>);

#[verifier::external_type_specification]
#[verifier::external_body]
pub struct ExSxdElement<'d>(sxd_document::dom::Element<'d>);

/// The bytes sxd_document renders a document to: the XML header, then the
/// root element when there is one; a function of the tree alone.
pub uninterp spec fn xml_bytes_of(root: Option<ElemData>) -> Seq<u8>;

/// Relies on sxd_document's DOM builders: creates the element with its
/// attributes and its children, in order.
#[verifier::external_body]
fn build_sxd<'d>(doc: sxd_document::dom::Document<'d>, el: &XmlElement) -> (r:
    sxd_document::dom::Element<'d>)
{
    let e = doc.create_element(el.name.as_str());
    let mut i: usize = 0;
    while i < el.attributes.len() {
        e.set_attribute_value(el.attributes[i].0.as_str(), el.attributes[i].1.as_str());
        i += 1;
    }
    for c in el.children.iter() {
        match c {
            XmlNode::Element(sub) => e.append_child(build_sxd(doc, sub)),
            XmlNode::Text(t) => e.append_child(doc.create_text(t.as_str())),
        }
    }
    e
}

/// Relies on sxd_document's writer: renders the document, with the given
/// element under the root when there is one; deterministic in the tree.
/// Rendering cannot fail here: the writer's only failure paths report its
/// sink's I/O errors, and writing into a byte vector has none.
#[verifier::external_body]
fn render_document(root: Option<&XmlElement>) -> (r: Vec<u8>)
    ensures
        r@ == xml_bytes_of(
            match root {
                Some(e) => Some(e@),
                None => None,
            },
        ),
{
    let package = sxd_document::Package::new();
    let doc = package.as_document();
    if let Some(el) = root {
        doc.root().append_child(build_sxd(doc, el));
    }
    let mut out: Vec<u8> = Vec::new();
    let _ = sxd_document::writer::format_document(&doc, &mut out);
    out
}

/// Why an intermediate body tree was rejected: the tree is malformed, or the
/// document could not be rendered.
#[derive(Debug)]
pub enum XmlBodyError {
    /// A `children` value is not an array.
    ChildrenNotArray,
    /// A child is not an object.
    ChildNotObject,
    /// A matcher node has no `value`.
    ValueMissing,
    /// A matcher node's `value` is not an object.
    ValueNotObject,
    /// A matcher node's `value` has no `name`.
    NameMissing,
    /// An attribute matcher has no `value`.
    AttrValueMissing,
    /// A node is neither a matcher, nor content, nor a named element.
    InvalidNode,
}

/// The configuration faults the synthesizer can reject a tree for.
pub enum XmlErrKind {
    /// A `children` value is not an array.
    ChildrenNotArray,
    /// A child is not an object.
    ChildNotObject,
    /// A matcher node has no `value`.
    ValueMissing,
    /// A matcher node's `value` is not an object.
    ValueNotObject,
    /// A matcher node's `value` has no `name`.
    NameMissing,
    /// An attribute matcher has no `value`.
    AttrValueMissing,
    /// A node is neither a matcher, nor content, nor a named element.
    InvalidNode,
}

/// A string field of a JSON object; `None` unless present and a string.
pub open spec fn str_field(d: JsonData, k: Seq<char>) -> Option<Seq<char>> {
    match jdata_get(d, k) {
        Some(JsonData::Str(s)) => Some(s),
        _ => None,
    }
}

/// A string field of a JSON object, with a fallback.
pub open spec fn str_field_or(d: JsonData, k: Seq<char>, dflt: Seq<char>) -> Seq<char> {
    match str_field(d, k) {
        Some(s) => s,
        None => dflt,
    }
}

/// An unsigned field of a JSON object; `None` unless present and unsigned.
pub open spec fn u64_field(d: JsonData, k: Seq<char>) -> Option<u64> {
    match jdata_get(d, k) {
        Some(JsonData::Num(NumData::U(u))) => Some(u),
        _ => None,
    }
}

/// A small unsigned field, with a fallback for anything out of shape.
pub open spec fn u16_field(d: JsonData, k: Seq<char>, dflt: u16) -> u16 {
    match u64_field(d, k) {
        Some(u) => if u <= 65535 {
            u as u16
        } else {
            dflt
        },
        None => dflt,
    }
}

/// A signed 32-bit field, with a fallback for anything out of shape.
pub open spec fn i32_field(d: JsonData, k: Seq<char>, dflt: i32) -> i32 {
    match jdata_get(d, k) {
        Some(JsonData::Num(NumData::U(u))) => if u <= 0x7fffffff {
            u as i32
        } else {
            dflt
        },
        Some(JsonData::Num(NumData::I(i))) => if i >= -0x80000000 {
            i as i32
        } else {
            dflt
        },
        _ => dflt,
    }
}

/// The matching rule an integration-JSON node describes through its
/// `pact:matcher:type` marker, with its configuration beside it.
pub open spec fn rule_from_integration(d: JsonData) -> Option<RuleData> {
    match jdata_get(d, "pact:matcher:type"@) {
        None => None,
        Some(tv) => {
            let t = json_string_data(tv);
            if t == "regex"@ {
                match str_field(d, "regex"@) {
                    Some(r) => Some(RuleData::Regex(r)),
                    None => None,
                }
            } else if t == "equality"@ {
                Some(RuleData::Equality)
            } else if t == "include"@ {
                match str_field(d, "value"@) {
                    Some(v) => Some(RuleData::Include(v)),
                    None => None,
                }
            } else if t == "type"@ {
                Some(RuleData::Type)
            } else if t == "number"@ {
                Some(RuleData::Number)
            } else if t == "integer"@ {
                Some(RuleData::Integer)
            } else if t == "decimal"@ {
                Some(RuleData::Decimal)
            } else if t == "boolean"@ {
                Some(RuleData::Boolean)
            } else if t == "min"@ {
                match u64_field(d, "min"@) {
                    Some(n) => Some(RuleData::MinType(n)),
                    None => None,
                }
            } else if t == "max"@ {
                match u64_field(d, "max"@) {
                    Some(n) => Some(RuleData::MaxType(n)),
                    None => None,
                }
            } else if t == "timestamp"@ || t == "datetime"@ {
                Some(RuleData::Timestamp(str_field_or(d, "format"@, Seq::empty())))
            } else if t == "date"@ {
                Some(RuleData::Date(str_field_or(d, "format"@, Seq::empty())))
            } else if t == "time"@ {
                Some(RuleData::Time(str_field_or(d, "format"@, Seq::empty())))
            } else if t == "null"@ {
                Some(RuleData::NullValue)
            } else if t == "contentType"@ {
                match str_field(d, "value"@) {
                    Some(v) => Some(RuleData::ContentType(v)),
                    None => None,
                }
            } else if t == "values"@ {
                Some(RuleData::Values)
            } else {
                None
            }
        },
    }
}

/// The generator a name and a configuration map describe.
pub open spec fn generator_from_map_data(t: Seq<char>, cfg: JsonData) -> Option<GenData> {
    if t == "RandomInt"@ {
        Some(GenData::RandomInt(i32_field(cfg, "min"@, 0), i32_field(cfg, "max"@, 10)))
    } else if t == "RandomString"@ {
        Some(GenData::RandomString(u16_field(cfg, "size"@, 20)))
    } else if t == "RandomDecimal"@ {
        Some(GenData::RandomDecimal(u16_field(cfg, "digits"@, 10)))
    } else if t == "RandomBoolean"@ {
        Some(GenData::RandomBoolean)
    } else if t == "Uuid"@ {
        Some(GenData::Uuid)
    } else if t == "Date"@ {
        Some(GenData::Date(str_field(cfg, "format"@)))
    } else if t == "Time"@ {
        Some(GenData::Time(str_field(cfg, "format"@)))
    } else if t == "DateTime"@ {
        Some(GenData::DateTime(str_field(cfg, "format"@)))
    } else if t == "ProviderState"@ {
        match str_field(cfg, "expression"@) {
            Some(e) => Some(GenData::ProviderStateGenerator(e)),
            None => None,
        }
    } else if t == "MockServerURL"@ {
        Some(
            GenData::MockServerURL(
                str_field_or(cfg, "example"@, Seq::empty()),
                str_field_or(cfg, "regex"@, Seq::empty()),
            ),
        )
    } else {
        None
    }
}

/// The generator recorded for a node: the `pact:generator:type` marker is
/// read from `marker_src`, its configuration from `cfg`.
pub open spec fn gens_from_node(
    marker_src: JsonData,
    cfg: JsonData,
    path: Seq<TokenData>,
) -> Seq<(Seq<TokenData>, GenData)> {
    match jdata_get(marker_src, "pact:generator:type"@) {
        Some(gv) => match generator_from_map_data(json_string_data(gv), cfg) {
            Some(g) => seq![(path, g)],
            None => Seq::empty(),
        },
        None => Seq::empty(),
    }
}

/// The number of example copies a node asks for; 1 unless an unsigned
/// `examples` field says otherwise.
pub open spec fn exam_count(d: JsonData) -> nat {
    match u64_field(d, "examples"@) {
        Some(n) => n as nat,
        None => 1,
    }
}

/// Rules recorded by a subtree, in recording order.
pub type RuleAdds = Seq<(Seq<TokenData>, RuleData)>;

/// Generators recorded by a subtree, in recording order.
pub type GenAdds = Seq<(Seq<TokenData>, GenData)>;

/// What synthesizing one node yields: the node, and what was recorded.
pub struct SynthOut {
    /// The produced node.
    pub node: NodeData,
    /// The matching rules recorded, with their paths.
    pub rules: RuleAdds,
    /// The generators recorded, with their paths.
    pub gens: GenAdds,
}

/// The attributes an `attributes` object synthesizes, scanning entries from
/// `i`: each value may itself carry a nested matcher, whose rules and
/// generator are recorded at the attribute's path.
pub open spec fn synth_attrs(
    attrs: Seq<(Seq<char>, JsonData)>,
    path: Seq<TokenData>,
    i: int,
) -> Result<(Seq<(Seq<char>, Seq<char>)>, RuleAdds, GenAdds), XmlErrKind>
    decreases attrs.len() - i,
{
    if i < 0 || i >= attrs.len() {
        Ok((Seq::empty(), Seq::empty(), Seq::empty()))
    } else {
        let k = attrs[i].0;
        let v = attrs[i].1;
        let apath = path.push(TokenData::Field("@"@ + k));
        let step: Result<(Seq<char>, RuleAdds, GenAdds), XmlErrKind> = if v is Obj && key_idx(
            v->Obj_0,
            "pact:matcher:type"@,
        ) >= 0 {
            let vi = key_idx(v->Obj_0, "value"@);
            if !(0 <= vi < v->Obj_0.len()) {
                Err(XmlErrKind::AttrValueMissing)
            } else {
                Ok(
                    (
                        json_string_data(v->Obj_0[vi].1),
                        match rule_from_integration(v) {
                            Some(r) => seq![(apath, r)],
                            None => Seq::empty(),
                        },
                        gens_from_node(v, v, apath),
                    ),
                )
            }
        } else {
            Ok((json_string_data(v), Seq::empty(), Seq::empty()))
        };
        match step {
            Err(e) => Err(e),
            Ok(s) => match synth_attrs(attrs, path, i + 1) {
                Err(e) => Err(e),
                Ok(rest) => Ok((seq![(k, s.0)] + rest.0, s.1 + rest.1, s.2 + rest.2)),
            },
        }
    }
}

/// The node an intermediate-tree object synthesizes: a matcher node, a
/// content node, or a plain named element, with the rules and generators it
/// records; malformed nodes are rejected outright.
pub open spec fn synth_node(d: JsonData, path: Seq<TokenData>) -> Result<SynthOut, XmlErrKind>
    decreases d, 0int, 0int,
{
    if !(d is Obj) {
        Err(XmlErrKind::InvalidNode)
    } else {
        let es = d->Obj_0;
        if key_idx(es, "pact:matcher:type"@) >= 0 {
            let vi = key_idx(es, "value"@);
            if !(0 <= vi < es.len()) {
                Err(XmlErrKind::ValueMissing)
            } else if !(es[vi].1 is Obj) {
                Err(XmlErrKind::ValueNotObject)
            } else {
                let ves = es[vi].1->Obj_0;
                let ni = key_idx(ves, "name"@);
                if !(0 <= ni < ves.len()) {
                    Err(XmlErrKind::NameMissing)
                } else {
                    let name = json_string_data(ves[ni].1);
                    let epath = path.push(TokenData::Field(name));
                    let own_rules: RuleAdds = match rule_from_integration(d) {
                        Some(r) => seq![(epath, r)],
                        None => Seq::empty(),
                    };
                    let own_gens = gens_from_node(d, d, epath);
                    let ai = key_idx(ves, "attributes"@);
                    let attrs_r: Result<
                        (Seq<(Seq<char>, Seq<char>)>, RuleAdds, GenAdds),
                        XmlErrKind,
                    > = if 0 <= ai < ves.len() && ves[ai].1 is Obj {
                        synth_attrs(ves[ai].1->Obj_0, epath, 0)
                    } else {
                        Ok((Seq::empty(), Seq::empty(), Seq::empty()))
                    };
                    match attrs_r {
                        Err(e) => Err(e),
                        Ok(attrs) => {
                            let ci = key_idx(ves, "children"@);
                            if 0 <= ci < ves.len() && !(ves[ci].1 is Arr) {
                                Err(XmlErrKind::ChildrenNotArray)
                            } else {
                                let kids_r: Result<
                                    (Seq<NodeData>, RuleAdds, GenAdds),
                                    XmlErrKind,
                                > = if 0 <= ci < ves.len() {
                                    synth_children(
                                        (d->Obj_0)[vi].1->Obj_0[ci].1->Arr_0,
                                        epath,
                                        0,
                                    )
                                } else {
                                    Ok((Seq::empty(), Seq::empty(), Seq::empty()))
                                };
                                match kids_r {
                                    Err(e) => Err(e),
                                    Ok(kids) => Ok(
                                        SynthOut {
                                            node: NodeData::Element(
                                                ElemData {
                                                    name,
                                                    attributes: attrs.0,
                                                    children: kids.0,
                                                },
                                            ),
                                            rules: own_rules + attrs.1 + kids.1,
                                            gens: own_gens + attrs.2 + kids.2,
                                        },
                                    ),
                                }
                            }
                        },
                    }
                }
            }
        } else if key_idx(es, "content"@) >= 0 {
            let content = es[key_idx(es, "content"@)].1;
            let text = json_string_data(content);
            let tpath = path.push(TokenData::Field("#text"@));
            let mi = key_idx(es, "matcher"@);
            if 0 <= mi < es.len() && es[mi].1 is Obj {
                Ok(
                    SynthOut {
                        node: NodeData::Text(text),
                        rules: match rule_from_integration(es[mi].1) {
                            Some(r) => seq![(tpath, r)],
                            None => Seq::empty(),
                        },
                        gens: gens_from_node(d, es[mi].1, tpath),
                    },
                )
            } else {
                Ok(SynthOut { node: NodeData::Text(text), rules: Seq::empty(), gens: Seq::empty() })
            }
        } else if key_idx(es, "name"@) >= 0 {
            let name = json_string_data(es[key_idx(es, "name"@)].1);
            let epath = path.push(TokenData::Field(name));
            let ai = key_idx(es, "attributes"@);
            let attrs_r: Result<(Seq<(Seq<char>, Seq<char>)>, RuleAdds, GenAdds), XmlErrKind> = if 0
                <= ai < es.len() && es[ai].1 is Obj {
                synth_attrs(es[ai].1->Obj_0, epath, 0)
            } else {
                Ok((Seq::empty(), Seq::empty(), Seq::empty()))
            };
            match attrs_r {
                Err(e) => Err(e),
                Ok(attrs) => {
                    let ci = key_idx(es, "children"@);
                    if 0 <= ci < es.len() && !(es[ci].1 is Arr) {
                        Err(XmlErrKind::ChildrenNotArray)
                    } else {
                        let kids_r: Result<(Seq<NodeData>, RuleAdds, GenAdds), XmlErrKind> = if 0
                            <= ci < es.len() {
                            synth_children((d->Obj_0)[ci].1->Arr_0, epath, 0)
                        } else {
                            Ok((Seq::empty(), Seq::empty(), Seq::empty()))
                        };
                        match kids_r {
                            Err(e) => Err(e),
                            Ok(kids) => Ok(
                                SynthOut {
                                    node: NodeData::Element(
                                        ElemData { name, attributes: attrs.0, children: kids.0 },
                                    ),
                                    rules: attrs.1 + kids.1,
                                    gens: attrs.2 + kids.2,
                                },
                            ),
                        }
                    }
                },
            }
        } else {
            Err(XmlErrKind::InvalidNode)
        }
    }
}

/// The child nodes a `children` array synthesizes, scanning from `i`: each
/// child element is attached `examples` times (text nodes once).
pub open spec fn synth_children(kids: Seq<JsonData>, path: Seq<TokenData>, i: int) -> Result<
    (Seq<NodeData>, RuleAdds, GenAdds),
    XmlErrKind,
>
    decreases kids, 1int, kids.len() - i,
{
    if i < 0 || i >= kids.len() {
        Ok((Seq::empty(), Seq::empty(), Seq::empty()))
    } else if !(kids[i] is Obj) {
        Err(XmlErrKind::ChildNotObject)
    } else {
        match synth_node(kids[i], path) {
            Err(e) => Err(e),
            Ok(out) => match synth_children(kids, path, i + 1) {
                Err(e) => Err(e),
                Ok(rest) => {
                    let copies: Seq<NodeData> = match out.node {
                        NodeData::Element(_) => Seq::new(exam_count(kids[i]), |x: int| out.node),
                        NodeData::Text(_) => seq![out.node],
                    };
                    Ok((copies + rest.0, out.rules + rest.1, out.gens + rest.2))
                },
            },
        }
    }
}

/// The model pairs of recorded rules.
pub open spec fn rule_pairs_data(v: Seq<(PathExpression, MatchingRule)>) -> RuleAdds {
    Seq::new(
        v.len(),
        |i: int|
            if 0 <= i < v.len() {
                (v[i].0@, v[i].1@)
            } else {
                (Seq::<TokenData>::empty(), RuleData::Type)
            },
    )
}

/// The model pairs of recorded generators.
pub open spec fn gen_pairs_data(v: Seq<(PathExpression, Generator)>) -> GenAdds {
    Seq::new(
        v.len(),
        |i: int|
            if 0 <= i < v.len() {
                (v[i].0@, v[i].1@)
            } else {
                (Seq::<TokenData>::empty(), GenData::Uuid)
            },
    )
}

/// The model nodes of a sequence of XML nodes.
pub open spec fn nodes_data(v: Seq<XmlNode>) -> Seq<NodeData> {
    Seq::new(
        v.len(),
        |i: int|
            if 0 <= i < v.len() {
                node_data(v[i])
            } else {
                NodeData::Text(Seq::empty())
            },
    )
}

/// The configuration fault an error value reports.
pub open spec fn err_kind_of(e: XmlBodyError) -> XmlErrKind {
    match e {
        XmlBodyError::ChildrenNotArray => XmlErrKind::ChildrenNotArray,
        XmlBodyError::ChildNotObject => XmlErrKind::ChildNotObject,
        XmlBodyError::ValueMissing => XmlErrKind::ValueMissing,
        XmlBodyError::ValueNotObject => XmlErrKind::ValueNotObject,
        XmlBodyError::NameMissing => XmlErrKind::NameMissing,
        XmlBodyError::AttrValueMissing => XmlErrKind::AttrValueMissing,
        XmlBodyError::InvalidNode => XmlErrKind::InvalidNode,
    }
}

/// What a whole intermediate body tree synthesizes: the root element (none
/// when the tree has no usable root), and everything recorded.
pub open spec fn xml_body_data(d: JsonData) -> Result<
    (Option<ElemData>, RuleAdds, GenAdds),
    XmlErrKind,
> {
    match jdata_get(d, "root"@) {
        Some(rv) => if rv is Obj {
            match synth_node(rv, Seq::empty()) {
                Err(e) => Err(e),
                Ok(out) => Ok(
                    (
                        match out.node {
                            NodeData::Element(e) => Some(e),
                            NodeData::Text(_) => None,
                        },
                        out.rules,
                        out.gens,
                    ),
                ),
            }
        } else {
            Ok((None, Seq::empty(), Seq::empty()))
        },
        None => Ok((None, Seq::empty(), Seq::empty())),
    }
}

/// The model pairs of synthesized attributes.
pub open spec fn attr_pairs_data(v: Seq<(String, String)>) -> Seq<(Seq<char>, Seq<char>)> {
    Seq::new(
        v.len(),
        |i: int|
            if 0 <= i < v.len() {
                (v[i].0@, v[i].1@)
            } else {
                (Seq::<char>::empty(), Seq::<char>::empty())
            },
    )
}

/// A string field of a JSON object.
pub fn str_field_exec<'a>(v: &'a JsonValue, k: &str) -> (r: Option<&'a str>)
    ensures
        match r {
            Some(s) => str_field(v@, k@) == Some(s@),
            None => str_field(v@, k@) is None,
        },
{
    match v.get(k) {
        Some(x) => match x {
            JsonValue::Str(s) => Some(s.as_str()),
            _ => None,
        },
        None => None,
    }
}

/// A string field of a JSON object, with the empty string as fallback.
pub fn str_field_or_exec(v: &JsonValue, k: &str) -> (r: String)
    ensures
        r@ == str_field_or(v@, k@, Seq::<char>::empty()),
{
    match str_field_exec(v, k) {
        Some(s) => s.to_owned(),
        None => String::new(),
    }
}

/// An unsigned field of a JSON object.
pub fn u64_field_exec(v: &JsonValue, k: &str) -> (r: Option<u64>)
    ensures
        r == u64_field(v@, k@),
{
    match v.get(k) {
        Some(x) => match x {
            JsonValue::Num(JsonNum::U(u)) => Some(*u),
            _ => None,
        },
        None => None,
    }
}

/// A small unsigned field, with a fallback.
pub fn u16_field_exec(v: &JsonValue, k: &str, dflt: u16) -> (r: u16)
    ensures
        r == u16_field(v@, k@, dflt),
{
    match u64_field_exec(v, k) {
        Some(u) => if u <= 65535 {
            u as u16
        } else {
            dflt
        },
        None => dflt,
    }
}

/// A signed 32-bit field, with a fallback.
pub fn i32_field_exec(v: &JsonValue, k: &str, dflt: i32) -> (r: i32)
    ensures
        r == i32_field(v@, k@, dflt),
{
    match v.get(k) {
        Some(x) => match x {
            JsonValue::Num(JsonNum::U(u)) => if *u <= 0x7fffffff {
                *u as i32
            } else {
                dflt
            },
            JsonValue::Num(JsonNum::I(i)) => if *i >= -0x80000000 {
                *i as i32
            } else {
                dflt
            },
            _ => dflt,
        },
        None => dflt,
    }
}

/// Reads the matching rule an integration-JSON node describes through its
/// `pact:matcher:type` marker.
pub fn rule_from_integration_json(obj: &JsonValue) -> (r: Option<MatchingRule>)
    ensures
        match r {
            Some(rule) => rule_from_integration(obj@) == Some(rule@),
            None => rule_from_integration(obj@) is None,
        },
{
    match obj.get("pact:matcher:type") {
        None => None,
        Some(tv) => {
            let t = json_to_string(tv);
            let ts = t.as_str();
            if str_eq(ts, "regex") {
                match str_field_exec(obj, "regex") {
                    Some(s) => Some(MatchingRule::Regex(s.to_owned())),
                    None => None,
                }
            } else if str_eq(ts, "equality") {
                Some(MatchingRule::Equality)
            } else if str_eq(ts, "include") {
                match str_field_exec(obj, "value") {
                    Some(s) => Some(MatchingRule::Include(s.to_owned())),
                    None => None,
                }
            } else if str_eq(ts, "type") {
                Some(MatchingRule::Type)
            } else if str_eq(ts, "number") {
                Some(MatchingRule::Number)
            } else if str_eq(ts, "integer") {
                Some(MatchingRule::Integer)
            } else if str_eq(ts, "decimal") {
                Some(MatchingRule::Decimal)
            } else if str_eq(ts, "boolean") {
                Some(MatchingRule::Boolean)
            } else if str_eq(ts, "min") {
                match u64_field_exec(obj, "min") {
                    Some(n) => Some(MatchingRule::MinType(n)),
                    None => None,
                }
            } else if str_eq(ts, "max") {
                match u64_field_exec(obj, "max") {
                    Some(n) => Some(MatchingRule::MaxType(n)),
                    None => None,
                }
            } else if str_eq(ts, "timestamp") || str_eq(ts, "datetime") {
                Some(MatchingRule::Timestamp(str_field_or_exec(obj, "format")))
            } else if str_eq(ts, "date") {
                Some(MatchingRule::Date(str_field_or_exec(obj, "format")))
            } else if str_eq(ts, "time") {
                Some(MatchingRule::Time(str_field_or_exec(obj, "format")))
            } else if str_eq(ts, "null") {
                Some(MatchingRule::NullValue)
            } else if str_eq(ts, "contentType") {
                match str_field_exec(obj, "value") {
                    Some(s) => Some(MatchingRule::ContentType(s.to_owned())),
                    None => None,
                }
            } else if str_eq(ts, "values") {
                Some(MatchingRule::Values)
            } else {
                None
            }
        },
    }
}

/// Builds the generator a name and a configuration map describe.
pub fn generator_from_map(t: &str, cfg: &JsonValue) -> (r: Option<Generator>)
    ensures
        match r {
            Some(g) => generator_from_map_data(t@, cfg@) == Some(g@),
            None => generator_from_map_data(t@, cfg@) is None,
        },
{
    if str_eq(t, "RandomInt") {
        Some(
            Generator::RandomInt(
                i32_field_exec(cfg, "min", 0),
                i32_field_exec(cfg, "max", 10),
            ),
        )
    } else if str_eq(t, "RandomString") {
        Some(Generator::RandomString(u16_field_exec(cfg, "size", 20)))
    } else if str_eq(t, "RandomDecimal") {
        Some(Generator::RandomDecimal(u16_field_exec(cfg, "digits", 10)))
    } else if str_eq(t, "RandomBoolean") {
        Some(Generator::RandomBoolean)
    } else if str_eq(t, "Uuid") {
        Some(Generator::Uuid)
    } else if str_eq(t, "Date") {
        Some(
            Generator::Date(
                match str_field_exec(cfg, "format") {
                    Some(s) => Some(s.to_owned()),
                    None => None,
                },
            ),
        )
    } else if str_eq(t, "Time") {
        Some(
            Generator::Time(
                match str_field_exec(cfg, "format") {
                    Some(s) => Some(s.to_owned()),
                    None => None,
                },
            ),
        )
    } else if str_eq(t, "DateTime") {
        Some(
            Generator::DateTime(
                match str_field_exec(cfg, "format") {
                    Some(s) => Some(s.to_owned()),
                    None => None,
                },
            ),
        )
    } else if str_eq(t, "ProviderState") {
        match str_field_exec(cfg, "expression") {
            Some(e) => Some(Generator::ProviderStateGenerator(e.to_owned())),
            None => None,
        }
    } else if str_eq(t, "MockServerURL") {
        Some(
            Generator::MockServerURL(
                str_field_or_exec(cfg, "example"),
                str_field_or_exec(cfg, "regex"),
            ),
        )
    } else {
        None
    }
}

/// Reads the generator a node records: the marker from `marker_src`, its
/// configuration from `cfg`.
fn gens_from_node_exec(marker_src: &JsonValue, cfg: &JsonValue, path: &PathExpression) -> (r:
    Vec<(PathExpression, Generator)>)
    ensures
        gen_pairs_data(r@) == gens_from_node(marker_src@, cfg@, path@),
{
    let mut out: Vec<(PathExpression, Generator)> = Vec::new();
    match marker_src.get("pact:generator:type") {
        Some(gv) => {
            let t = json_to_string(gv);
            match generator_from_map(t.as_str(), cfg) {
                Some(g) => {
                    out.push((path.clone(), g));
                },
                None => (),
            }
        },
        None => (),
    }
    proof {
        assert(gen_pairs_data(out@) =~= gens_from_node(marker_src@, cfg@, path@));
    }
    out
}

/// The number of example copies a node asks for.
fn exam_count_exec(d: &JsonValue) -> (r: u64)
    ensures
        r as nat == exam_count(d@),
{
    match d.get("examples") {
        Some(x) => match x {
            JsonValue::Num(JsonNum::U(u)) => *u,
            _ => 1,
        },
        None => 1,
    }
}

/// Synthesizes XML attributes from an `attributes` object, scanning entries
/// from `i`.
fn synth_attrs_exec(attrs: &Vec<(String, JsonValue)>, path: &PathExpression, i: usize) -> (r:
    Result<
        (Vec<(String, String)>, Vec<(PathExpression, MatchingRule)>, Vec<(
            PathExpression,
            Generator,
        )>),
        XmlBodyError,
    >)
    requires
        i <= attrs@.len(),
    ensures
        ({
            let spec_r = synth_attrs(crate::json::obj_entries_data(attrs@), path@, i as int);
            match r {
                Ok(out) => spec_r matches Ok(s) && attr_pairs_data(out.0@) == s.0
                    && rule_pairs_data(out.1@) == s.1 && gen_pairs_data(out.2@) == s.2,
                Err(e) => spec_r == Err::<
                    (Seq<(Seq<char>, Seq<char>)>, RuleAdds, GenAdds),
                    XmlErrKind,
                >(err_kind_of(e)),
            }
        }),
    decreases attrs@.len() - i,
{
    let ghost sattrs = crate::json::obj_entries_data(attrs@);
    if i == attrs.len() {
        let r = (Vec::new(), Vec::new(), Vec::new());
        proof {
            assert(attr_pairs_data(r.0@) =~= Seq::<(Seq<char>, Seq<char>)>::empty());
            assert(rule_pairs_data(r.1@) =~= Seq::<(Seq<TokenData>, RuleData)>::empty());
            assert(gen_pairs_data(r.2@) =~= Seq::<(Seq<TokenData>, GenData)>::empty());
        }
        return Ok(r);
    }
    let entry = &attrs[i];
    proof {
        assert(sattrs[i as int] == (attrs@[i as int].0@, jdata_of(attrs@[i as int].1)));
    }
    let key_text = str_concat("@", entry.0.as_str());
    let apath = path.pushed_field(key_text.as_str());
    let is_matcher = match &entry.1 {
        JsonValue::Obj(_) => match entry.1.get("pact:matcher:type") {
            Some(_) => true,
            None => false,
        },
        _ => false,
    };
    proof {
        if entry.1 is Obj {
            lemma_get_is_idx(jdata_of(entry.1)->Obj_0, "pact:matcher:type"@, 0);
        }
    }
    let mut rules: Vec<(PathExpression, MatchingRule)> = Vec::new();
    let mut gens: Vec<(PathExpression, Generator)> = Vec::new();
    let text: String;
    if is_matcher {
        match entry.1.get("value") {
            None => {
                proof {
                    lemma_get_is_idx(jdata_of(entry.1)->Obj_0, "value"@, 0);
                }
                return Err(XmlBodyError::AttrValueMissing);
            },
            Some(av) => {
                proof {
                    lemma_get_is_idx(jdata_of(entry.1)->Obj_0, "value"@, 0);
                }
                text = json_to_string(av);
                match rule_from_integration_json(&entry.1) {
                    Some(rule) => rules.push((apath.clone(), rule)),
                    None => (),
                }
                gens = gens_from_node_exec(&entry.1, &entry.1, &apath);
            },
        }
    } else {
        text = json_to_string(&entry.1);
    }
    match synth_attrs_exec(attrs, path, i + 1) {
        Err(e) => Err(e),
        Ok((rest_attrs, rest_rules, rest_gens)) => {
            let mut out_attrs: Vec<(String, String)> = Vec::new();
            out_attrs.push((entry.0.clone(), text));
            let mut rest_attrs = rest_attrs;
            out_attrs.append(&mut rest_attrs);
            let mut rest_rules = rest_rules;
            rules.append(&mut rest_rules);
            let mut rest_gens = rest_gens;
            gens.append(&mut rest_gens);
            proof {
                let spec_r = synth_attrs(sattrs, path@, i as int);
                let s = spec_r->Ok_0;
                assert(attr_pairs_data(out_attrs@) =~= s.0);
                assert(rule_pairs_data(rules@) =~= s.1);
                assert(gen_pairs_data(gens@) =~= s.2);
            }
            Ok((out_attrs, rules, gens))
        },
    }
}

/// Walks one intermediate-tree object and produces the XML node it
/// describes, with the matching rules and generators recorded along the way.
#[verifier::rlimit(100)]
#[verifier::spinoff_prover]
pub fn create_element_from_json(object: &JsonValue, path: &PathExpression) -> (r: Result<
    (XmlNode, Vec<(PathExpression, MatchingRule)>, Vec<(PathExpression, Generator)>),
    XmlBodyError,
>)
    ensures
        ({
            let spec_r = synth_node(object@, path@);
            match r {
                Ok(out) => spec_r matches Ok(s) && node_data(out.0) == s.node && rule_pairs_data(
                    out.1@,
                ) == s.rules && gen_pairs_data(out.2@) == s.gens,
                Err(e) => spec_r == Err::<SynthOut, XmlErrKind>(err_kind_of(e)),
            }
        }),
    decreases *object, 0int, 0int,
{
    let ghost d = object@;
    match object {
        JsonValue::Obj(_) => (),
        _ => {
            return Err(XmlBodyError::InvalidNode);
        },
    }
    let ghost es = d->Obj_0;
    proof {
        lemma_get_is_idx(es, "pact:matcher:type"@, 0);
        lemma_get_is_idx(es, "content"@, 0);
        lemma_get_is_idx(es, "name"@, 0);
        lemma_get_is_idx(es, "value"@, 0);
    }
    let has_matcher = match object.get("pact:matcher:type") {
        Some(_) => true,
        None => false,
    };
    if has_matcher {
        match object.get("value") {
            None => Err(XmlBodyError::ValueMissing),
            Some(val) => {
                match val {
                    JsonValue::Obj(_) => (),
                    _ => {
                        return Err(XmlBodyError::ValueNotObject);
                    },
                }
                let ghost ves = val@->Obj_0;
                proof {
                    lemma_get_is_idx(ves, "name"@, 0);
                    lemma_get_is_idx(ves, "attributes"@, 0);
                    lemma_get_is_idx(ves, "children"@, 0);
                }
                match val.get("name") {
                    None => Err(XmlBodyError::NameMissing),
                    Some(nv) => {
                        let name = json_to_string(nv);
                        let epath = path.pushed_field(name.as_str());
                        let mut rules: Vec<(PathExpression, MatchingRule)> = Vec::new();
                        match rule_from_integration_json(object) {
                            Some(rule) => rules.push((epath.clone(), rule)),
                            None => (),
                        }
                        let mut gens = gens_from_node_exec(object, object, &epath);
                        let attrs_r = match val.get("attributes") {
                            Some(av) => match av {
                                JsonValue::Obj(am) => {
                                    proof {
                                        assert(jdata_of(*av)->Obj_0
                                            =~= crate::json::obj_entries_data(am@));
                                    }
                                    synth_attrs_exec(am, &epath, 0)
                                },
                                _ => Ok((Vec::new(), Vec::new(), Vec::new())),
                            },
                            None => Ok((Vec::new(), Vec::new(), Vec::new())),
                        };
                        match attrs_r {
                            Err(e) => Err(e),
                            Ok((attrs, mut arules, mut agens)) => {
                                let kids_r = match val.get("children") {
                                    Some(cv) => match cv {
                                        JsonValue::Arr(kids) => {
                                            proof {
                                                assert(decreases_to!(*object => *val));
                                                assert(decreases_to!(*val => *cv));
                                                assert(decreases_to!(*cv => *kids));
                                                assert(decreases_to!(*object => *kids));
                                                assert(jdata_of(*cv)->Arr_0
                                                    =~= crate::json::arr_elems_data(kids@));
                                            }
                                            synth_children_exec(kids, &epath, 0)
                                        },
                                        _ => {
                                            return Err(XmlBodyError::ChildrenNotArray);
                                        },
                                    },
                                    None => Ok((Vec::new(), Vec::new(), Vec::new())),
                                };
                                match kids_r {
                                    Err(e) => Err(e),
                                    Ok((kid_nodes, mut krules, mut kgens)) => {
                                        rules.append(&mut arules);
                                        rules.append(&mut krules);
                                        gens.append(&mut agens);
                                        gens.append(&mut kgens);
                                        let element = XmlElement {
                                            name,
                                            attributes: attrs,
                                            children: kid_nodes,
                                        };
                                        proof {
                                            let s = synth_node(d, path@)->Ok_0;
                                            assert(elem_data(element).attributes =~= s.node->Element_0.attributes);
                                            assert(elem_data(element).children =~= s.node->Element_0.children);
                                            assert(elem_data(element) =~~= s.node->Element_0);
                                            assert(rule_pairs_data(rules@) =~= s.rules);
                                            assert(gen_pairs_data(gens@) =~= s.gens);
                                        }
                                        Ok((XmlNode::Element(element), rules, gens))
                                    },
                                }
                            },
                        }
                    },
                }
            },
        }
    } else {
        let has_content = match object.get("content") {
            Some(_) => true,
            None => false,
        };
        if has_content {
            let content = match object.get("content") {
                Some(c) => c,
                None => {
                    return Err(XmlBodyError::InvalidNode);
                },
            };
            let text = json_to_string(content);
            let tpath = path.pushed_field("#text");
            let mut rules: Vec<(PathExpression, MatchingRule)> = Vec::new();
            let mut gens: Vec<(PathExpression, Generator)> = Vec::new();
            proof {
                lemma_get_is_idx(es, "matcher"@, 0);
            }
            match object.get("matcher") {
                Some(mv) => {
                    match mv {
                        JsonValue::Obj(_) => {
                            match rule_from_integration_json(mv) {
                                Some(rule) => rules.push((tpath.clone(), rule)),
                                None => (),
                            }
                            gens = gens_from_node_exec(object, mv, &tpath);
                        },
                        _ => (),
                    }
                },
                None => (),
            }
            proof {
                let s = synth_node(d, path@)->Ok_0;
                assert(rule_pairs_data(rules@) =~= s.rules);
                assert(gen_pairs_data(gens@) =~= s.gens);
            }
            Ok((XmlNode::Text(text), rules, gens))
        } else {
            let has_name = match object.get("name") {
                Some(_) => true,
                None => false,
            };
            if has_name {
                let nv = match object.get("name") {
                    Some(x) => x,
                    None => {
                        return Err(XmlBodyError::InvalidNode);
                    },
                };
                let name = json_to_string(nv);
                let epath = path.pushed_field(name.as_str());
                proof {
                    lemma_get_is_idx(es, "attributes"@, 0);
                    lemma_get_is_idx(es, "children"@, 0);
                }
                let attrs_r = match object.get("attributes") {
                    Some(av) => match av {
                        JsonValue::Obj(am) => {
                            proof {
                                assert(jdata_of(*av)->Obj_0
                                    =~= crate::json::obj_entries_data(am@));
                            }
                            synth_attrs_exec(am, &epath, 0)
                        },
                        _ => Ok((Vec::new(), Vec::new(), Vec::new())),
                    },
                    None => Ok((Vec::new(), Vec::new(), Vec::new())),
                };
                match attrs_r {
                    Err(e) => Err(e),
                    Ok((attrs, mut arules, mut agens)) => {
                        let kids_r = match object.get("children") {
                            Some(cv) => match cv {
                                JsonValue::Arr(kids) => {
                                    proof {
                                        assert(decreases_to!(*object => *cv));
                                        assert(decreases_to!(*cv => *kids));
                                        assert(decreases_to!(*object => *kids));
                                        assert(jdata_of(*cv)->Arr_0
                                            =~= crate::json::arr_elems_data(kids@));
                                    }
                                    synth_children_exec(kids, &epath, 0)
                                },
                                _ => {
                                    return Err(XmlBodyError::ChildrenNotArray);
                                },
                            },
                            None => Ok((Vec::new(), Vec::new(), Vec::new())),
                        };
                        match kids_r {
                            Err(e) => Err(e),
                            Ok((kid_nodes, mut krules, mut kgens)) => {
                                let mut rules: Vec<(PathExpression, MatchingRule)> = Vec::new();
                                let mut gens: Vec<(PathExpression, Generator)> = Vec::new();
                                rules.append(&mut arules);
                                rules.append(&mut krules);
                                gens.append(&mut agens);
                                gens.append(&mut kgens);
                                let element = XmlElement {
                                    name,
                                    attributes: attrs,
                                    children: kid_nodes,
                                };
                                proof {
                                    let s = synth_node(d, path@)->Ok_0;
                                    assert(elem_data(element).attributes =~= s.node->Element_0.attributes);
                                    assert(elem_data(element).children =~= s.node->Element_0.children);
                                    assert(elem_data(element) =~~= s.node->Element_0);
                                    assert(rule_pairs_data(rules@) =~= s.rules);
                                    assert(gen_pairs_data(gens@) =~= s.gens);
                                }
                                Ok((XmlNode::Element(element), rules, gens))
                            },
                        }
                    },
                }
            } else {
                Err(XmlBodyError::InvalidNode)
            }
        }
    }
}

/// Synthesizes the children of an element from a `children` array, scanning
/// from `i`; each child element is attached `examples` times.
fn synth_children_exec(kids: &Vec<JsonValue>, path: &PathExpression, i: usize) -> (r: Result<
    (Vec<XmlNode>, Vec<(PathExpression, MatchingRule)>, Vec<(PathExpression, Generator)>),
    XmlBodyError,
>)
    requires
        i <= kids@.len(),
    ensures
        ({
            let spec_r = synth_children(crate::json::arr_elems_data(kids@), path@, i as int);
            match r {
                Ok(out) => spec_r matches Ok(s) && nodes_data(out.0@) == s.0 && rule_pairs_data(
                    out.1@,
                ) == s.1 && gen_pairs_data(out.2@) == s.2,
                Err(e) => spec_r == Err::<
                    (Seq<NodeData>, RuleAdds, GenAdds),
                    XmlErrKind,
                >(err_kind_of(e)),
            }
        }),
    decreases *kids, 1int, kids@.len() - i,
{
    let ghost skids = crate::json::arr_elems_data(kids@);
    if i == kids.len() {
        let r = (Vec::new(), Vec::new(), Vec::new());
        proof {
            assert(nodes_data(r.0@) =~= Seq::<NodeData>::empty());
            assert(rule_pairs_data(r.1@) =~= Seq::<(Seq<TokenData>, RuleData)>::empty());
            assert(gen_pairs_data(r.2@) =~= Seq::<(Seq<TokenData>, GenData)>::empty());
        }
        return Ok(r);
    }
    let child = &kids[i];
    proof {
        assert(skids[i as int] == jdata_of(kids@[i as int]));
    }
    match child {
        JsonValue::Obj(_) => (),
        _ => {
            return Err(XmlBodyError::ChildNotObject);
        },
    }
    proof {
        assert(decreases_to!(*kids => kids@[i as int]));
    }
    match create_element_from_json(child, path) {
        Err(e) => Err(e),
        Ok((node, mut crules, mut cgens)) => {
            match synth_children_exec(kids, path, i + 1) {
                Err(e) => Err(e),
                Ok((rest_nodes, mut rest_rules, mut rest_gens)) => {
                    let mut copies: Vec<XmlNode> = Vec::new();
                    match &node {
                        XmlNode::Element(_) => {
                            let n = exam_count_exec(child);
                            let mut c: u64 = 0;
                            while c < n
                                invariant
                                    c <= n,
                                    copies@.len() == c,
                                    forall|j: int|
                                        0 <= j < c ==> node_data(copies@[j]) == node_data(node),
                                decreases n - c,
                            {
                                copies.push(node.clone());
                                c = c + 1;
                            }
                        },
                        XmlNode::Text(_) => {
                            copies.push(node.clone());
                        },
                    }
                    let mut rest_nodes = rest_nodes;
                    copies.append(&mut rest_nodes);
                    crules.append(&mut rest_rules);
                    cgens.append(&mut rest_gens);
                    proof {
                        let s = synth_children(skids, path@, i as int)->Ok_0;
                        assert(nodes_data(copies@) =~= s.0);
                        assert(rule_pairs_data(crules@) =~= s.1);
                        assert(gen_pairs_data(cgens@) =~= s.2);
                    }
                    Ok((copies, crules, cgens))
                },
            }
        },
    }
}


/// The category entries after recording a run of rules, front first, each
/// joined under AND logic.
pub open spec fn apply_rule_adds(es: Seq<EntryData>, adds: RuleAdds) -> Seq<EntryData>
    decreases adds.len(),
{
    if adds.len() == 0 {
        es
    } else {
        apply_rule_adds(
            add_rule_data(es, adds[0].0, (adds[0].1, RuleLogic::And)),
            adds.drop_first(),
        )
    }
}

/// The registry entries after recording a run of body generators, front
/// first.
pub open spec fn apply_gen_adds(es: Seq<GenEntryData>, adds: GenAdds) -> Seq<GenEntryData>
    decreases adds.len(),
{
    if adds.len() == 0 {
        es
    } else {
        apply_gen_adds(
            add_gen_data(es, GeneratorCategory::Body, adds[0].0, adds[0].1),
            adds.drop_first(),
        )
    }
}

/// Synthesizes an XML document from an intermediate body tree: the `root`
/// entry becomes the root element, and the rules and generators recorded
/// along the walk are added to the given category and registry, in walk
/// order. A tree without a usable root yields an empty document; a
/// malformed tree is rejected outright, recording nothing.
pub fn generate_xml_body(
    attributes: &JsonValue,
    matching_rules: &mut MatchingRuleCategory,
    generators: &mut Generators,
) -> (r: Result<Vec<u8>, XmlBodyError>)
    ensures
        final(matching_rules).name == old(matching_rules).name,
        match r {
            Ok(bytes) => xml_body_data(attributes@) matches Ok(parts) && bytes@ == xml_bytes_of(
                parts.0,
            ) && final(matching_rules)@ == apply_rule_adds(old(matching_rules)@, parts.1)
                && final(generators)@ == apply_gen_adds(old(generators)@, parts.2),
            Err(e) => {
                &&& xml_body_data(attributes@) == Err::<
                    (Option<ElemData>, RuleAdds, GenAdds),
                    XmlErrKind,
                >(err_kind_of(e))
                &&& final(matching_rules)@ == old(matching_rules)@
                &&& final(generators)@ == old(generators)@
            },
        },
{
    match attributes.get("root") {
        Some(rv) => {
            match rv {
                JsonValue::Obj(_) => (),
                _ => {
                    return Ok(render_document(None));
                },
            }
            let root_path = PathExpression::root();
            match create_element_from_json(rv, &root_path) {
                Err(e) => Err(e),
                Ok((node, rules, gens)) => {
                    proof {
                        assert(root_path@ =~= Seq::<TokenData>::empty());
                    }
                    let ghost radds = rule_pairs_data(rules@);
                    let mut rules = rules;
                    while rules.len() > 0
                        invariant
                            matching_rules.name == old(matching_rules).name,
                            apply_rule_adds(old(matching_rules)@, radds) == apply_rule_adds(
                                matching_rules@,
                                rule_pairs_data(rules@),
                            ),
                        decreases rules@.len(),
                    {
                        let ghost pre = rules@;
                        let pair = rules.remove(0);
                        matching_rules.add_rule(&pair.0, pair.1, RuleLogic::And);
                        proof {
                            assert(rule_pairs_data(rules@) =~= rule_pairs_data(pre).drop_first());
                        }
                    }
                    proof {
                        assert(rule_pairs_data(rules@) =~= Seq::<(Seq<TokenData>, RuleData)>::empty());
                    }
                    let ghost gadds = gen_pairs_data(gens@);
                    let mut gens = gens;
                    while gens.len() > 0
                        invariant
                            apply_gen_adds(old(generators)@, gadds) == apply_gen_adds(
                                generators@,
                                gen_pairs_data(gens@),
                            ),
                        decreases gens@.len(),
                    {
                        let ghost pre = gens@;
                        let pair = gens.remove(0);
                        generators.add_generator_with_subcategory(
                            GeneratorCategory::Body,
                            pair.0,
                            pair.1,
                        );
                        proof {
                            assert(gen_pairs_data(gens@) =~= gen_pairs_data(pre).drop_first());
                        }
                    }
                    proof {
                        assert(gen_pairs_data(gens@) =~= Seq::<(Seq<TokenData>, GenData)>::empty());
                    }
                    let root_el = match node {
                        XmlNode::Element(el) => Some(el),
                        XmlNode::Text(_) => None,
                    };
                    let bytes = match &root_el {
                        Some(el) => render_document(Some(el)),
                        None => render_document(None),
                    };
                    Ok(bytes)
                },
            }
        },
        None => Ok(render_document(None)),
    }
}
} // verus!
