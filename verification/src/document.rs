//! Structured configuration documents.
//!
//! Workflow and engine configuration arrive as structured key/value
//! documents (YAML on the wire). The document tree is modeled here as
//! [`ConfigValue`]; the byte-level decoding is delegated to the `serde_yaml`
//! crate behind a trusted boundary, and everything that walks or builds a
//! document is verified against the mathematical view [`DocView`].

use vstd::prelude::*;

use serde_yaml::Value as YamlNode;

use crate::errors::ConfigError;

verus! {

/// One node of a structured configuration document.
///
/// Mapping keys are kept as full document values so that no information is
/// lost in transit; the verified lookup below matches string keys. Numbers
/// outside the 64-bit integer range are carried in their textual form. A
/// tagged node keeps the tag as the text `!name`.
pub enum ConfigValue {
    Null,
    Bool(bool),
    Int(i64),
    Str(String),
    Sequence(Vec<ConfigValue>),
    Mapping(Vec<(ConfigValue, ConfigValue)>),
    Tagged(String, Box<ConfigValue>),
}

/// Mathematical view of a [`ConfigValue`] tree.
pub enum DocView {
    Null,
    Bool(bool),
    Int(i64),
    Str(Seq<char>),
    Sequence(Seq<DocView>),
    Mapping(Seq<(DocView, DocView)>),
    Tagged(Seq<char>, Box<DocView>),
}

impl ConfigValue {
    pub open spec fn dview(self) -> DocView
        decreases self,
    {
        match self {
            ConfigValue::Null => DocView::Null,
            ConfigValue::Bool(b) => DocView::Bool(b),
            ConfigValue::Int(i) => DocView::Int(i),
            ConfigValue::Str(s) => DocView::Str(s@),
            // The range guards keep the recursive calls on elements the
            // sequence actually holds; out-of-range positions are never
            // observed by `Seq::new`.
            ConfigValue::Sequence(vs) => DocView::Sequence(
                Seq::new(
                    vs@.len(),
                    |i: int|
                        if 0 <= i < vs@.len() {
                            vs@[i].dview()
                        } else {
                            DocView::Null
                        },
                ),
            ),
            ConfigValue::Mapping(es) => DocView::Mapping(
                Seq::new(
                    es@.len(),
                    |i: int|
                        if 0 <= i < es@.len() {
                            (es@[i].0.dview(), es@[i].1.dview())
                        } else {
                            (DocView::Null, DocView::Null)
                        },
                ),
            ),
            ConfigValue::Tagged(t, v) => DocView::Tagged(t@, Box::new((*v).dview())),
        }
    }
}

impl View for ConfigValue {
    type V = DocView;

    open spec fn view(&self) -> DocView {
        self.dview()
    }
}

/// First entry of `entries` whose key is the string `key`, if any.
pub open spec fn doc_lookup(entries: Seq<(DocView, DocView)>, key: Seq<char>) -> Option<DocView>
    decreases entries.len(),
{
    if entries.len() == 0 {
        None
    } else if entries[0].0 == DocView::Str(key) {
        Some(entries[0].1)
    } else {
        doc_lookup(entries.drop_first(), key)
    }
}

impl ConfigValue {
    /// Looks `key` up in this value, which must be a mapping; `None` when the
    /// value is not a mapping or no entry has that string key.
    pub fn get<'a>(&'a self, key: &str) -> (r: Option<&'a ConfigValue>)
        ensures
            match r {
                Some(v) => self@ matches DocView::Mapping(es) && doc_lookup(es, key@) == Some(v@),
                None => !(self@ matches DocView::Mapping(es) && doc_lookup(es, key@) is Some),
            },
    {
        match self {
            ConfigValue::Mapping(entries) => {
                let ghost es = self@->Mapping_0;
                proof {
                    assert(self@ == DocView::Mapping(es));
                    assert(es.len() == entries@.len());
                    assert(forall|k: int|
                        0 <= k < es.len() ==> #[trigger] es[k] == (
                            entries@[k].0.dview(),
                            entries@[k].1.dview(),
                        ));
                    assert(es.skip(0) =~= es);
                }
                let needle = String::from_str(key);
                let n = entries.len();
                let mut i: usize = 0;
                while i < n
                    invariant
                        n == entries@.len(),
                        i <= n,
                        needle@ == key@,
                        es.len() == n,
                        self@ == DocView::Mapping(es),
                        forall|k: int|
                            0 <= k < es.len() ==> #[trigger] es[k] == (
                                entries@[k].0.dview(),
                                entries@[k].1.dview(),
                            ),
                        doc_lookup(es, key@) == doc_lookup(es.skip(i as int), key@),
                    decreases n - i,
                {
                    assert(es.skip(i as int)[0] == es[i as int]);
                    let hit = match &entries[i].0 {
                        ConfigValue::Str(s) => needle.eq(s),
                        _ => false,
                    };
                    if hit {
                        assert(doc_lookup(es.skip(i as int), key@) == Some(es[i as int].1));
                        return Some(&entries[i].1);
                    }
                    proof {
                        assert(es[i as int].0 != DocView::Str(key@));
                        assert(es.skip(i as int).drop_first() =~= es.skip(i + 1));
                    }
                    i = i + 1;
                }
                proof {
                    assert(es.skip(n as int) =~= Seq::<(DocView, DocView)>::empty());
                }
                None
            },
            _ => None,
        }
    }
}

#[verifier::external_type_specification]
#[verifier::external_body]
pub struct ExYamlValue(serde_yaml::Value);

/// The document tree that YAML decoding yields for `bytes`: `None` when the
/// bytes are not a well-formed YAML document. Decoding is a function of the
/// bytes alone.
pub uninterp spec fn yaml_document(bytes: Seq<u8>) -> Option<DocView>;

/// Relies on serde_yaml's `Value` enum: each arm moves one variant of the
/// decoded tree over into the document model, recursing through sequences,
/// mappings and tags.
#[verifier::external_body]
fn yaml_to_doc(v: YamlNode) -> ConfigValue {
    match v {
        YamlNode::Null => ConfigValue::Null,
        YamlNode::Bool(b) => ConfigValue::Bool(b),
        YamlNode::Number(n) => match n.as_i64() {
            Some(i) => ConfigValue::Int(i),
            None => ConfigValue::Str(n.to_string()),
        },
        YamlNode::String(s) => ConfigValue::Str(s),
        YamlNode::Sequence(vs) => ConfigValue::Sequence(vs.into_iter().map(yaml_to_doc).collect()),
        YamlNode::Mapping(m) =>
            ConfigValue::Mapping(m.into_iter().map(|(k, w)| (yaml_to_doc(k), yaml_to_doc(w))).collect()),
        YamlNode::Tagged(t) =>
            ConfigValue::Tagged(format!("{}", t.tag), Box::new(yaml_to_doc(t.value))),
    }
}

/// Relies on serde_yaml::from_slice: decodes one YAML document from bytes,
/// deterministically, failing exactly on malformed input.
#[verifier::external_body]
pub(crate) fn parse_yaml_document(bytes: &[u8]) -> (r: Result<ConfigValue, ConfigError>)
    ensures
        match r {
            Ok(v) => yaml_document(bytes@) == Some(v@),
            Err(e) => yaml_document(bytes@) is None && e matches ConfigError::Malformed(_),
        },
{
    match serde_yaml::from_slice::<YamlNode>(bytes) {
        Ok(v) => Ok(yaml_to_doc(v)),
        Err(e) => Err(ConfigError::Malformed(e.to_string())),
    }
}

} // verus!
