//! Typed configuration model: workflow stages, bus connection settings and
//! sandbox settings, together with their decoding from configuration
//! documents.

use vstd::prelude::*;

use crate::document::{ConfigValue, DocView, doc_lookup};
use crate::errors::ConfigError;
use crate::graph::{WorkflowGraph, GraphView, graph_of_doc, acyclic, is_topo_order};

verus! {

/// One step of a workflow: a module reference and the exported function to
/// call. The namespace scopes the module's identifiers when several modules
/// are composed into one manifest.
pub struct WorkflowStage {
    /// Blob-store object name of the module binary.
    pub object_name: String,
    /// Optional namespace for the module's identifiers.
    pub namespace: Option<String>,
    /// Optional content digest the fetched binary must match.
    pub hash: Option<String>,
    /// Name of the exported function this stage invokes.
    pub plugin_function_name: String,
}

/// Mathematical view of a [`WorkflowStage`].
pub struct StageView {
    pub object_name: Seq<char>,
    pub namespace: Option<Seq<char>>,
    pub hash: Option<Seq<char>>,
    pub plugin_function_name: Seq<char>,
}

impl View for WorkflowStage {
    type V = StageView;

    open spec fn view(&self) -> StageView {
        StageView {
            object_name: self.object_name@,
            namespace: match self.namespace {
                Some(ns) => Some(ns@),
                None => None,
            },
            hash: match self.hash {
                Some(h) => Some(h@),
                None => None,
            },
            plugin_function_name: self.plugin_function_name@,
        }
    }
}

/// How the engine authenticates against the message bus.
pub enum NatsAuthentication {
    /// Connect without credentials.
    NoAuth,
    /// Bearer JWT token.
    BearerJwt(String),
    /// Path to a credentials file.
    Creds(String),
}

/// Mathematical view of a [`NatsAuthentication`].
pub enum AuthView {
    NoAuth,
    BearerJwt(Seq<char>),
    Creds(Seq<char>),
}

impl View for NatsAuthentication {
    type V = AuthView;

    open spec fn view(&self) -> AuthView {
        match self {
            NatsAuthentication::NoAuth => AuthView::NoAuth,
            NatsAuthentication::BearerJwt(j) => AuthView::BearerJwt(j@),
            NatsAuthentication::Creds(c) => AuthView::Creds(c@),
        }
    }
}

impl Default for NatsAuthentication {
    /// The bare default is an unauthenticated connection; an embedder that
    /// finds stored credentials on disk may substitute them before
    /// connecting.
    fn default() -> (r: Self)
        ensures
            r is NoAuth,
    {
        NatsAuthentication::NoAuth
    }
}

/// The authentication value that the text `s` denotes, if any: the word
/// `none`, or a `BearerJwt: ` / `Creds: ` prefix followed by the token or
/// path.
pub open spec fn auth_of_text(s: Seq<char>) -> Option<AuthView> {
    if s == "none"@ {
        Some(AuthView::NoAuth)
    } else if s.len() >= 11 && s.subrange(0, 11) == "BearerJwt: "@ {
        Some(AuthView::BearerJwt(s.skip(11)))
    } else if s.len() >= 7 && s.subrange(0, 7) == "Creds: "@ {
        Some(AuthView::Creds(s.skip(7)))
    } else {
        None
    }
}

/// Character-for-character equality of two string slices.
pub fn str_eq(a: &str, b: &str) -> (r: bool)
    ensures
        r == (a@ == b@),
{
    let sa = String::from_str(a);
    let sb = String::from_str(b);
    sa.eq(&sb)
}


/// A document node's view is a string exactly when the node is one.
pub proof fn lemma_dview_is_str(c: &ConfigValue)
    ensures
        (c.dview() is Str) <==> (c is Str),
{
    match c {
        ConfigValue::Null => {},
        ConfigValue::Bool(_) => {},
        ConfigValue::Int(_) => {},
        ConfigValue::Str(_) => {},
        ConfigValue::Sequence(_) => {},
        ConfigValue::Mapping(_) => {},
        ConfigValue::Tagged(_, _) => {},
    }
}

impl NatsAuthentication {
    /// Parses the textual form accepted on the command line: `none`,
    /// `BearerJwt: <token>` or `Creds: <path>`.
    pub fn from_str(s: &str) -> (r: Result<NatsAuthentication, String>)
        ensures
            match r {
                Ok(a) => auth_of_text(s@) == Some(a@),
                Err(m) => auth_of_text(s@) is None && m@ == "Invalid authentication method: "@
                    + s@,
            },
    {
        let n = s.unicode_len();
        if str_eq(s, "none") {
            return Ok(NatsAuthentication::NoAuth);
        }
        if n >= 11 && str_eq(s.substring_char(0, 11), "BearerJwt: ") {
            let rest = s.substring_char(11, n);
            proof {
                assert(s@.subrange(11, n as int) =~= s@.skip(11));
            }
            return Ok(NatsAuthentication::BearerJwt(String::from_str(rest)));
        }
        if n >= 7 && str_eq(s.substring_char(0, 7), "Creds: ") {
            let rest = s.substring_char(7, n);
            proof {
                assert(s@.subrange(7, n as int) =~= s@.skip(7));
            }
            return Ok(NatsAuthentication::Creds(String::from_str(rest)));
        }
        let mut m = String::from_str("Invalid authentication method: ");
        m.append(s);
        Err(m)
    }

    /// The textual form that [`NatsAuthentication::from_str`] accepts.
    pub fn to_config_string(&self) -> (r: String)
        ensures
            match self@ {
                AuthView::NoAuth => r@ == "none"@,
                AuthView::BearerJwt(j) => r@ == "BearerJwt: "@ + j,
                AuthView::Creds(c) => r@ == "Creds: "@ + c,
            },
    {
        match self {
            NatsAuthentication::NoAuth => String::from_str("none"),
            NatsAuthentication::BearerJwt(j) => {
                let mut m = String::from_str("BearerJwt: ");
                m.append(j.as_str());
                m
            },
            NatsAuthentication::Creds(c) => {
                let mut m = String::from_str("Creds: ");
                m.append(c.as_str());
                m
            },
        }
    }
}

/// A string field that may be absent: `None` when present with a shape that
/// is neither a string nor null, `Some(None)` when absent or null.
pub open spec fn opt_str_field(es: Seq<(DocView, DocView)>, key: Seq<char>) -> Option<
    Option<Seq<char>>,
> {
    match doc_lookup(es, key) {
        Option::None => Some(None),
        Option::Some(DocView::Null) => Some(None),
        Option::Some(DocView::Str(s)) => Some(Some(s)),
        Option::Some(_) => None,
    }
}

/// A string field that must be present.
pub open spec fn req_str_field(es: Seq<(DocView, DocView)>, key: Seq<char>) -> Option<Seq<char>> {
    match doc_lookup(es, key) {
        Option::Some(DocView::Str(s)) => Some(s),
        _ => None,
    }
}

/// The stage that the document node `d` denotes, if any: a mapping with the
/// required `object_name` and `plugin_function_name` strings and the
/// optional `namespace` and `hash` strings.
pub open spec fn stage_of_doc(d: DocView) -> Option<StageView> {
    match d {
        DocView::Mapping(es) => match (
            req_str_field(es, "object_name"@),
            opt_str_field(es, "namespace"@),
            opt_str_field(es, "hash"@),
            req_str_field(es, "plugin_function_name"@),
        ) {
            (Some(on), Some(ns), Some(h), Some(pf)) => Some(
                StageView { object_name: on, namespace: ns, hash: h, plugin_function_name: pf },
            ),
            _ => None,
        },
        _ => None,
    }
}

impl WorkflowStage {
    /// Decodes one stage from a document node.
    pub fn from_doc(v: &ConfigValue) -> (r: Result<WorkflowStage, ConfigError>)
        ensures
            match r {
                Ok(s) => stage_of_doc(v@) == Some(s@),
                Err(_) => stage_of_doc(v@) is None,
            },
    {
        if !(matches!(v, ConfigValue::Mapping(_))) {
            return Err(ConfigError::WrongType(String::from_str("workflow.nodes")));
        }
        let object_name = match v.get("object_name") {
            Some(ConfigValue::Str(s)) => s.clone(),
            Some(_) => {
                return Err(ConfigError::WrongType(String::from_str("object_name")));
            },
            None => {
                return Err(ConfigError::MissingField(String::from_str("object_name")));
            },
        };
        let namespace = match v.get("namespace") {
            Some(ConfigValue::Str(s)) => Some(s.clone()),
            Some(ConfigValue::Null) => None,
            Some(_) => {
                return Err(ConfigError::WrongType(String::from_str("namespace")));
            },
            None => None,
        };
        let hash = match v.get("hash") {
            Some(ConfigValue::Str(s)) => Some(s.clone()),
            Some(ConfigValue::Null) => None,
            Some(_) => {
                return Err(ConfigError::WrongType(String::from_str("hash")));
            },
            None => None,
        };
        let plugin_function_name = match v.get("plugin_function_name") {
            Some(ConfigValue::Str(s)) => s.clone(),
            Some(_) => {
                return Err(ConfigError::WrongType(String::from_str("plugin_function_name")));
            },
            None => {
                return Err(ConfigError::MissingField(String::from_str("plugin_function_name")));
            },
        };
        Ok(WorkflowStage { object_name, namespace, hash, plugin_function_name })
    }

    /// Encodes this stage as a document node that [`WorkflowStage::from_doc`]
    /// decodes back to it.
    pub fn to_doc(&self) -> (r: ConfigValue)
        ensures
            stage_of_doc(r@) == Some(self@),
    {
        let mut entries: Vec<(ConfigValue, ConfigValue)> = Vec::new();
        entries.push(
            (
                ConfigValue::Str(String::from_str("object_name")),
                ConfigValue::Str(self.object_name.clone()),
            ),
        );
        entries.push(
            (
                ConfigValue::Str(String::from_str("namespace")),
                match &self.namespace {
                    Some(ns) => ConfigValue::Str(ns.clone()),
                    None => ConfigValue::Null,
                },
            ),
        );
        entries.push(
            (
                ConfigValue::Str(String::from_str("hash")),
                match &self.hash {
                    Some(h) => ConfigValue::Str(h.clone()),
                    None => ConfigValue::Null,
                },
            ),
        );
        entries.push(
            (
                ConfigValue::Str(String::from_str("plugin_function_name")),
                ConfigValue::Str(self.plugin_function_name.clone()),
            ),
        );
        let ghost ents = entries@;
        let r = ConfigValue::Mapping(entries);
        proof {
            lemma_distinct_stage_keys();
            let es = r@->Mapping_0;
            assert(es.len() == 4);
            assert(forall|k: int|
                0 <= k < 4 ==> #[trigger] es[k] == (ents[k].0.dview(), ents[k].1.dview()));
            assert(es[0].0 == DocView::Str("object_name"@));
            assert(es[1].0 == DocView::Str("namespace"@));
            assert(es[2].0 == DocView::Str("hash"@));
            assert(es[3].0 == DocView::Str("plugin_function_name"@));
            lemma_lookup_four(es);
            assert(doc_lookup(es, "object_name"@) == Some(es[0].1));
            assert(doc_lookup(es, "namespace"@) == Some(es[1].1));
            assert(doc_lookup(es, "hash"@) == Some(es[2].1));
            assert(doc_lookup(es, "plugin_function_name"@) == Some(es[3].1));
        }
        r
    }
}

/// The four stage field names are pairwise distinct.
proof fn lemma_distinct_stage_keys()
    ensures
        "object_name"@ != "namespace"@,
        "object_name"@ != "hash"@,
        "object_name"@ != "plugin_function_name"@,
        "namespace"@ != "hash"@,
        "namespace"@ != "plugin_function_name"@,
        "hash"@ != "plugin_function_name"@,
{
    reveal_strlit("object_name");
    reveal_strlit("namespace");
    reveal_strlit("hash");
    reveal_strlit("plugin_function_name");
    assert("object_name"@.len() == 11);
    assert("namespace"@.len() == 9);
    assert("hash"@.len() == 4);
    assert("plugin_function_name"@.len() == 20);
}

/// Looking a key up in a four-entry mapping whose keys are four distinct
/// strings yields the value stored under it.
pub(crate) proof fn lemma_lookup_four(es: Seq<(DocView, DocView)>)
    requires
        es.len() == 4,
        forall|i: int, j: int|
            0 <= i < j < 4 ==> (#[trigger] es[i]).0 != (#[trigger] es[j]).0,
        forall|i: int| 0 <= i < 4 ==> (#[trigger] es[i]).0 is Str,
    ensures
        forall|i: int|
            0 <= i < 4 ==> doc_lookup(es, (#[trigger] es[i]).0->Str_0) == Some(es[i].1),
{
    let e1 = es.drop_first();
    let e2 = e1.drop_first();
    let e3 = e2.drop_first();
    assert(e1[0] == es[1] && e1[1] == es[2] && e1[2] == es[3]);
    assert(e2[0] == es[2] && e2[1] == es[3]);
    assert(e3[0] == es[3]);
    assert forall|i: int|
        0 <= i < 4 implies doc_lookup(es, (#[trigger] es[i]).0->Str_0) == Some(es[i].1) by {
        let k = es[i].0->Str_0;
        assert(es[i].0 == DocView::Str(k));
        assert(forall|j: int| 0 <= j < 4 && j != i ==> (#[trigger] es[j]).0 != DocView::Str(k));
        if i == 0 {
            assert(doc_lookup(es, k) == Some(es[0].1));
        } else if i == 1 {
            assert(doc_lookup(es, k) == doc_lookup(e1, k));
            assert(doc_lookup(e1, k) == Some(e1[0].1));
        } else if i == 2 {
            assert(doc_lookup(es, k) == doc_lookup(e1, k));
            assert(doc_lookup(e1, k) == doc_lookup(e2, k));
            assert(doc_lookup(e2, k) == Some(e2[0].1));
        } else {
            assert(doc_lookup(es, k) == doc_lookup(e1, k));
            assert(doc_lookup(e1, k) == doc_lookup(e2, k));
            assert(doc_lookup(e2, k) == doc_lookup(e3, k));
            assert(doc_lookup(e3, k) == Some(e3[0].1));
        }
    }
}

/// The textual form of an authentication value parses back to that value.
pub proof fn lemma_auth_text_round_trip(a: AuthView)
    ensures
        auth_of_text(
            match a {
                AuthView::NoAuth => "none"@,
                AuthView::BearerJwt(j) => "BearerJwt: "@ + j,
                AuthView::Creds(c) => "Creds: "@ + c,
            },
        ) == Some(a),
{
    broadcast use vstd::string::group_string_axioms;

    reveal_strlit("none");
    reveal_strlit("BearerJwt: ");
    reveal_strlit("Creds: ");
    assert("none"@.len() == 4);
    assert("BearerJwt: "@.len() == 11);
    assert("Creds: "@.len() == 7);
    match a {
        AuthView::NoAuth => {},
        AuthView::BearerJwt(j) => {
            let s = "BearerJwt: "@ + j;
            assert(s != "none"@);
            assert(s.subrange(0, 11) =~= "BearerJwt: "@);
            assert(s.skip(11) =~= j);
        },
        AuthView::Creds(c) => {
            let s = "Creds: "@ + c;
            assert(s != "none"@);
            assert(s.len() >= 11 ==> s.subrange(0, 11) != "BearerJwt: "@) by {
                if s.len() >= 11 {
                    assert(s.subrange(0, 11)[0] == 'C');
                }
            }
            assert(s.subrange(0, 7) =~= "Creds: "@);
            assert(s.skip(7) =~= c);
        },
    }
}

/// A boolean field with a default: `None` when present with a non-boolean
/// shape.
pub open spec fn opt_bool_field(es: Seq<(DocView, DocView)>, key: Seq<char>, dflt: bool) -> Option<
    bool,
> {
    match doc_lookup(es, key) {
        Option::None => Some(dflt),
        Option::Some(DocView::Bool(b)) => Some(b),
        Option::Some(_) => None,
    }
}

/// Message-bus connection settings.
pub struct NatsConfig {
    /// Bus address; defaults to `localhost:4222`.
    pub url: String,
    /// Authentication method; defaults to an unauthenticated connection.
    pub auth: NatsAuthentication,
    /// Whether the dispatcher runs; defaults to on.
    pub enable_execution_thread: bool,
    /// Whether the reload watcher runs; defaults to on.
    pub enable_watcher_thread: bool,
}

/// Mathematical view of a [`NatsConfig`].
pub struct NatsConfigView {
    pub url: Seq<char>,
    pub auth: AuthView,
    pub enable_execution_thread: bool,
    pub enable_watcher_thread: bool,
}

impl View for NatsConfig {
    type V = NatsConfigView;

    open spec fn view(&self) -> NatsConfigView {
        NatsConfigView {
            url: self.url@,
            auth: self.auth@,
            enable_execution_thread: self.enable_execution_thread,
            enable_watcher_thread: self.enable_watcher_thread,
        }
    }
}

/// The authentication value a document node denotes: absent and null mean
/// the default, the plain string `None` names the unauthenticated variant,
/// and the `!BearerJwt` / `!Creds` tags carry their string payloads.
pub open spec fn auth_of_doc(f: Option<DocView>) -> Option<AuthView> {
    match f {
        Option::None => Some(AuthView::NoAuth),
        Option::Some(DocView::Null) => Some(AuthView::NoAuth),
        Option::Some(DocView::Str(s)) => if s == "None"@ {
            Some(AuthView::NoAuth)
        } else {
            None
        },
        Option::Some(DocView::Tagged(t, inner)) => if t == "!BearerJwt"@ {
            match *inner {
                DocView::Str(j) => Some(AuthView::BearerJwt(j)),
                _ => None,
            }
        } else if t == "!Creds"@ {
            match *inner {
                DocView::Str(p) => Some(AuthView::Creds(p)),
                _ => None,
            }
        } else {
            None
        },
        Option::Some(_) => None,
    }
}

/// The bus settings the document node `d` denotes, if any.
pub open spec fn nats_of_doc(d: DocView) -> Option<NatsConfigView> {
    match d {
        DocView::Mapping(es) => {
            let url = match doc_lookup(es, "url"@) {
                Option::None => Some("localhost:4222"@),
                Option::Some(DocView::Str(s)) => Some(s),
                Option::Some(_) => None,
            };
            match (
                url,
                auth_of_doc(doc_lookup(es, "auth"@)),
                opt_bool_field(es, "enable_execution_thread"@, true),
                opt_bool_field(es, "enable_watcher_thread"@, true),
            ) {
                (Some(u), Some(a), Some(e), Some(w)) => Some(
                    NatsConfigView {
                        url: u,
                        auth: a,
                        enable_execution_thread: e,
                        enable_watcher_thread: w,
                    },
                ),
                _ => None,
            }
        },
        _ => None,
    }
}

impl NatsConfig {
    /// Decodes the bus settings from a document node, applying the
    /// defaults for absent fields.
    pub fn from_doc(v: &ConfigValue) -> (r: Result<NatsConfig, ConfigError>)
        ensures
            match r {
                Ok(c) => nats_of_doc(v@) == Some(c@),
                Err(_) => nats_of_doc(v@) is None,
            },
    {
        if !(matches!(v, ConfigValue::Mapping(_))) {
            return Err(ConfigError::WrongType(String::from_str("nats")));
        }
        let url = match v.get("url") {
            None => default_nats_url_string(),
            Some(ConfigValue::Str(s)) => s.clone(),
            Some(_) => {
                return Err(ConfigError::WrongType(String::from_str("nats.url")));
            },
        };
        let auth = match v.get("auth") {
            None => NatsAuthentication::NoAuth,
            Some(ConfigValue::Null) => NatsAuthentication::NoAuth,
            Some(ConfigValue::Str(s)) => {
                if s.eq(&String::from_str("None")) {
                    NatsAuthentication::NoAuth
                } else {
                    return Err(ConfigError::WrongType(String::from_str("nats.auth")));
                }
            },
            Some(ConfigValue::Tagged(t, inner)) => {
                if t.eq(&String::from_str("!BearerJwt")) {
                    match &**inner {
                        ConfigValue::Str(j) => NatsAuthentication::BearerJwt(j.clone()),
                        other => {
                            proof {
                                lemma_dview_is_str(other);
                            }
                            return Err(ConfigError::WrongType(String::from_str("nats.auth")));
                        },
                    }
                } else if t.eq(&String::from_str("!Creds")) {
                    match &**inner {
                        ConfigValue::Str(p) => NatsAuthentication::Creds(p.clone()),
                        other => {
                            proof {
                                lemma_dview_is_str(other);
                            }
                            return Err(ConfigError::WrongType(String::from_str("nats.auth")));
                        },
                    }
                } else {
                    return Err(ConfigError::WrongType(String::from_str("nats.auth")));
                }
            },
            Some(_) => {
                return Err(ConfigError::WrongType(String::from_str("nats.auth")));
            },
        };
        let enable_execution_thread = match v.get("enable_execution_thread") {
            None => true,
            Some(ConfigValue::Bool(b)) => *b,
            Some(_) => {
                return Err(
                    ConfigError::WrongType(String::from_str("nats.enable_execution_thread")),
                );
            },
        };
        let enable_watcher_thread = match v.get("enable_watcher_thread") {
            None => true,
            Some(ConfigValue::Bool(b)) => *b,
            Some(_) => {
                return Err(ConfigError::WrongType(String::from_str("nats.enable_watcher_thread")));
            },
        };
        Ok(NatsConfig { url, auth, enable_execution_thread, enable_watcher_thread })
    }
}

/// The default bus address as an owned string.
fn default_nats_url_string() -> (s: String)
    ensures
        s@ == "localhost:4222"@,
{
    String::from_str("localhost:4222")
}

/// Sandbox settings for the interpreter.
pub struct PluginConfig {
    /// Whether the sandbox exposes the WASI system interface; defaults to
    /// on.
    pub wasi: bool,
    /// Hosts the sandboxed code may reach; an empty list applies no network
    /// restriction.
    pub allowed_hosts: Vec<String>,
    /// Free-form key/value runtime configuration handed to the sandbox
    /// verbatim.
    pub extism_config: Option<Vec<(String, String)>>,
}

/// Mathematical view of a [`PluginConfig`].
pub struct PluginConfigView {
    pub wasi: bool,
    pub allowed_hosts: Seq<Seq<char>>,
    pub extism_config: Option<Seq<(Seq<char>, Seq<char>)>>,
}

impl View for PluginConfig {
    type V = PluginConfigView;

    open spec fn view(&self) -> PluginConfigView {
        PluginConfigView {
            wasi: self.wasi,
            allowed_hosts: Seq::new(self.allowed_hosts@.len(), |i: int| self.allowed_hosts@[i]@),
            extism_config: match self.extism_config {
                Some(m) => Some(Seq::new(m@.len(), |i: int| (m@[i].0@, m@[i].1@))),
                None => None,
            },
        }
    }
}

/// All strings denoted by a sequence of document nodes, if every node is a
/// string.
pub open spec fn strs_of_docs(ds: Seq<DocView>) -> Option<Seq<Seq<char>>>
    decreases ds.len(),
{
    if ds.len() == 0 {
        Some(Seq::empty())
    } else {
        match (ds[0], strs_of_docs(ds.drop_first())) {
            (DocView::Str(s), Some(r)) => Some(seq![s] + r),
            _ => None,
        }
    }
}

/// All key/value string pairs denoted by mapping entries, if every entry is
/// a pair of strings.
pub open spec fn kvs_of_entries(es: Seq<(DocView, DocView)>) -> Option<
    Seq<(Seq<char>, Seq<char>)>,
>
    decreases es.len(),
{
    if es.len() == 0 {
        Some(Seq::empty())
    } else {
        match (es[0].0, es[0].1, kvs_of_entries(es.drop_first())) {
            (DocView::Str(k), DocView::Str(v), Some(r)) => Some(seq![(k, v)] + r),
            _ => None,
        }
    }
}

/// The sandbox settings the document node `d` denotes, if any.
pub open spec fn plugin_of_doc(d: DocView) -> Option<PluginConfigView> {
    match d {
        DocView::Mapping(es) => {
            let hosts = match doc_lookup(es, "allowed_hosts"@) {
                Option::None => Some(Seq::<Seq<char>>::empty()),
                Option::Some(DocView::Sequence(hs)) => strs_of_docs(hs),
                Option::Some(_) => None,
            };
            let cfg = match doc_lookup(es, "extism_config"@) {
                Option::None => Some(None),
                Option::Some(DocView::Null) => Some(None),
                Option::Some(DocView::Mapping(kv)) => match kvs_of_entries(kv) {
                    Some(pairs) => Some(Some(pairs)),
                    None => None,
                },
                Option::Some(_) => None,
            };
            match (opt_bool_field(es, "wasi"@, true), hosts, cfg) {
                (Some(w), Some(h), Some(c)) => Some(
                    PluginConfigView { wasi: w, allowed_hosts: h, extism_config: c },
                ),
                _ => None,
            }
        },
        _ => None,
    }
}

/// One non-string element makes the whole string list malformed.
proof fn lemma_strs_of_docs_none(ds: Seq<DocView>, i: int)
    requires
        0 <= i < ds.len(),
        !(ds[i] is Str),
    ensures
        strs_of_docs(ds) is None,
    decreases ds.len(),
{
    if i > 0 {
        lemma_strs_of_docs_none(ds.drop_first(), i - 1);
    }
}

/// When every element is a string, the list denotes exactly those strings.
proof fn lemma_strs_of_docs_pointwise(ds: Seq<DocView>, ss: Seq<Seq<char>>)
    requires
        ds.len() == ss.len(),
        forall|i: int| 0 <= i < ds.len() ==> #[trigger] ds[i] == DocView::Str(ss[i]),
    ensures
        strs_of_docs(ds) == Some(ss),
    decreases ds.len(),
{
    if ds.len() == 0 {
        assert(ss =~= Seq::<Seq<char>>::empty());
    } else {
        lemma_strs_of_docs_pointwise(ds.drop_first(), ss.drop_first());
        assert(seq![ss[0]] + ss.drop_first() =~= ss);
    }
}

/// One entry that is not a pair of strings makes the whole map malformed.
proof fn lemma_kvs_of_entries_none(es: Seq<(DocView, DocView)>, i: int)
    requires
        0 <= i < es.len(),
        !(es[i].0 is Str) || !(es[i].1 is Str),
    ensures
        kvs_of_entries(es) is None,
    decreases es.len(),
{
    if i > 0 {
        lemma_kvs_of_entries_none(es.drop_first(), i - 1);
    }
}

/// When every entry is a pair of strings, the map denotes exactly those
/// pairs.
proof fn lemma_kvs_of_entries_pointwise(es: Seq<(DocView, DocView)>, ps: Seq<(Seq<char>, Seq<char>)>)
    requires
        es.len() == ps.len(),
        forall|i: int|
            0 <= i < es.len() ==> #[trigger] es[i] == (
                DocView::Str(ps[i].0),
                DocView::Str(ps[i].1),
            ),
    ensures
        kvs_of_entries(es) == Some(ps),
    decreases es.len(),
{
    if es.len() == 0 {
        assert(ps =~= Seq::<(Seq<char>, Seq<char>)>::empty());
    } else {
        lemma_kvs_of_entries_pointwise(es.drop_first(), ps.drop_first());
        assert(seq![ps[0]] + ps.drop_first() =~= ps);
    }
}

impl PluginConfig {
    /// Decodes the sandbox settings from a document node, applying the
    /// defaults for absent fields.
    #[verifier::loop_isolation(false)]
    pub fn from_doc(v: &ConfigValue) -> (r: Result<PluginConfig, ConfigError>)
        ensures
            match r {
                Ok(c) => plugin_of_doc(v@) == Some(c@),
                Err(_) => plugin_of_doc(v@) is None,
            },
    {
        if !(matches!(v, ConfigValue::Mapping(_))) {
            return Err(ConfigError::WrongType(String::from_str("plugin")));
        }
        let wasi = match v.get("wasi") {
            None => true,
            Some(ConfigValue::Bool(b)) => *b,
            Some(_) => {
                return Err(ConfigError::WrongType(String::from_str("plugin.wasi")));
            },
        };
        let mut allowed_hosts: Vec<String> = Vec::new();
        let ghost mut hostviews: Seq<Seq<char>> = Seq::empty();
        match v.get("allowed_hosts") {
            None => {},
            Some(hv) => match hv {
                ConfigValue::Sequence(items) => {
                    let ghost hs = hv@->Sequence_0;
                    proof {
                        assert(hs.len() == items@.len());
                        assert(forall|k: int|
                            0 <= k < hs.len() ==> #[trigger] hs[k] == items@[k].dview());
                    }
                    let nh = items.len();
                    let mut i: usize = 0;
                    while i < nh
                        invariant
                            i <= nh,
                            allowed_hosts@.len() == i,
                            hostviews.len() == i,
                            forall|k: int| 0 <= k < i ==> #[trigger] hostviews[k]
                                == allowed_hosts@[k]@,
                            forall|k: int|
                                0 <= k < i ==> #[trigger] hs[k] == DocView::Str(hostviews[k]),
                        decreases nh - i,
                    {
                        match &items[i] {
                            ConfigValue::Str(s) => {
                                proof {
                                    hostviews = hostviews.push(s@);
                                }
                                allowed_hosts.push(s.clone());
                            },
                            _ => {
                                proof {
                                    lemma_strs_of_docs_none(hs, i as int);
                                }
                                return Err(
                                    ConfigError::WrongType(
                                        String::from_str("plugin.allowed_hosts"),
                                    ),
                                );
                            },
                        }
                        i = i + 1;
                    }
                    proof {
                        lemma_strs_of_docs_pointwise(hs, hostviews);
                    }
                },
                _ => {
                    return Err(ConfigError::WrongType(String::from_str("plugin.allowed_hosts")));
                },
            },
        }
        let mut extism_config: Option<Vec<(String, String)>> = None;
        let ghost mut cfgview: Option<Seq<(Seq<char>, Seq<char>)>> = None;
        match v.get("extism_config") {
            None => {},
            Some(ConfigValue::Null) => {},
            Some(cv) => match cv {
                ConfigValue::Mapping(entries) => {
                    let ghost kv = cv@->Mapping_0;
                    proof {
                        assert(kv.len() == entries@.len());
                        assert(forall|k: int|
                            0 <= k < kv.len() ==> #[trigger] kv[k] == (
                                entries@[k].0.dview(),
                                entries@[k].1.dview(),
                            ));
                    }
                    let mut pairs: Vec<(String, String)> = Vec::new();
                    let ghost mut pairviews: Seq<(Seq<char>, Seq<char>)> = Seq::empty();
                    let nk = entries.len();
                    let mut i: usize = 0;
                    while i < nk
                        invariant
                            i <= nk,
                            pairs@.len() == i,
                            pairviews.len() == i,
                            forall|k: int| 0 <= k < i ==> #[trigger] pairviews[k] == (
                                pairs@[k].0@,
                                pairs@[k].1@,
                            ),
                            forall|k: int|
                                0 <= k < i ==> #[trigger] kv[k] == (
                                    DocView::Str(pairviews[k].0),
                                    DocView::Str(pairviews[k].1),
                                ),
                        decreases nk - i,
                    {
                        let bad = Err(
                            ConfigError::WrongType(String::from_str("plugin.extism_config")),
                        );
                        let key = match &entries[i].0 {
                            ConfigValue::Str(s) => s.clone(),
                            _ => {
                                proof {
                                    lemma_kvs_of_entries_none(kv, i as int);
                                }
                                return bad;
                            },
                        };
                        let val = match &entries[i].1 {
                            ConfigValue::Str(s) => s.clone(),
                            _ => {
                                proof {
                                    lemma_kvs_of_entries_none(kv, i as int);
                                }
                                return bad;
                            },
                        };
                        proof {
                            pairviews = pairviews.push((key@, val@));
                        }
                        pairs.push((key, val));
                        i = i + 1;
                    }
                    proof {
                        lemma_kvs_of_entries_pointwise(kv, pairviews);
                        cfgview = Some(pairviews);
                    }
                    extism_config = Some(pairs);
                },
                _ => {
                    return Err(ConfigError::WrongType(String::from_str("plugin.extism_config")));
                },
            },
        }
        let r = PluginConfig { wasi, allowed_hosts, extism_config };
        proof {
            assert(r@.allowed_hosts =~= hostviews);
            match cfgview {
                Some(pv) => {
                    assert(r@.extism_config matches Some(x) && x =~= pv);
                },
                None => {
                    assert(r@.extism_config is None);
                },
            }
            assert(plugin_of_doc(v@) == Some(r@));
        }
        Ok(r)
    }
}

/// A named workflow together with its dependency graph.
pub struct WorkflowConfig {
    /// Workflow name; the key under which its document is stored.
    pub name: String,
    /// The stage graph. Always acyclic once decoded.
    pub graph: WorkflowGraph,
}

/// Mathematical view of a [`WorkflowConfig`].
pub struct WorkflowConfigView {
    pub name: Seq<char>,
    pub graph: GraphView,
}

impl View for WorkflowConfig {
    type V = WorkflowConfigView;

    open spec fn view(&self) -> WorkflowConfigView {
        WorkflowConfigView { name: self.name@, graph: self.graph@ }
    }
}

/// The workflow the document node `d` denotes, if any: a mapping holding
/// the workflow `name` and, flattened beside it, the graph fields. A
/// workflow whose graph admits no topological order is rejected.
pub open spec fn workflow_of_doc(d: DocView) -> Option<WorkflowConfigView> {
    match d {
        DocView::Mapping(es) => match (req_str_field(es, "name"@), graph_of_doc(d)) {
            (Some(n), Some(g)) => if acyclic(g) {
                Some(WorkflowConfigView { name: n, graph: g })
            } else {
                None
            },
            _ => None,
        },
        _ => None,
    }
}

impl WorkflowConfig {
    /// Decodes a workflow document: its name and its stage graph, rejecting
    /// cyclic graphs at load time.
    pub fn from_doc(v: &ConfigValue) -> (r: Result<WorkflowConfig, ConfigError>)
        ensures
            match r {
                Ok(c) => workflow_of_doc(v@) == Some(c@) && acyclic(c@.graph) && c@.graph.wf(),
                Err(_) => workflow_of_doc(v@) is None,
            },
    {
        if !(matches!(v, ConfigValue::Mapping(_))) {
            return Err(ConfigError::WrongType(String::from_str("workflow")));
        }
        let name = match v.get("name") {
            Some(ConfigValue::Str(s)) => s.clone(),
            Some(_) => {
                return Err(ConfigError::WrongType(String::from_str("workflow.name")));
            },
            None => {
                return Err(ConfigError::MissingField(String::from_str("workflow.name")));
            },
        };
        let graph = match WorkflowGraph::from_doc(v) {
            Ok(g) => g,
            Err(e) => {
                return Err(e);
            },
        };
        match graph.resolution_order() {
            Ok(o) => {
                proof {
                    assert(is_topo_order(graph@, o@));
                    assert(acyclic(graph@));
                }
            },
            Err(_) => {
                return Err(ConfigError::Cycle);
            },
        }
        Ok(WorkflowConfig { name, graph })
    }

    /// An empty workflow: no name, no stages. The default when a
    /// configuration document has no workflow section.
    pub fn empty() -> (r: WorkflowConfig)
        ensures
            r@.name == Seq::<char>::empty(),
            r@.graph == (GraphView { stages: Seq::empty(), edges: Seq::empty() }),
            r@.graph.wf(),
            acyclic(r@.graph),
    {
        let stages: Vec<WorkflowStage> = Vec::new();
        let edges: Vec<(usize, usize)> = Vec::new();
        let graph = match WorkflowGraph::new(stages, edges) {
            Ok(g) => g,
            Err(_) => {
                proof {
                    assert(false);
                }
                unreached()
            },
        };
        proof {
            assert(is_topo_order(graph@, Seq::<usize>::empty()));
            assert(graph@.stages =~= Seq::<StageView>::empty());
        }
        WorkflowConfig { name: String::new(), graph }
    }
}

/// The complete engine configuration.
pub struct EngineConfig {
    /// The workflow section; defaults to the empty workflow.
    pub workflow: WorkflowConfig,
    /// The bus section; required.
    pub nats: NatsConfig,
    /// The sandbox section; required.
    pub plugin: PluginConfig,
}

/// Mathematical view of an [`EngineConfig`].
pub struct EngineConfigView {
    pub workflow: WorkflowConfigView,
    pub nats: NatsConfigView,
    pub plugin: PluginConfigView,
}

impl View for EngineConfig {
    type V = EngineConfigView;

    open spec fn view(&self) -> EngineConfigView {
        EngineConfigView { workflow: self.workflow@, nats: self.nats@, plugin: self.plugin@ }
    }
}

/// The engine configuration the document node `d` denotes, if any. The
/// `nats` and `plugin` sections are required; a missing `workflow` section
/// means the empty workflow. Unknown top-level keys are ignored.
pub open spec fn engine_of_doc(d: DocView) -> Option<EngineConfigView> {
    match d {
        DocView::Mapping(es) => {
            let wf = match doc_lookup(es, "workflow"@) {
                Option::None => Some(
                    WorkflowConfigView {
                        name: Seq::empty(),
                        graph: GraphView { stages: Seq::empty(), edges: Seq::empty() },
                    },
                ),
                Option::Some(w) => workflow_of_doc(w),
            };
            match (wf, doc_lookup(es, "nats"@), doc_lookup(es, "plugin"@)) {
                (Some(w), Some(nd), Some(pd)) => match (nats_of_doc(nd), plugin_of_doc(pd)) {
                    (Some(n), Some(p)) => Some(EngineConfigView { workflow: w, nats: n, plugin: p }),
                    _ => None,
                },
                _ => None,
            }
        },
        _ => None,
    }
}

impl EngineConfig {
    /// Decodes the engine configuration from a document node.
    pub fn from_doc(v: &ConfigValue) -> (r: Result<EngineConfig, ConfigError>)
        ensures
            match r {
                Ok(c) => engine_of_doc(v@) == Some(c@),
                Err(_) => engine_of_doc(v@) is None,
            },
    {
        if !(matches!(v, ConfigValue::Mapping(_))) {
            return Err(ConfigError::WrongType(String::from_str("configuration")));
        }
        let workflow = match v.get("workflow") {
            None => WorkflowConfig::empty(),
            Some(w) => match WorkflowConfig::from_doc(w) {
                Ok(c) => c,
                Err(e) => {
                    return Err(e);
                },
            },
        };
        let nats = match v.get("nats") {
            None => {
                return Err(ConfigError::MissingField(String::from_str("nats")));
            },
            Some(nv) => match NatsConfig::from_doc(nv) {
                Ok(c) => c,
                Err(e) => {
                    return Err(e);
                },
            },
        };
        let plugin = match v.get("plugin") {
            None => {
                return Err(ConfigError::MissingField(String::from_str("plugin")));
            },
            Some(pv) => match PluginConfig::from_doc(pv) {
                Ok(c) => c,
                Err(e) => {
                    return Err(e);
                },
            },
        };
        Ok(EngineConfig { workflow, nats, plugin })
    }
}

/// Decodes an engine configuration from raw document bytes.
pub fn require_config(bytes: Vec<u8>) -> (r: Result<EngineConfig, ConfigError>)
    ensures
        match r {
            Ok(c) => crate::document::yaml_document(bytes@) matches Some(d) && engine_of_doc(d)
                == Some(c@),
            Err(_) => match crate::document::yaml_document(bytes@) {
                Some(d) => engine_of_doc(d) is None,
                None => true,
            },
        },
{
    let doc = match crate::document::parse_yaml_document(bytes.as_slice()) {
        Ok(d) => d,
        Err(e) => {
            return Err(e);
        },
    };
    EngineConfig::from_doc(&doc)
}

/// Decodes a workflow document from raw bytes, as fetched from the
/// workflow bucket.
pub fn parse_workflow_document(bytes: &[u8]) -> (r: Result<WorkflowConfig, ConfigError>)
    ensures
        match r {
            Ok(c) => crate::document::yaml_document(bytes@) matches Some(d) && workflow_of_doc(d)
                == Some(c@) && acyclic(c@.graph) && c@.graph.wf(),
            Err(_) => match crate::document::yaml_document(bytes@) {
                Some(d) => workflow_of_doc(d) is None,
                None => true,
            },
        },
{
    let doc = match crate::document::parse_yaml_document(bytes) {
        Ok(d) => d,
        Err(e) => {
            return Err(e);
        },
    };
    WorkflowConfig::from_doc(&doc)
}

/// One step of the runtime-config text scan: `key` and `val` hold the piece
/// read so far, `in_val` whether its `=` has been passed, `acc` the finished
/// pairs. A piece that ends without `=` makes the whole text malformed.
pub open spec fn scan_kv(
    s: Seq<char>,
    key: Seq<char>,
    val: Seq<char>,
    in_val: bool,
    acc: Seq<(Seq<char>, Seq<char>)>,
) -> Option<Seq<(Seq<char>, Seq<char>)>>
    decreases s.len(),
{
    if s.len() == 0 {
        if in_val {
            Some(acc.push((key, val)))
        } else {
            None
        }
    } else if s[0] == ',' {
        if in_val {
            scan_kv(s.drop_first(), Seq::empty(), Seq::empty(), false, acc.push((key, val)))
        } else {
            None
        }
    } else if !in_val && s[0] == '=' {
        scan_kv(s.drop_first(), key, val, true, acc)
    } else if in_val {
        scan_kv(s.drop_first(), key, val.push(s[0]), in_val, acc)
    } else {
        scan_kv(s.drop_first(), key.push(s[0]), val, in_val, acc)
    }
}

/// The key/value pairs the text `s` denotes: comma-separated pieces, each
/// split at its first `=`.
pub open spec fn extism_config_of_text(s: Seq<char>) -> Option<Seq<(Seq<char>, Seq<char>)>> {
    scan_kv(s, Seq::empty(), Seq::empty(), false, Seq::empty())
}

/// Position of the first entry whose key is `k`, if any.
pub open spec fn kv_find(acc: Seq<(Seq<char>, Seq<char>)>, k: Seq<char>) -> Option<int>
    decreases acc.len(),
{
    if acc.len() == 0 {
        None
    } else if acc[0].0 == k {
        Some(0)
    } else {
        match kv_find(acc.drop_first(), k) {
            Some(i) => Some(i + 1),
            None => None,
        }
    }
}

/// Inserts `k = v` into an ordered map: a known key keeps its position and
/// takes the new value, a new key is appended.
pub open spec fn kv_upsert(
    acc: Seq<(Seq<char>, Seq<char>)>,
    k: Seq<char>,
    v: Seq<char>,
) -> Seq<(Seq<char>, Seq<char>)> {
    match kv_find(acc, k) {
        Some(i) => acc.update(i, (k, v)),
        None => acc.push((k, v)),
    }
}

/// Collapses an ordered pair list into a map, later values winning: each
/// key appears once, at the position of its first occurrence, with the
/// value of its last.
pub open spec fn kv_collapse(
    acc: Seq<(Seq<char>, Seq<char>)>,
    ps: Seq<(Seq<char>, Seq<char>)>,
) -> Seq<(Seq<char>, Seq<char>)>
    decreases ps.len(),
{
    if ps.len() == 0 {
        acc
    } else {
        kv_collapse(kv_upsert(acc, ps[0].0, ps[0].1), ps.drop_first())
    }
}

/// A key found at the first matching position is what `kv_find` returns.
proof fn lemma_kv_find_first(acc: Seq<(Seq<char>, Seq<char>)>, k: Seq<char>, i: int)
    requires
        0 <= i < acc.len(),
        acc[i].0 == k,
        forall|j: int| 0 <= j < i ==> (#[trigger] acc[j]).0 != k,
    ensures
        kv_find(acc, k) == Some(i),
    decreases i,
{
    if i > 0 {
        let rest = acc.drop_first();
        assert(forall|j: int| 0 <= j < i - 1 ==> #[trigger] rest[j] == acc[j + 1]);
        lemma_kv_find_first(rest, k, i - 1);
    }
}

/// A key absent from every entry is one `kv_find` does not find.
proof fn lemma_kv_find_none(acc: Seq<(Seq<char>, Seq<char>)>, k: Seq<char>)
    requires
        forall|j: int| 0 <= j < acc.len() ==> (#[trigger] acc[j]).0 != k,
    ensures
        kv_find(acc, k) is None,
    decreases acc.len(),
{
    if acc.len() > 0 {
        let rest = acc.drop_first();
        assert(forall|j: int| 0 <= j < rest.len() ==> #[trigger] rest[j] == acc[j + 1]);
        lemma_kv_find_none(rest, k);
    }
}

/// The key read so far in the current piece.
pub open spec fn scan_cur_key(s: Seq<char>, start: int, eq: Option<usize>, i: int) -> Seq<char> {
    match eq {
        Some(e) => s.subrange(start, e as int),
        None => s.subrange(start, i),
    }
}

/// The value read so far in the current piece.
pub open spec fn scan_cur_val(s: Seq<char>, eq: Option<usize>, i: int) -> Seq<char> {
    match eq {
        Some(e) => s.subrange(e as int + 1, i),
        None => Seq::empty(),
    }
}

/// Parses a comma-separated `key=value` list, the command-line form of the
/// sandbox's runtime configuration. Each piece is split at its first `=`;
/// a piece without one is rejected. The pieces collapse into a map, later
/// values winning: a repeated key keeps the position of its first
/// occurrence and takes the value of its last.
#[verifier::loop_isolation(false)]
pub fn get_extism_config_from_str(s: &str) -> (r: Result<Vec<(String, String)>, String>)
    ensures
        match r {
            Ok(m) => {
                &&& extism_config_of_text(s@) is Some
                &&& m@.len() == kv_collapse(
                    Seq::empty(),
                    extism_config_of_text(s@)->Some_0,
                ).len()
                &&& forall|k: int|
                    0 <= k < m@.len() ==> kv_collapse(
                        Seq::empty(),
                        extism_config_of_text(s@)->Some_0,
                    )[k] == ((#[trigger] m@[k]).0@, m@[k].1@)
                &&& forall|i: int, j: int| 0 <= i < j < m@.len() ==> m@[i].0@ != m@[j].0@
            },
            Err(msg) => extism_config_of_text(s@) is None && msg@ == "value must be a string"@,
        },
{
    let n = s.unicode_len();
    let mut pairs: Vec<(String, String)> = Vec::new();
    let ghost mut accviews: Seq<(Seq<char>, Seq<char>)> = Seq::empty();
    let mut start: usize = 0;
    let mut eq: Option<usize> = None;
    let mut i: usize = 0;
    proof {
        assert(s@.skip(0) =~= s@);
        assert(scan_cur_key(s@, 0, None, 0) =~= Seq::<char>::empty());
    }
    while i < n
        invariant
            i <= n,
            start <= i,
            match eq {
                Some(e) => start <= e < i && s@[e as int] == '=',
                None => true,
            },
            pairs@.len() == accviews.len(),
            forall|k: int|
                0 <= k < accviews.len() ==> #[trigger] accviews[k] == (
                    pairs@[k].0@,
                    pairs@[k].1@,
                ),
            extism_config_of_text(s@) == scan_kv(
                s@.skip(i as int),
                scan_cur_key(s@, start as int, eq, i as int),
                scan_cur_val(s@, eq, i as int),
                eq is Some,
                accviews,
            ),
        decreases n - i,
    {
        let ghost rest = s@.skip(i as int);
        proof {
            assert(rest[0] == s@[i as int]);
            assert(rest.drop_first() =~= s@.skip(i as int + 1));
        }
        let c = s.get_char(i);
        if c == ',' {
            match eq {
                None => {
                    return Err(String::from_str("value must be a string"));
                },
                Some(e) => {
                    let k = s.substring_char(start, e);
                    let w = s.substring_char(e + 1, i);
                    proof {
                        accviews = accviews.push((k@, w@));
                        assert(scan_cur_key(s@, start as int, eq, i as int) == k@);
                        assert(scan_cur_val(s@, eq, i as int) == w@);
                        assert(scan_cur_key(s@, i as int + 1, None, i as int + 1)
                            =~= Seq::<char>::empty());
                    }
                    pairs.push((String::from_str(k), String::from_str(w)));
                    start = i + 1;
                    eq = None;
                },
            }
        } else if c == '=' && matches!(eq, None) {
            proof {
                assert(scan_cur_key(s@, start as int, Some(i), i as int + 1) =~= scan_cur_key(
                    s@,
                    start as int,
                    None,
                    i as int,
                ));
                assert(scan_cur_val(s@, Some(i), i as int + 1) =~= Seq::<char>::empty());
            }
            eq = Some(i);
        } else {
            proof {
                match eq {
                    Some(e) => {
                        assert(scan_cur_val(s@, eq, i as int + 1) =~= scan_cur_val(
                            s@,
                            eq,
                            i as int,
                        ).push(s@[i as int]));
                        assert(scan_cur_key(s@, start as int, eq, i as int + 1) == scan_cur_key(
                            s@,
                            start as int,
                            eq,
                            i as int,
                        ));
                    },
                    None => {
                        assert(scan_cur_key(s@, start as int, eq, i as int + 1) =~= scan_cur_key(
                            s@,
                            start as int,
                            eq,
                            i as int,
                        ).push(s@[i as int]));
                    },
                }
            }
        }
        i = i + 1;
    }
    proof {
        assert(s@.skip(n as int) =~= Seq::<char>::empty());
    }
    match eq {
        None => Err(String::from_str("value must be a string")),
        Some(e) => {
            let k = s.substring_char(start, e);
            let w = s.substring_char(e + 1, n);
            proof {
                accviews = accviews.push((k@, w@));
            }
            pairs.push((String::from_str(k), String::from_str(w)));
            Ok(collapse_pairs_into_map(pairs, Ghost(accviews)))
        },
    }
}

/// Collapses an ordered pair list into a map, later values winning; see
/// [`kv_collapse`].
#[verifier::loop_isolation(false)]
fn collapse_pairs_into_map(
    pairs: Vec<(String, String)>,
    Ghost(accviews): Ghost<Seq<(Seq<char>, Seq<char>)>>,
) -> (r: Vec<(String, String)>)
    requires
        accviews.len() == pairs@.len(),
        forall|k: int|
            0 <= k < pairs@.len() ==> #[trigger] accviews[k] == (pairs@[k].0@, pairs@[k].1@),
    ensures
        r@.len() == kv_collapse(Seq::empty(), accviews).len(),
        forall|k: int|
            0 <= k < r@.len() ==> kv_collapse(Seq::empty(), accviews)[k] == (
                (#[trigger] r@[k]).0@,
                r@[k].1@,
            ),
        forall|i: int, j: int| 0 <= i < j < r@.len() ==> r@[i].0@ != r@[j].0@,
{
    let np = pairs.len();
    let mut out: Vec<(String, String)> = Vec::new();
    let ghost mut outviews: Seq<(Seq<char>, Seq<char>)> = Seq::empty();
    let mut i: usize = 0;
    proof {
        assert(accviews.skip(0) =~= accviews);
    }
    while i < np
        invariant
            i <= np,
            out@.len() == outviews.len(),
            forall|k: int|
                0 <= k < outviews.len() ==> #[trigger] outviews[k] == (out@[k].0@, out@[k].1@),
            forall|k: int, j: int|
                0 <= k < j < outviews.len() ==> outviews[k].0 != outviews[j].0,
            kv_collapse(outviews, accviews.skip(i as int)) == kv_collapse(Seq::empty(), accviews),
        decreases np - i,
    {
        let (key, val) = (pairs[i].0.clone(), pairs[i].1.clone());
        let ghost rest = accviews.skip(i as int);
        proof {
            assert(rest[0] == accviews[i as int]);
            assert(rest.drop_first() =~= accviews.skip(i as int + 1));
        }
        // look for an existing entry with this key
        let mut found: Option<usize> = None;
        let no = out.len();
        let mut j: usize = 0;
        while j < no
            invariant
                j <= no,
                no == out@.len(),
                match found {
                    Some(p) => (p as int) < no && outviews[p as int].0 == key@,
                    None => forall|k: int| 0 <= k < j ==> (#[trigger] outviews[k]).0 != key@,
                },
            decreases no - j,
        {
            if matches!(found, None) && out[j].0.eq(&key) {
                found = Some(j);
            }
            j = j + 1;
        }
        let ghost before = outviews;
        match found {
            Some(p) => {
                proof {
                    // the first matching position: positions before a key's
                    // entry hold other keys, by uniqueness
                    assert(forall|k: int|
                        0 <= k < p ==> (#[trigger] before[k]).0 != key@) by {
                        assert(forall|k: int|
                            0 <= k < p && (#[trigger] before[k]).0 == key@ ==> before[k].0
                                == before[p as int].0);
                    }
                    lemma_kv_find_first(before, key@, p as int);
                    outviews = before.update(p as int, (key@, val@));
                }
                out.set(p, (key, val));
                proof {
                    assert(forall|k: int|
                        0 <= k < outviews.len() ==> (#[trigger] outviews[k]).0 == before[k].0);
                }
            },
            None => {
                proof {
                    lemma_kv_find_none(before, key@);
                    outviews = before.push((key@, val@));
                }
                out.push((key, val));
            },
        }
        i = i + 1;
    }
    proof {
        assert(accviews.skip(np as int) =~= Seq::<(Seq<char>, Seq<char>)>::empty());
        assert forall|i2: int, j2: int|
            0 <= i2 < j2 < out@.len() implies out@[i2].0@ != out@[j2].0@ by {
            assert(outviews[i2] == (out@[i2].0@, out@[i2].1@));
            assert(outviews[j2] == (out@[j2].0@, out@[j2].1@));
        }
    }
    out
}

} // verus!


