//! The host-function bridge: the fixed set of capabilities sandboxed code
//! may call back into, and the rules they obey.
//!
//! The capabilities themselves perform network and database I/O in the
//! embedder. What stands here is their logic: validating the declared
//! column schema, shaping decoded rows into named records, and combining
//! per-request HTTP outcomes under the all-or-nothing policy.

use vstd::prelude::*;

use crate::document::{doc_lookup, ConfigValue, DocView};
use crate::errors::CallError;

verus! {

/// A column type the query capability can decode.
#[derive(PartialEq, Eq, Structural, Clone, Copy, Debug)]
pub enum ColumnType {
    /// A text column, declared `string`.
    Text,
    /// A 32-bit integer column, declared `integer`.
    Integer,
    /// A double-precision column, declared `float`.
    Float,
    /// A boolean column, declared `boolean`.
    Boolean,
}

/// The column type a declared type name denotes, if the bridge supports
/// it.
pub open spec fn column_type_of(s: Seq<char>) -> Option<ColumnType> {
    if s == "string"@ {
        Some(ColumnType::Text)
    } else if s == "integer"@ {
        Some(ColumnType::Integer)
    } else if s == "float"@ {
        Some(ColumnType::Float)
    } else if s == "boolean"@ {
        Some(ColumnType::Boolean)
    } else {
        None
    }
}

/// Parses a declared column type name; an unsupported name is a
/// call-level error.
pub fn parse_column_type(s: &str) -> (r: Result<ColumnType, CallError>)
    ensures
        match r {
            Ok(t) => column_type_of(s@) == Some(t),
            Err(e) => column_type_of(s@) is None && (e matches CallError::UnsupportedSchemaType(
                m,
            ) && m@ == s@),
        },
{
    if crate::config::str_eq(s, "string") {
        Ok(ColumnType::Text)
    } else if crate::config::str_eq(s, "integer") {
        Ok(ColumnType::Integer)
    } else if crate::config::str_eq(s, "float") {
        Ok(ColumnType::Float)
    } else if crate::config::str_eq(s, "boolean") {
        Ok(ColumnType::Boolean)
    } else {
        Err(CallError::UnsupportedSchemaType(String::from_str(s)))
    }
}

/// Checks a declared column schema, resolving every declared type name.
/// The first unsupported name is the call's error.
#[verifier::loop_isolation(false)]
pub fn check_schema(schema: &Vec<(String, String)>) -> (r: Result<
    Vec<(String, ColumnType)>,
    CallError,
>)
    ensures
        match r {
            Ok(cols) => {
                &&& cols@.len() == schema@.len()
                &&& forall|i: int|
                    0 <= i < schema@.len() ==> (#[trigger] cols@[i]).0@ == schema@[i].0@
                        && column_type_of(schema@[i].1@) == Some(cols@[i].1)
            },
            Err(e) => exists|i: int|
                0 <= i < schema@.len() && column_type_of((#[trigger] schema@[i]).1@) is None && (
                e matches CallError::UnsupportedSchemaType(m) && m@ == schema@[i].1@),
        },
{
    let n = schema.len();
    let mut cols: Vec<(String, ColumnType)> = Vec::new();
    let mut i: usize = 0;
    while i < n
        invariant
            i <= n,
            cols@.len() == i,
            forall|k: int|
                0 <= k < i ==> (#[trigger] cols@[k]).0@ == schema@[k].0@ && column_type_of(
                    schema@[k].1@,
                ) == Some(cols@[k].1),
        decreases n - i,
    {
        let t = match parse_column_type(schema[i].1.as_str()) {
            Ok(t) => t,
            Err(e) => {
                return Err(e);
            },
        };
        cols.push((schema[i].0.clone(), t));
        i = i + 1;
    }
    Ok(cols)
}

/// One decoded cell. A floating-point value is carried as its raw IEEE 754
/// bit pattern; the embedder converts at the boundary.
pub enum CellValue {
    /// A text value.
    Text(String),
    /// A 32-bit integer value.
    Integer(i32),
    /// A double-precision value, as raw bits.
    FloatBits(u64),
    /// A boolean value.
    Boolean(bool),
}

/// Mathematical view of a [`CellValue`].
pub enum CellView {
    Text(Seq<char>),
    Integer(i32),
    FloatBits(u64),
    Boolean(bool),
}

impl View for CellValue {
    type V = CellView;

    open spec fn view(&self) -> CellView {
        match self {
            CellValue::Text(s) => CellView::Text(s@),
            CellValue::Integer(i) => CellView::Integer(*i),
            CellValue::FloatBits(b) => CellView::FloatBits(*b),
            CellValue::Boolean(b) => CellView::Boolean(*b),
        }
    }
}

/// Whether a cell carries a value of the declared column type.
pub open spec fn cell_matches(c: CellView, t: ColumnType) -> bool {
    match t {
        ColumnType::Text => c is Text,
        ColumnType::Integer => c is Integer,
        ColumnType::Float => c is FloatBits,
        ColumnType::Boolean => c is Boolean,
    }
}

/// A row conforms to the schema: one cell per column, each of its
/// declared type.
pub open spec fn row_matches(row: Seq<CellView>, cols: Seq<(Seq<char>, ColumnType)>) -> bool {
    row.len() == cols.len() && forall|j: int|
        0 <= j < row.len() ==> cell_matches(#[trigger] row[j], cols[j].1)
}

/// Shapes decoded rows into named records: each cell is paired with its
/// column name, in schema order. A row of the wrong width or a cell of
/// the wrong type is a call-level decode error.
#[verifier::loop_isolation(false)]
pub fn shape_rows(cols: &Vec<(String, ColumnType)>, rows: Vec<Vec<CellValue>>) -> (r: Result<
    Vec<Vec<(String, CellValue)>>,
    CallError,
>)
    ensures
        match r {
            Ok(recs) => {
                &&& recs@.len() == rows@.len()
                &&& forall|i: int|
                    0 <= i < rows@.len() ==> (#[trigger] recs@[i])@.len() == cols@.len()
                &&& forall|i: int|
                    0 <= i < rows@.len() ==> (#[trigger] rows@[i])@.len() == cols@.len()
                &&& forall|i: int, j: int|
                    #![trigger recs@[i]@[j]]
                    0 <= i < rows@.len() && 0 <= j < cols@.len() ==> {
                        &&& recs@[i]@[j].0@ == cols@[j].0@
                        &&& recs@[i]@[j].1@ == rows@[i]@[j]@
                        &&& cell_matches(rows@[i]@[j]@, cols@[j].1)
                    }
            },
            Err(e) => e is Decode && exists|i: int|
                0 <= i < rows@.len() && !row_matches(
                    Seq::new((#[trigger] rows@[i])@.len(), |j: int| rows@[i]@[j]@),
                    Seq::new(cols@.len(), |j: int| (cols@[j].0@, cols@[j].1)),
                ),
        },
{
    let width = cols.len();
    let n = rows.len();
    let ghost rows0 = rows@;
    let mut rest = rows;
    let mut recs: Vec<Vec<(String, CellValue)>> = Vec::new();
    let mut i: usize = 0;
    while i < n
        invariant
            rest@.len() == n - i,
            forall|k: int| 0 <= k < rest@.len() ==> #[trigger] rest@[k] == rows0[k + i],
            recs@.len() == i,
            forall|k: int| 0 <= k < i ==> (#[trigger] recs@[k])@.len() == width,
            forall|k: int| 0 <= k < i ==> (#[trigger] rows0[k])@.len() == width,
            forall|k: int, j: int|
                #![trigger recs@[k]@[j]]
                0 <= k < i && 0 <= j < width ==> {
                    &&& recs@[k]@[j].0@ == cols@[j].0@
                    &&& recs@[k]@[j].1@ == rows0[k]@[j]@
                    &&& cell_matches(rows0[k]@[j]@, cols@[j].1)
                },
        decreases n - i,
    {
        let row = rest.remove(0);
        proof {
            assert(row == rows0[i as int]);
        }
        if row.len() != width {
            proof {
                let rv = Seq::new(row@.len(), |k: int| row@[k]@);
                let cv = Seq::new(cols@.len(), |k: int| (cols@[k].0@, cols@[k].1));
                assert(!row_matches(rv, cv));
            }
            return Err(CallError::Decode(String::from_str("row width does not match schema")));
        }
        let ghost rowv = row@;
        let mut rest_cells = row;
        let mut rec: Vec<(String, CellValue)> = Vec::new();
        let mut j: usize = 0;
        while j < width
            invariant
                rest_cells@.len() == width - j,
                forall|k: int| 0 <= k < rest_cells@.len() ==> #[trigger] rest_cells@[k] == rowv[k
                    + j],
                rec@.len() == j,
                forall|k: int|
                    0 <= k < j ==> {
                        &&& (#[trigger] rec@[k]).0@ == cols@[k].0@
                        &&& rec@[k].1@ == rowv[k]@
                        &&& cell_matches(rowv[k]@, cols@[k].1)
                    },
            decreases width - j,
        {
            let cell = rest_cells.remove(0);
            let ok = match (&cell, &cols[j].1) {
                (CellValue::Text(_), ColumnType::Text) => true,
                (CellValue::Integer(_), ColumnType::Integer) => true,
                (CellValue::FloatBits(_), ColumnType::Float) => true,
                (CellValue::Boolean(_), ColumnType::Boolean) => true,
                _ => false,
            };
            if !ok {
                proof {
                    let rv = Seq::new(rowv.len(), |k: int| rowv[k]@);
                    let cv = Seq::new(cols@.len(), |k: int| (cols@[k].0@, cols@[k].1));
                    assert(!cell_matches(rv[j as int], cv[j as int].1));
                    assert(!row_matches(rv, cv));
                }
                return Err(CallError::Decode(String::from_str("cell does not match its column")));
            }
            let ghost rec0 = rec@;
            rec.push((cols[j].0.clone(), cell));
            proof {
                assert(forall|k: int| 0 <= k < j ==> #[trigger] rec@[k] == rec0[k]);
                assert(rec@[j as int].1 == cell);
            }
            j = j + 1;
        }
        let ghost recs0 = recs@;
        recs.push(rec);
        proof {
            assert(forall|k: int| 0 <= k < i ==> #[trigger] recs@[k] == recs0[k]);
            assert(recs@[i as int] == rec);
            assert forall|k: int, j2: int|
                #![trigger recs@[k]@[j2]]
                0 <= k < i + 1 && 0 <= j2 < width implies {
                &&& recs@[k]@[j2].0@ == cols@[j2].0@
                &&& recs@[k]@[j2].1@ == rows0[k]@[j2]@
                &&& cell_matches(rows0[k]@[j2]@, cols@[j2].1)
            } by {
                if k < i {
                    assert(recs0[k]@[j2].0@ == cols@[j2].0@ && recs0[k]@[j2].1@ == rows0[k]@[j2]@
                        && cell_matches(rows0[k]@[j2]@, cols@[j2].1));
                } else {
                    assert(rec@[j2].0@ == cols@[j2].0@ && rec@[j2].1@ == rowv[j2]@
                        && cell_matches(rowv[j2]@, cols@[j2].1));
                }
            }
        }
        i = i + 1;
    }
    Ok(recs)
}

/// One outbound request of a batch, as validated from the call's payload:
/// target, method, the string-valued headers, and whether a body is
/// attached. The body itself stays with the embedder, which serializes it
/// onto the wire.
pub struct HttpRequestPlan {
    /// The request URL.
    pub url: String,
    /// The HTTP method.
    pub method: String,
    /// Header name/value pairs; entries whose value is not a string are
    /// dropped.
    pub headers: Vec<(String, String)>,
    /// Whether the descriptor carries a body.
    pub has_body: bool,
}

/// Mathematical view of an [`HttpRequestPlan`].
pub struct HttpRequestPlanView {
    pub url: Seq<char>,
    pub method: Seq<char>,
    pub headers: Seq<(Seq<char>, Seq<char>)>,
    pub has_body: bool,
}

impl View for HttpRequestPlan {
    type V = HttpRequestPlanView;

    open spec fn view(&self) -> HttpRequestPlanView {
        HttpRequestPlanView {
            url: self.url@,
            method: self.method@,
            headers: Seq::new(
                self.headers@.len(),
                |i: int| (self.headers@[i].0@, self.headers@[i].1@),
            ),
            has_body: self.has_body,
        }
    }
}

/// The header entries whose key and value are both strings, in order;
/// other entries are dropped.
pub open spec fn kept_headers(es: Seq<(DocView, DocView)>)
    -> Seq<(Seq<char>, Seq<char>)>
    decreases es.len(),
{
    if es.len() == 0 {
        Seq::empty()
    } else {
        let rest = kept_headers(es.drop_first());
        match (es[0].0, es[0].1) {
            (DocView::Str(k), DocView::Str(v)) => seq![(k, v)]
                + rest,
            _ => rest,
        }
    }
}

/// The request plan a document node denotes, if any: a mapping with the
/// required `url` and `method` strings, optional string-valued `headers`
/// and an optional `body`.
pub open spec fn http_request_of_doc(d: DocView) -> Option<HttpRequestPlanView> {
    match d {
        DocView::Mapping(es) => {
            let headers = match doc_lookup(es, "headers"@) {
                Option::Some(DocView::Mapping(kv)) => kept_headers(kv),
                _ => Seq::empty(),
            };
            let has_body = doc_lookup(es, "body"@) is Some;
            match (
                crate::config::req_str_field(es, "url"@),
                crate::config::req_str_field(es, "method"@),
            ) {
                (Some(u), Some(m)) => Some(
                    HttpRequestPlanView { url: u, method: m, headers, has_body },
                ),
                _ => None,
            }
        },
        _ => None,
    }
}

impl HttpRequestPlan {
    /// Validates one request descriptor.
    #[verifier::loop_isolation(false)]
    pub fn from_doc(v: &ConfigValue) -> (r: Result<HttpRequestPlan, CallError>)
        ensures
            match r {
                Ok(p) => http_request_of_doc(v@) == Some(p@),
                Err(e) => http_request_of_doc(v@) is None && e is Decode,
            },
    {
        if !(matches!(v, ConfigValue::Mapping(_))) {
            return Err(CallError::Decode(String::from_str("failed to parse request object")));
        }
        let url = match v.get("url") {
            Some(ConfigValue::Str(s)) => s.clone(),
            _ => {
                return Err(CallError::Decode(String::from_str("failed to get request url")));
            },
        };
        let method = match v.get("method") {
            Some(ConfigValue::Str(s)) => s.clone(),
            _ => {
                return Err(CallError::Decode(String::from_str("failed to get request method")));
            },
        };
        let mut headers: Vec<(String, String)> = Vec::new();
        let ghost mut hviews: Seq<(Seq<char>, Seq<char>)> = Seq::empty();
        let header_entries = match v.get("headers") {
            Some(hv) => match hv {
                ConfigValue::Mapping(entries) => Some((hv, entries)),
                _ => None,
            },
            None => None,
        };
        if let Some((hv, entries)) = header_entries {
            let ghost kv = hv@->Mapping_0;
            proof {
                assert(kv.len() == entries@.len());
                assert(forall|k: int|
                    0 <= k < kv.len() ==> #[trigger] kv[k] == (
                        entries@[k].0.dview(),
                        entries@[k].1.dview(),
                    ));
                assert(kv.skip(0) =~= kv);
                assert(hviews + kept_headers(kv.skip(0)) =~= kept_headers(kv));
            }
            let nk = entries.len();
            let mut i: usize = 0;
            while i < nk
                invariant
                    i <= nk,
                    headers@.len() == hviews.len(),
                    forall|k: int|
                        0 <= k < hviews.len() ==> #[trigger] hviews[k] == (
                            headers@[k].0@,
                            headers@[k].1@,
                        ),
                    kept_headers(kv) == hviews + kept_headers(kv.skip(i as int)),
                decreases nk - i,
            {
                let ghost before = hviews;
                proof {
                    assert(kv.skip(i as int)[0] == kv[i as int]);
                    assert(kv.skip(i as int).drop_first() =~= kv.skip(i as int + 1));
                }
                match (&entries[i].0, &entries[i].1) {
                    (ConfigValue::Str(k), ConfigValue::Str(w)) => {
                        proof {
                            hviews = hviews.push((k@, w@));
                            assert(before + (seq![(k@, w@)] + kept_headers(kv.skip(i as int + 1)))
                                =~= hviews + kept_headers(kv.skip(i as int + 1)));
                        }
                        headers.push((k.clone(), w.clone()));
                    },
                    (k0, k1) => {
                        proof {
                            crate::config::lemma_dview_is_str(k0);
                            crate::config::lemma_dview_is_str(k1);
                        }
                    },
                }
                i = i + 1;
            }
            proof {
                assert(kv.skip(nk as int) =~= Seq::<(DocView, DocView)>::empty());
                assert(hviews + Seq::<(Seq<char>, Seq<char>)>::empty() =~= hviews);
            }
        }
        let has_body = match v.get("body") {
            Some(_) => true,
            None => false,
        };
        let p = HttpRequestPlan { url, method, headers, has_body };
        proof {
            assert(p@.headers =~= hviews);
        }
        Ok(p)
    }
}

/// All request plans a batch payload denotes, if every descriptor is
/// well-formed.
pub open spec fn http_requests_of_doc(ds: Seq<DocView>) -> Option<
    Seq<HttpRequestPlanView>,
>
    decreases ds.len(),
{
    if ds.len() == 0 {
        Some(Seq::empty())
    } else {
        match (http_request_of_doc(ds[0]), http_requests_of_doc(ds.drop_first())) {
            (Some(p), Some(r)) => Some(seq![p] + r),
            _ => None,
        }
    }
}

/// One malformed descriptor makes the whole batch malformed.
proof fn lemma_http_requests_none(ds: Seq<DocView>, i: int)
    requires
        0 <= i < ds.len(),
        http_request_of_doc(ds[i]) is None,
    ensures
        http_requests_of_doc(ds) is None,
    decreases ds.len(),
{
    if i > 0 {
        lemma_http_requests_none(ds.drop_first(), i - 1);
    }
}

/// When every descriptor is well-formed, the batch denotes exactly those
/// plans.
proof fn lemma_http_requests_pointwise(ds: Seq<DocView>, ps: Seq<HttpRequestPlanView>)
    requires
        ds.len() == ps.len(),
        forall|i: int| 0 <= i < ds.len() ==> http_request_of_doc(#[trigger] ds[i]) == Some(ps[i]),
    ensures
        http_requests_of_doc(ds) == Some(ps),
    decreases ds.len(),
{
    if ds.len() == 0 {
        assert(ps =~= Seq::<HttpRequestPlanView>::empty());
    } else {
        lemma_http_requests_pointwise(ds.drop_first(), ps.drop_first());
        assert(seq![ps[0]] + ps.drop_first() =~= ps);
    }
}

/// Validates a whole batch payload: a sequence of request descriptors.
/// The first malformed descriptor, or a payload that is not a sequence,
/// is a call-level decode error.
#[verifier::loop_isolation(false)]
pub fn http_requests_from_doc(v: &ConfigValue) -> (r: Result<
    Vec<HttpRequestPlan>,
    CallError,
>)
    ensures
        match r {
            Ok(ps) => {
                &&& v@ matches DocView::Sequence(ds)
                &&& http_requests_of_doc(ds) is Some
                &&& ps@.len() == http_requests_of_doc(ds)->Some_0.len()
                &&& forall|i: int|
                    0 <= i < ps@.len() ==> (#[trigger] ps@[i])@ == http_requests_of_doc(
                        ds,
                    )->Some_0[i]
            },
            Err(e) => e is Decode && !(v@ matches DocView::Sequence(ds)
                && http_requests_of_doc(ds) is Some),
        },
{
    let items = match v {
        ConfigValue::Sequence(items) => items,
        _ => {
            return Err(CallError::Decode(String::from_str("failed to parse requests as array")));
        },
    };
    let ghost ds = v@->Sequence_0;
    proof {
        assert(ds.len() == items@.len());
        assert(forall|k: int| 0 <= k < ds.len() ==> #[trigger] ds[k] == items@[k].dview());
    }
    let n = items.len();
    let mut ps: Vec<HttpRequestPlan> = Vec::new();
    let ghost mut pviews: Seq<HttpRequestPlanView> = Seq::empty();
    let mut i: usize = 0;
    while i < n
        invariant
            i <= n,
            ps@.len() == i,
            pviews.len() == i,
            forall|k: int| 0 <= k < i ==> (#[trigger] ps@[k])@ == pviews[k],
            forall|k: int| 0 <= k < i ==> http_request_of_doc(#[trigger] ds[k]) == Some(
                pviews[k],
            ),
        decreases n - i,
    {
        match HttpRequestPlan::from_doc(&items[i]) {
            Ok(p) => {
                proof {
                    pviews = pviews.push(p@);
                }
                ps.push(p);
            },
            Err(e) => {
                proof {
                    lemma_http_requests_none(ds, i as int);
                }
                return Err(e);
            },
        }
        i = i + 1;
    }
    proof {
        lemma_http_requests_pointwise(ds, pviews);
    }
    Ok(ps)
}

/// The per-request result of a batched HTTP call.
#[derive(Debug)]
pub struct HttpResponseRecord {
    /// The request URL, echoed back.
    pub url: String,
    /// The HTTP method, echoed back.
    pub method: String,
    /// The response status code.
    pub status: u16,
    /// The response body text.
    pub body: String,
}

/// Mathematical view of an [`HttpResponseRecord`].
pub struct HttpResponseView {
    pub url: Seq<char>,
    pub method: Seq<char>,
    pub status: u16,
    pub body: Seq<char>,
}

impl View for HttpResponseRecord {
    type V = HttpResponseView;

    open spec fn view(&self) -> HttpResponseView {
        HttpResponseView {
            url: self.url@,
            method: self.method@,
            status: self.status,
            body: self.body@,
        }
    }
}

/// Combines the per-request outcomes of one batched HTTP call under the
/// all-or-nothing policy: the batch succeeds with every response exactly
/// when every request succeeded, and one transport failure fails the
/// whole call with that failure's message.
#[verifier::loop_isolation(false)]
pub fn combine_batch_outcomes(outcomes: Vec<Result<HttpResponseRecord, String>>) -> (r: Result<
    Vec<HttpResponseRecord>,
    CallError,
>)
    ensures
        match r {
            Ok(resps) => {
                &&& resps@.len() == outcomes@.len()
                &&& forall|i: int|
                    0 <= i < outcomes@.len() ==> ((#[trigger] outcomes@[i]) matches Ok(rec)
                        && resps@[i]@ == rec@)
            },
            Err(e) => exists|i: int|
                0 <= i < outcomes@.len() && ((#[trigger] outcomes@[i]) matches Err(m) && (
                e matches CallError::HostCall(em) && em@ == m@)),
        },
{
    let n = outcomes.len();
    let ghost all = outcomes@;
    let mut rest = outcomes;
    let mut resps: Vec<HttpResponseRecord> = Vec::new();
    let mut i: usize = 0;
    while i < n
        invariant
            rest@.len() == n - i,
            forall|k: int| 0 <= k < rest@.len() ==> #[trigger] rest@[k] == all[k + i],
            resps@.len() == i,
            forall|k: int|
                0 <= k < i ==> ((#[trigger] all[k]) matches Ok(rec) && resps@[k]@ == rec@),
        decreases n - i,
    {
        match rest.remove(0) {
            Ok(rec) => {
                resps.push(rec);
            },
            Err(m) => {
                return Err(CallError::HostCall(m));
            },
        }
        i = i + 1;
    }
    Ok(resps)
}

} // verus!
