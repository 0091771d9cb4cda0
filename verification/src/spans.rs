//! Span attribute configuration: which attributes each span records.
//!
//! Each configuration struct decides, flag by flag, which attributes of the
//! request are attached to the corresponding span. Attribute keys follow the
//! OpenTelemetry semantic conventions for GraphQL; the key constants are
//! taken from the conventions crate itself.

use vstd::prelude::*;

use crate::OperationKind;
use crate::values::Value;
use crate::values::ValueModel;

verus! {

/// An attribute list: keys paired with the values to record.
pub type AttributeList = Vec<(String, Value)>;

/// Mathematical image of an attribute list: key contents paired with values.
pub open spec fn attrs_view(s: Seq<(String, Value)>) -> Seq<(Seq<char>, ValueModel)> {
    s.map_values(|p: (String, Value)| (p.0@, p.1@))
}

/// Relies on `opentelemetry_semantic_conventions::attribute::GRAPHQL_DOCUMENT`,
/// the constant attribute key `"graphql.document"`.
#[verifier::external_body]
fn graphql_document_key() -> (r: String)
    ensures
        r@ == "graphql.document"@,
{
    opentelemetry_semantic_conventions::attribute::GRAPHQL_DOCUMENT.to_string()
}

/// Relies on `opentelemetry_semantic_conventions::attribute::GRAPHQL_OPERATION_NAME`,
/// the constant attribute key `"graphql.operation.name"`.
#[verifier::external_body]
fn graphql_operation_name_key() -> (r: String)
    ensures
        r@ == "graphql.operation.name"@,
{
    opentelemetry_semantic_conventions::attribute::GRAPHQL_OPERATION_NAME.to_string()
}

/// Relies on `opentelemetry_semantic_conventions::attribute::GRAPHQL_OPERATION_TYPE`,
/// the constant attribute key `"graphql.operation.type"`.
#[verifier::external_body]
fn graphql_operation_type_key() -> (r: String)
    ensures
        r@ == "graphql.operation.type"@,
{
    opentelemetry_semantic_conventions::attribute::GRAPHQL_OPERATION_TYPE.to_string()
}

impl OperationKind {
    /// The operation-type label recorded on spans.
    pub open spec fn apollo_operation_type(&self) -> Seq<char> {
        match self {
            OperationKind::Query => "query"@,
            OperationKind::Mutation => "mutation"@,
            OperationKind::Subscription => "subscription"@,
        }
    }

    /// The operation-type label recorded on spans.
    pub fn as_apollo_operation_type(&self) -> (r: String)
        ensures
            r@ == self.apollo_operation_type(),
    {
        match self {
            OperationKind::Query => String::from_str("query"),
            OperationKind::Mutation => String::from_str("mutation"),
            OperationKind::Subscription => String::from_str("subscription"),
        }
    }
}

/// A trace identifier as the tracing layer reports it: its canonical hex
/// rendering and its 128-bit numeric form. The identifier is ambient state
/// of the calling task, so the attribute builders take it as an argument.
pub struct TraceIdent {
    pub hex: String,
    pub num: u128,
}

/// What a request carries for the supergraph span: the GraphQL document,
/// the operation name, and the operation kind recorded in the execution
/// context (absent when the context holds none; the gateway then reports
/// the default, a query).
pub struct SupergraphRequestInfo {
    pub query: Option<String>,
    pub operation_name: Option<String>,
    pub operation_kind: Option<OperationKind>,
}

/// What a subgraph-bound request carries for the subgraph span: the same
/// GraphQL fields plus the name of the subgraph being called.
pub struct SubgraphRequestInfo {
    pub query: Option<String>,
    pub operation_name: Option<String>,
    pub operation_kind: Option<OperationKind>,
    pub subgraph_name: Option<String>,
}

/// The operation kind a span reports: the one in the context, or a query
/// when the context holds none.
pub open spec fn effective_kind(kind: Option<OperationKind>) -> OperationKind {
    match kind {
        Some(k) => k,
        None => OperationKind::Query,
    }
}

/// Attributes recorded on the router span.
#[derive(Debug)]
pub struct RouterAttributes {
    /// Attach the datadog trace ID to the router span as dd.trace_id.
    pub datadog_trace_id: Option<bool>,
    /// Attach the opentelemetry trace ID to the router span as trace_id.
    pub trace_id: Option<bool>,
}

/// The attributes the router span records for a request whose task reports
/// the given trace identifier.
pub open spec fn router_request_attrs(cfg: &RouterAttributes, trace: &Option<TraceIdent>) -> Seq<
    (Seq<char>, ValueModel),
> {
    let s0 = Seq::<(Seq<char>, ValueModel)>::empty();
    let s1 = if cfg.trace_id == Some(true) && trace is Some {
        s0.push(("trace_id"@, ValueModel::Str(trace->0.hex@)))
    } else {
        s0
    };
    if cfg.datadog_trace_id == Some(true) && trace is Some {
        s1.push(("dd.trace_id"@, ValueModel::U128(trace->0.num)))
    } else {
        s1
    }
}

impl RouterAttributes {
    /// The router span's attributes for a request; `trace` is the trace
    /// identifier of the calling task, if one is active.
    pub fn on_request(&self, trace: &Option<TraceIdent>) -> (r: AttributeList)
        ensures
            attrs_view(r@) == router_request_attrs(self, trace),
    {
        let mut attrs: AttributeList = Vec::new();
        if let Some(true) = self.trace_id {
            if let Some(t) = trace {
                attrs.push((String::from_str("trace_id"), Value::Str(t.hex.clone())));
            }
        }
        if let Some(true) = self.datadog_trace_id {
            if let Some(t) = trace {
                attrs.push((String::from_str("dd.trace_id"), Value::U128(t.num)));
            }
        }
        proof {
            assert(attrs_view(attrs@) =~= router_request_attrs(self, trace));
        }
        attrs
    }

    /// The router span records no response attributes here.
    pub fn on_response(&self) -> (r: AttributeList)
        ensures
            r@.len() == 0,
    {
        Vec::new()
    }

    /// The router span records no error attributes here.
    pub fn on_error(&self) -> (r: AttributeList)
        ensures
            r@.len() == 0,
    {
        Vec::new()
    }
}

/// Attributes recorded on the supergraph span.
#[derive(Debug)]
pub struct SupergraphAttributes {
    /// Attach the GraphQL document as graphql.document.
    pub graphql_document: Option<bool>,
    /// Attach the operation name as graphql.operation.name.
    pub graphql_operation_name: Option<bool>,
    /// Attach the operation type as graphql.operation.type.
    pub graphql_operation_type: Option<bool>,
}

/// The attributes the supergraph span records for a request.
pub open spec fn supergraph_request_attrs(
    cfg: &SupergraphAttributes,
    info: &SupergraphRequestInfo,
) -> Seq<(Seq<char>, ValueModel)> {
    let s0 = Seq::<(Seq<char>, ValueModel)>::empty();
    let s1 = if cfg.graphql_document == Some(true) && info.query is Some {
        s0.push(("graphql.document"@, ValueModel::Str(info.query->0@)))
    } else {
        s0
    };
    let s2 = if cfg.graphql_operation_name == Some(true) && info.operation_name is Some {
        s1.push(("graphql.operation.name"@, ValueModel::Str(info.operation_name->0@)))
    } else {
        s1
    };
    if cfg.graphql_operation_type == Some(true) {
        s2.push(
            (
                "graphql.operation.type"@,
                ValueModel::Str(effective_kind(info.operation_kind).apollo_operation_type()),
            ),
        )
    } else {
        s2
    }
}

impl SupergraphAttributes {
    /// The supergraph span's attributes for a request.
    pub fn on_request(&self, info: &SupergraphRequestInfo) -> (r: AttributeList)
        ensures
            attrs_view(r@) == supergraph_request_attrs(self, info),
    {
        let mut attrs: AttributeList = Vec::new();
        if let Some(true) = self.graphql_document {
            if let Some(query) = &info.query {
                attrs.push((graphql_document_key(), Value::Str(query.clone())));
            }
        }
        if let Some(true) = self.graphql_operation_name {
            if let Some(op_name) = &info.operation_name {
                attrs.push((graphql_operation_name_key(), Value::Str(op_name.clone())));
            }
        }
        if let Some(true) = self.graphql_operation_type {
            let kind = match info.operation_kind {
                Some(k) => k,
                None => OperationKind::Query,
            };
            attrs.push((graphql_operation_type_key(), Value::Str(kind.as_apollo_operation_type())));
        }
        proof {
            assert(attrs_view(attrs@) =~= supergraph_request_attrs(self, info));
        }
        attrs
    }

    /// The supergraph span records no response attributes.
    pub fn on_response(&self) -> (r: AttributeList)
        ensures
            r@.len() == 0,
    {
        Vec::new()
    }

    /// The supergraph span records no error attributes.
    pub fn on_error(&self) -> (r: AttributeList)
        ensures
            r@.len() == 0,
    {
        Vec::new()
    }
}

/// Attributes recorded on the subgraph span.
#[derive(Debug)]
pub struct SubgraphAttributes {
    /// Attach the GraphQL document as graphql.document.
    pub graphql_document: Option<bool>,
    /// Attach the operation name as graphql.operation.name.
    pub graphql_operation_name: Option<bool>,
    /// Attach the operation type as graphql.operation.type.
    pub graphql_operation_type: Option<bool>,
    /// Attach the subgraph name as graphql.federation.subgraph.name.
    pub graphql_federation_subgraph_name: Option<bool>,
}

/// The attributes the subgraph span records for a request.
pub open spec fn subgraph_request_attrs(
    cfg: &SubgraphAttributes,
    info: &SubgraphRequestInfo,
) -> Seq<(Seq<char>, ValueModel)> {
    let s0 = Seq::<(Seq<char>, ValueModel)>::empty();
    let s1 = if cfg.graphql_document == Some(true) && info.query is Some {
        s0.push(("graphql.document"@, ValueModel::Str(info.query->0@)))
    } else {
        s0
    };
    let s2 = if cfg.graphql_operation_name == Some(true) && info.operation_name is Some {
        s1.push(("graphql.operation.name"@, ValueModel::Str(info.operation_name->0@)))
    } else {
        s1
    };
    let s3 = if cfg.graphql_operation_type == Some(true) {
        s2.push(
            (
                "graphql.operation.type"@,
                ValueModel::Str(effective_kind(info.operation_kind).apollo_operation_type()),
            ),
        )
    } else {
        s2
    };
    if cfg.graphql_federation_subgraph_name == Some(true) && info.subgraph_name is Some {
        s3.push(("graphql.federation.subgraph.name"@, ValueModel::Str(info.subgraph_name->0@)))
    } else {
        s3
    }
}

impl SubgraphAttributes {
    /// The subgraph span's attributes for a request.
    pub fn on_request(&self, info: &SubgraphRequestInfo) -> (r: AttributeList)
        ensures
            attrs_view(r@) == subgraph_request_attrs(self, info),
    {
        let mut attrs: AttributeList = Vec::new();
        if let Some(true) = self.graphql_document {
            if let Some(query) = &info.query {
                attrs.push((graphql_document_key(), Value::Str(query.clone())));
            }
        }
        if let Some(true) = self.graphql_operation_name {
            if let Some(op_name) = &info.operation_name {
                attrs.push((graphql_operation_name_key(), Value::Str(op_name.clone())));
            }
        }
        if let Some(true) = self.graphql_operation_type {
            let kind = match info.operation_kind {
                Some(k) => k,
                None => OperationKind::Query,
            };
            attrs.push((graphql_operation_type_key(), Value::Str(kind.as_apollo_operation_type())));
        }
        if let Some(true) = self.graphql_federation_subgraph_name {
            if let Some(subgraph_name) = &info.subgraph_name {
                attrs.push(
                    (
                        String::from_str("graphql.federation.subgraph.name"),
                        Value::Str(subgraph_name.clone()),
                    ),
                );
            }
        }
        proof {
            assert(attrs_view(attrs@) =~= subgraph_request_attrs(self, info));
        }
        attrs
    }

    /// The subgraph span records no response attributes.
    pub fn on_response(&self) -> (r: AttributeList)
        ensures
            r@.len() == 0,
    {
        Vec::new()
    }

    /// The subgraph span records no error attributes.
    pub fn on_error(&self) -> (r: AttributeList)
        ensures
            r@.len() == 0,
    {
        Vec::new()
    }
}

} // verus!
