//! Requests to the App Store Connect API, as plain values.

use vstd::prelude::*;
use vstd::string::*;
use crate::json::{array, array_view, text, Json, JsonView, Members};
use crate::text::texts;

verus! {

/// The method of a request.
#[derive(Debug, Clone, Copy, PartialEq, Eq, Structural)]
pub enum Verb {
    Get,
    Post,
    Patch,
    Delete,
}

impl Verb {
    /// The name of the method.
    pub open spec fn name_of(self) -> Seq<char> {
        match self {
            Verb::Get => "GET"@,
            Verb::Post => "POST"@,
            Verb::Patch => "PATCH"@,
            Verb::Delete => "DELETE"@,
        }
    }

    /// The name of the method.
    pub fn name(self) -> (name: &'static str)
        ensures
            name@ == self.name_of(),
    {
        match self {
            Verb::Get => "GET",
            Verb::Post => "POST",
            Verb::Patch => "PATCH",
            Verb::Delete => "DELETE",
        }
    }
}

/// A request that is ready to be sent.
#[derive(Debug)]
pub struct ApiRequest {
    pub verb: Verb,
    pub url: String,
    pub query: Vec<(String, String)>,
    pub body: Option<Json>,
}

/// What a request holds.
pub struct RequestView {
    pub verb: Verb,
    pub url: Seq<char>,
    pub query: Seq<(Seq<char>, Seq<char>)>,
    pub body: Option<JsonView>,
}

impl View for ApiRequest {
    type V = RequestView;

    open spec fn view(&self) -> RequestView {
        RequestView {
            verb: self.verb,
            url: self.url@,
            query: self.query@.map_values(|pair: (String, String)| (pair.0@, pair.1@)),
            body: match self.body {
                Some(value) => Some(value@),
                None => None,
            },
        }
    }
}

impl RequestView {
    /// The request with one more query parameter.
    pub open spec fn asking(self, key: Seq<char>, value: Seq<char>) -> RequestView {
        RequestView { query: self.query.push((key, value)), ..self }
    }
}

/// A request without query and body.
pub open spec fn bare_view(verb: Verb, url: Seq<char>) -> RequestView {
    RequestView { verb, url, query: seq![], body: None }
}

/// A request with a body.
pub open spec fn body_view(verb: Verb, url: Seq<char>, body: JsonView) -> RequestView {
    RequestView { verb, url, query: seq![], body: Some(body) }
}

/// A request without query and body.
pub fn bare(verb: Verb, url: String) -> (request: ApiRequest)
    ensures
        request@ == bare_view(verb, url@),
{
    let request = ApiRequest { verb, url, query: Vec::new(), body: None };
    proof {
        assert(request@.query =~= bare_view(verb, url@).query);
    }
    request
}

/// A request with a body.
pub fn with_body(verb: Verb, url: String, body: Json) -> (request: ApiRequest)
    ensures
        request@ == body_view(verb, url@, body@),
{
    let request = ApiRequest { verb, url, query: Vec::new(), body: Some(body) };
    proof {
        assert(request@.query =~= body_view(verb, url@, body@).query);
    }
    request
}

impl ApiRequest {
    /// The request with one more query parameter.
    pub fn ask(self, key: &str, value: &str) -> (request: ApiRequest)
        ensures
            request@ == self@.asking(key@, value@),
    {
        let ghost before = self@;
        let mut request = self;
        request.query.push((key.to_owned(), value.to_owned()));
        proof {
            assert(request@.query =~= before.asking(key@, value@).query);
        }
        request
    }
}

/// The reference to one resource.
pub open spec fn reference_view(kind: Seq<char>, id: Seq<char>) -> JsonView {
    JsonView::Object(map!["type"@ => JsonView::Text(kind), "id"@ => JsonView::Text(id)])
}

/// The reference to one resource.
pub fn reference(kind: &str, id: &str) -> (value: Json)
    ensures
        value@ == reference_view(kind@, id@),
{
    let mut members = Members::new();
    members.put("type", text(kind));
    members.put("id", text(id));
    members.into_json()
}

/// An object with the one member `data`.
pub open spec fn data_view(data: JsonView) -> JsonView {
    JsonView::Object(map!["data"@ => data])
}

/// An object with the one member `data`.
pub fn data(value: Json) -> (result: Json)
    ensures
        result@ == data_view(value@),
{
    let mut members = Members::new();
    members.put("data", value);
    members.into_json()
}

/// A relationship to one resource.
pub open spec fn link_view(kind: Seq<char>, id: Seq<char>) -> JsonView {
    data_view(reference_view(kind, id))
}

/// A relationship to one resource.
pub fn link(kind: &str, id: &str) -> (value: Json)
    ensures
        value@ == link_view(kind@, id@),
{
    data(reference(kind, id))
}

/// The references to several resources of one kind, in their order.
pub open spec fn references_view(kind: Seq<char>, ids: Seq<Seq<char>>) -> JsonView {
    JsonView::Array(ids.map_values(|id: Seq<char>| reference_view(kind, id)))
}

/// The references to several resources of one kind, in their order.
pub fn references(kind: &str, ids: &Vec<String>) -> (value: Json)
    ensures
        value@ == references_view(kind@, texts(ids@)),
{
    let mut items: Vec<Json> = Vec::new();
    let mut i: usize = 0;
    while i < ids.len()
        invariant
            i <= ids.len(),
            items.len() == i,
            forall|k: int|
                0 <= k < i ==> (#[trigger] items@[k])@ == reference_view(kind@, ids@[k]@),
        decreases ids.len() - i,
    {
        items.push(reference(kind, ids[i].as_str()));
        i += 1;
    }
    proof {
        let a = array_view(items@)->Array_0;
        let b = references_view(kind@, texts(ids@))->Array_0;
        assert(a =~= b);
    }
    array(items)
}

/// Relationships to several resources of one kind.
pub fn links(kind: &str, ids: &Vec<String>) -> (value: Json)
    ensures
        value@ == data_view(references_view(kind@, texts(ids@))),
{
    data(references(kind, ids))
}

/// The members of a resource object. Empty attributes and relationships are left out.
pub open spec fn resource_members(
    id: Option<Seq<char>>,
    kind: Seq<char>,
    attributes: Map<Seq<char>, JsonView>,
    relationships: Map<Seq<char>, JsonView>,
) -> Map<Seq<char>, JsonView> {
    let none = Map::<Seq<char>, JsonView>::empty();
    let named = none.insert("type"@, JsonView::Text(kind));
    let identified = match id {
        Some(text) => named.insert("id"@, JsonView::Text(text)),
        None => named,
    };
    let attributed = if attributes == none {
        identified
    } else {
        identified.insert("attributes"@, JsonView::Object(attributes))
    };
    if relationships == none {
        attributed
    } else {
        attributed.insert("relationships"@, JsonView::Object(relationships))
    }
}

/// The body of a request that creates or changes a resource.
pub open spec fn resource_view(
    id: Option<Seq<char>>,
    kind: Seq<char>,
    attributes: Map<Seq<char>, JsonView>,
    relationships: Map<Seq<char>, JsonView>,
) -> JsonView {
    data_view(JsonView::Object(resource_members(id, kind, attributes, relationships)))
}

/// The body of a request that creates or changes a resource.
pub fn build_resource_request(
    id: Option<&str>,
    kind: &str,
    attributes: Members,
    relationships: Members,
) -> (value: Json)
    ensures
        value@ == resource_view(
            match id {
                Some(text) => Some(text@),
                None => None,
            },
            kind@,
            attributes@,
            relationships@,
        ),
{
    let mut members = Members::new();
    members.put("type", text(kind));
    if let Some(name) = id {
        members.put("id", text(name));
    }
    if !attributes.is_empty() {
        members.put("attributes", attributes.into_json());
    }
    if !relationships.is_empty() {
        members.put("relationships", relationships.into_json());
    }
    data(members.into_json())
}

} // verus!
