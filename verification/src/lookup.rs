//! The two lookups as state machines: each step takes the answer to what
//! was last asked and says what to do next. Whoever runs a lookup reads and
//! writes the cache and asks the query service; the decisions are here.

use vstd::prelude::*;
use crate::json::{lemma_object_view, members_view, Json, JsonView, Member};
use crate::text::{decimal, decimal_text, to_upper, upper_text};
use crate::wash::{wash_media_data, wash_relation_data, washed_media, washed_relations};

verus! {

/// The seconds for which an entity without a next airing is cached: a day.
pub const DAY_SECONDS: i64 = 86400;

/// A request for one media title.
#[derive(Debug, PartialEq, Eq)]
pub struct MediaRequest {
    pub media_id: i32,
    pub media_type: String,
}

/// A request for the titles related to a name.
#[derive(Debug, PartialEq, Eq)]
pub struct RelationRequest {
    pub media_name: String,
    pub media_type: String,
}

/// What a lookup answers: an HTTP status and a JSON body.
#[derive(Debug, PartialEq, Eq)]
pub struct Reply {
    pub status: u16,
    pub body: Json,
}

/// The mathematical value of a [`Reply`].
pub struct ReplyView {
    pub status: int,
    pub body: JsonView,
}

impl View for Reply {
    type V = ReplyView;

    open spec fn view(&self) -> ReplyView {
        ReplyView { status: self.status as int, body: self.body@ }
    }
}

/// The query templates of the query service.
#[derive(Debug, Clone, Copy, PartialEq, Eq, Structural)]
pub enum Template {
    /// One title by id and type.
    Search,
    /// The titles related to a name.
    RelationStats,
}

/// What a lookup asks of whoever runs it.
#[derive(Debug, PartialEq, Eq)]
pub enum Action {
    /// Read the document under `key` from the cache.
    ReadCache { key: String },
    /// Read the seconds that the value under `key` has left.
    ReadTtl { key: String },
    /// Send the template with these variables to the query service.
    Query { template: Template, variables: Json },
    /// Write `value` under `key` and give it `seconds` to live.
    WriteCache { key: String, value: Json, seconds: i64 },
    /// Answer the request; the lookup is over.
    Respond(Reply),
    /// Nothing: the lookup was over before.
    Halt,
}

/// The mathematical value of an [`Action`].
pub enum ActionView {
    ReadCache { key: Seq<char> },
    ReadTtl { key: Seq<char> },
    Query { template: Template, variables: JsonView },
    WriteCache { key: Seq<char>, value: JsonView, seconds: int },
    Respond(ReplyView),
    Halt,
}

impl View for Action {
    type V = ActionView;

    open spec fn view(&self) -> ActionView {
        match self {
            Action::ReadCache { key } => ActionView::ReadCache { key: key@ },
            Action::ReadTtl { key } => ActionView::ReadTtl { key: key@ },
            Action::Query { template, variables } => ActionView::Query {
                template: *template,
                variables: variables@,
            },
            Action::WriteCache { key, value, seconds } => ActionView::WriteCache {
                key: key@,
                value: value@,
                seconds: *seconds as int,
            },
            Action::Respond(reply) => ActionView::Respond(reply@),
            Action::Halt => ActionView::Halt,
        }
    }
}

/// What came of the last action.
#[derive(Debug, PartialEq, Eq)]
pub enum Event {
    /// The cache was read: the document found, or `None` where there is
    /// none or it could not be read.
    Cached(Option<Json>),
    /// The seconds that the cache reports as left.
    Ttl(i64),
    /// The query service answered with this HTTP status and body.
    Fetched { status: u16, body: Json },
    /// The cache write was attempted, with or without success.
    Stored,
    /// The action could not be carried out.
    Failed,
}

/// The mathematical value of an [`Event`].
pub enum EventView {
    Cached(Option<JsonView>),
    Ttl(int),
    Fetched { status: int, body: JsonView },
    Stored,
    Failed,
}

impl View for Event {
    type V = EventView;

    open spec fn view(&self) -> EventView {
        match self {
            Event::Cached(Some(document)) => EventView::Cached(Some(document@)),
            Event::Cached(None) => EventView::Cached(None),
            Event::Ttl(seconds) => EventView::Ttl(*seconds as int),
            Event::Fetched { status, body } => EventView::Fetched {
                status: *status as int,
                body: body@,
            },
            Event::Stored => EventView::Stored,
            Event::Failed => EventView::Failed,
        }
    }
}

/// Where a lookup stands: what it has asked and waits for.
#[derive(Debug, PartialEq, Eq)]
pub enum Lookup {
    /// A media lookup that has asked for the cached document. `media_type`
    /// is in upper case.
    MediaCache { media_id: i32, media_type: String },
    /// A media lookup that found `cached` and has asked how long it lasts.
    MediaTtl { media_id: i32, media_type: String, cached: Json },
    /// A media lookup that has asked the query service.
    MediaQuery,
    /// A media lookup that has asked for `entity` to be cached.
    MediaStore { entity: Json },
    /// A relation lookup that has asked the query service.
    RelationQuery,
    /// A lookup that has answered.
    Done,
}

/// The mathematical value of a [`Lookup`].
pub enum LookupView {
    MediaCache { media_id: int, media_type: Seq<char> },
    MediaTtl { media_id: int, media_type: Seq<char>, cached: JsonView },
    MediaQuery,
    MediaStore { entity: JsonView },
    RelationQuery,
    Done,
}

impl View for Lookup {
    type V = LookupView;

    open spec fn view(&self) -> LookupView {
        match self {
            Lookup::MediaCache { media_id, media_type } => LookupView::MediaCache {
                media_id: *media_id as int,
                media_type: media_type@,
            },
            Lookup::MediaTtl { media_id, media_type, cached } => LookupView::MediaTtl {
                media_id: *media_id as int,
                media_type: media_type@,
                cached: cached@,
            },
            Lookup::MediaQuery => LookupView::MediaQuery,
            Lookup::MediaStore { entity } => LookupView::MediaStore { entity: entity@ },
            Lookup::RelationQuery => LookupView::RelationQuery,
            Lookup::Done => LookupView::Done,
        }
    }
}

/// The reply to a request that lacks a field: status 400 and the message.
pub open spec fn bad_request(message: Seq<char>) -> ReplyView {
    ReplyView { status: 400, body: JsonView::Object(seq![("error"@, JsonView::Text(message))]) }
}

/// The reply where the query service answered with a status other than
/// 200: status 400, with the status of the query service in the body.
pub open spec fn upstream_error(status: int) -> ReplyView {
    ReplyView {
        status: 400,
        body: JsonView::Object(
            seq![
                ("error"@, JsonView::Text("Request returned an error"@)),
                ("errorCode"@, JsonView::Int(status)),
            ],
        ),
    }
}

/// The reply where the query service could not be reached: status 503.
pub open spec fn unavailable() -> ReplyView {
    ReplyView {
        status: 503,
        body: JsonView::Object(
            seq![("error"@, JsonView::Text("The query service could not be reached"@))],
        ),
    }
}

/// The reply that serves `body`: status 200.
pub open spec fn served(body: JsonView) -> ReplyView {
    ReplyView { status: 200, body }
}

/// The cache key of a media id: the id in decimal.
pub open spec fn request_key(media_id: int) -> Seq<char> {
    decimal_text(media_id)
}

/// The key under which an entity is cached: its own id in decimal. An
/// entity whose id is no integer has none and is not cached.
pub open spec fn entity_key(entity: JsonView) -> Option<Seq<char>> {
    match entity.get("id"@) {
        JsonView::Int(id) => Some(decimal_text(id)),
        _ => None,
    }
}

/// The seconds for which an entity is cached: the time until the first
/// entry of its airing schedule airs, and a day where it has no schedule,
/// an empty one, or a first entry without such a time.
pub open spec fn entity_seconds(entity: JsonView) -> int {
    match entity.get("airing"@).at(0).get("timeUntilAiring"@) {
        JsonView::Int(seconds) => seconds,
        _ => DAY_SECONDS as int,
    }
}

/// A cached entity as it is served `seconds` before it expires: `dataFrom`
/// says that it comes from the cache, and `leftUntilExpire`, the time left
/// in the cache, and `timeUntilAiring` of the first entry of a non-empty
/// airing schedule are both `seconds`. The stored time until airing is as
/// old as the cache entry; the time left in the cache is what it has come
/// to by now.
pub open spec fn served_from_cache(cached: JsonView, seconds: int) -> JsonView {
    let marked = cached.put("dataFrom"@, JsonView::Text("Cache"@));
    let schedule = marked.get("airing"@);
    let timed = match schedule {
        JsonView::List(nodes) => if nodes.len() > 0 {
            marked.put(
                "airing"@,
                schedule.replace(0, nodes[0].put("timeUntilAiring"@, JsonView::Int(seconds))),
            )
        } else {
            marked
        },
        _ => marked,
    };
    timed.put("leftUntilExpire"@, JsonView::Int(seconds))
}

/// The variables of a search for one title.
pub open spec fn search_variables(media_id: int, media_type: Seq<char>) -> JsonView {
    JsonView::Object(seq![("id"@, JsonView::Int(media_id)), ("type"@, JsonView::Text(media_type))])
}

/// The variables of a search for related titles.
pub open spec fn relation_variables(media_name: Seq<char>, media_type: Seq<char>) -> JsonView {
    JsonView::Object(
        seq![("search"@, JsonView::Text(media_name)), ("type"@, JsonView::Text(media_type))],
    )
}

/// The step of a media lookup that goes to the query service.
pub open spec fn ask_for_media(media_id: int, media_type: Seq<char>) -> (LookupView, ActionView) {
    (
        LookupView::MediaQuery,
        ActionView::Query {
            template: Template::Search,
            variables: search_variables(media_id, media_type),
        },
    )
}

/// The step of a lookup that answers.
pub open spec fn answer(reply: ReplyView) -> (LookupView, ActionView) {
    (LookupView::Done, ActionView::Respond(reply))
}

/// The step that a lookup in `state` takes on `event`.
///
/// An event that is not the answer to what the state has asked counts as
/// the failure of what was asked: a cache read or a time that failed sends
/// the lookup to the query service, a failed query ends it with status 503,
/// and a cache write is never waited for twice.
pub open spec fn next(state: LookupView, event: EventView) -> (LookupView, ActionView) {
    match state {
        LookupView::MediaCache { media_id, media_type } => match event {
            EventView::Cached(Some(JsonView::Object(members))) => (
                LookupView::MediaTtl { media_id, media_type, cached: JsonView::Object(members) },
                ActionView::ReadTtl { key: request_key(media_id) },
            ),
            _ => ask_for_media(media_id, media_type),
        },
        LookupView::MediaTtl { media_id, media_type, cached } => match event {
            EventView::Ttl(seconds) => answer(served(served_from_cache(cached, seconds))),
            _ => ask_for_media(media_id, media_type),
        },
        LookupView::MediaQuery => match event {
            EventView::Fetched { status, body } => if status != 200 {
                answer(upstream_error(status))
            } else {
                let entity = washed_media(body);
                match entity_key(entity) {
                    Some(key) => (
                        LookupView::MediaStore { entity },
                        ActionView::WriteCache {
                            key,
                            value: entity,
                            seconds: entity_seconds(entity),
                        },
                    ),
                    None => answer(served(entity)),
                }
            },
            _ => answer(unavailable()),
        },
        LookupView::MediaStore { entity } => answer(served(entity)),
        LookupView::RelationQuery => match event {
            EventView::Fetched { status, body } => if status != 200 {
                answer(upstream_error(status))
            } else {
                answer(served(washed_relations(body)))
            },
            _ => answer(unavailable()),
        },
        LookupView::Done => (LookupView::Done, ActionView::Halt),
    }
}

/// The first step of a media lookup for a type that is already in upper
/// case: read the cache under the id.
pub open spec fn media_start(media_id: int, media_type: Seq<char>) -> (LookupView, ActionView) {
    (
        LookupView::MediaCache { media_id, media_type },
        ActionView::ReadCache { key: request_key(media_id) },
    )
}

/// The first step of a relation lookup for a type that is already in upper
/// case: ask the query service.
pub open spec fn relations_start(media_name: Seq<char>, media_type: Seq<char>) -> (
    LookupView,
    ActionView,
) {
    (
        LookupView::RelationQuery,
        ActionView::Query {
            template: Template::RelationStats,
            variables: relation_variables(media_name, media_type),
        },
    )
}

/// The first step of a media lookup: a request without a type is answered
/// at once, with status 400 and nothing asked of anyone.
pub open spec fn media_first(media_id: int, media_type: Seq<char>) -> (LookupView, ActionView) {
    if media_type.len() == 0 {
        answer(bad_request("No type was included"@))
    } else {
        media_start(media_id, upper_text(media_type))
    }
}

/// The first step of a relation lookup: a request without a name or
/// without a type is answered at once, with status 400 and nothing asked
/// of anyone.
pub open spec fn relations_first(media_name: Seq<char>, media_type: Seq<char>) -> (
    LookupView,
    ActionView,
) {
    if media_name.len() == 0 || media_type.len() == 0 {
        answer(bad_request("No media name or type was included"@))
    } else {
        relations_start(media_name, upper_text(media_type))
    }
}

fn object_of_one(key: &str, value: Json) -> (out: Json)
    ensures
        out@ == JsonView::Object(seq![(key@, value@)]),
{
    let mut members: Vec<Member> = Vec::new();
    members.push(Member::new(key, value));
    proof {
        lemma_object_view(members);
        assert(members_view(members@) =~= seq![(key@, value@)]);
    }
    Json::Object(members)
}

fn object_of_two(first: &str, one: Json, second: &str, other: Json) -> (out: Json)
    ensures
        out@ == JsonView::Object(seq![(first@, one@), (second@, other@)]),
{
    let mut members: Vec<Member> = Vec::new();
    members.push(Member::new(first, one));
    members.push(Member::new(second, other));
    proof {
        lemma_object_view(members);
        assert(members_view(members@) =~= seq![(first@, one@), (second@, other@)]);
    }
    Json::Object(members)
}

impl Reply {
    /// The reply to a request that lacks a field.
    pub fn bad_request(message: &str) -> (out: Reply)
        ensures
            out@ == bad_request(message@),
    {
        Reply { status: 400, body: object_of_one("error", Json::text(message)) }
    }

    /// The reply where the query service answered with `status`, which is
    /// not 200.
    pub fn upstream_error(status: u16) -> (out: Reply)
        ensures
            out@ == upstream_error(status as int),
    {
        Reply {
            status: 400,
            body: object_of_two(
                "error",
                Json::text("Request returned an error"),
                "errorCode",
                Json::Int(status as i64),
            ),
        }
    }

    /// The reply where the query service could not be reached.
    pub fn unavailable() -> (out: Reply)
        ensures
            out@ == unavailable(),
    {
        Reply {
            status: 503,
            body: object_of_one("error", Json::text("The query service could not be reached")),
        }
    }

    /// The reply that serves `body`.
    pub fn served(body: Json) -> (out: Reply)
        ensures
            out@ == served(body@),
    {
        Reply { status: 200, body }
    }
}

/// The cache key of a media id.
pub fn cache_key(media_id: i32) -> (key: String)
    ensures
        key@ == request_key(media_id as int),
{
    decimal(media_id as i64)
}

/// The key under which `entity` is cached, if it has an integer id.
pub fn key_of(entity: &Json) -> (key: Option<String>)
    ensures
        match key {
            Some(text) => entity_key(entity@) == Some(text@),
            None => entity_key(entity@) is None,
        },
{
    match entity.field("id") {
        Some(Json::Int(id)) => Some(decimal(*id)),
        _ => None,
    }
}

/// The seconds for which `entity` is cached.
pub fn seconds_of(entity: &Json) -> (seconds: i64)
    ensures
        seconds == entity_seconds(entity@),
{
    let first: Option<&Json> = match entity.field("airing") {
        Some(schedule) => match schedule.items() {
            Some(nodes) => if nodes.len() > 0 {
                Some(&nodes[0])
            } else {
                None
            },
            None => None,
        },
        None => None,
    };
    match first {
        Some(node) => match node.field("timeUntilAiring") {
            Some(Json::Int(seconds)) => *seconds,
            _ => DAY_SECONDS,
        },
        None => DAY_SECONDS,
    }
}

/// Prepares a cached entity for serving `seconds` before it expires.
pub fn serve_from_cache(cached: Json, seconds: i64) -> (out: Json)
    ensures
        out@ == served_from_cache(cached@, seconds as int),
{
    let marked: Json = cached.with("dataFrom", Json::text("Cache"));
    let first: Option<Json> = match marked.field("airing") {
        Some(schedule) => match schedule.items() {
            Some(nodes) => if nodes.len() > 0 {
                Some(nodes[0].clone())
            } else {
                None
            },
            None => None,
        },
        None => None,
    };
    let timed: Json = match first {
        Some(node) => {
            let schedule: Json = marked.pick("airing");
            let renewed: Json = schedule.with_item(
                0,
                node.with("timeUntilAiring", Json::Int(seconds)),
            );
            marked.with("airing", renewed)
        },
        None => marked,
    };
    timed.with("leftUntilExpire", Json::Int(seconds))
}

/// The variables of a search for one title.
pub fn media_variables(media_id: i32, media_type: String) -> (out: Json)
    ensures
        out@ == search_variables(media_id as int, media_type@),
{
    object_of_two("id", Json::Int(media_id as i64), "type", Json::Text(media_type))
}

fn ask(media_id: i32, media_type: String) -> (out: (Lookup, Action))
    ensures
        (out.0@, out.1@) == ask_for_media(media_id as int, media_type@),
{
    (
        Lookup::MediaQuery,
        Action::Query { template: Template::Search, variables: media_variables(media_id, media_type) },
    )
}

fn finish(reply: Reply) -> (out: (Lookup, Action))
    ensures
        (out.0@, out.1@) == answer(reply@),
{
    (Lookup::Done, Action::Respond(reply))
}

impl Lookup {
    /// Starts a media lookup.
    pub fn media(request: &MediaRequest) -> (out: (Lookup, Action))
        ensures
            (out.0@, out.1@) == media_first(request.media_id as int, request.media_type@),
    {
        if request.media_type.as_str().is_empty() {
            finish(Reply::bad_request("No type was included"))
        } else {
            Lookup::media_of_type(request.media_id, to_upper(request.media_type.as_str()))
        }
    }

    /// Starts a media lookup for a type that is already in upper case.
    pub fn media_of_type(media_id: i32, media_type: String) -> (out: (Lookup, Action))
        ensures
            (out.0@, out.1@) == media_start(media_id as int, media_type@),
    {
        (Lookup::MediaCache { media_id, media_type }, Action::ReadCache { key: cache_key(media_id) })
    }

    /// Starts a relation lookup.
    pub fn relations(request: &RelationRequest) -> (out: (Lookup, Action))
        ensures
            (out.0@, out.1@) == relations_first(request.media_name@, request.media_type@),
    {
        if request.media_name.as_str().is_empty() || request.media_type.as_str().is_empty() {
            finish(Reply::bad_request("No media name or type was included"))
        } else {
            Lookup::relations_of_type(
                request.media_name.as_str(),
                to_upper(request.media_type.as_str()),
            )
        }
    }

    /// Starts a relation lookup for a type that is already in upper case.
    pub fn relations_of_type(media_name: &str, media_type: String) -> (out: (Lookup, Action))
        ensures
            (out.0@, out.1@) == relations_start(media_name@, media_type@),
    {
        (
            Lookup::RelationQuery,
            Action::Query {
                template: Template::RelationStats,
                variables: object_of_two(
                    "search",
                    Json::text(media_name),
                    "type",
                    Json::Text(media_type),
                ),
            },
        )
    }

    /// Takes the step that `event` calls for.
    pub fn step(self, event: Event) -> (out: (Lookup, Action))
        ensures
            (out.0@, out.1@) == next(self@, event@),
    {
        match self {
            Lookup::MediaCache { media_id, media_type } => match event {
                Event::Cached(Some(Json::Object(members))) => {
                    proof {
                        lemma_object_view(members);
                    }
                    (
                        Lookup::MediaTtl { media_id, media_type, cached: Json::Object(members) },
                        Action::ReadTtl { key: cache_key(media_id) },
                    )
                },
                _ => ask(media_id, media_type),
            },
            Lookup::MediaTtl { media_id, media_type, cached } => match event {
                Event::Ttl(seconds) => finish(Reply::served(serve_from_cache(cached, seconds))),
                _ => ask(media_id, media_type),
            },
            Lookup::MediaQuery => match event {
                Event::Fetched { status, body } => if status != 200 {
                    finish(Reply::upstream_error(status))
                } else {
                    let entity: Json = wash_media_data(body);
                    match key_of(&entity) {
                        Some(key) => {
                            let seconds: i64 = seconds_of(&entity);
                            let value: Json = entity.clone();
                            (Lookup::MediaStore { entity }, Action::WriteCache { key, value, seconds })
                        },
                        None => finish(Reply::served(entity)),
                    }
                },
                _ => finish(Reply::unavailable()),
            },
            Lookup::MediaStore { entity } => finish(Reply::served(entity)),
            Lookup::RelationQuery => match event {
                Event::Fetched { status, body } => if status != 200 {
                    finish(Reply::upstream_error(status))
                } else {
                    finish(Reply::served(wash_relation_data(body)))
                },
                _ => finish(Reply::unavailable()),
            },
            Lookup::Done => (Lookup::Done, Action::Halt),
        }
    }
}

} // verus!
