//! The two lookups run to their end against a cache and an answer of the
//! query service, and what holds of every such run.

use vstd::prelude::*;
use vstd::pervasive::unreached;
use crate::cache::{CacheError, Redis, RedisView};
use crate::json::{lemma_put_keeps_others, lemma_put_then_get, Json, JsonView};
use crate::lookup::{
    bad_request, DAY_SECONDS, entity_key, entity_seconds, request_key, served, served_from_cache,
    unavailable, upstream_error, Action, Event, EventView, Lookup, LookupView, MediaRequest,
    RelationRequest, Reply, ReplyView,
};
use crate::wash::{washed_media, washed_relations};

verus! {

/// How a lookup ended.
#[derive(Debug, PartialEq, Eq)]
pub struct Served {
    /// The answer to the request.
    pub reply: Reply,
    /// Whether the query service was asked.
    pub queried: bool,
}

/// The entity that a media lookup finds in the cache: the document under
/// the key of the id, where the cache can be read and the document is an
/// object.
pub open spec fn cached_entity(cache: RedisView, media_id: int) -> Option<JsonView> {
    match cache.get(request_key(media_id)) {
        Ok(JsonView::Object(members)) => Some(JsonView::Object(members)),
        _ => None,
    }
}

/// Whether a media lookup asks the query service: where the request has a
/// type and the cache holds no entity for the id.
pub open spec fn media_queried(cache: RedisView, media_id: int, media_type: Seq<char>) -> bool {
    media_type.len() > 0 && cached_entity(cache, media_id) is None
}

/// The reply to a query for one title, from what the query service
/// answered.
pub open spec fn fetched_reply(upstream: EventView) -> ReplyView {
    match upstream {
        EventView::Fetched { status, body } => if status != 200 {
            upstream_error(status)
        } else {
            served(washed_media(body))
        },
        _ => unavailable(),
    }
}

/// The cache after a query for one title: where the query service answered
/// with status 200 and an entity with an integer id, the entity is written
/// under its own key with its seconds to live; else the cache is as it
/// was.
pub open spec fn fetched_cache(cache: RedisView, upstream: EventView) -> RedisView {
    match upstream {
        EventView::Fetched { status, body } => if status != 200 {
            cache
        } else {
            let entity = washed_media(body);
            match entity_key(entity) {
                Some(key) => cache.set(key, entity).expire(key, entity_seconds(entity)),
                None => cache,
            }
        },
        _ => cache,
    }
}

/// The reply of a media lookup.
pub open spec fn media_reply(
    cache: RedisView,
    media_id: int,
    media_type: Seq<char>,
    upstream: EventView,
) -> ReplyView {
    if media_type.len() == 0 {
        bad_request("No type was included"@)
    } else {
        match cached_entity(cache, media_id) {
            Some(entity) => served(served_from_cache(entity, cache.ttl(request_key(media_id)))),
            None => fetched_reply(upstream),
        }
    }
}

/// The cache after a media lookup.
pub open spec fn media_cache(
    cache: RedisView,
    media_id: int,
    media_type: Seq<char>,
    upstream: EventView,
) -> RedisView {
    if media_queried(cache, media_id, media_type) {
        fetched_cache(cache, upstream)
    } else {
        cache
    }
}

/// Whether a relation lookup asks the query service: where the request has
/// a name and a type.
pub open spec fn relations_queried(media_name: Seq<char>, media_type: Seq<char>) -> bool {
    media_name.len() > 0 && media_type.len() > 0
}

/// The reply of a relation lookup.
pub open spec fn relations_reply(
    media_name: Seq<char>,
    media_type: Seq<char>,
    upstream: EventView,
) -> ReplyView {
    if !relations_queried(media_name, media_type) {
        bad_request("No media name or type was included"@)
    } else {
        match upstream {
            EventView::Fetched { status, body } => if status != 200 {
                upstream_error(status)
            } else {
                served(washed_relations(body))
            },
            _ => unavailable(),
        }
    }
}

fn fetch(cache: &mut Redis, state: Lookup, upstream: Event) -> (reply: Reply)
    requires
        old(cache).wf(),
        state@ == LookupView::MediaQuery,
    ensures
        final(cache).wf(),
        reply@ == fetched_reply(upstream@),
        final(cache)@ == fetched_cache(old(cache)@, upstream@),
{
    let (state, action) = state.step(upstream);
    match action {
        Action::WriteCache { key, value, seconds } => {
            let _written: Result<(), CacheError> = cache.set(key.as_str(), value);
            let _timed: Result<(), CacheError> = cache.expire(key.as_str(), seconds);
            let (_, action) = state.step(Event::Stored);
            match action {
                Action::Respond(reply) => reply,
                _ => unreached(),
            }
        },
        Action::Respond(reply) => reply,
        _ => unreached(),
    }
}

/// Looks up one media title: serves it from `cache` where it is there, and
/// else from `upstream`, which is what comes of asking the query service
/// (`Fetched`, or `Failed` where it cannot be reached), and caches it.
pub fn media_search(cache: &mut Redis, request: &MediaRequest, upstream: Event) -> (out: Served)
    requires
        old(cache).wf(),
    ensures
        final(cache).wf(),
        out.reply@ == media_reply(
            old(cache)@,
            request.media_id as int,
            request.media_type@,
            upstream@,
        ),
        out.queried == media_queried(old(cache)@, request.media_id as int, request.media_type@),
        final(cache)@ == media_cache(
            old(cache)@,
            request.media_id as int,
            request.media_type@,
            upstream@,
        ),
{
    let (state, action) = Lookup::media(request);
    match action {
        Action::ReadCache { key } => {
            let cached: Option<Json> = match cache.get(key.as_str()) {
                Ok(document) => Some(document),
                Err(_) => None,
            };
            let (state, action) = state.step(Event::Cached(cached));
            match action {
                Action::ReadTtl { key } => {
                    let event: Event = match cache.ttl(key.as_str()) {
                        Ok(seconds) => Event::Ttl(seconds),
                        Err(_) => Event::Failed,
                    };
                    let (_, action) = state.step(event);
                    match action {
                        Action::Respond(reply) => Served { reply, queried: false },
                        _ => unreached(),
                    }
                },
                Action::Query { template: _, variables: _ } => Served {
                    reply: fetch(cache, state, upstream),
                    queried: true,
                },
                _ => unreached(),
            }
        },
        Action::Respond(reply) => Served { reply, queried: false },
        _ => unreached(),
    }
}

/// Looks up the titles related to a name, from `upstream`, which is what
/// comes of asking the query service. Nothing is cached.
pub fn relations_search(request: &RelationRequest, upstream: Event) -> (out: Served)
    ensures
        out.reply@ == relations_reply(request.media_name@, request.media_type@, upstream@),
        out.queried == relations_queried(request.media_name@, request.media_type@),
{
    let (state, action) = Lookup::relations(request);
    match action {
        Action::Query { template: _, variables: _ } => {
            let (_, action) = state.step(upstream);
            match action {
                Action::Respond(reply) => Served { reply, queried: true },
                _ => unreached(),
            }
        },
        Action::Respond(reply) => Served { reply, queried: false },
        _ => unreached(),
    }
}

/// The three keys that serving from the cache sets differ from one
/// another.
proof fn lemma_cache_keys_differ()
    ensures
        "dataFrom"@ != "airing"@,
        "dataFrom"@ != "leftUntilExpire"@,
        "airing"@ != "leftUntilExpire"@,
{
    reveal_strlit("dataFrom");
    reveal_strlit("airing");
    reveal_strlit("leftUntilExpire");
    assert("dataFrom"@.len() == 8);
    assert("airing"@.len() == 6);
    assert("leftUntilExpire"@.len() == 15);
}

/// An entity served from the cache differs from the cached one in three
/// members at most: it is marked as coming from the cache, it says how
/// many seconds it has left, and its airing schedule may have a new time.
/// Every other member is as it was cached.
pub proof fn lemma_served_from_cache(entity: JsonView, seconds: int)
    requires
        entity is Object,
    ensures
        served_from_cache(entity, seconds).get("dataFrom"@) == JsonView::Text("Cache"@),
        served_from_cache(entity, seconds).get("leftUntilExpire"@) == JsonView::Int(seconds),
        forall|key: Seq<char>|
            key != "dataFrom"@ && key != "airing"@ && key != "leftUntilExpire"@
                ==> #[trigger] served_from_cache(entity, seconds).get(key) == entity.get(key),
{
    lemma_cache_keys_differ();
    let mark = JsonView::Text("Cache"@);
    let marked = entity.put("dataFrom"@, mark);
    lemma_put_then_get(entity, "dataFrom"@, mark);
    let schedule = marked.get("airing"@);
    let renewed = schedule.replace(
        0,
        schedule.at(0).put("timeUntilAiring"@, JsonView::Int(seconds)),
    );
    let timed = if schedule is List && schedule->List_0.len() > 0 {
        marked.put("airing"@, renewed)
    } else {
        marked
    };
    assert(served_from_cache(entity, seconds) == timed.put(
        "leftUntilExpire"@,
        JsonView::Int(seconds),
    ));
    if schedule is List && schedule->List_0.len() > 0 {
        lemma_put_then_get(marked, "airing"@, renewed);
        lemma_put_keeps_others(marked, "airing"@, renewed, "dataFrom"@);
    }
    lemma_put_then_get(timed, "leftUntilExpire"@, JsonView::Int(seconds));
    lemma_put_keeps_others(timed, "leftUntilExpire"@, JsonView::Int(seconds), "dataFrom"@);
    assert forall|key: Seq<char>|
        key != "dataFrom"@ && key != "airing"@ && key != "leftUntilExpire"@ implies #[trigger]
        served_from_cache(entity, seconds).get(key) == entity.get(key) by {
        lemma_put_keeps_others(entity, "dataFrom"@, mark, key);
        lemma_put_keeps_others(marked, "airing"@, renewed, key);
        lemma_put_keeps_others(timed, "leftUntilExpire"@, JsonView::Int(seconds), key);
    }
}

/// A washed entity is an object marked as coming from the query service.
pub proof fn lemma_washed_is_fresh(raw: JsonView)
    ensures
        washed_media(raw) is Object,
        washed_media(raw).get("dataFrom"@) == JsonView::Text("API"@),
{
}

/// A miss and then a hit serve the same entity.
///
/// Where a lookup finds nothing in a cache within reach and the query
/// service answers with status 200 and the entity of the id asked for,
/// with some time to live, the lookup serves that entity. A second lookup
/// for the same id, right after, serves it from the cache without asking
/// the query service and leaves the cache as it is; what it serves is the
/// entity as served before, but for the mark of where it comes from, the
/// time left, and the airing schedule.
pub proof fn lemma_miss_then_hit(
    cache: RedisView,
    media_id: int,
    media_type: Seq<char>,
    body: JsonView,
    again: EventView,
)
    requires
        media_type.len() > 0,
        cache.reachable,
        cached_entity(cache, media_id) is None,
        entity_key(washed_media(body)) == Some(request_key(media_id)),
        entity_seconds(washed_media(body)) > 0,
    ensures
        ({
            let upstream = EventView::Fetched { status: 200, body };
            let first = media_reply(cache, media_id, media_type, upstream);
            let after = media_cache(cache, media_id, media_type, upstream);
            let second = media_reply(after, media_id, media_type, again);
            &&& first == served(washed_media(body))
            &&& first.body.get("dataFrom"@) == JsonView::Text("API"@)
            &&& second.status == 200
            &&& second.body == served_from_cache(
                washed_media(body),
                entity_seconds(washed_media(body)),
            )
            &&& second.body.get("dataFrom"@) == JsonView::Text("Cache"@)
            &&& second.body.get("leftUntilExpire"@) == JsonView::Int(
                entity_seconds(washed_media(body)),
            )
            &&& forall|key: Seq<char>|
                key != "dataFrom"@ && key != "airing"@ && key != "leftUntilExpire"@
                    ==> #[trigger] second.body.get(key) == first.body.get(key)
            &&& !media_queried(after, media_id, media_type)
            &&& media_cache(after, media_id, media_type, again) == after
        }),
{
    let entity = washed_media(body);
    lemma_washed_is_fresh(body);
    lemma_served_from_cache(entity, entity_seconds(entity));
}

/// The time left that a hit reports falls with the clock: of two hits on
/// one cached entity, the second `elapsed` seconds after the first, the
/// second reports `elapsed` seconds less.
pub proof fn lemma_time_left_falls(
    cache: RedisView,
    media_id: int,
    media_type: Seq<char>,
    elapsed: nat,
    first: EventView,
    second: EventView,
)
    requires
        media_type.len() > 0,
        cached_entity(cache, media_id) is Some,
        cache.slots[request_key(media_id)].remaining is Some,
        cache.slots[request_key(media_id)].outlasts(elapsed),
    ensures
        ({
            let left = cache.ttl(request_key(media_id));
            let early = media_reply(cache, media_id, media_type, first);
            let late = media_reply(cache.later(elapsed), media_id, media_type, second);
            &&& cache.later(elapsed).ttl(request_key(media_id)) == left - elapsed
            &&& early.body.get("leftUntilExpire"@) == JsonView::Int(left)
            &&& late.body.get("leftUntilExpire"@) == JsonView::Int(left - elapsed)
        }),
{
    let key = request_key(media_id);
    let entity = cached_entity(cache, media_id)->Some_0;
    assert(cached_entity(cache.later(elapsed), media_id) == Some(entity));
    lemma_served_from_cache(entity, cache.ttl(key));
    lemma_served_from_cache(entity, cache.ttl(key) - elapsed);
}

/// The time to live that a miss writes. An entity whose airing schedule
/// has a first entry with a time until airing is cached for exactly that
/// time; an entity without a schedule, or with an empty one, is cached for
/// a day. Where the time is positive the cache then holds the entity under
/// its own key with that time left; where it is not, the entity is gone
/// again at once.
pub proof fn lemma_time_written(
    cache: RedisView,
    media_id: int,
    media_type: Seq<char>,
    body: JsonView,
    key: Seq<char>,
)
    requires
        cache.reachable,
        media_queried(cache, media_id, media_type),
        entity_key(washed_media(body)) == Some(key),
    ensures
        ({
            let entity = washed_media(body);
            let schedule = entity.get("airing"@);
            let after = media_cache(
                cache,
                media_id,
                media_type,
                EventView::Fetched { status: 200, body },
            );
            &&& schedule is List && schedule->List_0.len() > 0 && schedule->List_0[0].get(
                "timeUntilAiring"@,
            ) is Int ==> JsonView::Int(entity_seconds(entity)) == schedule->List_0[0].get(
                "timeUntilAiring"@,
            )
            &&& (!(schedule is List) || schedule->List_0.len() == 0) ==> entity_seconds(entity)
                == DAY_SECONDS
            &&& entity_seconds(entity) > 0 ==> after.get(key) == Ok::<JsonView, CacheError>(entity)
                && after.ttl(key) == entity_seconds(entity)
            &&& entity_seconds(entity) <= 0 ==> !after.slots.contains_key(key)
            &&& forall|other: Seq<char>|
                other != key ==> after.slots.contains_key(other) == cache.slots.contains_key(other)
                    && (cache.slots.contains_key(other) ==> #[trigger] after.slots[other]
                    == cache.slots[other])
        }),
{
}

/// A request without a type is refused with status 400, whatever the
/// cache holds and whatever the query service would answer: the query
/// service is not asked and the cache stays as it is. So is a relation
/// request without a name or without a type.
pub proof fn lemma_missing_field_is_refused(
    cache: RedisView,
    media_id: int,
    media_name: Seq<char>,
    media_type: Seq<char>,
    upstream: EventView,
)
    ensures
        media_type.len() == 0 ==> {
            &&& media_reply(cache, media_id, media_type, upstream) == bad_request(
                "No type was included"@,
            )
            &&& !media_queried(cache, media_id, media_type)
            &&& media_cache(cache, media_id, media_type, upstream) == cache
        },
        media_name.len() == 0 || media_type.len() == 0 ==> {
            &&& relations_reply(media_name, media_type, upstream) == bad_request(
                "No media name or type was included"@,
            )
            &&& !relations_queried(media_name, media_type)
        },
        bad_request("No type was included"@).status == 400,
        bad_request("No type was included"@).body.get("error"@) == JsonView::Text(
            "No type was included"@,
        ),
{
}

/// Where the query service is asked and answers with a status other than
/// 200, the lookup answers with status 400 and that status as the error
/// code, and a media lookup writes nothing to the cache.
pub proof fn lemma_upstream_error_is_surfaced(
    cache: RedisView,
    media_id: int,
    media_name: Seq<char>,
    media_type: Seq<char>,
    status: int,
    body: JsonView,
)
    requires
        status != 200,
    ensures
        upstream_error(status).status == 400,
        upstream_error(status).body.get("errorCode"@) == JsonView::Int(status),
        media_queried(cache, media_id, media_type) ==> {
            &&& media_reply(cache, media_id, media_type, EventView::Fetched { status, body })
                == upstream_error(status)
            &&& media_cache(cache, media_id, media_type, EventView::Fetched { status, body })
                == cache
        },
        relations_queried(media_name, media_type) ==> relations_reply(
            media_name,
            media_type,
            EventView::Fetched { status, body },
        ) == upstream_error(status),
{
}

/// Every entity that a media lookup serves says where it comes from, and
/// says one of two things: from the query service, or from the cache.
pub proof fn lemma_served_says_where_from(
    cache: RedisView,
    media_id: int,
    media_type: Seq<char>,
    upstream: EventView,
)
    ensures
        ({
            let reply = media_reply(cache, media_id, media_type, upstream);
            reply.status == 200 ==> if media_queried(cache, media_id, media_type) {
                reply.body.get("dataFrom"@) == JsonView::Text("API"@)
            } else {
                reply.body.get("dataFrom"@) == JsonView::Text("Cache"@)
            }
        }),
{
    if media_type.len() > 0 {
        match cached_entity(cache, media_id) {
            Some(entity) => {
                lemma_served_from_cache(entity, cache.ttl(request_key(media_id)));
            },
            None => {
                if let EventView::Fetched { status, body } = upstream {
                    lemma_washed_is_fresh(body);
                }
            },
        }
    }
}

} // verus!
