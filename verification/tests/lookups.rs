use media_gateway::cache::{CacheError, Redis};
use media_gateway::gateway::{media_search, relations_search};
use media_gateway::json::{Json, Member};
use media_gateway::lookup::{Action, Event, Lookup, MediaRequest, RelationRequest, Reply};
use media_gateway::wash::wash_media_data;

fn record(members: Vec<(&str, Json)>) -> Json {
    Json::Object(members.into_iter().map(|(key, value)| Member::new(key, value)).collect())
}

fn wants_media(media_id: i32, media_type: &str) -> MediaRequest {
    MediaRequest { media_id, media_type: media_type.to_string() }
}

fn wants_relations(media_name: &str, media_type: &str) -> RelationRequest {
    RelationRequest { media_name: media_name.to_string(), media_type: media_type.to_string() }
}

fn upstream_media(id: i64, nodes: Vec<Json>) -> Json {
    record(vec![(
        "data",
        record(vec![(
            "Media",
            record(vec![
                ("id", Json::Int(id)),
                ("title", record(vec![("romaji", Json::text("Sousou no Frieren"))])),
                ("airingSchedule", record(vec![("nodes", Json::List(nodes))])),
                ("status", Json::text("RELEASING")),
                ("startDate", record(vec![
                    ("year", Json::Int(2023)),
                    ("month", Json::Int(9)),
                    ("day", Json::Int(29)),
                ])),
            ]),
        )]),
    )])
}

fn airs_in(seconds: i64) -> Json {
    record(vec![("timeUntilAiring", Json::Int(seconds)), ("episode", Json::Int(7))])
}

fn fetched(body: Json) -> Event {
    Event::Fetched { status: 200, body }
}

#[test]
fn an_airing_title_is_fetched_cached_until_it_airs_and_then_served_from_the_cache() {
    let mut cache = Redis::new();
    let request = wants_media(101, "anime");
    let raw = upstream_media(101, vec![airs_in(3600)]);
    let entity = wash_media_data(raw.clone());

    let first = media_search(&mut cache, &request, fetched(raw));
    assert!(first.queried);
    assert_eq!(first.reply.status, 200);
    assert_eq!(first.reply.body, entity);
    assert_eq!(first.reply.body.pick("dataFrom"), Json::text("API"));
    assert_eq!(first.reply.body.field("leftUntilExpire"), None);
    assert_eq!(cache.get("101"), Ok(entity.clone()));
    assert_eq!(cache.ttl("101"), Ok(3600));

    cache.advance(25);
    let second = media_search(&mut cache, &request, Event::Failed);
    assert!(!second.queried);
    assert_eq!(second.reply.status, 200);
    assert_eq!(second.reply.body.pick("dataFrom"), Json::text("Cache"));
    assert_eq!(second.reply.body.pick("leftUntilExpire"), Json::Int(3575));
    assert_eq!(
        second.reply.body.pick("airing"),
        Json::List(vec![record(vec![
            ("timeUntilAiring", Json::Int(3575)),
            ("episode", Json::Int(7)),
        ])])
    );
    assert!(second.reply.body.pick("leftUntilExpire").as_int().unwrap() < 3600);
}

#[test]
fn a_miss_and_a_hit_serve_the_same_entity_but_for_three_members() {
    let mut cache = Redis::new();
    let request = wants_media(101, "ANIME");
    let raw = upstream_media(101, vec![airs_in(500), airs_in(605300)]);
    let first = media_search(&mut cache, &request, fetched(raw.clone()));
    let second = media_search(&mut cache, &request, fetched(raw));
    assert!(first.queried);
    assert!(!second.queried);
    for key in [
        "id", "romaji", "averageScore", "meanScore", "banner", "cover", "duration", "episodes",
        "chapters", "volumes", "format", "genres", "popularity", "favourites", "status", "url",
        "endDate", "startDate",
    ] {
        assert_eq!(second.reply.body.field(key), first.reply.body.field(key));
    }
    assert_eq!(first.reply.body.pick("dataFrom"), Json::text("API"));
    assert_eq!(second.reply.body.pick("dataFrom"), Json::text("Cache"));
    assert_eq!(second.reply.body.pick("leftUntilExpire"), Json::Int(500));
    assert_eq!(
        second.reply.body.pick("airing"),
        Json::List(vec![airs_in(500), airs_in(605300)])
    );
}

#[test]
fn two_hits_some_seconds_apart_differ_by_those_seconds() {
    let mut cache = Redis::new();
    let request = wants_media(9, "manga");
    media_search(&mut cache, &request, fetched(upstream_media(9, vec![airs_in(1000)])));
    cache.advance(100);
    let early = media_search(&mut cache, &request, Event::Failed);
    cache.advance(250);
    let late = media_search(&mut cache, &request, Event::Failed);
    assert_eq!(early.reply.body.pick("leftUntilExpire"), Json::Int(900));
    assert_eq!(late.reply.body.pick("leftUntilExpire"), Json::Int(650));
}

#[test]
fn a_title_that_is_not_airing_is_cached_for_a_day() {
    let mut cache = Redis::new();
    let request = wants_media(33, "anime");
    let served = media_search(&mut cache, &request, fetched(upstream_media(33, vec![])));
    assert_eq!(served.reply.status, 200);
    assert_eq!(cache.ttl("33"), Ok(86400));
    cache.advance(86399);
    assert!(!media_search(&mut cache, &request, Event::Failed).queried);
    cache.advance(1);
    let after = media_search(&mut cache, &request, Event::Failed);
    assert!(after.queried);
    assert_eq!(after.reply, Reply::unavailable());
}

#[test]
fn a_cached_title_is_fetched_again_once_it_has_aired() {
    let mut cache = Redis::new();
    let request = wants_media(101, "anime");
    media_search(&mut cache, &request, fetched(upstream_media(101, vec![airs_in(60)])));
    cache.advance(60);
    let again = media_search(&mut cache, &request, fetched(upstream_media(101, vec![airs_in(604800)])));
    assert!(again.queried);
    assert_eq!(again.reply.body.pick("dataFrom"), Json::text("API"));
    assert_eq!(cache.ttl("101"), Ok(604800));
}

#[test]
fn a_title_whose_episode_has_aired_already_is_served_and_not_kept() {
    let mut cache = Redis::new();
    let request = wants_media(101, "anime");
    let served = media_search(&mut cache, &request, fetched(upstream_media(101, vec![airs_in(-30)])));
    assert_eq!(served.reply.status, 200);
    assert_eq!(cache.get("101"), Err(CacheError::NotFound));
    let served = media_search(&mut cache, &request, fetched(upstream_media(101, vec![airs_in(0)])));
    assert_eq!(served.reply.status, 200);
    assert_eq!(cache.get("101"), Err(CacheError::NotFound));
}

#[test]
fn an_entity_is_cached_under_its_own_id_not_the_one_asked_for() {
    let mut cache = Redis::new();
    let served = media_search(&mut cache, &wants_media(7, "anime"), fetched(upstream_media(101, vec![])));
    assert_eq!(served.reply.body.pick("id"), Json::Int(101));
    assert_eq!(cache.get("7"), Err(CacheError::NotFound));
    assert!(cache.get("101").is_ok());
    assert!(media_search(&mut cache, &wants_media(7, "anime"), Event::Failed).queried);
    assert!(!media_search(&mut cache, &wants_media(101, "anime"), Event::Failed).queried);
}

#[test]
fn a_media_request_without_a_type_gets_400_and_asks_nobody() {
    let mut cache = Redis::new();
    cache.set("101", record(vec![("id", Json::Int(101))])).unwrap();
    let served = media_search(&mut cache, &wants_media(101, ""), fetched(upstream_media(101, vec![])));
    assert!(!served.queried);
    assert_eq!(served.reply.status, 400);
    assert_eq!(served.reply.body, record(vec![("error", Json::text("No type was included"))]));
    assert_eq!(cache.ttl("101"), Ok(-1));
}

#[test]
fn a_refused_request_never_reaches_the_query_service() {
    let mut queries = 0;
    let (mut state, mut action) = Lookup::media(&wants_media(101, ""));
    let reply = loop {
        let event = match action {
            Action::Respond(reply) => break reply,
            Action::Query { .. } => {
                queries += 1;
                Event::Failed
            }
            _ => Event::Failed,
        };
        (state, action) = state.step(event);
    };
    assert_eq!(queries, 0);
    assert_eq!(reply.status, 400);
    let mut queries = 0;
    let (mut state, mut action) = Lookup::relations(&wants_relations("frieren", ""));
    let reply = loop {
        let event = match action {
            Action::Respond(reply) => break reply,
            Action::Query { .. } => {
                queries += 1;
                Event::Failed
            }
            _ => Event::Failed,
        };
        (state, action) = state.step(event);
    };
    assert_eq!(queries, 0);
    assert_eq!(reply.status, 400);
}

#[test]
fn an_upstream_500_gives_400_with_the_code_and_writes_nothing() {
    let mut cache = Redis::new();
    cache.set("55", record(vec![("id", Json::Int(55))])).unwrap();
    let served = media_search(
        &mut cache,
        &wants_media(101, "anime"),
        Event::Fetched { status: 500, body: upstream_media(101, vec![]) },
    );
    assert!(served.queried);
    assert_eq!(served.reply.status, 400);
    assert_eq!(served.reply.body.pick("errorCode"), Json::Int(500));
    assert_eq!(served.reply.body.pick("error"), Json::text("Request returned an error"));
    assert_eq!(cache.get("101"), Err(CacheError::NotFound));
    assert_eq!(cache.get("55"), Ok(record(vec![("id", Json::Int(55))])));
}

#[test]
fn a_query_service_out_of_reach_gives_503_and_writes_nothing() {
    let mut cache = Redis::new();
    let served = media_search(&mut cache, &wants_media(101, "anime"), Event::Failed);
    assert!(served.queried);
    assert_eq!(served.reply, Reply::unavailable());
    assert_eq!(cache.get("101"), Err(CacheError::NotFound));
}

#[test]
fn a_cache_out_of_reach_degrades_to_always_miss() {
    let mut cache = Redis::new();
    cache.set_reachable(false);
    let request = wants_media(101, "anime");
    let raw = upstream_media(101, vec![airs_in(3600)]);
    let first = media_search(&mut cache, &request, fetched(raw.clone()));
    let second = media_search(&mut cache, &request, fetched(raw.clone()));
    assert!(first.queried && second.queried);
    assert_eq!(first.reply, Reply::served(wash_media_data(raw.clone())));
    assert_eq!(second.reply, Reply::served(wash_media_data(raw)));
    cache.set_reachable(true);
    assert_eq!(cache.get("101"), Err(CacheError::NotFound));
}

#[test]
fn a_cached_document_that_is_no_entity_is_fetched_anew() {
    let mut cache = Redis::new();
    cache.set("101", Json::text("garbage")).unwrap();
    let served = media_search(&mut cache, &wants_media(101, "anime"), fetched(upstream_media(101, vec![])));
    assert!(served.queried);
    assert_eq!(served.reply.body.pick("dataFrom"), Json::text("API"));
    assert_eq!(cache.ttl("101"), Ok(86400));
}

#[test]
fn an_entity_without_an_integer_id_is_served_and_not_cached() {
    let mut cache = Redis::new();
    let raw = record(vec![("data", record(vec![("Media", record(vec![("id", Json::text("101"))]))]))]);
    let served = media_search(&mut cache, &wants_media(101, "anime"), fetched(raw));
    assert_eq!(served.reply.status, 200);
    assert_eq!(served.reply.body.pick("id"), Json::text("101"));
    assert_eq!(cache.get("101"), Err(CacheError::NotFound));
}

#[test]
fn relations_are_fetched_washed_and_never_cached() {
    let body = record(vec![(
        "data",
        record(vec![(
            "Page",
            record(vec![(
                "media",
                Json::List(vec![
                    record(vec![("id", Json::Int(1)), ("type", Json::text("ANIME"))]),
                    record(vec![("id", Json::Int(2)), ("type", Json::text("MANGA"))]),
                ]),
            )]),
        )]),
    )]);
    let request = wants_relations("frieren", "anime");
    let first = relations_search(&request, fetched(body.clone()));
    let second = relations_search(&request, fetched(body));
    assert!(first.queried && second.queried);
    assert_eq!(first.reply, second.reply);
    assert_eq!(first.reply.status, 200);
    let relations = first.reply.body.pick("relations");
    let listed = relations.items().unwrap();
    assert_eq!(listed.len(), 2);
    assert_eq!(listed[0].pick("id"), Json::Int(1));
    assert_eq!(listed[1].pick("id"), Json::Int(2));
    assert_eq!(listed[1].pick("dataFrom"), Json::text("API"));
}

#[test]
fn relations_without_a_name_or_a_type_get_400_and_ask_nobody() {
    for (name, kind) in [("", "anime"), ("frieren", "")] {
        let served = relations_search(&wants_relations(name, kind), fetched(Json::Null));
        assert!(!served.queried);
        assert_eq!(served.reply, Reply::bad_request("No media name or type was included"));
    }
}

#[test]
fn relations_surface_an_upstream_error_and_an_unreachable_service() {
    let request = wants_relations("frieren", "anime");
    let failed = relations_search(&request, Event::Fetched { status: 500, body: Json::Null });
    assert_eq!(failed.reply.status, 400);
    assert_eq!(failed.reply.body.pick("errorCode"), Json::Int(500));
    assert_eq!(relations_search(&request, Event::Failed).reply, Reply::unavailable());
}

#[test]
fn relations_of_an_empty_upstream_list_are_an_empty_list() {
    let body = record(vec![("data", record(vec![("Page", record(vec![("media", Json::List(vec![]))]))]))]);
    let served = relations_search(&wants_relations("nothing", "anime"), fetched(body));
    assert_eq!(served.reply, Reply { status: 200, body: record(vec![("relations", Json::List(vec![]))]) });
}

fn perform(cache: &mut Redis, action: Action, upstream: Json) -> Event {
    match action {
        Action::ReadCache { key } => Event::Cached(cache.get(&key).ok()),
        Action::ReadTtl { key } => match cache.ttl(&key) {
            Ok(seconds) => Event::Ttl(seconds),
            Err(_) => Event::Failed,
        },
        Action::Query { .. } => fetched(upstream),
        Action::WriteCache { key, value, seconds } => {
            let _ = cache.set(&key, value);
            let _ = cache.expire(&key, seconds);
            Event::Stored
        }
        Action::Respond(_) | Action::Halt => Event::Failed,
    }
}

#[test]
fn two_lookups_that_both_miss_both_fetch_and_the_last_write_stays() {
    let mut cache = Redis::new();
    let early = upstream_media(101, vec![airs_in(100)]);
    let late = upstream_media(101, vec![airs_in(200)]);
    let (one, asks_one) = Lookup::media(&wants_media(101, "anime"));
    let (two, asks_two) = Lookup::media(&wants_media(101, "anime"));
    let (one, asks_one) = one.step(perform(&mut cache, asks_one, Json::Null));
    let (two, asks_two) = two.step(perform(&mut cache, asks_two, Json::Null));
    assert!(matches!(asks_one, Action::Query { .. }));
    assert!(matches!(asks_two, Action::Query { .. }));
    let (one, asks_one) = one.step(perform(&mut cache, asks_one, early.clone()));
    let (two, asks_two) = two.step(perform(&mut cache, asks_two, late.clone()));
    assert!(matches!(asks_one, Action::WriteCache { .. }));
    assert!(matches!(asks_two, Action::WriteCache { .. }));
    let (_, answers_one) = one.step(perform(&mut cache, asks_one, Json::Null));
    let (_, answers_two) = two.step(perform(&mut cache, asks_two, Json::Null));
    assert_eq!(answers_one, Action::Respond(Reply::served(wash_media_data(early))));
    assert_eq!(answers_two, Action::Respond(Reply::served(wash_media_data(late.clone()))));
    assert_eq!(cache.get("101"), Ok(wash_media_data(late)));
    assert_eq!(cache.ttl("101"), Ok(200));
}

#[test]
fn running_the_steps_by_hand_gives_what_the_lookup_gives() {
    let raw = upstream_media(101, vec![airs_in(3600)]);
    let mut by_hand = Redis::new();
    let (mut state, mut action) = Lookup::media(&wants_media(101, "anime"));
    let reply = loop {
        if let Action::Respond(reply) = action {
            break reply;
        }
        let event = perform(&mut by_hand, action, raw.clone());
        (state, action) = state.step(event);
    };
    let mut at_once = Redis::new();
    let served = media_search(&mut at_once, &wants_media(101, "anime"), fetched(raw));
    assert_eq!(served.reply, reply);
    assert_eq!(at_once.get("101"), by_hand.get("101"));
    assert_eq!(at_once.ttl("101"), by_hand.ttl("101"));
}
