//! Washing: the projection of a raw upstream document onto the stable
//! shape that the gateway serves and caches.

use vstd::prelude::*;
use crate::json::{
    lemma_list_view, lemma_object_view, list_view, members_view, position, Json, JsonView, Member,
};
use crate::text::{decimal, decimal_text};

verus! {

/// One segment of a date: an integer in decimal, anything else as `null`.
pub open spec fn date_segment(part: JsonView) -> Seq<char> {
    match part {
        JsonView::Int(n) => decimal_text(n),
        _ => "null"@,
    }
}

/// A date as `day/month/year`, each segment taken from the member of that
/// name. A date that is missing altogether reads `null/null/null`.
pub open spec fn date_text(date: JsonView) -> Seq<char> {
    date_segment(date.get("day"@)) + "/"@ + date_segment(date.get("month"@)) + "/"@
        + date_segment(date.get("year"@))
}

/// The washed form of a raw media document: the members of `data.Media`
/// under their stable names, the two dates as text, and the mark that the
/// entity comes from the query service.
pub open spec fn washed_media(raw: JsonView) -> JsonView {
    let data = raw.get("data"@).get("Media"@);
    JsonView::Object(
        seq![
            ("id"@, data.get("id"@)),
            ("romaji"@, data.get("title"@).get("romaji"@)),
            ("airing"@, data.get("airingSchedule"@).get("nodes"@)),
            ("averageScore"@, data.get("averageScore"@)),
            ("meanScore"@, data.get("meanScore"@)),
            ("banner"@, data.get("bannerImage"@)),
            ("cover"@, data.get("coverImage"@)),
            ("duration"@, data.get("duration"@)),
            ("episodes"@, data.get("episodes"@)),
            ("chapters"@, data.get("chapters"@)),
            ("volumes"@, data.get("volumes"@)),
            ("format"@, data.get("format"@)),
            ("genres"@, data.get("genres"@)),
            ("popularity"@, data.get("popularity"@)),
            ("favourites"@, data.get("favourites"@)),
            ("status"@, data.get("status"@)),
            ("url"@, data.get("siteUrl"@)),
            ("endDate"@, JsonView::Text(date_text(data.get("endDate"@)))),
            ("startDate"@, JsonView::Text(date_text(data.get("startDate"@)))),
            ("dataFrom"@, JsonView::Text("API"@)),
        ],
    )
}

/// The washed form of one related title.
pub open spec fn washed_relation(raw: JsonView) -> JsonView {
    JsonView::Object(
        seq![
            ("id"@, raw.get("id"@)),
            ("romaji"@, raw.get("title"@).get("romaji"@)),
            ("english"@, raw.get("title"@).get("english"@)),
            ("native"@, raw.get("title"@).get("native"@)),
            ("synonyms"@, raw.get("synonyms"@)),
            ("type"@, raw.get("type"@)),
            ("dataFrom"@, JsonView::Text("API"@)),
        ],
    )
}

/// The titles listed under `data.Page.media`; none where that is no list.
pub open spec fn listed_relations(raw: JsonView) -> Seq<JsonView> {
    match raw.get("data"@).get("Page"@).get("media"@) {
        JsonView::List(items) => items,
        _ => Seq::empty(),
    }
}

/// The washed form of a raw relations document: every listed title washed,
/// in the order in which it was listed.
pub open spec fn washed_relations(raw: JsonView) -> JsonView {
    JsonView::Object(
        seq![
            (
                "relations"@,
                JsonView::List(
                    Seq::new(
                        listed_relations(raw).len(),
                        |i: int| washed_relation(listed_relations(raw)[i]),
                    ),
                ),
            ),
        ],
    )
}

/// A washed entity has the id and the airing schedule of the raw
/// document: its `id` is `data.Media.id`, and its `airing` is
/// `data.Media.airingSchedule.nodes`.
pub proof fn lemma_washed_members(raw: JsonView)
    ensures
        washed_media(raw).get("id"@) == raw.get("data"@).get("Media"@).get("id"@),
        washed_media(raw).get("airing"@) == raw.get("data"@).get("Media"@).get(
            "airingSchedule"@,
        ).get("nodes"@),
{
    reveal_strlit("id");
    reveal_strlit("romaji");
    reveal_strlit("airing");
    reveal_strlit("averageScore");
    reveal_strlit("meanScore");
    reveal_strlit("banner");
    reveal_strlit("cover");
    reveal_strlit("duration");
    reveal_strlit("episodes");
    reveal_strlit("chapters");
    reveal_strlit("volumes");
    reveal_strlit("format");
    reveal_strlit("genres");
    reveal_strlit("popularity");
    reveal_strlit("favourites");
    reveal_strlit("status");
    reveal_strlit("url");
    reveal_strlit("endDate");
    reveal_strlit("startDate");
    reveal_strlit("dataFrom");
    let members = washed_media(raw)->Object_0;
    assert(members.len() == 20);
    assert forall|i: int| 0 < i < 20 implies (#[trigger] members[i]).0 != "id"@ by {
        assert(members[i].0.len() != 2);
    }
    assert forall|i: int| 2 < i < 20 implies (#[trigger] members[i]).0 != "airing"@ by {
        assert(members[i].0.len() != 6 || members[i].0[0] != 'a');
    }
    lemma_only_position(members, "id"@, 0);
    lemma_only_position(members, "airing"@, 2);
}

/// A key that stands at `at` and nowhere behind it has its position there.
proof fn lemma_only_position(members: Seq<(Seq<char>, JsonView)>, key: Seq<char>, at: int)
    requires
        0 <= at < members.len(),
        members[at].0 == key,
        forall|i: int| at < i < members.len() ==> (#[trigger] members[i]).0 != key,
    ensures
        position(members, key) == at,
    decreases members.len(),
{
    if at < members.len() - 1 {
        lemma_only_position(members.drop_last(), key, at);
    }
}

/// The value of a document that may be missing: `Null` where it is.
pub open spec fn value_of(found: Option<&Json>) -> JsonView {
    match found {
        Some(document) => document@,
        None => JsonView::Null,
    }
}

/// The member under `key` of a document that may be missing.
fn under<'a>(from: Option<&'a Json>, key: &str) -> (found: Option<&'a Json>)
    ensures
        value_of(found) == value_of(from).get(key@),
{
    match from {
        Some(document) => document.field(key),
        None => None,
    }
}

/// A copy of the member under `key` of a document that may be missing.
fn copied(from: Option<&Json>, key: &str) -> (out: Json)
    ensures
        out@ == value_of(from).get(key@),
{
    match under(from, key) {
        Some(document) => document.clone(),
        None => Json::Null,
    }
}

fn segment(from: Option<&Json>, key: &str) -> (out: String)
    ensures
        out@ == date_segment(value_of(from).get(key@)),
{
    match under(from, key) {
        Some(Json::Int(n)) => decimal(*n),
        _ => String::from_str("null"),
    }
}

fn date(from: Option<&Json>) -> (out: Json)
    ensures
        out@ == JsonView::Text(date_text(value_of(from))),
{
    let mut text: String = segment(from, "day");
    text.append("/");
    let month: String = segment(from, "month");
    text.append(month.as_str());
    text.append("/");
    let year: String = segment(from, "year");
    text.append(year.as_str());
    Json::Text(text)
}

/// Washes a raw media document.
///
/// The result is total: a member that the raw document lacks is `Null` in
/// the entity, and a date segment that is no integer reads `null`.
pub fn wash_media_data(media_data: Json) -> (washed: Json)
    ensures
        washed@ == washed_media(media_data@),
{
    let data: Option<&Json> = under(under(Some(&media_data), "data"), "Media");
    let title: Option<&Json> = under(data, "title");
    let schedule: Option<&Json> = under(data, "airingSchedule");
    let mut members: Vec<Member> = Vec::new();
    members.push(Member::new("id", copied(data, "id")));
    members.push(Member::new("romaji", copied(title, "romaji")));
    members.push(Member::new("airing", copied(schedule, "nodes")));
    members.push(Member::new("averageScore", copied(data, "averageScore")));
    members.push(Member::new("meanScore", copied(data, "meanScore")));
    members.push(Member::new("banner", copied(data, "bannerImage")));
    members.push(Member::new("cover", copied(data, "coverImage")));
    members.push(Member::new("duration", copied(data, "duration")));
    members.push(Member::new("episodes", copied(data, "episodes")));
    members.push(Member::new("chapters", copied(data, "chapters")));
    members.push(Member::new("volumes", copied(data, "volumes")));
    members.push(Member::new("format", copied(data, "format")));
    members.push(Member::new("genres", copied(data, "genres")));
    members.push(Member::new("popularity", copied(data, "popularity")));
    members.push(Member::new("favourites", copied(data, "favourites")));
    members.push(Member::new("status", copied(data, "status")));
    members.push(Member::new("url", copied(data, "siteUrl")));
    members.push(Member::new("endDate", date(under(data, "endDate"))));
    members.push(Member::new("startDate", date(under(data, "startDate"))));
    members.push(Member::new("dataFrom", Json::text("API")));
    proof {
        lemma_object_view(members);
        assert(members_view(members@) =~= washed_media(media_data@)->Object_0);
    }
    Json::Object(members)
}

fn wash_relation(raw: &Json) -> (washed: Json)
    ensures
        washed@ == washed_relation(raw@),
{
    let from: Option<&Json> = Some(raw);
    let title: Option<&Json> = under(from, "title");
    let mut members: Vec<Member> = Vec::new();
    members.push(Member::new("id", copied(from, "id")));
    members.push(Member::new("romaji", copied(title, "romaji")));
    members.push(Member::new("english", copied(title, "english")));
    members.push(Member::new("native", copied(title, "native")));
    members.push(Member::new("synonyms", copied(from, "synonyms")));
    members.push(Member::new("type", copied(from, "type")));
    members.push(Member::new("dataFrom", Json::text("API")));
    proof {
        lemma_object_view(members);
        assert(members_view(members@) =~= washed_relation(raw@)->Object_0);
    }
    Json::Object(members)
}

/// Washes a raw relations document.
///
/// The result is total: where the raw document lists no titles, or holds
/// no list at all, the relations are empty.
pub fn wash_relation_data(relation_data: Json) -> (washed: Json)
    ensures
        washed@ == washed_relations(relation_data@),
{
    let listed: Option<&Json> = under(under(under(Some(&relation_data), "data"), "Page"), "media");
    let mut relation_list: Vec<Json> = Vec::new();
    let ghost titles = listed_relations(relation_data@);
    match listed {
        Some(Json::List(items)) => {
            proof {
                lemma_list_view(*items);
            }
            let mut i: usize = 0;
            while i < items.len()
                invariant
                    i <= items.len(),
                    titles == list_view(items@),
                    relation_list@.len() == i,
                    forall|j: int| 0 <= j < i ==> relation_list@[j]@ == washed_relation(titles[j]),
                decreases items.len() - i,
            {
                let washed_relation: Json = wash_relation(&items[i]);
                relation_list.push(washed_relation);
                i += 1;
            }
        },
        _ => {},
    }
    let mut members: Vec<Member> = Vec::new();
    proof {
        lemma_list_view(relation_list);
        assert(list_view(relation_list@) =~= Seq::new(
            titles.len(),
            |i: int| washed_relation(titles[i]),
        ));
    }
    members.push(Member::new("relations", Json::List(relation_list)));
    proof {
        lemma_object_view(members);
        assert(members_view(members@) =~= washed_relations(relation_data@)->Object_0);
    }
    Json::Object(members)
}

} // verus!
