//! Price schedules.

use vstd::prelude::*;
use vstd::string::*;
use crate::api::{link, link_view, reference, reference_view};
use crate::app_store::requests::{insert_optional, no_members, with_text, MembersView};
use crate::app_store::resolve::{same_optional, ResolveContext};
use crate::app_store::resources::{find_with, first_with, RemoteResource};
use crate::config::{PriceScheduleEntrySpec, StringSource};
use crate::json::{array, array_view, member, text, Json, JsonView, Members};
use crate::ordered::{same_texts, text_map, OrderedMap};
use crate::text::{as_deref, cat3, decimal, decimal_text, failure, owned, same, Error};

verus! {

/// A price schedule with its price points found.
#[derive(Debug)]
pub struct ResolvedPriceSchedule {
    pub base_territory: String,
    pub entries: Vec<ResolvedPriceEntry>,
}

/// One span of a price schedule.
#[derive(Debug)]
pub struct ResolvedPriceEntry {
    pub start_date: Option<String>,
    pub end_date: Option<String>,
    pub territory: String,
    pub price_point_id: String,
    pub territory_prices: OrderedMap<String>,
}

/// What one span holds.
pub struct PriceEntryView {
    pub start_date: Option<Seq<char>>,
    pub end_date: Option<Seq<char>>,
    pub territory: Seq<char>,
    pub price_point_id: Seq<char>,
    pub territory_prices: Map<Seq<char>, Seq<char>>,
}

/// What a price schedule holds.
pub struct PriceScheduleView {
    pub base_territory: Seq<char>,
    pub entries: Seq<PriceEntryView>,
}

impl View for ResolvedPriceEntry {
    type V = PriceEntryView;

    open spec fn view(&self) -> PriceEntryView {
        PriceEntryView {
            start_date: owned(self.start_date),
            end_date: owned(self.end_date),
            territory: self.territory@,
            price_point_id: self.price_point_id@,
            territory_prices: text_map(self.territory_prices@),
        }
    }
}

impl View for ResolvedPriceSchedule {
    type V = PriceScheduleView;

    open spec fn view(&self) -> PriceScheduleView {
        PriceScheduleView {
            base_territory: self.base_territory@,
            entries: self.entries@.map_values(|entry: ResolvedPriceEntry| entry@),
        }
    }
}

fn same_entry(a: &ResolvedPriceEntry, b: &ResolvedPriceEntry) -> (result: bool)
    ensures
        result == (a@ == b@),
{
    same_optional(&a.start_date, &b.start_date) && same_optional(&a.end_date, &b.end_date) && same(
        a.territory.as_str(),
        b.territory.as_str(),
    ) && same(a.price_point_id.as_str(), b.price_point_id.as_str()) && same_texts(
        &a.territory_prices,
        &b.territory_prices,
    )
}

impl ResolvedPriceSchedule {
    /// Whether two schedules are the same.
    pub fn matches(&self, other: &ResolvedPriceSchedule) -> (result: bool)
        ensures
            result == (self@ == other@),
    {
        if !same(self.base_territory.as_str(), other.base_territory.as_str()) || self.entries.len()
            != other.entries.len() {
            proof {
                if self@ == other@ {
                    assert(self@.entries.len() == other@.entries.len());
                }
            }
            return false;
        }
        let ghost a = self@.entries;
        let ghost b = other@.entries;
        let mut i: usize = 0;
        while i < self.entries.len()
            invariant
                i <= self.entries.len() == other.entries.len(),
                a == self.entries@.map_values(|entry: ResolvedPriceEntry| entry@),
                b == other.entries@.map_values(|entry: ResolvedPriceEntry| entry@),
                a == self@.entries,
                b == other@.entries,
                forall|k: int| 0 <= k < i ==> a[k] == b[k],
            decreases self.entries.len() - i,
        {
            proof {
                assert(a[i as int] == self.entries@[i as int]@);
                assert(b[i as int] == other.entries@[i as int]@);
            }
            if !same_entry(&self.entries[i], &other.entries[i]) {
                return false;
            }
            i += 1;
        }
        proof {
            assert(a =~= b);
        }
        true
    }
}

/// How a price point is found: it is named, or it has to be looked up by its price.
#[derive(Debug)]
pub enum PricePoint {
    Known(String),
    Lookup(String),
}

/// How the price point of a price is found.
pub fn price_point(
    context: &ResolveContext,
    price: &Option<StringSource>,
    price_point_id: Option<&str>,
) -> (result: Result<PricePoint, Error>)
    requires
        price is Some || price_point_id is Some,
    ensures
        match price_point_id {
            Some(id) => result matches Ok(PricePoint::Known(found)) && found@ == id@,
            None => match context.text_of(price->0) {
                Ok(value) => result matches Ok(PricePoint::Lookup(found)) && found@ == value,
                Err(message) => result matches Err(error) && error@ == message,
            },
        },
{
    if let Some(id) = price_point_id {
        return Ok(PricePoint::Known(id.to_owned()));
    }
    match price {
        Some(source) => match context.resolve_string(source) {
            Ok(value) => Ok(PricePoint::Lookup(value)),
            Err(error) => Err(error),
        },
        None => Err(failure(String::new())),
    }
}

/// The price point of a price in a territory, among those that the API listed.
pub fn resolve_app_price_point_id(
    app_name: &str,
    territory: &str,
    price: &str,
    points: &Vec<RemoteResource>,
) -> (result: Result<String, Error>)
    ensures
        match first_with(points@, "customerPrice"@, price@, 0) {
            Some(point) => result matches Ok(id) && id@ == point.id@,
            None => result matches Err(error) && error@ == "no app price point found for app "@
                + app_name@ + " territory "@ + territory@ + " customer price "@ + price@,
        },
{
    match find_with(points, "customerPrice", price) {
        Some(point) => Ok(point.id.clone()),
        None => Err(
            failure(
                cat3("no app price point found for app ", app_name, " territory ").concat(
                    territory,
                ).concat(" customer price ").concat(price),
            ),
        ),
    }
}

/// What is said of a territory price that was not found.
pub fn territory_price_context(index: usize, territory: &str) -> (message: String)
    ensures
        message@ == "failed to resolve app pricing schedule["@ + decimal(index as nat)
            + "] territory "@ + territory@,
{
    cat3(
        "failed to resolve app pricing schedule[",
        decimal_text(index as u64).as_str(),
        "] territory ",
    ).concat(territory)
}

fn copy_optional(value: &Option<String>) -> (copy: Option<String>)
    ensures
        owned(copy) == owned(*value),
{
    match value {
        Some(found) => Some(found.clone()),
        None => None,
    }
}

/// One span of a price schedule, with the price points that were found.
pub fn resolve_app_price_entry(
    base_territory: &str,
    entry: &PriceScheduleEntrySpec,
    price_point_id: String,
    territory_prices: OrderedMap<String>,
) -> (resolved: ResolvedPriceEntry)
    ensures
        resolved@.start_date == owned(entry.start_date),
        resolved@.end_date == owned(entry.end_date),
        resolved@.territory == base_territory@,
        resolved@.price_point_id == price_point_id@,
        resolved@.territory_prices == text_map(territory_prices@),
{
    ResolvedPriceEntry {
        start_date: copy_optional(&entry.start_date),
        end_date: copy_optional(&entry.end_date),
        territory: base_territory.to_owned(),
        price_point_id,
        territory_prices,
    }
}

/// The first included territory.
pub open spec fn base_of(included: Seq<RemoteResource>, i: int) -> Seq<char>
    decreases included.len() - i,
{
    if i < 0 || i >= included.len() {
        seq![]
    } else if included[i].kind@ == "territories"@ {
        included[i].id@
    } else {
        base_of(included, i + 1)
    }
}

/// The included prices that name a territory and a price point, among the first `n`.
pub open spec fn prices_of(included: Seq<RemoteResource>, n: nat) -> Seq<PriceEntryView>
    decreases n,
{
    if n == 0 || n > included.len() {
        seq![]
    } else {
        let before = prices_of(included, (n - 1) as nat);
        let price = included[n - 1];
        match (price.related_id("territory"@), price.related_id("appPricePoint"@)) {
            (Some(territory), Some(point)) => if price.kind@ == "appPrices"@ {
                before.push(
                    PriceEntryView {
                        start_date: price.text_of("startDate"@),
                        end_date: price.text_of("endDate"@),
                        territory,
                        price_point_id: point,
                        territory_prices: Map::empty(),
                    },
                )
            } else {
                before
            },
            _ => before,
        }
    }
}

/// The price schedule that the API told of.
pub fn price_schedule_from_included(included: &Vec<RemoteResource>) -> (schedule:
    ResolvedPriceSchedule)
    ensures
        schedule@.base_territory == base_of(included@, 0),
        schedule@.entries == prices_of(included@, included@.len()),
{
    let base_territory = first_territory(included);
    let mut entries: Vec<ResolvedPriceEntry> = Vec::new();
    let mut i: usize = 0;
    proof {
        assert(entries@.map_values(|entry: ResolvedPriceEntry| entry@) =~= Seq::<
            PriceEntryView,
        >::empty());
    }
    while i < included.len()
        invariant
            i <= included.len(),
            entries@.map_values(|entry: ResolvedPriceEntry| entry@) == prices_of(
                included@,
                i as nat,
            ),
        decreases included.len() - i,
    {
        let price = &included[i];
        let ghost before = entries@.map_values(|entry: ResolvedPriceEntry| entry@);
        if same(price.kind.as_str(), "appPrices") {
            match (price.relationship_id("territory"), price.relationship_id("appPricePoint")) {
                (Some(territory), Some(point)) => {
                    let start_date = match price.attr_str("startDate") {
                        Some(date) => Some(date.to_owned()),
                        None => None,
                    };
                    let end_date = match price.attr_str("endDate") {
                        Some(date) => Some(date.to_owned()),
                        None => None,
                    };
                    let entry = ResolvedPriceEntry {
                        start_date,
                        end_date,
                        territory,
                        price_point_id: point,
                        territory_prices: OrderedMap::new(),
                    };
                    proof {
                        assert(entry@.territory_prices =~= Map::<Seq<char>, Seq<char>>::empty());
                    }
                    let ghost view = entry@;
                    entries.push(entry);
                    proof {
                        assert(entries@.map_values(|entry: ResolvedPriceEntry| entry@)
                            =~= before.push(view));
                    }
                },
                _ => {},
            }
        }
        i += 1;
    }
    ResolvedPriceSchedule { base_territory, entries }
}

fn first_territory(included: &Vec<RemoteResource>) -> (id: String)
    ensures
        id@ == base_of(included@, 0),
{
    let mut i: usize = 0;
    while i < included.len()
        invariant
            i <= included.len(),
            base_of(included@, 0) == base_of(included@, i as int),
        decreases included.len() - i,
    {
        if same(included[i].kind.as_str(), "territories") {
            return included[i].id.clone();
        }
        i += 1;
    }
    let id = String::new();
    proof {
        assert(id@ =~= base_of(included@, i as int));
    }
    id
}

/// One price of a schedule, as it is sent.
#[derive(Debug)]
pub struct PriceRow {
    pub id: String,
    pub start_date: Option<String>,
    pub end_date: Option<String>,
    pub territory: String,
    pub price_point_id: String,
}

/// What one price holds.
pub struct PriceRowView {
    pub id: Seq<char>,
    pub start_date: Option<Seq<char>>,
    pub end_date: Option<Seq<char>>,
    pub territory: Seq<char>,
    pub price_point_id: Seq<char>,
}

impl View for PriceRow {
    type V = PriceRowView;

    open spec fn view(&self) -> PriceRowView {
        PriceRowView {
            id: self.id@,
            start_date: owned(self.start_date),
            end_date: owned(self.end_date),
            territory: self.territory@,
            price_point_id: self.price_point_id@,
        }
    }
}

/// The id by which a price is referred to within one request.
pub open spec fn row_id(index: nat, territory: Seq<char>) -> Seq<char> {
    "manual-price-"@ + decimal(index) + "-"@ + territory
}

/// The price of a span in one territory.
pub open spec fn row_of(
    index: nat,
    entry: ResolvedPriceEntry,
    territory: Seq<char>,
    point: Seq<char>,
) -> PriceRowView {
    PriceRowView {
        id: row_id(index, territory),
        start_date: owned(entry.start_date),
        end_date: owned(entry.end_date),
        territory,
        price_point_id: point,
    }
}

/// The prices of a span in the territories that have their own, among the first `n`.
pub open spec fn territory_rows(index: nat, entry: ResolvedPriceEntry, n: nat) -> Seq<PriceRowView>
    decreases n,
{
    let prices = entry.territory_prices.entries();
    if n == 0 || n > prices.len() {
        seq![]
    } else {
        territory_rows(index, entry, (n - 1) as nat).push(
            row_of(index, entry, prices[n - 1].0, prices[n - 1].1@),
        )
    }
}

/// The prices of the first `n` spans: each in its own territory first.
pub open spec fn schedule_rows(entries: Seq<ResolvedPriceEntry>, n: nat) -> Seq<PriceRowView>
    decreases n,
{
    if n == 0 || n > entries.len() {
        seq![]
    } else {
        let index = (n - 1) as nat;
        let entry = entries[n - 1];
        schedule_rows(entries, index).push(
            row_of(index, entry, entry.territory@, entry.price_point_id@),
        ) + territory_rows(index, entry, entry.territory_prices.entries().len())
    }
}

/// The views of a list of prices.
pub open spec fn row_views(rows: Seq<PriceRow>) -> Seq<PriceRowView> {
    rows.map_values(|row: PriceRow| row@)
}

fn row(index: usize, entry: &ResolvedPriceEntry, territory: &str, point: &str) -> (row: PriceRow)
    ensures
        row@ == row_of(index as nat, *entry, territory@, point@),
{
    PriceRow {
        id: cat3("manual-price-", decimal_text(index as u64).as_str(), "-").concat(territory),
        start_date: copy_optional(&entry.start_date),
        end_date: copy_optional(&entry.end_date),
        territory: territory.to_owned(),
        price_point_id: point.to_owned(),
    }
}

fn add_territory_rows(rows: &mut Vec<PriceRow>, index: usize, entry: &ResolvedPriceEntry)
    ensures
        row_views(final(rows)@) == row_views(old(rows)@) + territory_rows(
            index as nat,
            *entry,
            entry.territory_prices.entries().len(),
        ),
{
    let ghost start = row_views(rows@);
    let n: usize = entry.territory_prices.len();
    let mut i: usize = 0;
    proof {
        assert(start + Seq::<PriceRowView>::empty() =~= start);
    }
    while i < n
        invariant
            i <= n == entry.territory_prices.entries().len(),
            row_views(rows@) == start + territory_rows(index as nat, *entry, i as nat),
        decreases n - i,
    {
        let territory = entry.territory_prices.key_at(i).as_str();
        let point = entry.territory_prices.value_at(i).as_str();
        let ghost before = row_views(rows@);
        let next = row(index, entry, territory, point);
        let ghost view = next@;
        rows.push(next);
        proof {
            assert(row_views(rows@) =~= before.push(view));
            assert(row_views(rows@) =~= start + territory_rows(
                index as nat,
                *entry,
                (i + 1) as nat,
            ));
        }
        i += 1;
    }
}

/// The prices of a schedule, in the order in which they are sent.
pub fn price_rows(schedule: &ResolvedPriceSchedule) -> (rows: Vec<PriceRow>)
    ensures
        row_views(rows@) == schedule_rows(schedule.entries@, schedule.entries@.len()),
{
    let mut rows: Vec<PriceRow> = Vec::new();
    let mut i: usize = 0;
    proof {
        assert(row_views(rows@) =~= Seq::<PriceRowView>::empty());
    }
    while i < schedule.entries.len()
        invariant
            i <= schedule.entries.len(),
            row_views(rows@) == schedule_rows(schedule.entries@, i as nat),
        decreases schedule.entries.len() - i,
    {
        let entry = &schedule.entries[i];
        let ghost before = row_views(rows@);
        let own = row(i, entry, entry.territory.as_str(), entry.price_point_id.as_str());
        let ghost view = own@;
        rows.push(own);
        proof {
            assert(row_views(rows@) =~= before.push(view));
        }
        add_territory_rows(&mut rows, i, entry);
        i += 1;
    }
    rows
}

/// The names of the resources of a price schedule.
#[derive(Debug)]
pub struct PriceNames<'a> {
    pub price_resource_type: &'a str,
    pub price_point_key: &'a str,
    pub price_point_type: &'a str,
}

/// A price as it stands among the included resources of a request.
pub open spec fn price_entry_view(names: PriceNames, row: PriceRowView) -> JsonView {
    JsonView::Object(
        map![
            "type"@ => JsonView::Text(names.price_resource_type@),
            "id"@ => JsonView::Text(row.id),
            "attributes"@ => JsonView::Object(
                with_text(
                    with_text(no_members(), "startDate"@, row.start_date),
                    "endDate"@,
                    row.end_date,
                )
            ),
            "relationships"@ => JsonView::Object(
                no_members().insert("territory"@, link_view("territories"@, row.territory)).insert(
                    names.price_point_key@,
                    link_view(names.price_point_type@, row.price_point_id),
                )
            )
        ],
    )
}

/// A price as it stands among the included resources of a request.
pub fn price_entry_json(names: &PriceNames, row: &PriceRow) -> (value: Json)
    ensures
        value@ == price_entry_view(*names, row@),
{
    let mut attributes = Members::new();
    insert_optional(&mut attributes, "startDate", as_deref(&row.start_date));
    insert_optional(&mut attributes, "endDate", as_deref(&row.end_date));
    let mut relationships = Members::new();
    relationships.put("territory", link("territories", row.territory.as_str()));
    relationships.put(
        names.price_point_key,
        link(names.price_point_type, row.price_point_id.as_str()),
    );
    let mut members = Members::new();
    members.put("type", text(names.price_resource_type));
    members.put("id", text(row.id.as_str()));
    members.put("attributes", attributes.into_json());
    members.put("relationships", relationships.into_json());
    members.into_json()
}

/// The relationships of a price schedule.
pub open spec fn schedule_relationships(
    owner_key: Seq<char>,
    owner_type: Seq<char>,
    owner_id: Seq<char>,
    names: PriceNames,
    base_territory: Seq<char>,
    rows: Seq<PriceRowView>,
) -> MembersView {
    no_members().insert(owner_key, link_view(owner_type, owner_id)).insert(
        "baseTerritory"@,
        link_view("territories"@, base_territory),
    ).insert(
        "manualPrices"@,
        JsonView::Object(
            no_members().insert(
                "data"@,
                JsonView::Array(
                    rows.map_values(
                        |row: PriceRowView| reference_view(names.price_resource_type@, row.id),
                    ),
                ),
            ),
        ),
    )
}

/// The relationships of a price schedule, and the prices that are sent along.
pub fn price_schedule_payload(
    owner_key: &str,
    owner_type: &str,
    owner_id: &str,
    names: &PriceNames,
    schedule: &ResolvedPriceSchedule,
) -> (payload: (Members, Json))
    ensures
        ({
            let rows = schedule_rows(schedule.entries@, schedule.entries@.len());
            &&& payload.0@ == schedule_relationships(
                owner_key@,
                owner_type@,
                owner_id@,
                *names,
                schedule.base_territory@,
                rows,
            )
            &&& payload.1@ == JsonView::Array(
                rows.map_values(|row: PriceRowView| price_entry_view(*names, row)),
            )
        }),
{
    let rows = price_rows(schedule);
    let ghost views = row_views(rows@);
    let mut included: Vec<Json> = Vec::new();
    let mut manual_prices: Vec<Json> = Vec::new();
    let mut i: usize = 0;
    while i < rows.len()
        invariant
            i <= rows.len(),
            included.len() == i,
            manual_prices.len() == i,
            views == row_views(rows@),
            forall|k: int|
                0 <= k < i ==> (#[trigger] included@[k])@ == price_entry_view(*names, views[k]),
            forall|k: int|
                0 <= k < i ==> (#[trigger] manual_prices@[k])@ == reference_view(
                    names.price_resource_type@,
                    views[k].id,
                ),
        decreases rows.len() - i,
    {
        proof {
            assert(views[i as int] == rows@[i as int]@);
        }
        manual_prices.push(reference(names.price_resource_type, rows[i].id.as_str()));
        included.push(price_entry_json(names, &rows[i]));
        i += 1;
    }
    proof {
        assert(array_view(included@)->Array_0 =~= views.map_values(
            |row: PriceRowView| price_entry_view(*names, row),
        ));
        assert(array_view(manual_prices@)->Array_0 =~= views.map_values(
            |row: PriceRowView| reference_view(names.price_resource_type@, row.id),
        ));
    }
    let mut relationships = Members::new();
    relationships.put(owner_key, link(owner_type, owner_id));
    relationships.put("baseTerritory", link("territories", schedule.base_territory.as_str()));
    let mut list = Members::new();
    list.put("data", array(manual_prices));
    relationships.put("manualPrices", list.into_json());
    (relationships, array(included))
}

/// What the API gives back of a price: its type, and of each attribute and each relationship just what
/// a request said of it.
pub open spec fn gives_back(price: RemoteResource, sent: JsonView) -> bool {
    &&& member(sent, "type"@) == Some(JsonView::Text(price.kind@))
    &&& member(sent, "attributes"@) matches Some(attributes) && forall|key: Seq<char>| #[trigger]
        price.attr_of(key) == member(attributes, key)
    &&& member(sent, "relationships"@) matches Some(links) && forall|key: Seq<char>|
        #![trigger price.related_id(key)]
        #![trigger member(links, key)]
        match price.related_id(key) {
            Some(id) => member(links, key) matches Some(link) && (member(link, "data"@) matches Some(
                target,
            ) && member(target, "id"@) == Some(JsonView::Text(id))),
            None => member(links, key) is None,
        }
}

/// Every included price that names a territory and a price point is read in its order: its territory
/// is the id of its `territory` relationship, and its price point the id of its `appPricePoint`
/// relationship. Its dates are those of the price, and nothing else is read.
pub proof fn law_included_prices_are_read(included: Seq<RemoteResource>, n: nat)
    requires
        n < included.len(),
    ensures
        ({
            let price = included[n as int];
            let before = prices_of(included, n);
            let after = prices_of(included, n + 1);
            let complete = price.kind@ == "appPrices"@ && price.related_id("territory"@) is Some
                && price.related_id("appPricePoint"@) is Some;
            &&& !complete ==> after == before
            &&& complete ==> {
                &&& after.len() == before.len() + 1
                &&& after.drop_last() == before
                &&& Some(after.last().territory) == price.related_id("territory"@)
                &&& Some(after.last().price_point_id) == price.related_id("appPricePoint"@)
                &&& after.last().start_date == price.text_of("startDate"@)
                &&& after.last().end_date == price.text_of("endDate"@)
                &&& after.last().territory_prices == Map::<Seq<char>, Seq<char>>::empty()
            }
        }),
{
    let before = prices_of(included, n);
    let after = prices_of(included, n + 1);
    if after.len() > before.len() {
        assert(after.drop_last() =~= before);
    }
}

/// The base territory is an included one, and none comes before it.
pub proof fn law_base_territory_is_the_first(included: Seq<RemoteResource>, i: int)
    requires
        0 <= i < included.len(),
        included[i].kind@ == "territories"@,
        forall|k: int| 0 <= k < i ==> (#[trigger] included[k]).kind@ != "territories"@,
    ensures
        base_of(included, 0) == included[i].id@,
{
    lemma_base_from(included, 0, i);
}

proof fn lemma_base_from(included: Seq<RemoteResource>, from: int, i: int)
    requires
        0 <= from <= i < included.len(),
        included[i].kind@ == "territories"@,
        forall|k: int| from <= k < i ==> (#[trigger] included[k]).kind@ != "territories"@,
    ensures
        base_of(included, from) == included[i].id@,
    decreases i - from,
{
    if from < i {
        lemma_base_from(included, from + 1, i);
    }
}

/// The prices of spans without prices of their own in other territories: one for each span.
proof fn lemma_plain_rows(entries: Seq<ResolvedPriceEntry>, n: nat)
    requires
        n <= entries.len(),
        forall|i: int| 0 <= i < entries.len() ==> (#[trigger] entries[i]).territory_prices.entries().len() == 0,
    ensures
        schedule_rows(entries, n).len() == n,
        forall|i: int|
            0 <= i < n ==> {
                let row = #[trigger] schedule_rows(entries, n)[i];
                &&& row.territory == entries[i].territory@
                &&& row.price_point_id == entries[i].price_point_id@
                &&& row.start_date == owned(entries[i].start_date)
                &&& row.end_date == owned(entries[i].end_date)
            },
    decreases n,
{
    if n > 0 {
        lemma_plain_rows(entries, (n - 1) as nat);
        let entry = entries[n - 1];
        assert(territory_rows((n - 1) as nat, entry, 0).len() == 0);
    }
}

/// The view of a price as it is sent.
proof fn lemma_sent_price(names: PriceNames, row: PriceRowView)
    requires
        names.price_point_key@ == "appPricePoint"@,
    ensures
        ({
            let sent = price_entry_view(names, row);
            &&& member(sent, "type"@) == Some(JsonView::Text(names.price_resource_type@))
            &&& member(sent, "attributes"@) matches Some(attributes) && member(
                attributes,
                "startDate"@,
            ) == (match row.start_date {
                Some(date) => Some(JsonView::Text(date)),
                None => None,
            }) && member(attributes, "endDate"@) == (match row.end_date {
                Some(date) => Some(JsonView::Text(date)),
                None => None,
            })
            &&& member(sent, "relationships"@) matches Some(links) && member(links, "territory"@)
                == Some(link_view("territories"@, row.territory)) && member(
                links,
                "appPricePoint"@,
            ) == Some(link_view(names.price_point_type@, row.price_point_id))
        }),
{
    reveal_strlit("type");
    reveal_strlit("id");
    reveal_strlit("attributes");
    reveal_strlit("relationships");
    reveal_strlit("startDate");
    reveal_strlit("endDate");
    reveal_strlit("territory");
    reveal_strlit("appPricePoint");
    assert("type"@.len() == 4 && "id"@.len() == 2 && "attributes"@.len() == 10
        && "relationships"@.len() == 13 && "startDate"@.len() == 9 && "endDate"@.len() == 7
        && "territory"@.len() == 9 && "appPricePoint"@.len() == 13);
}

proof fn lemma_link(kind: Seq<char>, id: Seq<char>)
    ensures
        member(link_view(kind, id), "data"@) matches Some(target) && member(target, "id"@) == Some(
            JsonView::Text(id),
        ) && member(target, "type"@) == Some(JsonView::Text(kind)),
{
    reveal_strlit("type");
    reveal_strlit("id");
    assert("type"@.len() == 4 && "id"@.len() == 2);
}

proof fn lemma_read_back(
    names: PriceNames,
    entries: Seq<ResolvedPriceEntry>,
    included: Seq<RemoteResource>,
    n: nat,
)
    requires
        n <= entries.len(),
        names.price_resource_type@ == "appPrices"@,
        names.price_point_key@ == "appPricePoint"@,
        forall|i: int| 0 <= i < entries.len() ==> (#[trigger] entries[i]).territory_prices.entries().len() == 0,
        included.len() == entries.len() + 1,
        included[0].kind@ == "territories"@,
        forall|i: int|
            0 <= i < entries.len() ==> gives_back(
                included[i + 1],
                price_entry_view(names, #[trigger] schedule_rows(entries, entries.len())[i]),
            ),
    ensures
        prices_of(included, n + 1).len() == n,
        forall|i: int|
            0 <= i < n ==> {
                let read = #[trigger] prices_of(included, n + 1)[i];
                &&& read.territory == entries[i].territory@
                &&& read.price_point_id == entries[i].price_point_id@
                &&& read.start_date == owned(entries[i].start_date)
                &&& read.end_date == owned(entries[i].end_date)
                &&& read.territory_prices == Map::<Seq<char>, Seq<char>>::empty()
            },
    decreases n,
{
    reveal_strlit("territories");
    reveal_strlit("appPrices");
    assert("territories"@.len() == 11 && "appPrices"@.len() == 9);
    law_included_prices_are_read(included, n);
    if n == 0 {
        assert(prices_of(included, 0).len() == 0);
    } else {
        let last = n - 1;
        lemma_read_back(names, entries, included, last as nat);
        lemma_plain_rows(entries, entries.len());
        let row = schedule_rows(entries, entries.len())[last];
        let price = included[n as int];
        let sent = price_entry_view(names, row);
        assert(gives_back(price, sent));
        lemma_sent_price(names, row);
        lemma_link("territories"@, row.territory);
        lemma_link(names.price_point_type@, row.price_point_id);
        let links = member(sent, "relationships"@)->0;
        let attributes = member(sent, "attributes"@)->0;
        assert(member(links, "territory"@) is Some);
        assert(member(links, "appPricePoint"@) is Some);
        assert(price.related_id("territory"@) == Some(row.territory));
        assert(price.related_id("appPricePoint"@) == Some(row.price_point_id));
        assert(price.attr_of("startDate"@) == member(attributes, "startDate"@));
        assert(price.attr_of("endDate"@) == member(attributes, "endDate"@));
        let before = prices_of(included, n);
        let after = prices_of(included, n + 1);
        assert forall|i: int| 0 <= i < n implies ({
            let read = #[trigger] after[i];
            &&& read.territory == entries[i].territory@
            &&& read.price_point_id == entries[i].price_point_id@
            &&& read.start_date == owned(entries[i].start_date)
            &&& read.end_date == owned(entries[i].end_date)
            &&& read.territory_prices == Map::<Seq<char>, Seq<char>>::empty()
        }) by {
            if i < last {
                assert(after[i] == after.drop_last()[i]);
                assert(before[i] == after[i]);
            }
        }
    }
}

/// Reading back what the request for a schedule sent gives the schedule, where no span has prices of
/// its own in other territories: its base territory, and each span with its dates, its territory and
/// its price point.
pub proof fn law_sent_schedules_are_read_back(
    names: PriceNames,
    schedule: ResolvedPriceSchedule,
    included: Seq<RemoteResource>,
)
    requires
        names.price_resource_type@ == "appPrices"@,
        names.price_point_key@ == "appPricePoint"@,
        forall|i: int|
            0 <= i < schedule.entries@.len() ==> (
            #[trigger] schedule.entries@[i]).territory_prices.entries().len() == 0,
        included.len() == schedule.entries@.len() + 1,
        included[0].kind@ == "territories"@,
        included[0].id@ == schedule.base_territory@,
        forall|i: int|
            0 <= i < schedule.entries@.len() ==> gives_back(
                included[i + 1],
                price_entry_view(
                    names,
                    #[trigger] schedule_rows(schedule.entries@, schedule.entries@.len())[i],
                ),
            ),
    ensures
        base_of(included, 0) == schedule@.base_territory,
        prices_of(included, included.len()) == schedule@.entries,
{
    let entries = schedule.entries@;
    law_base_territory_is_the_first(included, 0);
    lemma_read_back(names, entries, included, entries.len());
    let read = prices_of(included, included.len());
    assert forall|i: int| 0 <= i < read.len() implies #[trigger] read[i] == schedule@.entries[i] by {
        assert(schedule@.entries[i] == entries[i]@);
        let prices = entries[i].territory_prices;
        assert(text_map(prices@) =~= Map::<Seq<char>, Seq<char>>::empty());
    }
    assert(read =~= schedule@.entries);
}

/// A price is sent under its resource type, with a link to its territory and one to its price point,
/// and its dates where it has them.
pub proof fn law_prices_are_sent(names: PriceNames, row: PriceRowView)
    requires
        names.price_point_key@ != "territory"@,
    ensures
        ({
            let sent = price_entry_view(names, row);
            &&& member(sent, "type"@) == Some(JsonView::Text(names.price_resource_type@))
            &&& member(sent, "id"@) == Some(JsonView::Text(row.id))
            &&& member(sent, "attributes"@) matches Some(attributes) && member(
                attributes,
                "startDate"@,
            ) == (match row.start_date {
                Some(date) => Some(JsonView::Text(date)),
                None => None,
            }) && member(attributes, "endDate"@) == (match row.end_date {
                Some(date) => Some(JsonView::Text(date)),
                None => None,
            })
            &&& links_to(sent, "territory"@, "territories"@, row.territory)
            &&& links_to(sent, names.price_point_key@, names.price_point_type@, row.price_point_id)
        }),
{
    reveal_strlit("type");
    reveal_strlit("id");
    reveal_strlit("attributes");
    reveal_strlit("relationships");
    reveal_strlit("startDate");
    reveal_strlit("endDate");
    assert("type"@.len() == 4 && "id"@.len() == 2 && "attributes"@.len() == 10
        && "relationships"@.len() == 13 && "startDate"@.len() == 9 && "endDate"@.len() == 7);
    lemma_link("territories"@, row.territory);
    lemma_link(names.price_point_type@, row.price_point_id);
}

/// A resource has a relationship to the resource of a type and an id.
pub open spec fn links_to(sent: JsonView, key: Seq<char>, kind: Seq<char>, id: Seq<char>) -> bool {
    member(sent, "relationships"@) matches Some(links) && (member(links, key) matches Some(link) && (
    member(link, "data"@) matches Some(target) && member(target, "type"@) == Some(
        JsonView::Text(kind),
    ) && member(target, "id"@) == Some(JsonView::Text(id))))
}

/// Each span of a schedule is sent for its own territory, and for each territory that has a price of
/// its own, with the price point of that territory and the dates of the span; nothing else is sent.
pub proof fn law_schedules_are_sent_whole(
    entries: Seq<ResolvedPriceEntry>,
    n: nat,
    territory: Seq<char>,
    point: Seq<char>,
    start: Option<Seq<char>>,
    end: Option<Seq<char>>,
)
    requires
        n <= entries.len(),
    ensures
        (exists|r: int|
            0 <= r < schedule_rows(entries, n).len() && says(
                #[trigger] schedule_rows(entries, n)[r],
                territory,
                point,
                start,
                end,
            )) <==> exists|i: int|
            0 <= i < n && wants(#[trigger] entries[i], territory, point, start, end),
    decreases n,
{
    if n > 0 {
        let index = (n - 1) as nat;
        let entry = entries[n - 1];
        law_schedules_are_sent_whole(entries, index, territory, point, start, end);
        let before = schedule_rows(entries, index);
        let own = row_of(index, entry, entry.territory@, entry.price_point_id@);
        let others = territory_rows(index, entry, entry.territory_prices.entries().len());
        let after = schedule_rows(entries, n);
        assert(after == before.push(own) + others);
        lemma_territory_rows(index, entry, entry.territory_prices.entries().len());
        if exists|i: int| 0 <= i < n && wants(#[trigger] entries[i], territory, point, start, end) {
            let i = choose|i: int|
                0 <= i < n && wants(#[trigger] entries[i], territory, point, start, end);
            if i < index {
                let r = choose|r: int|
                    0 <= r < before.len() && says(
                        #[trigger] before[r],
                        territory,
                        point,
                        start,
                        end,
                    );
                assert(after[r] == before[r]);
            } else if entry.territory@ == territory && entry.price_point_id@ == point {
                assert(after[before.len() as int] == own);
            } else {
                let k = choose|k: int|
                    0 <= k < entry.territory_prices.entries().len() && (
                    #[trigger] entry.territory_prices.entries()[k]).0 == territory
                        && entry.territory_prices.entries()[k].1@ == point;
                assert(after[before.len() + 1 + k] == others[k]);
            }
        }
        if exists|r: int|
            0 <= r < after.len() && says(#[trigger] after[r], territory, point, start, end) {
            let r = choose|r: int|
                0 <= r < after.len() && says(#[trigger] after[r], territory, point, start, end);
            if r < before.len() {
                assert(after[r] == before[r]);
            } else if r == before.len() {
                assert(after[r] == own);
                assert(wants(entries[n - 1], territory, point, start, end));
            } else {
                let k = r - before.len() - 1;
                assert(after[r] == others[k]);
                assert(entry.territory_prices.entries()[k].0 == territory);
                assert(wants(entries[n - 1], territory, point, start, end));
            }
        }
    }
}

/// A price is of a territory, with a price point and dates.
pub open spec fn says(
    row: PriceRowView,
    territory: Seq<char>,
    point: Seq<char>,
    start: Option<Seq<char>>,
    end: Option<Seq<char>>,
) -> bool {
    row.territory == territory && row.price_point_id == point && row.start_date == start
        && row.end_date == end
}

/// A span has such a price: in its own territory, or in one that has a price of its own.
pub open spec fn wants(
    entry: ResolvedPriceEntry,
    territory: Seq<char>,
    point: Seq<char>,
    start: Option<Seq<char>>,
    end: Option<Seq<char>>,
) -> bool {
    &&& owned(entry.start_date) == start
    &&& owned(entry.end_date) == end
    &&& {
        ||| entry.territory@ == territory && entry.price_point_id@ == point
        ||| exists|k: int|
            0 <= k < entry.territory_prices.entries().len() && (
            #[trigger] entry.territory_prices.entries()[k]).0 == territory
                && entry.territory_prices.entries()[k].1@ == point
    }
}

proof fn lemma_territory_rows(index: nat, entry: ResolvedPriceEntry, n: nat)
    requires
        n <= entry.territory_prices.entries().len(),
    ensures
        territory_rows(index, entry, n).len() == n,
        forall|k: int|
            0 <= k < n ==> {
                let row = #[trigger] territory_rows(index, entry, n)[k];
                &&& row.territory == entry.territory_prices.entries()[k].0
                &&& row.price_point_id == entry.territory_prices.entries()[k].1@
                &&& row.start_date == owned(entry.start_date)
                &&& row.end_date == owned(entry.end_date)
            },
    decreases n,
{
    if n > 0 {
        lemma_territory_rows(index, entry, (n - 1) as nat);
    }
}

/// The request for a schedule names its owner, its base territory and, by their ids, all prices that
/// it sends along, in their order.
pub proof fn law_schedules_name_their_parts(
    owner_key: Seq<char>,
    owner_type: Seq<char>,
    owner_id: Seq<char>,
    names: PriceNames,
    base_territory: Seq<char>,
    rows: Seq<PriceRowView>,
)
    requires
        owner_key != "baseTerritory"@,
        owner_key != "manualPrices"@,
    ensures
        ({
            let sent = schedule_relationships(
                owner_key,
                owner_type,
                owner_id,
                names,
                base_territory,
                rows,
            );
            let resource = JsonView::Object(
                no_members().insert("relationships"@, JsonView::Object(sent)),
            );
            &&& links_to(resource, owner_key, owner_type, owner_id)
            &&& links_to(resource, "baseTerritory"@, "territories"@, base_territory)
            &&& sent.contains_key("manualPrices"@)
            &&& member(sent["manualPrices"@], "data"@) matches Some(JsonView::Array(list))
                && list.len() == rows.len() && forall|i: int|
                0 <= i < rows.len() ==> member(#[trigger] list[i], "id"@) == Some(
                    JsonView::Text(rows[i].id),
                ) && member(list[i], "type"@) == Some(JsonView::Text(names.price_resource_type@))
        }),
{
    reveal_strlit("type");
    reveal_strlit("id");
    reveal_strlit("baseTerritory");
    reveal_strlit("manualPrices");
    assert("type"@.len() == 4 && "id"@.len() == 2 && "baseTerritory"@.len() == 13
        && "manualPrices"@.len() == 12);
    lemma_link(owner_type, owner_id);
    lemma_link("territories"@, base_territory);
}

} // verus!
