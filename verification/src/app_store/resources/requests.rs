//! The requests for pages, purchases, subscriptions, events and prices.

use vstd::prelude::*;
use vstd::string::*;
use crate::api::{
    body_view, data, data_view, link, links, references_view, resource_members, with_body,
    ApiRequest, RequestView, Verb,
};
use crate::app_store::requests::{
    file_attrs, file_members, insert_optional, map_with, no_members, related, relation,
    uploaded_attrs, uploaded_members, with_text, AppStoreApi, MembersView,
};
use crate::app_store::resources::prices::{
    price_entry_view, price_schedule_payload, schedule_relationships, schedule_rows, PriceNames,
    PriceRowView, ResolvedPriceSchedule,
};
use crate::app_store::resources::{
    CommerceKind, RemoteResource, ResolvedAppEvent, ResolvedAppEventLocalization,
    ResolvedCommerceLocalization, ResolvedCommerceProduct, ResolvedSubscriptionGroupLocalization,
};
use crate::asc::{asc_endpoint, endpoint};
use crate::config::{InAppPurchaseSpec, SubscriptionSpec};
use crate::json::{array, array_view, text, Json, JsonView, Members};
use crate::text::{
    as_deref, cat, cat3, contains, decimal, decimal_text, failure, given, occurs, owned, same,
    starts, starts_with, texts, Error,
};

verus! {

/// Members with one more Boolean, where it is given.
pub open spec fn with_truth(members: MembersView, key: Seq<char>, value: Option<bool>) ->
    MembersView {
    match value {
        Some(truth) => members.insert(key, JsonView::Bool(truth)),
        None => members,
    }
}

/// The attributes of a new in-app purchase.
pub open spec fn iap_members(iap: InAppPurchaseSpec, desired: ResolvedCommerceProduct) ->
    MembersView {
    let named = no_members().insert("name"@, JsonView::Text(desired.reference_name@)).insert(
        "productId"@,
        JsonView::Text(iap.product_id@),
    ).insert("inAppPurchaseType"@, JsonView::Text(iap.kind.asc_value_of()));
    with_truth(
        with_text(named, "reviewNote"@, owned(desired.review_note)),
        "familySharable"@,
        iap.family_sharable,
    )
}

fn iap_attrs(iap: &InAppPurchaseSpec, desired: &ResolvedCommerceProduct) -> (attrs: Members)
    ensures
        attrs@ == iap_members(*iap, *desired),
{
    let mut attrs = map_with("name", text(desired.reference_name.as_str()));
    attrs.put("productId", text(iap.product_id.as_str()));
    attrs.put("inAppPurchaseType", text(iap.kind.asc_value()));
    insert_optional(&mut attrs, "reviewNote", as_deref(&desired.review_note));
    if let Some(value) = iap.family_sharable {
        attrs.put("familySharable", Json::Bool(value));
    }
    attrs
}

/// The attributes of a new subscription.
pub open spec fn subscription_members(
    subscription: SubscriptionSpec,
    desired: ResolvedCommerceProduct,
) -> MembersView {
    let named = no_members().insert("name"@, JsonView::Text(desired.reference_name@)).insert(
        "productId"@,
        JsonView::Text(subscription.product_id@),
    );
    let shared = with_truth(
        with_text(named, "reviewNote"@, owned(desired.review_note)),
        "familySharable"@,
        subscription.family_sharable,
    );
    let timed = match subscription.period {
        Some(period) => shared.insert(
            "subscriptionPeriod"@,
            JsonView::Text(period.asc_value_of()),
        ),
        None => shared,
    };
    match subscription.group_level {
        Some(level) => timed.insert("groupLevel"@, JsonView::Number(decimal(level as nat))),
        None => timed,
    }
}

fn subscription_attrs(subscription: &SubscriptionSpec, desired: &ResolvedCommerceProduct) -> (attrs:
    Members)
    ensures
        attrs@ == subscription_members(*subscription, *desired),
{
    let mut attrs = map_with("name", text(desired.reference_name.as_str()));
    attrs.put("productId", text(subscription.product_id.as_str()));
    insert_optional(&mut attrs, "reviewNote", as_deref(&desired.review_note));
    if let Some(value) = subscription.family_sharable {
        attrs.put("familySharable", Json::Bool(value));
    }
    if let Some(period) = subscription.period {
        attrs.put("subscriptionPeriod", text(period.asc_value()));
    }
    if let Some(level) = subscription.group_level {
        attrs.put("groupLevel", Json::Number(decimal_text(level as u64)));
    }
    attrs
}

/// The attributes of an event.
pub open spec fn event_members(event: ResolvedAppEvent) -> MembersView {
    let a = no_members().insert("referenceName"@, JsonView::Text(event.reference_name@));
    let b = with_text(a, "badge"@, owned(event.badge));
    let c = with_text(b, "deepLink"@, owned(event.deep_link));
    let d = with_text(c, "purchaseRequirement"@, owned(event.purchase_requirement));
    let e = with_text(d, "primaryLocale"@, owned(event.primary_locale));
    let f = with_text(e, "priority"@, owned(event.priority));
    let g = with_text(f, "purpose"@, owned(event.purpose));
    if event.territory_schedules@.len() == 0 {
        g
    } else {
        g.insert("territorySchedules"@, array_view(event.territory_schedules@))
    }
}

fn copy_values(items: &Vec<Json>) -> (copies: Vec<Json>)
    ensures
        array_view(copies@) == array_view(items@),
{
    let mut copies: Vec<Json> = Vec::new();
    let mut i: usize = 0;
    while i < items.len()
        invariant
            i <= items.len(),
            copies.len() == i,
            forall|k: int| 0 <= k < i ==> (#[trigger] copies@[k])@ == items@[k]@,
        decreases items.len() - i,
    {
        copies.push(items[i].copy());
        i += 1;
    }
    proof {
        assert(array_view(copies@)->Array_0 =~= array_view(items@)->Array_0);
    }
    copies
}

/// The attributes of an event.
pub fn app_event_attrs(desired: &ResolvedAppEvent) -> (attrs: Members)
    ensures
        attrs@ == event_members(*desired),
{
    let mut attrs = map_with("referenceName", text(desired.reference_name.as_str()));
    insert_optional(&mut attrs, "badge", as_deref(&desired.badge));
    insert_optional(&mut attrs, "deepLink", as_deref(&desired.deep_link));
    insert_optional(&mut attrs, "purchaseRequirement", as_deref(&desired.purchase_requirement));
    insert_optional(&mut attrs, "primaryLocale", as_deref(&desired.primary_locale));
    insert_optional(&mut attrs, "priority", as_deref(&desired.priority));
    insert_optional(&mut attrs, "purpose", as_deref(&desired.purpose));
    if desired.territory_schedules.len() != 0 {
        attrs.put("territorySchedules", array(copy_values(&desired.territory_schedules)));
    }
    attrs
}

/// The attributes of an event localization.
pub open spec fn event_localization_members(texts: ResolvedAppEventLocalization) -> MembersView {
    with_text(
        with_text(
            with_text(no_members(), "name"@, owned(texts.name)),
            "shortDescription"@,
            owned(texts.short_description),
        ),
        "longDescription"@,
        owned(texts.long_description),
    )
}

/// The attributes of an event localization.
pub fn app_event_localization_attrs(desired: &ResolvedAppEventLocalization) -> (attrs: Members)
    ensures
        attrs@ == event_localization_members(*desired),
{
    let mut attrs = Members::new();
    insert_optional(&mut attrs, "name", as_deref(&desired.name));
    insert_optional(&mut attrs, "shortDescription", as_deref(&desired.short_description));
    insert_optional(&mut attrs, "longDescription", as_deref(&desired.long_description));
    attrs
}

/// A territory in which an app is available, as it stands among included resources.
pub open spec fn territory_view(territory: Seq<char>) -> JsonView {
    JsonView::Object(
        map![
            "type"@ => JsonView::Text("territoryAvailabilities"@),
            "id"@ => JsonView::Text(territory),
            "attributes"@ => JsonView::Object(
                no_members().insert("available"@, JsonView::Bool(true))
            ),
            "relationships"@ => JsonView::Object(related("territory"@, "territories"@, territory))
        ],
    )
}

fn territory_json(territory: &str) -> (value: Json)
    ensures
        value@ == territory_view(territory@),
{
    let mut members = map_with("type", text("territoryAvailabilities"));
    members.put("id", text(territory));
    members.put("attributes", map_with("available", Json::Bool(true)).into_json());
    members.put("relationships", relation("territory", "territories", territory).into_json());
    members.into_json()
}

fn territories_json(territories: &Vec<String>) -> (value: Json)
    ensures
        value@ == JsonView::Array(
            texts(territories@).map_values(|territory: Seq<char>| territory_view(territory)),
        ),
{
    let mut items: Vec<Json> = Vec::new();
    let mut i: usize = 0;
    while i < territories.len()
        invariant
            i <= territories.len(),
            items.len() == i,
            forall|k: int| 0 <= k < i ==> (#[trigger] items@[k])@ == territory_view(territories@[k]@),
        decreases territories.len() - i,
    {
        items.push(territory_json(territories[i].as_str()));
        i += 1;
    }
    proof {
        assert(array_view(items@)->Array_0 =~= texts(territories@).map_values(
            |territory: Seq<char>| territory_view(territory),
        ));
    }
    array(items)
}

/// The names of the prices of an app.
pub open spec fn app_price_names() -> PriceNames<'static> {
    PriceNames {
        price_resource_type: "appPrices",
        price_point_key: "appPricePoint",
        price_point_type: "appPricePoints",
    }
}

/// A file that is about to be sent: where it is created, and whose it is.
#[derive(Debug)]
pub struct AssetUploadTarget<'a> {
    pub collection_path: &'a str,
    pub resource_type: &'a str,
    pub relationship_key: &'a str,
    pub relationship_type: &'a str,
    pub relationship_id: &'a str,
}

/// Members with more members over them.
pub open spec fn extended(members: MembersView, more: MembersView) -> MembersView {
    members.union_prefer_right(more)
}

impl AppStoreApi {
    /// The request that creates a resource together with others.
    pub open spec fn post_included_view(
        self,
        path: Seq<char>,
        kind: Seq<char>,
        attributes: MembersView,
        relationships: MembersView,
        included: JsonView,
    ) -> RequestView {
        body_view(
            Verb::Post,
            endpoint(self.base_url@, path),
            JsonView::Object(
                no_members().insert(
                    "data"@,
                    JsonView::Object(resource_members(None, kind, attributes, relationships)),
                ).insert("included"@, included),
            ),
        )
    }

    /// Creates a resource together with others.
    pub fn post_resource_with_included(
        &self,
        path: &str,
        kind: &str,
        attributes: Members,
        relationships: Members,
        included: Json,
    ) -> (request: ApiRequest)
        ensures
            request@ == self.post_included_view(
                path@,
                kind@,
                attributes@,
                relationships@,
                included@,
            ),
    {
        let mut resource = map_with("type", text(kind));
        if !attributes.is_empty() {
            resource.put("attributes", attributes.into_json());
        }
        if !relationships.is_empty() {
            resource.put("relationships", relationships.into_json());
        }
        let mut body = map_with("data", resource.into_json());
        body.put("included", included);
        with_body(Verb::Post, asc_endpoint(self.base_url.as_str(), path), body.into_json())
    }

    /// The request that makes an app available in territories.
    pub open spec fn new_availability(
        self,
        app_id: Seq<char>,
        available_in_new_territories: bool,
        territories: Seq<Seq<char>>,
    ) -> RequestView {
        self.post_included_view(
            "/v2/appAvailabilities"@,
            "appAvailabilities"@,
            no_members().insert(
                "availableInNewTerritories"@,
                JsonView::Bool(available_in_new_territories),
            ),
            related("app"@, "apps"@, app_id).insert(
                "territoryAvailabilities"@,
                data_view(references_view("territoryAvailabilities"@, territories)),
            ),
            JsonView::Array(
                territories.map_values(|territory: Seq<char>| territory_view(territory)),
            ),
        )
    }

    /// Makes an app available in territories.
    pub fn create_app_availability(
        &self,
        app_id: &str,
        available_in_new_territories: bool,
        territories: &Vec<String>,
    ) -> (request: ApiRequest)
        ensures
            request@ == self.new_availability(
                app_id@,
                available_in_new_territories,
                texts(territories@),
            ),
    {
        let mut relationships = relation("app", "apps", app_id);
        relationships.put("territoryAvailabilities", links("territoryAvailabilities", territories));
        self.post_resource_with_included(
            "/v2/appAvailabilities",
            "appAvailabilities",
            map_with("availableInNewTerritories", Json::Bool(available_in_new_territories)),
            relationships,
            territories_json(territories),
        )
    }

    /// The request that replaces the price schedule of an app.
    pub open spec fn new_price_schedule(self, app_id: Seq<char>, schedule: ResolvedPriceSchedule) ->
        RequestView {
        let rows = schedule_rows(schedule.entries@, schedule.entries@.len());
        self.post_included_view(
            "/appPriceSchedules"@,
            "appPriceSchedules"@,
            no_members(),
            schedule_relationships(
                "app"@,
                "apps"@,
                app_id,
                app_price_names(),
                schedule.base_territory@,
                rows,
            ),
            JsonView::Array(
                rows.map_values(|row: PriceRowView| price_entry_view(app_price_names(), row)),
            ),
        )
    }

    /// Replaces the price schedule of an app.
    pub fn create_app_price_schedule(
        &self,
        app_id: &str,
        schedule: &ResolvedPriceSchedule,
    ) -> (request: ApiRequest)
        ensures
            request@ == self.new_price_schedule(app_id@, *schedule),
    {
        let names = PriceNames {
            price_resource_type: "appPrices",
            price_point_key: "appPricePoint",
            price_point_type: "appPricePoints",
        };
        let (relationships, included) = price_schedule_payload(
            "app",
            "apps",
            app_id,
            &names,
            schedule,
        );
        self.post_resource_with_included(
            "/appPriceSchedules",
            "appPriceSchedules",
            Members::new(),
            relationships,
            included,
        )
    }

    /// The request that attaches search keywords to a page localization.
    pub open spec fn attached_keywords(self, localization_id: Seq<char>, ids: Seq<Seq<char>>) ->
        RequestView {
        body_view(
            Verb::Post,
            endpoint(
                self.base_url@,
                "/appCustomProductPageLocalizations/"@ + localization_id
                    + "/relationships/searchKeywords"@,
            ),
            data_view(references_view("appKeywords"@, ids)),
        )
    }

    /// Attaches search keywords to a page localization.
    pub fn add_app_keyword_relationships(
        &self,
        localization_id: &str,
        ids: &Vec<String>,
    ) -> (request: ApiRequest)
        ensures
            request@ == self.attached_keywords(localization_id@, texts(ids@)),
    {
        with_body(
            Verb::Post,
            asc_endpoint(
                self.base_url.as_str(),
                cat3(
                    "/appCustomProductPageLocalizations/",
                    localization_id,
                    "/relationships/searchKeywords",
                ).as_str(),
            ),
            links("appKeywords", ids),
        )
    }

    /// The request that announces a file.
    pub open spec fn announced_asset(
        self,
        target: AssetUploadTarget,
        file_name: Seq<char>,
        file_size: nat,
        extra: MembersView,
    ) -> RequestView {
        self.post_view(
            target.collection_path@,
            target.resource_type@,
            extended(file_members(file_name, file_size), extra),
            related(target.relationship_key@, target.relationship_type@, target.relationship_id@),
        )
    }

    /// Announces a file that is about to be sent.
    pub fn announce_asset(
        &self,
        target: &AssetUploadTarget,
        file_name: &str,
        file_size: usize,
        extra: Members,
    ) -> (request: ApiRequest)
        ensures
            request@ == self.announced_asset(*target, file_name@, file_size as nat, extra@),
    {
        let mut attrs = file_attrs(file_name, file_size);
        attrs.put_all(extra);
        self.post_resource(
            target.collection_path,
            target.resource_type,
            attrs,
            relation(target.relationship_key, target.relationship_type, target.relationship_id),
        )
    }

    /// The attributes of a file that was sent. Event files take no checksum.
    pub open spec fn sent_members(resource_type: Seq<char>, checksum: Seq<char>) -> MembersView {
        if starts(resource_type, "appEvent"@) {
            no_members().insert("uploaded"@, JsonView::Bool(true))
        } else {
            uploaded_members(checksum)
        }
    }

    /// Tells that a file was sent.
    pub fn finish_asset(
        &self,
        target: &AssetUploadTarget,
        asset_id: &str,
        checksum: &str,
    ) -> (request: ApiRequest)
        ensures
            request@ == self.patch_view(
                target.collection_path@,
                target.resource_type@,
                asset_id@,
                Self::sent_members(target.resource_type@, checksum@),
                no_members(),
            ),
    {
        let uploaded = if starts_with(target.resource_type, "appEvent") {
            map_with("uploaded", Json::Bool(true))
        } else {
            uploaded_attrs(checksum)
        };
        self.patch_resource(
            target.collection_path,
            target.resource_type,
            asset_id,
            uploaded,
            Members::new(),
        )
    }

    /// Asks for the availability of an app.
    pub fn get_app_availability(&self, app_id: &str) -> (request: ApiRequest)
        ensures
            request@ == self.get_view("/apps/"@ + app_id@ + "/appAvailabilityV2"@),
    {
        self.get(cat3("/apps/", app_id, "/appAvailabilityV2").as_str())
    }

    /// Asks for the price schedule of an app.
    pub fn get_app_price_schedule(&self, app_id: &str) -> (request: ApiRequest)
        ensures
            request@ == self.get_view("/apps/"@ + app_id@ + "/appPriceSchedule"@)
                .asking("include"@, "baseTerritory,manualPrices"@)
                .asking("fields[appPrices]"@, "startDate,endDate,appPricePoint,territory"@)
                .asking("limit[manualPrices]"@, "50"@),
    {
        self.get(cat3("/apps/", app_id, "/appPriceSchedule").as_str())
            .ask("include", "baseTerritory,manualPrices")
            .ask("fields[appPrices]", "startDate,endDate,appPricePoint,territory")
            .ask("limit[manualPrices]", "50")
    }

    /// Asks for the price points of an app in a territory.
    pub fn find_app_price_point(&self, app_id: &str, territory: &str) -> (request: ApiRequest)
        ensures
            request@ == self.get_view("/apps/"@ + app_id@ + "/appPricePoints"@)
                .asking("filter[territory]"@, territory@)
                .asking("fields[appPricePoints]"@, "customerPrice"@)
                .asking("limit"@, "8000"@),
    {
        self.get(cat3("/apps/", app_id, "/appPricePoints").as_str())
            .ask("filter[territory]", territory)
            .ask("fields[appPricePoints]", "customerPrice")
            .ask("limit", "8000")
    }

    /// Asks for a page by its id, or for all pages of an app.
    pub fn find_custom_product_page(
        &self,
        app_id: &str,
        asc_id: Option<&str>,
    ) -> (request: ApiRequest)
        ensures
            request@ == match asc_id {
                Some(id) => self.get_view("/appCustomProductPages"@ + "/"@ + id@),
                None => self.get_view("/apps/"@ + app_id@ + "/appCustomProductPages"@)
                    .asking("fields[appCustomProductPages]"@, "name,visible"@)
                    .asking("limit"@, "200"@),
            },
    {
        match asc_id {
            Some(id) => self.get_instance("/appCustomProductPages", id),
            None => self.get(cat3("/apps/", app_id, "/appCustomProductPages").as_str())
                .ask("fields[appCustomProductPages]", "name,visible")
                .ask("limit", "200"),
        }
    }

    /// Asks for the versions of a page.
    pub fn list_custom_product_page_versions(&self, page_id: &str) -> (request: ApiRequest)
        ensures
            request@ == self.get_view("/appCustomProductPages/"@ + page_id@ + "/appCustomProductPageVersions"@)
                .asking("fields[appCustomProductPageVersions]"@, "state,deepLink"@)
                .asking("limit"@, "50"@),
    {
        self.get(cat3("/appCustomProductPages/", page_id, "/appCustomProductPageVersions").as_str())
            .ask("fields[appCustomProductPageVersions]", "state,deepLink")
            .ask("limit", "50")
    }

    /// Asks for the localizations of a page version.
    pub fn list_custom_product_page_localizations(&self, version_id: &str) -> (request: ApiRequest)
        ensures
            request@ == self.get_view("/appCustomProductPageVersions/"@ + version_id@ + "/appCustomProductPageLocalizations"@)
                .asking("fields[appCustomProductPageLocalizations]"@, "locale,promotionalText"@)
                .asking("limit"@, "50"@),
    {
        self.get(cat3(
            "/appCustomProductPageVersions/",
            version_id,
            "/appCustomProductPageLocalizations",
        ).as_str())
            .ask("fields[appCustomProductPageLocalizations]", "locale,promotionalText")
            .ask("limit", "50")
    }

    /// Asks for the search keywords of a page localization.
    pub fn list_app_keywords(&self, localization_id: &str) -> (request: ApiRequest)
        ensures
            request@ == self.get_view("/appCustomProductPageLocalizations/"@ + localization_id@ + "/relationships/searchKeywords"@),
    {
        self.get(cat3(
            "/appCustomProductPageLocalizations/",
            localization_id,
            "/relationships/searchKeywords",
        ).as_str())
    }

    /// Asks for the screenshot sets of a localization.
    pub fn find_screenshot_set_for_localization(
        &self,
        parent_resource: &str,
        localization_id: &str,
    ) -> (request: ApiRequest)
        ensures
            request@ == self.get_view("/"@ + parent_resource@ + "/"@ + localization_id@ + "/appScreenshotSets"@)
                .asking("fields[appScreenshotSets]"@, "screenshotDisplayType"@)
                .asking("limit"@, "50"@),
    {
        self.get(cat3("/", parent_resource, "/")
            .concat(localization_id)
            .concat("/appScreenshotSets").as_str())
            .ask("fields[appScreenshotSets]", "screenshotDisplayType")
            .ask("limit", "50")
    }

    /// Asks for the preview sets of a localization.
    pub fn find_preview_set_for_localization(
        &self,
        parent_resource: &str,
        localization_id: &str,
    ) -> (request: ApiRequest)
        ensures
            request@ == self.get_view("/"@ + parent_resource@ + "/"@ + localization_id@ + "/appPreviewSets"@)
                .asking("fields[appPreviewSets]"@, "previewType"@)
                .asking("limit"@, "50"@),
    {
        self.get(cat3("/", parent_resource, "/")
            .concat(localization_id)
            .concat("/appPreviewSets").as_str())
            .ask("fields[appPreviewSets]", "previewType")
            .ask("limit", "50")
    }

    /// Asks for an in-app purchase by its id, or by its product id.
    pub fn find_iap(
        &self,
        app_id: &str,
        asc_id: Option<&str>,
        product_id: &str,
    ) -> (request: ApiRequest)
        ensures
            request@ == match asc_id {
                Some(id) => self.get_view("/v2/inAppPurchases"@ + "/"@ + id@),
                None => self.get_view("/apps/"@ + app_id@ + "/inAppPurchasesV2"@)
                    .asking("filter[productId]"@, product_id@)
                    .asking(
                        "fields[inAppPurchases]"@,
                        "name,productId,inAppPurchaseType,reviewNote,familySharable"@,
                    )
                    .asking("limit"@, "2"@),
            },
    {
        match asc_id {
            Some(id) => self.get_instance("/v2/inAppPurchases", id),
            None => self.get(cat3("/apps/", app_id, "/inAppPurchasesV2").as_str())
                .ask("filter[productId]", product_id)
                .ask(
                    "fields[inAppPurchases]",
                    "name,productId,inAppPurchaseType,reviewNote,familySharable",
                )
                .ask("limit", "2"),
        }
    }

    /// Asks for a subscription group by its id, or by its reference name.
    pub fn find_subscription_group(
        &self,
        app_id: &str,
        asc_id: Option<&str>,
        reference_name: &str,
    ) -> (request: ApiRequest)
        ensures
            request@ == match asc_id {
                Some(id) => self.get_view("/subscriptionGroups"@ + "/"@ + id@),
                None => self.get_view("/apps/"@ + app_id@ + "/subscriptionGroups"@)
                    .asking("filter[referenceName]"@, reference_name@)
                    .asking("fields[subscriptionGroups]"@, "referenceName"@)
                    .asking("limit"@, "2"@),
            },
    {
        match asc_id {
            Some(id) => self.get_instance("/subscriptionGroups", id),
            None => self.get(cat3("/apps/", app_id, "/subscriptionGroups").as_str())
                .ask("filter[referenceName]", reference_name)
                .ask("fields[subscriptionGroups]", "referenceName")
                .ask("limit", "2"),
        }
    }

    /// Asks for the localizations of a subscription group.
    pub fn list_subscription_group_localizations(&self, group_id: &str) -> (request: ApiRequest)
        ensures
            request@ == self.get_view("/subscriptionGroups/"@ + group_id@ + "/subscriptionGroupLocalizations"@)
                .asking("fields[subscriptionGroupLocalizations]"@, "locale,name,customAppName"@)
                .asking("limit"@, "50"@),
    {
        self.get(cat3("/subscriptionGroups/", group_id, "/subscriptionGroupLocalizations").as_str())
            .ask("fields[subscriptionGroupLocalizations]", "locale,name,customAppName")
            .ask("limit", "50")
    }

    /// Asks for a subscription by its id, or by its product id.
    pub fn find_subscription(
        &self,
        group_id: &str,
        asc_id: Option<&str>,
        product_id: &str,
    ) -> (request: ApiRequest)
        ensures
            request@ == match asc_id {
                Some(id) => self.get_view("/subscriptions"@ + "/"@ + id@),
                None => self.get_view("/subscriptionGroups/"@ + group_id@ + "/subscriptions"@)
                    .asking("filter[productId]"@, product_id@)
                    .asking(
                        "fields[subscriptions]"@,
                        "name,productId,familySharable,subscriptionPeriod,reviewNote,groupLevel"@,
                    )
                    .asking("limit"@, "2"@),
            },
    {
        match asc_id {
            Some(id) => self.get_instance("/subscriptions", id),
            None => self.get(cat3("/subscriptionGroups/", group_id, "/subscriptions").as_str())
                .ask("filter[productId]", product_id)
                .ask(
                    "fields[subscriptions]",
                    "name,productId,familySharable,subscriptionPeriod,reviewNote,groupLevel",
                )
                .ask("limit", "2"),
        }
    }

    /// Asks for the localizations of a purchase or subscription.
    pub fn list_commerce_localizations(
        &self,
        resource_id: &str,
        kind: CommerceKind,
    ) -> (request: ApiRequest)
        ensures
            request@ == self.get_view(kind.resource_path_of() + "/"@ + resource_id@ + "/"@ + kind.localizations_path_of())
                .asking(
                    "fields["@ + kind.localization_resource_type_of() + "]"@,
                    "locale,name,description"@,
                )
                .asking("limit"@, "50"@),
    {
        self.get(cat3(kind.resource_path(), "/", resource_id)
            .concat("/")
            .concat(kind.localizations_path()).as_str())
            .ask(
                cat3("fields[", kind.localization_resource_type(), "]").as_str(),
                "locale,name,description",
            )
            .ask("limit", "50")
    }

    /// Asks for the review screenshot of a purchase or subscription.
    pub fn get_commerce_review_screenshot(
        &self,
        resource_id: &str,
        kind: CommerceKind,
    ) -> (request: ApiRequest)
        ensures
            request@ == self.get_view(kind.resource_path_of() + "/"@ + resource_id@ + "/appStoreReviewScreenshot"@),
    {
        self.get(cat3(kind.resource_path(), "/", resource_id)
            .concat("/appStoreReviewScreenshot").as_str())
    }

    /// Deletes a review screenshot.
    pub fn delete_commerce_review_screenshot(
        &self,
        id: &str,
        kind: CommerceKind,
    ) -> (request: ApiRequest)
        ensures
            request@ == self.delete_view(kind.review_screenshot_collection_path_of() + "/"@ + id@),
    {
        self.delete(cat3(kind.review_screenshot_collection_path(), "/", id).as_str())
    }

    /// Asks for an event by its id, or for all events of an app.
    pub fn find_app_event(&self, app_id: &str, asc_id: Option<&str>) -> (request: ApiRequest)
        ensures
            request@ == match asc_id {
                Some(id) => self.get_view("/appEvents"@ + "/"@ + id@),
                None => self.get_view("/apps/"@ + app_id@ + "/appEvents"@)
                    .asking(
                        "fields[appEvents]"@,
                        "referenceName,badge,deepLink,purchaseRequirement,primaryLocale,priority,purpose,territorySchedules,eventState"@,
                    )
                    .asking("limit"@, "200"@),
            },
    {
        match asc_id {
            Some(id) => self.get_instance("/appEvents", id),
            None => self.get(cat3("/apps/", app_id, "/appEvents").as_str())
                .ask(
                    "fields[appEvents]",
                    "referenceName,badge,deepLink,purchaseRequirement,primaryLocale,priority,purpose,territorySchedules,eventState",
                )
                .ask("limit", "200"),
        }
    }

    /// Asks for the localizations of an event.
    pub fn list_app_event_localizations(&self, event_id: &str) -> (request: ApiRequest)
        ensures
            request@ == self.get_view("/appEvents/"@ + event_id@ + "/localizations"@)
                .asking(
                    "fields[appEventLocalizations]"@,
                    "locale,name,shortDescription,longDescription"@,
                )
                .asking("limit"@, "50"@),
    {
        self.get(cat3("/appEvents/", event_id, "/localizations").as_str())
            .ask("fields[appEventLocalizations]", "locale,name,shortDescription,longDescription")
            .ask("limit", "50")
    }

    /// Asks for the images of an event localization.
    pub fn list_app_event_screenshots(&self, localization_id: &str) -> (request: ApiRequest)
        ensures
            request@ == self.get_view("/appEventLocalizations/"@ + localization_id@ + "/appEventScreenshots"@)
                .asking(
                    "fields[appEventScreenshots]"@,
                    "fileName,fileSize,uploadOperations,assetDeliveryState,appEventAssetType"@,
                )
                .asking("limit"@, "50"@),
    {
        self.get(cat3("/appEventLocalizations/", localization_id, "/appEventScreenshots").as_str())
            .ask(
                "fields[appEventScreenshots]",
                "fileName,fileSize,uploadOperations,assetDeliveryState,appEventAssetType",
            )
            .ask("limit", "50")
    }

    /// Deletes an event image.
    pub fn delete_app_event_screenshot(&self, id: &str) -> (request: ApiRequest)
        ensures
            request@ == self.delete_view("/appEventScreenshots/"@ + id@),
    {
        self.delete(cat("/appEventScreenshots/", id).as_str())
    }

    /// Asks for the videos of an event localization.
    pub fn list_app_event_video_clips(&self, localization_id: &str) -> (request: ApiRequest)
        ensures
            request@ == self.get_view("/appEventLocalizations/"@ + localization_id@ + "/appEventVideoClips"@)
                .asking(
                    "fields[appEventVideoClips]"@,
                    "fileName,fileSize,uploadOperations,assetDeliveryState,videoDeliveryState,appEventAssetType"@,
                )
                .asking("limit"@, "50"@),
    {
        self.get(cat3("/appEventLocalizations/", localization_id, "/appEventVideoClips").as_str())
            .ask(
                "fields[appEventVideoClips]",
                "fileName,fileSize,uploadOperations,assetDeliveryState,videoDeliveryState,appEventAssetType",
            )
            .ask("limit", "50")
    }

    /// Deletes an event video.
    pub fn delete_app_event_video_clip(&self, id: &str) -> (request: ApiRequest)
        ensures
            request@ == self.delete_view("/appEventVideoClips/"@ + id@),
    {
        self.delete(cat("/appEventVideoClips/", id).as_str())
    }

    /// Asks for all territories.
    pub fn list_territory_ids(&self) -> (request: ApiRequest)
        ensures
            request@ == self.get_view("/territories"@).asking("limit"@, "200"@),
    {
        self.get("/territories").ask("limit", "200")
    }

    /// Asks for what a relationship leads to.
    pub fn list_related_ids(&self, path: &str) -> (request: ApiRequest)
        ensures
            request@ == self.get_view(path@),
    {
        self.get(path)
    }

    /// Creates a page.
    pub open spec fn new_page(self, app_id: Seq<char>, name: Seq<char>) -> RequestView {
        self.post_view(
            "/appCustomProductPages"@,
            "appCustomProductPages"@,
            no_members().insert("name"@, JsonView::Text(name)),
            related("app"@, "apps"@, app_id),
        )
    }

    /// Creates a page.
    pub fn create_custom_product_page(&self, app_id: &str, name: &str) -> (request: ApiRequest)
        ensures
            request@ == self.new_page(app_id@, name@),
    {
        let attrs = map_with("name", text(name));
        self.post_resource(
            "/appCustomProductPages",
            "appCustomProductPages",
            attrs,
            relation("app", "apps", app_id),
        )
    }

    /// Creates a page version.
    pub open spec fn new_page_version(
        self,
        page_id: Seq<char>,
        deep_link: Option<Seq<char>>,
    ) -> RequestView {
        self.post_view(
            "/appCustomProductPageVersions"@,
            "appCustomProductPageVersions"@,
            with_text(no_members(), "deepLink"@, deep_link),
            related("appCustomProductPage"@, "appCustomProductPages"@, page_id),
        )
    }

    /// Creates a page version.
    pub fn create_custom_product_page_version(
        &self,
        page_id: &str,
        deep_link: Option<&str>,
    ) -> (request: ApiRequest)
        ensures
            request@ == self.new_page_version(page_id@, given(deep_link)),
    {
        let mut attrs = Members::new();
        insert_optional(&mut attrs, "deepLink", deep_link);
        self.post_resource(
            "/appCustomProductPageVersions",
            "appCustomProductPageVersions",
            attrs,
            relation("appCustomProductPage", "appCustomProductPages", page_id),
        )
    }

    /// Creates a page localization.
    pub open spec fn new_page_localization(
        self,
        version_id: Seq<char>,
        locale: Seq<char>,
        promotional_text: Option<Seq<char>>,
    ) -> RequestView {
        self.post_view(
            "/appCustomProductPageLocalizations"@,
            "appCustomProductPageLocalizations"@,
            with_text(no_members()
                .insert("locale"@, JsonView::Text(locale)), "promotionalText"@, promotional_text),
            related("appCustomProductPageVersion"@, "appCustomProductPageVersions"@, version_id),
        )
    }

    /// Creates a page localization.
    pub fn create_custom_product_page_localization(
        &self,
        version_id: &str,
        locale: &str,
        promotional_text: Option<&str>,
    ) -> (request: ApiRequest)
        ensures
            request@ == self.new_page_localization(version_id@, locale@, given(promotional_text)),
    {
        let mut attrs = map_with("locale", text(locale));
        insert_optional(&mut attrs, "promotionalText", promotional_text);
        self.post_resource(
            "/appCustomProductPageLocalizations",
            "appCustomProductPageLocalizations",
            attrs,
            relation("appCustomProductPageVersion", "appCustomProductPageVersions", version_id),
        )
    }

    /// Creates a screenshot set.
    pub open spec fn new_related_screenshot_set(
        self,
        relationship_key: Seq<char>,
        relationship_type: Seq<char>,
        localization_id: Seq<char>,
        display_type: Seq<char>,
    ) -> RequestView {
        self.post_view(
            "/appScreenshotSets"@,
            "appScreenshotSets"@,
            no_members().insert("screenshotDisplayType"@, JsonView::Text(display_type)),
            related(relationship_key, relationship_type, localization_id),
        )
    }

    /// Creates a screenshot set.
    pub fn create_screenshot_set_for_relationship(
        &self,
        relationship_key: &str,
        relationship_type: &str,
        localization_id: &str,
        display_type: &str,
    ) -> (request: ApiRequest)
        ensures
            request@ == self.new_related_screenshot_set(
                relationship_key@,
                relationship_type@,
                localization_id@,
                display_type@,
            ),
    {
        let attrs = map_with("screenshotDisplayType", text(display_type));
        self.post_resource(
            "/appScreenshotSets",
            "appScreenshotSets",
            attrs,
            relation(relationship_key, relationship_type, localization_id),
        )
    }

    /// Creates a preview set.
    pub open spec fn new_related_preview_set(
        self,
        relationship_key: Seq<char>,
        relationship_type: Seq<char>,
        localization_id: Seq<char>,
        preview_type: Seq<char>,
    ) -> RequestView {
        self.post_view(
            "/appPreviewSets"@,
            "appPreviewSets"@,
            no_members().insert("previewType"@, JsonView::Text(preview_type)),
            related(relationship_key, relationship_type, localization_id),
        )
    }

    /// Creates a preview set.
    pub fn create_preview_set_for_relationship(
        &self,
        relationship_key: &str,
        relationship_type: &str,
        localization_id: &str,
        preview_type: &str,
    ) -> (request: ApiRequest)
        ensures
            request@ == self.new_related_preview_set(
                relationship_key@,
                relationship_type@,
                localization_id@,
                preview_type@,
            ),
    {
        let attrs = map_with("previewType", text(preview_type));
        self.post_resource(
            "/appPreviewSets",
            "appPreviewSets",
            attrs,
            relation(relationship_key, relationship_type, localization_id),
        )
    }

    /// Creates an in-app purchase.
    pub open spec fn new_iap(
        self,
        app_id: Seq<char>,
        iap: InAppPurchaseSpec,
        desired: ResolvedCommerceProduct,
    ) -> RequestView {
        self.post_view(
            "/v2/inAppPurchases"@,
            "inAppPurchases"@,
            iap_members(iap, desired),
            related("app"@, "apps"@, app_id),
        )
    }

    /// Creates an in-app purchase.
    pub fn create_iap(
        &self,
        app_id: &str,
        iap: &InAppPurchaseSpec,
        desired: &ResolvedCommerceProduct,
    ) -> (request: ApiRequest)
        ensures
            request@ == self.new_iap(app_id@, *iap, *desired),
    {
        let attrs = iap_attrs(iap, desired);
        self.post_resource(
            "/v2/inAppPurchases",
            "inAppPurchases",
            attrs,
            relation("app", "apps", app_id),
        )
    }

    /// Creates a subscription group.
    pub open spec fn new_group(self, app_id: Seq<char>, reference_name: Seq<char>) -> RequestView {
        self.post_view(
            "/subscriptionGroups"@,
            "subscriptionGroups"@,
            no_members().insert("referenceName"@, JsonView::Text(reference_name)),
            related("app"@, "apps"@, app_id),
        )
    }

    /// Creates a subscription group.
    pub fn create_subscription_group(
        &self,
        app_id: &str,
        reference_name: &str,
    ) -> (request: ApiRequest)
        ensures
            request@ == self.new_group(app_id@, reference_name@),
    {
        let attrs = map_with("referenceName", text(reference_name));
        self.post_resource(
            "/subscriptionGroups",
            "subscriptionGroups",
            attrs,
            relation("app", "apps", app_id),
        )
    }

    /// Creates a group localization.
    pub open spec fn new_group_localization(
        self,
        group_id: Seq<char>,
        locale: Seq<char>,
        desired: ResolvedSubscriptionGroupLocalization,
    ) -> RequestView {
        self.post_view(
            "/subscriptionGroupLocalizations"@,
            "subscriptionGroupLocalizations"@,
            with_text(no_members()
                .insert("locale"@, JsonView::Text(locale))
                .insert("name"@, JsonView::Text(desired.name@)), "customAppName"@, owned(desired.custom_app_name)),
            related("subscriptionGroup"@, "subscriptionGroups"@, group_id),
        )
    }

    /// Creates a group localization.
    pub fn create_subscription_group_localization(
        &self,
        group_id: &str,
        locale: &str,
        desired: &ResolvedSubscriptionGroupLocalization,
    ) -> (request: ApiRequest)
        ensures
            request@ == self.new_group_localization(group_id@, locale@, *desired),
    {
        let mut attrs = map_with("locale", text(locale));
        attrs.put("name", text(desired.name.as_str()));
        insert_optional(&mut attrs, "customAppName", as_deref(&desired.custom_app_name));
        self.post_resource(
            "/subscriptionGroupLocalizations",
            "subscriptionGroupLocalizations",
            attrs,
            relation("subscriptionGroup", "subscriptionGroups", group_id),
        )
    }

    /// Creates a subscription.
    pub open spec fn new_subscription(
        self,
        group_id: Seq<char>,
        subscription: SubscriptionSpec,
        desired: ResolvedCommerceProduct,
    ) -> RequestView {
        self.post_view(
            "/subscriptions"@,
            "subscriptions"@,
            subscription_members(subscription, desired),
            related("group"@, "subscriptionGroups"@, group_id),
        )
    }

    /// Creates a subscription.
    pub fn create_subscription(
        &self,
        group_id: &str,
        subscription: &SubscriptionSpec,
        desired: &ResolvedCommerceProduct,
    ) -> (request: ApiRequest)
        ensures
            request@ == self.new_subscription(group_id@, *subscription, *desired),
    {
        let attrs = subscription_attrs(subscription, desired);
        self.post_resource(
            "/subscriptions",
            "subscriptions",
            attrs,
            relation("group", "subscriptionGroups", group_id),
        )
    }

    /// Creates the localization of a purchase or subscription.
    pub open spec fn new_commerce_localization(
        self,
        resource_id: Seq<char>,
        kind: CommerceKind,
        locale: Seq<char>,
        desired: ResolvedCommerceLocalization,
    ) -> RequestView {
        self.post_view(
            kind.localization_collection_path_of(),
            kind.localization_resource_type_of(),
            with_text(no_members()
                .insert("locale"@, JsonView::Text(locale))
                .insert("name"@, JsonView::Text(desired.name@)), "description"@, owned(desired.description)),
            related(kind.relationship_key_of(), kind.resource_type_of(), resource_id),
        )
    }

    /// Creates the localization of a purchase or subscription.
    pub fn create_commerce_localization(
        &self,
        resource_id: &str,
        kind: CommerceKind,
        locale: &str,
        desired: &ResolvedCommerceLocalization,
    ) -> (request: ApiRequest)
        ensures
            request@ == self.new_commerce_localization(resource_id@, kind, locale@, *desired),
    {
        let mut attrs = map_with("locale", text(locale));
        attrs.put("name", text(desired.name.as_str()));
        insert_optional(&mut attrs, "description", as_deref(&desired.description));
        self.post_resource(
            kind.localization_collection_path(),
            kind.localization_resource_type(),
            attrs,
            relation(kind.relationship_key(), kind.resource_type(), resource_id),
        )
    }

    /// Creates an event.
    pub open spec fn new_event(self, app_id: Seq<char>, desired: ResolvedAppEvent) -> RequestView {
        self.post_view(
            "/appEvents"@,
            "appEvents"@,
            event_members(desired),
            related("app"@, "apps"@, app_id),
        )
    }

    /// Creates an event.
    pub fn create_app_event(
        &self,
        app_id: &str,
        desired: &ResolvedAppEvent,
    ) -> (request: ApiRequest)
        ensures
            request@ == self.new_event(app_id@, *desired),
    {
        let attrs = app_event_attrs(desired);
        self.post_resource("/appEvents", "appEvents", attrs, relation("app", "apps", app_id))
    }

    /// Creates an event localization.
    pub open spec fn new_event_localization(
        self,
        event_id: Seq<char>,
        locale: Seq<char>,
        desired: ResolvedAppEventLocalization,
    ) -> RequestView {
        self.post_view(
            "/appEventLocalizations"@,
            "appEventLocalizations"@,
            event_localization_members(desired).insert("locale"@, JsonView::Text(locale)),
            related("appEvent"@, "appEvents"@, event_id),
        )
    }

    /// Creates an event localization.
    pub fn create_app_event_localization(
        &self,
        event_id: &str,
        locale: &str,
        desired: &ResolvedAppEventLocalization,
    ) -> (request: ApiRequest)
        ensures
            request@ == self.new_event_localization(event_id@, locale@, *desired),
    {
        let mut attrs = app_event_localization_attrs(desired);
        attrs.put("locale", text(locale));
        self.post_resource(
            "/appEventLocalizations",
            "appEventLocalizations",
            attrs,
            relation("appEvent", "appEvents", event_id),
        )
    }

    /// Changes a page.
    pub open spec fn changed_page(self, page_id: Seq<char>, attrs: MembersView) -> RequestView {
        self.patch_view(
            "/appCustomProductPages"@,
            "appCustomProductPages"@,
            page_id,
            attrs,
            no_members(),
        )
    }

    /// Changes a page.
    pub fn update_custom_product_page(&self, page_id: &str, attrs: Members) -> (request: ApiRequest)
        ensures
            request@ == self.changed_page(page_id@, attrs@),
    {
        self.patch_resource(
            "/appCustomProductPages",
            "appCustomProductPages",
            page_id,
            attrs,
            Members::new(),
        )
    }

    /// Changes the deep link of a page version; without one it is taken away.
    pub open spec fn changed_page_version(
        self,
        version_id: Seq<char>,
        deep_link: Option<Seq<char>>,
    ) -> RequestView {
        self.patch_view("/appCustomProductPageVersions"@, "appCustomProductPageVersions"@, version_id, no_members()
            .insert("deepLink"@, match deep_link {
            Some(link) => JsonView::Text(link),
            None => JsonView::Null,
        }), no_members())
    }

    /// Changes the deep link of a page version; without one it is taken away.
    pub fn update_custom_product_page_version(
        &self,
        version_id: &str,
        deep_link: Option<&str>,
    ) -> (request: ApiRequest)
        ensures
            request@ == self.changed_page_version(version_id@, given(deep_link)),
    {
        let attrs = map_with("deepLink", match deep_link {
            Some(found) => text(found),
            None => Json::Null,
        });
        self.patch_resource(
            "/appCustomProductPageVersions",
            "appCustomProductPageVersions",
            version_id,
            attrs,
            Members::new(),
        )
    }

    /// Changes a page localization.
    pub open spec fn changed_page_localization(
        self,
        localization_id: Seq<char>,
        promotional_text: Option<Seq<char>>,
    ) -> RequestView {
        self.patch_view(
            "/appCustomProductPageLocalizations"@,
            "appCustomProductPageLocalizations"@,
            localization_id,
            with_text(no_members(), "promotionalText"@, promotional_text),
            no_members(),
        )
    }

    /// Changes a page localization.
    pub fn update_custom_product_page_localization(
        &self,
        localization_id: &str,
        promotional_text: Option<&str>,
    ) -> (request: ApiRequest)
        ensures
            request@ == self.changed_page_localization(localization_id@, given(promotional_text)),
    {
        let mut attrs = Members::new();
        insert_optional(&mut attrs, "promotionalText", promotional_text);
        self.patch_resource(
            "/appCustomProductPageLocalizations",
            "appCustomProductPageLocalizations",
            localization_id,
            attrs,
            Members::new(),
        )
    }

    /// Changes an in-app purchase.
    pub open spec fn changed_iap(self, iap_id: Seq<char>, attrs: MembersView) -> RequestView {
        self.patch_view("/v2/inAppPurchases"@, "inAppPurchases"@, iap_id, attrs, no_members())
    }

    /// Changes an in-app purchase.
    pub fn update_iap(&self, iap_id: &str, attrs: Members) -> (request: ApiRequest)
        ensures
            request@ == self.changed_iap(iap_id@, attrs@),
    {
        self.patch_resource("/v2/inAppPurchases", "inAppPurchases", iap_id, attrs, Members::new())
    }

    /// Changes a subscription group.
    pub open spec fn changed_group(self, group_id: Seq<char>, attrs: MembersView) -> RequestView {
        self.patch_view(
            "/subscriptionGroups"@,
            "subscriptionGroups"@,
            group_id,
            attrs,
            no_members(),
        )
    }

    /// Changes a subscription group.
    pub fn update_subscription_group(&self, group_id: &str, attrs: Members) -> (request: ApiRequest)
        ensures
            request@ == self.changed_group(group_id@, attrs@),
    {
        self.patch_resource(
            "/subscriptionGroups",
            "subscriptionGroups",
            group_id,
            attrs,
            Members::new(),
        )
    }

    /// Changes a group localization.
    pub open spec fn changed_group_localization(
        self,
        localization_id: Seq<char>,
        desired: ResolvedSubscriptionGroupLocalization,
    ) -> RequestView {
        self.patch_view("/subscriptionGroupLocalizations"@, "subscriptionGroupLocalizations"@, localization_id, with_text(no_members()
            .insert("name"@, JsonView::Text(desired.name@)), "customAppName"@, owned(desired.custom_app_name)), no_members())
    }

    /// Changes a group localization.
    pub fn update_subscription_group_localization(
        &self,
        localization_id: &str,
        desired: &ResolvedSubscriptionGroupLocalization,
    ) -> (request: ApiRequest)
        ensures
            request@ == self.changed_group_localization(localization_id@, *desired),
    {
        let mut attrs = map_with("name", text(desired.name.as_str()));
        insert_optional(&mut attrs, "customAppName", as_deref(&desired.custom_app_name));
        self.patch_resource(
            "/subscriptionGroupLocalizations",
            "subscriptionGroupLocalizations",
            localization_id,
            attrs,
            Members::new(),
        )
    }

    /// Changes a subscription.
    pub open spec fn changed_subscription(
        self,
        subscription_id: Seq<char>,
        attrs: MembersView,
    ) -> RequestView {
        self.patch_view("/subscriptions"@, "subscriptions"@, subscription_id, attrs, no_members())
    }

    /// Changes a subscription.
    pub fn update_subscription(
        &self,
        subscription_id: &str,
        attrs: Members,
    ) -> (request: ApiRequest)
        ensures
            request@ == self.changed_subscription(subscription_id@, attrs@),
    {
        self.patch_resource(
            "/subscriptions",
            "subscriptions",
            subscription_id,
            attrs,
            Members::new(),
        )
    }

    /// Changes the localization of a purchase or subscription.
    pub open spec fn changed_commerce_localization(
        self,
        localization_id: Seq<char>,
        kind: CommerceKind,
        desired: ResolvedCommerceLocalization,
    ) -> RequestView {
        self.patch_view(kind.localization_collection_path_of(), kind.localization_resource_type_of(), localization_id, with_text(no_members()
            .insert("name"@, JsonView::Text(desired.name@)), "description"@, owned(desired.description)), no_members())
    }

    /// Changes the localization of a purchase or subscription.
    pub fn update_commerce_localization(
        &self,
        localization_id: &str,
        kind: CommerceKind,
        desired: &ResolvedCommerceLocalization,
    ) -> (request: ApiRequest)
        ensures
            request@ == self.changed_commerce_localization(localization_id@, kind, *desired),
    {
        let mut attrs = map_with("name", text(desired.name.as_str()));
        insert_optional(&mut attrs, "description", as_deref(&desired.description));
        self.patch_resource(
            kind.localization_collection_path(),
            kind.localization_resource_type(),
            localization_id,
            attrs,
            Members::new(),
        )
    }

    /// Changes an event.
    pub open spec fn changed_event(self, event_id: Seq<char>, attrs: MembersView) -> RequestView {
        self.patch_view("/appEvents"@, "appEvents"@, event_id, attrs, no_members())
    }

    /// Changes an event.
    pub fn update_app_event(&self, event_id: &str, attrs: Members) -> (request: ApiRequest)
        ensures
            request@ == self.changed_event(event_id@, attrs@),
    {
        self.patch_resource("/appEvents", "appEvents", event_id, attrs, Members::new())
    }

    /// Changes an event localization.
    pub open spec fn changed_event_localization(
        self,
        localization_id: Seq<char>,
        desired: ResolvedAppEventLocalization,
    ) -> RequestView {
        self.patch_view(
            "/appEventLocalizations"@,
            "appEventLocalizations"@,
            localization_id,
            event_localization_members(desired),
            no_members(),
        )
    }

    /// Changes an event localization.
    pub fn update_app_event_localization(
        &self,
        localization_id: &str,
        desired: &ResolvedAppEventLocalization,
    ) -> (request: ApiRequest)
        ensures
            request@ == self.changed_event_localization(localization_id@, *desired),
    {
        let attrs = app_event_localization_attrs(desired);
        self.patch_resource(
            "/appEventLocalizations",
            "appEventLocalizations",
            localization_id,
            attrs,
            Members::new(),
        )
    }
}

/// The review screenshot of a purchase or subscription, as a file to send.
pub fn review_screenshot_target<'a>(resource_id: &'a str, kind: CommerceKind) -> (target:
    AssetUploadTarget<'a>)
    ensures
        target.collection_path@ == kind.review_screenshot_collection_path_of(),
        target.resource_type@ == kind.review_screenshot_resource_type_of(),
        target.relationship_key@ == kind.relationship_key_of(),
        target.relationship_type@ == kind.resource_type_of(),
        target.relationship_id@ == resource_id@,
{
    AssetUploadTarget {
        collection_path: kind.review_screenshot_collection_path(),
        resource_type: kind.review_screenshot_resource_type(),
        relationship_key: kind.relationship_key(),
        relationship_type: kind.resource_type(),
        relationship_id: resource_id,
    }
}

/// An event image as a file to send, and its attributes.
pub fn event_screenshot_target<'a>(localization_id: &'a str, asset_type: &str) -> (target: (
    AssetUploadTarget<'a>,
    Members,
))
    ensures
        target.0.collection_path@ == "/appEventScreenshots"@,
        target.0.resource_type@ == "appEventScreenshots"@,
        target.0.relationship_key@ == "appEventLocalization"@,
        target.0.relationship_type@ == "appEventLocalizations"@,
        target.0.relationship_id@ == localization_id@,
        target.1@ == no_members().insert("appEventAssetType"@, JsonView::Text(asset_type@)),
{
    (
        AssetUploadTarget {
            collection_path: "/appEventScreenshots",
            resource_type: "appEventScreenshots",
            relationship_key: "appEventLocalization",
            relationship_type: "appEventLocalizations",
            relationship_id: localization_id,
        },
        map_with("appEventAssetType", text(asset_type)),
    )
}

/// An event video as a file to send, and its attributes.
pub fn event_video_target<'a>(
    localization_id: &'a str,
    asset_type: &str,
    preview_frame_time_code: Option<&str>,
) -> (target: (AssetUploadTarget<'a>, Members))
    ensures
        target.0.collection_path@ == "/appEventVideoClips"@,
        target.0.resource_type@ == "appEventVideoClips"@,
        target.0.relationship_key@ == "appEventLocalization"@,
        target.0.relationship_type@ == "appEventLocalizations"@,
        target.0.relationship_id@ == localization_id@,
        target.1@ == with_text(
            no_members().insert("appEventAssetType"@, JsonView::Text(asset_type@)),
            "previewFrameTimeCode"@,
            given(preview_frame_time_code),
        ),
{
    let mut attrs = map_with("appEventAssetType", text(asset_type));
    insert_optional(&mut attrs, "previewFrameTimeCode", preview_frame_time_code);
    (
        AssetUploadTarget {
            collection_path: "/appEventVideoClips",
            resource_type: "appEventVideoClips",
            relationship_key: "appEventLocalization",
            relationship_type: "appEventLocalizations",
            relationship_id: localization_id,
        },
        attrs,
    )
}

/// Whether a refusal says that there is no such resource.
pub fn says_missing(message: &str) -> (result: bool)
    ensures
        result == occurs(message@, "returned 404"@),
{
    contains(message, "returned 404")
}

/// What was looked for by something that only one resource can have.
#[derive(Debug, Clone, Copy, PartialEq, Eq, Structural)]
pub enum Unique {
    InAppPurchase,
    SubscriptionGroup,
    Subscription,
}

impl Unique {
    /// What is said when there are several.
    pub open spec fn several_of(self) -> Seq<char> {
        match self {
            Unique::InAppPurchase => "in-app purchases for product id "@,
            Unique::SubscriptionGroup => "subscription groups for reference name "@,
            Unique::Subscription => "subscriptions for product id "@,
        }
    }

    fn several(self) -> (name: &'static str)
        ensures
            name@ == self.several_of(),
    {
        match self {
            Unique::InAppPurchase => "in-app purchases for product id ",
            Unique::SubscriptionGroup => "subscription groups for reference name ",
            Unique::Subscription => "subscriptions for product id ",
        }
    }
}

/// The one resource that was found, if any.
pub fn found_unique<'a>(unique: Unique, key: &str, resources: &'a Vec<RemoteResource>) -> (result:
    Result<Option<&'a RemoteResource>, Error>)
    ensures
        if resources@.len() > 1 {
            result matches Err(error) && error@ == "ASC returned multiple "@ + unique.several_of()
                + key@
        } else if resources@.len() == 1 {
            result == Ok::<Option<&RemoteResource>, Error>(Some(&resources@[0]))
        } else {
            result == Ok::<Option<&RemoteResource>, Error>(None)
        },
{
    if resources.len() > 1 {
        Err(failure(cat3("ASC returned multiple ", unique.several(), key)))
    } else if resources.len() == 1 {
        Ok(Some(&resources[0]))
    } else {
        Ok(None)
    }
}

/// An event that is still to come, or running, under a reference name.
pub open spec fn is_current_event(event: RemoteResource, reference_name: Seq<char>) -> bool {
    &&& event.text_of("referenceName"@) == Some(reference_name)
    &&& event.text_of("eventState"@) != Some("ARCHIVED"@)
    &&& event.text_of("eventState"@) != Some("PAST"@)
}

/// The first event that is still to come, or running, under a reference name.
pub open spec fn current_event(
    events: Seq<RemoteResource>,
    reference_name: Seq<char>,
    i: int,
) -> Option<
    RemoteResource,
>
    decreases events.len() - i,
{
    if i < 0 || i >= events.len() {
        None
    } else if is_current_event(events[i], reference_name) {
        Some(events[i])
    } else {
        current_event(events, reference_name, i + 1)
    }
}

/// The first event that is still to come, or running, under a reference name.
pub fn found_app_event<'a>(events: &'a Vec<RemoteResource>, reference_name: &str) -> (event: Option<
    &'a RemoteResource,
>)
    ensures
        match current_event(events@, reference_name@, 0) {
            Some(found) => event == Some(&found),
            None => event is None,
        },
{
    let mut i: usize = 0;
    while i < events.len()
        invariant
            i <= events.len(),
            current_event(events@, reference_name@, 0) == current_event(
                events@,
                reference_name@,
                i as int,
            ),
        decreases events.len() - i,
    {
        let named = match events[i].attr_str("referenceName") {
            Some(name) => same(name, reference_name),
            None => false,
        };
        let over = match events[i].attr_str("eventState") {
            Some(state) => same(state, "ARCHIVED") || same(state, "PAST"),
            None => false,
        };
        if named && !over {
            return Some(&events[i]);
        }
        i += 1;
    }
    None
}

} // verus!
