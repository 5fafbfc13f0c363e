//! What the account holds of pages, purchases, subscriptions, events and prices once it has taken the
//! requests of a run.

use vstd::prelude::*;
use vstd::string::*;
use crate::api::{link_view, RequestView, Verb};
use crate::app_store::laws::{
    changes_one, creates_one, lemma_body, lemma_patch, lemma_post, listed, sent, sent_link,
    source_gives, source_known, told_text,
};
use crate::app_store::reconcile::AppStoreSync;
use crate::app_store::requests::related;
use crate::app_store::resolve::ResolveContext;
use crate::app_store::resources::commerce::{
    commerce_localization_step, group_localization_step, group_step, iap_changes, iap_step,
    review_screenshot_step, subscription_changes, subscription_step,
};
use crate::app_store::resources::events::{
    asset_at, event_asset_step, event_localization_step, event_step, EventField,
};
use crate::app_store::resources::fill::schedule_view;
use crate::app_store::resources::pages::{
    availability_steps, deep_link_step, editable_version, missing_from, page_attrs,
    page_localization_step, page_step, page_version_step, pricing_step,
};
use crate::app_store::resources::prices::ResolvedPriceSchedule;
use crate::app_store::resources::requests::{
    current_event, event_localization_members, event_members, iap_members, subscription_members,
    territory_view,
};
use crate::app_store::resources::{
    first_with, of_locale, CommerceKind, RemoteResource, ResolvedAppEvent,
    ResolvedAppEventLocalization, ResolvedCommerceLocalization, ResolvedCommerceProduct,
    ResolvedCustomProductPage, ResolvedCustomProductPageLocalization,
    ResolvedSubscriptionGroupLocalization,
};
use crate::app_store::upload::{uploaded, LocalFile};
use crate::app_store::MediaAsset;
use crate::config::{
    AppAvailabilitySpec, AppEventLocalizationSpec, AppEventSpec, AppEventTerritoryScheduleSpec,
    CommerceLocalizationSpec, CustomProductPageLocalizationSpec, CustomProductPageSpec,
    InAppPurchaseSpec, SubscriptionGroupLocalizationSpec, SubscriptionSpec,
};
use crate::json::{array_view, member, not_standing, Json, JsonView};
use crate::paths::file_name_of;
use crate::sync::{ChangeKind, StepView};
use crate::text::{decimal, owned, texts};

verus! {

/// A text that may be missing, as a value.
pub open spec fn text_value(text: Option<Seq<char>>) -> Option<JsonView> {
    match text {
        Some(found) => Some(JsonView::Text(found)),
        None => None,
    }
}

/// A Boolean that may be missing, as a value.
pub open spec fn truth_value(truth: Option<bool>) -> Option<JsonView> {
    match truth {
        Some(found) => Some(JsonView::Bool(found)),
        None => None,
    }
}

/// An attribute of the account once it has taken what there was to do.
pub open spec fn value_now(step: Option<StepView>, key: Seq<char>, before: Option<JsonView>) ->
    Option<JsonView> {
    match step {
        Some(todo) => match sent(todo.requests.last(), key) {
            Some(value) => Some(value),
            None => before,
        },
        None => before,
    }
}

/// An attribute ends up as the wanted one, and stays where none is wanted.
pub open spec fn settles(
    step: Option<StepView>,
    key: Seq<char>,
    wanted: Option<JsonView>,
    existing: RemoteResource,
) -> bool {
    value_now(step, key, existing.attr_of(key)) == (if wanted is Some {
        wanted
    } else {
        existing.attr_of(key)
    })
}

/// An attribute that is wanted is there.
pub open spec fn stands(key: Seq<char>, wanted: Option<JsonView>,
    existing: RemoteResource) -> bool {
    wanted is Some ==> existing.attr_of(key) == wanted
}

/// What there is to do is one request that changes a resource of a later API version.
pub open spec fn changes_newer(
    step: Option<StepView>,
    url: Seq<char>,
    kind: Seq<char>,
    id: Seq<char>,
) -> bool {
    step matches Some(todo) ==> {
        &&& todo.requests.len() == 1
        &&& todo.requests[0].verb == Verb::Patch
        &&& todo.requests[0].url == url
        &&& told_text(todo.requests[0], "id"@) == Some(id)
        &&& told_text(todo.requests[0], "type"@) == Some(kind)
    }
}

/// What there is to do is one request that creates a resource of a later API version for an owner.
pub open spec fn creates_newer(
    step: Option<StepView>,
    url: Seq<char>,
    kind: Seq<char>,
    owner_key: Seq<char>,
    owner_kind: Seq<char>,
    owner: Seq<char>,
) -> bool {
    step matches Some(todo) ==> {
        &&& todo.requests.len() == 1
        &&& todo.requests[0].verb == Verb::Post
        &&& todo.requests[0].url == url
        &&& told_text(todo.requests[0], "id"@) is None
        &&& told_text(todo.requests[0], "type"@) == Some(kind)
        &&& sent_link(todo.requests[0], owner_key) == Some(
            (JsonView::Text(owner_kind), JsonView::Text(owner)),
        )
    }
}

/// A path of a later API version replaces the version of the base.
pub proof fn law_newer_paths_replace_the_version(root: Seq<char>, rest: Seq<char>)
    ensures
        crate::asc::endpoint(root + "/v1"@, "/v2/"@ + rest) == root + "/v2/"@ + rest,
        crate::asc::endpoint(root + "/v1"@, "/v3/"@ + rest) == root + "/v3/"@ + rest,
{
    reveal_strlit("/v1");
    reveal_strlit("/v2/");
    reveal_strlit("/v3/");
    let base = root + "/v1"@;
    assert(base.skip(base.len() - 3) =~= "/v1"@);
    assert(base.take(base.len() - 3) =~= root);
    assert(("/v2/"@ + rest).take(4) =~= "/v2/"@);
    assert(("/v3/"@ + rest).take(4) =~= "/v3/"@);
    assert(root + ("/v2/"@ + rest) =~= root + "/v2/"@ + rest);
    assert(root + ("/v3/"@ + rest) =~= root + "/v3/"@ + rest);
}

proof fn lemma_newer(base: Seq<char>, root: Seq<char>, path: Seq<char>)
    requires
        base == root + "/v1"@,
        path.len() >= 4,
        path[0] == '/',
        path[1] == 'v',
        path[2] == '2',
        path[3] == '/',
    ensures
        crate::asc::endpoint(base, path) == root + path,
{
    reveal_strlit("/v2/");
    let rest = path.skip(4);
    assert("/v2/"@ + rest =~= path);
    law_newer_paths_replace_the_version(root, rest);
    assert(root + "/v2/"@ + rest =~= root + path);
}

/// Once the account has taken what was sent for an in-app purchase, its name, its review note and
/// whether families share it are as configured. A purchase that is not there is created for the app,
/// with its product id and its type. Nothing is sent just where everything that is wanted is there.
pub proof fn law_purchases_settle(
    sync: AppStoreSync,
    app_key: Seq<char>,
    app_id: Seq<char>,
    iap_key: Seq<char>,
    iap: InAppPurchaseSpec,
    desired: ResolvedCommerceProduct,
    existing: Option<&RemoteResource>,
    root: Seq<char>,
)
    requires
        sync.api.base_url@ == root + "/v1"@,
    ensures
        ({
            let step = iap_step(sync, app_key, app_id, iap_key, iap, desired, existing);
            &&& existing matches Some(found) ==> {
                &&& settles(step, "name"@, Some(JsonView::Text(desired.reference_name@)), *found)
                &&& settles(step, "reviewNote"@, text_value(owned(desired.review_note)), *found)
                &&& settles(step, "familySharable"@, truth_value(iap.family_sharable), *found)
                &&& step is None <==> {
                    &&& stands("name"@, Some(JsonView::Text(desired.reference_name@)), *found)
                    &&& stands("reviewNote"@, text_value(owned(desired.review_note)), *found)
                    &&& stands("familySharable"@, truth_value(iap.family_sharable), *found)
                }
                &&& changes_newer(step, root + ("/v2/inAppPurchases/"@ + found.id@),
                    "inAppPurchases"@, found.id@)
            }
            &&& existing is None ==> {
                &&& step is Some
                &&& value_now(step, "name"@, None) == Some(JsonView::Text(desired.reference_name@))
                &&& value_now(step, "reviewNote"@, None) == text_value(owned(desired.review_note))
                &&& value_now(step, "familySharable"@, None) == truth_value(iap.family_sharable)
                &&& value_now(step, "productId"@, None) == Some(JsonView::Text(iap.product_id@))
                &&& value_now(step, "inAppPurchaseType"@, None)
                    == Some(JsonView::Text(iap.kind.asc_value_of()))
                &&& creates_newer(
                    step,
                    root + "/v2/inAppPurchases"@,
                    "inAppPurchases"@,
                    "app"@,
                    "apps"@,
                    app_id,
                )
            }
        }),
{
    reveal_strlit("name");
    reveal_strlit("reviewNote");
    reveal_strlit("familySharable");
    reveal_strlit("productId");
    reveal_strlit("inAppPurchaseType");
    assert("name"@.len() == 4
        && "reviewNote"@.len() == 10
        && "familySharable"@.len() == 14
        && "productId"@.len() == 9
        && "inAppPurchaseType"@.len() == 17);
    reveal_strlit("/v2/inAppPurchases");
    reveal_strlit("/v2/inAppPurchases/");
    reveal_strlit("/");
    assert("/v2/inAppPurchases"@ + "/"@ =~= "/v2/inAppPurchases/"@);
    let none = Map::<Seq<char>, JsonView>::empty();
    match existing {
        Some(found) => {
            let attrs = iap_changes(iap, desired, *found);
            lemma_newer(sync.api.base_url@, root, "/v2/inAppPurchases/"@ + found.id@);
            let request = sync.api.patch_view(
                "/v2/inAppPurchases"@,
                "inAppPurchases"@,
                found.id@,
                attrs,
                none,
            );
            lemma_body(request, Some(found.id@), "inAppPurchases"@, attrs, none);
            if attrs == none {
                assert(!attrs.contains_key("name"@));
                assert(!attrs.contains_key("reviewNote"@));
                assert(!attrs.contains_key("familySharable"@));
            } else {
                assert(attrs.contains_key("name"@)
                    || attrs.contains_key("reviewNote"@)
                    || attrs.contains_key("familySharable"@));
            }
        },
        None => {
            let links = related("app"@, "apps"@, app_id);
            let all = iap_members(iap, desired);
            lemma_newer(sync.api.base_url@, root, "/v2/inAppPurchases"@);
            let request = sync.api.post_view("/v2/inAppPurchases"@, "inAppPurchases"@, all, links);
            lemma_body(request, None, "inAppPurchases"@, all, links);
            assert(links["app"@] == link_view("apps"@, app_id));
            assert(sent_link(request, "app"@) is Some);
        },
    }
}

/// Once the account has taken what was sent for a subscription, its name, its review note, its period,
/// its level and whether families share it are as configured. A subscription that is not there is
/// created in its group, with its product id. Nothing is sent just where everything that is wanted is
/// there.
pub proof fn law_subscriptions_settle(
    sync: AppStoreSync,
    subject: Seq<char>,
    group_id: Seq<char>,
    subscription: SubscriptionSpec,
    desired: ResolvedCommerceProduct,
    existing: Option<&RemoteResource>,
)
    ensures
        ({
            let step = subscription_step(sync, subject, group_id, subscription, desired, existing);
            &&& existing matches Some(found) ==> {
                &&& settles(step, "name"@, Some(JsonView::Text(desired.reference_name@)), *found)
                &&& settles(step, "reviewNote"@, text_value(owned(desired.review_note)), *found)
                &&& settles(step, "familySharable"@, truth_value(subscription.family_sharable),
                    *found)
                &&& settles(step, "subscriptionPeriod"@, (match subscription.period {
                        Some(period) => Some(JsonView::Text(period.asc_value_of())),
                        None => None,
                    }), *found)
                &&& settles(step, "groupLevel"@, (match subscription.group_level {
                        Some(level) => Some(JsonView::Number(decimal(level as nat))),
                        None => None,
                    }), *found)
                &&& step is None <==> {
                    &&& stands("name"@, Some(JsonView::Text(desired.reference_name@)), *found)
                    &&& stands("reviewNote"@, text_value(owned(desired.review_note)), *found)
                    &&& stands("familySharable"@, truth_value(subscription.family_sharable), *found)
                    &&& stands("subscriptionPeriod"@, (match subscription.period {
                        Some(period) => Some(JsonView::Text(period.asc_value_of())),
                        None => None,
                    }), *found)
                    &&& stands("groupLevel"@, (match subscription.group_level {
                        Some(level) => Some(JsonView::Number(decimal(level as nat))),
                        None => None,
                    }), *found)
                }
                &&& changes_one(step, sync.api.base_url@, "subscriptions"@, found.id@)
            }
            &&& existing is None ==> {
                &&& step is Some
                &&& value_now(step, "name"@, None) == Some(JsonView::Text(desired.reference_name@))
                &&& value_now(step, "reviewNote"@, None) == text_value(owned(desired.review_note))
                &&& value_now(step, "familySharable"@, None)
                    == truth_value(subscription.family_sharable)
                &&& value_now(step, "subscriptionPeriod"@, None) == (match subscription.period {
                        Some(period) => Some(JsonView::Text(period.asc_value_of())),
                        None => None,
                    })
                &&& value_now(step, "groupLevel"@, None) == (match subscription.group_level {
                        Some(level) => Some(JsonView::Number(decimal(level as nat))),
                        None => None,
                    })
                &&& value_now(step, "productId"@, None)
                    == Some(JsonView::Text(subscription.product_id@))
                &&& creates_one(
                    step,
                    sync.api.base_url@,
                    "subscriptions"@,
                    "group"@,
                    "subscriptionGroups"@,
                    group_id,
                )
            }
        }),
{
    reveal_strlit("name");
    reveal_strlit("reviewNote");
    reveal_strlit("familySharable");
    reveal_strlit("subscriptionPeriod");
    reveal_strlit("groupLevel");
    reveal_strlit("productId");
    assert("name"@.len() == 4
        && "reviewNote"@.len() == 10
        && "familySharable"@.len() == 14
        && "subscriptionPeriod"@.len() == 18
        && "groupLevel"@.len() == 10
        && "productId"@.len() == 9
        && "reviewNote"@[0] == 'r'
        && "groupLevel"@[0] == 'g');
    reveal_strlit("/");
    reveal_strlit("/subscriptions");
    reveal_strlit("subscriptions");
    assert("/subscriptions"@ =~= "/"@ + "subscriptions"@);
    let none = Map::<Seq<char>, JsonView>::empty();
    match existing {
        Some(found) => {
            let attrs = subscription_changes(subscription, desired, *found);
            lemma_patch(sync.api, "/subscriptions"@, "subscriptions"@, found.id@, attrs, none);
            if attrs == none {
                assert(!attrs.contains_key("name"@));
                assert(!attrs.contains_key("reviewNote"@));
                assert(!attrs.contains_key("familySharable"@));
                assert(!attrs.contains_key("subscriptionPeriod"@));
                assert(!attrs.contains_key("groupLevel"@));
            } else {
                assert(attrs.contains_key("name"@)
                    || attrs.contains_key("reviewNote"@)
                    || attrs.contains_key("familySharable"@)
                    || attrs.contains_key("subscriptionPeriod"@)
                    || attrs.contains_key("groupLevel"@));
            }
        },
        None => {
            let links = related("group"@, "subscriptionGroups"@, group_id);
            let all = subscription_members(subscription, desired);
            lemma_post(sync.api, "/subscriptions"@, "subscriptions"@, all, links);
            let request = sync.api.post_view("/subscriptions"@, "subscriptions"@, all, links);
            assert(links["group"@] == link_view("subscriptionGroups"@, group_id));
            assert(sent_link(request, "group"@) is Some);
        },
    }
}

/// Once the account has taken what was sent for a subscription group, its reference name is the wanted
/// one. A group that is not there is created for the app.
pub proof fn law_subscription_groups_settle(
    sync: AppStoreSync,
    app_key: Seq<char>,
    app_id: Seq<char>,
    group_key: Seq<char>,
    reference_name: Seq<char>,
    existing: Option<&RemoteResource>,
)
    ensures
        ({
            let step = group_step(sync, app_key, app_id, group_key, reference_name, existing);
            &&& existing matches Some(found) ==> {
                &&& settles(step, "referenceName"@, Some(JsonView::Text(reference_name)), *found)
                &&& step is None <==> {
                    &&& stands("referenceName"@, Some(JsonView::Text(reference_name)), *found)
                }
                &&& changes_one(step, sync.api.base_url@, "subscriptionGroups"@, found.id@)
            }
            &&& existing is None ==> {
                &&& step is Some
                &&& value_now(step, "referenceName"@, None) == Some(JsonView::Text(reference_name))
                &&& creates_one(
                    step,
                    sync.api.base_url@,
                    "subscriptionGroups"@,
                    "app"@,
                    "apps"@,
                    app_id,
                )
            }
        }),
{
    reveal_strlit("/");
    reveal_strlit("/subscriptionGroups");
    reveal_strlit("subscriptionGroups");
    assert("/subscriptionGroups"@ =~= "/"@ + "subscriptionGroups"@);
    let none = Map::<Seq<char>, JsonView>::empty();
    match existing {
        Some(found) => {
            let attrs = none.insert("referenceName"@, JsonView::Text(reference_name));
            lemma_patch(sync.api, "/subscriptionGroups"@, "subscriptionGroups"@,
                found.id@, attrs, none);
        },
        None => {
            let links = related("app"@, "apps"@, app_id);
            let all = none.insert("referenceName"@, JsonView::Text(reference_name));
            lemma_post(sync.api, "/subscriptionGroups"@, "subscriptionGroups"@, all, links);
            let request = sync.api.post_view("/subscriptionGroups"@,
                "subscriptionGroups"@, all, links);
            assert(links["app"@] == link_view("apps"@, app_id));
            assert(sent_link(request, "app"@) is Some);
        },
    }
}

/// Once the account has taken what was sent for a localization of a subscription group, its texts are
/// the wanted ones. A localization that is not there is created for the group, with its locale.
pub proof fn law_group_localizations_settle(
    sync: AppStoreSync,
    subject: Seq<char>,
    group_id: Seq<char>,
    current: Seq<RemoteResource>,
    locale: Seq<char>,
    desired: ResolvedSubscriptionGroupLocalization,
)
    ensures
        ({
            let step = group_localization_step(sync, subject, group_id, current, locale, desired);
            &&& of_locale(current, locale, current.len()) matches Some(found) ==> {
                &&& settles(step, "name"@, Some(JsonView::Text(desired.name@)), found)
                &&& settles(step, "customAppName"@, text_value(owned(desired.custom_app_name)),
                    found)
                &&& step is None <==> {
                    &&& stands("name"@, Some(JsonView::Text(desired.name@)), found)
                    &&& stands("customAppName"@, text_value(owned(desired.custom_app_name)), found)
                }
                &&& changes_one(step, sync.api.base_url@, "subscriptionGroupLocalizations"@,
                    found.id@)
            }
            &&& of_locale(current, locale, current.len()) is None ==> {
                &&& step is Some
                &&& value_now(step, "name"@, None) == Some(JsonView::Text(desired.name@))
                &&& value_now(step, "customAppName"@, None)
                    == text_value(owned(desired.custom_app_name))
                &&& value_now(step, "locale"@, None) == Some(JsonView::Text(locale))
                &&& creates_one(
                    step,
                    sync.api.base_url@,
                    "subscriptionGroupLocalizations"@,
                    "subscriptionGroup"@,
                    "subscriptionGroups"@,
                    group_id,
                )
            }
        }),
{
    reveal_strlit("name");
    reveal_strlit("customAppName");
    reveal_strlit("locale");
    assert("name"@.len() == 4
        && "customAppName"@.len() == 13
        && "locale"@.len() == 6);
    reveal_strlit("/");
    reveal_strlit("/subscriptionGroupLocalizations");
    reveal_strlit("subscriptionGroupLocalizations");
    assert("/subscriptionGroupLocalizations"@ =~= "/"@ + "subscriptionGroupLocalizations"@);
    let none = Map::<Seq<char>, JsonView>::empty();
    match of_locale(current, locale, current.len()) {
        Some(found) => {
            let attrs = crate::app_store::requests::with_text(
                none.insert("name"@, JsonView::Text(desired.name@)),
                "customAppName"@,
                owned(desired.custom_app_name),
            );
            lemma_patch(sync.api, "/subscriptionGroupLocalizations"@,
                "subscriptionGroupLocalizations"@, found.id@, attrs, none);
        },
        None => {
            let links = related("subscriptionGroup"@, "subscriptionGroups"@, group_id);
            let all = crate::app_store::requests::with_text(
                none.insert("locale"@, JsonView::Text(locale)).insert(
                    "name"@,
                    JsonView::Text(desired.name@),
                ),
                "customAppName"@,
                owned(desired.custom_app_name),
            );
            lemma_post(sync.api, "/subscriptionGroupLocalizations"@,
                "subscriptionGroupLocalizations"@, all, links);
            let request = sync.api.post_view("/subscriptionGroupLocalizations"@,
                "subscriptionGroupLocalizations"@, all, links);
            assert(links["subscriptionGroup"@] == link_view("subscriptionGroups"@, group_id));
            assert(sent_link(request, "subscriptionGroup"@) is Some);
        },
    }
}

/// Once the account has taken what was sent for a localization of an in-app purchase, its texts are the
/// wanted ones. A localization that is not there is created, with its locale.
pub proof fn law_purchase_localizations_settle(
    sync: AppStoreSync,
    subject: Seq<char>,
    resource_id: Seq<char>,
    current: Seq<RemoteResource>,
    locale: Seq<char>,
    desired: ResolvedCommerceLocalization,
)
    ensures
        ({
            let step = commerce_localization_step(
                sync,
                subject,
                resource_id,
                CommerceKind::InAppPurchase,
                current,
                locale,
                desired,
            );
            &&& of_locale(current, locale, current.len()) matches Some(found) ==> {
                &&& settles(step, "name"@, Some(JsonView::Text(desired.name@)), found)
                &&& settles(step, "description"@, text_value(owned(desired.description)), found)
                &&& step is None <==> {
                    &&& stands("name"@, Some(JsonView::Text(desired.name@)), found)
                    &&& stands("description"@, text_value(owned(desired.description)), found)
                }
                &&& changes_one(step, sync.api.base_url@, "inAppPurchaseLocalizations"@, found.id@)
            }
            &&& of_locale(current, locale, current.len()) is None ==> {
                &&& step is Some
                &&& value_now(step, "name"@, None) == Some(JsonView::Text(desired.name@))
                &&& value_now(step, "description"@, None) == text_value(owned(desired.description))
                &&& value_now(step, "locale"@, None) == Some(JsonView::Text(locale))
                &&& creates_one(
                    step,
                    sync.api.base_url@,
                    "inAppPurchaseLocalizations"@,
                    "inAppPurchaseV2"@,
                    "inAppPurchases"@,
                    resource_id,
                )
            }
        }),
{
    reveal_strlit("name");
    reveal_strlit("description");
    reveal_strlit("locale");
    assert("name"@.len() == 4
        && "description"@.len() == 11
        && "locale"@.len() == 6);
    reveal_strlit("/");
    reveal_strlit("/inAppPurchaseLocalizations");
    reveal_strlit("inAppPurchaseLocalizations");
    assert("/inAppPurchaseLocalizations"@ =~= "/"@ + "inAppPurchaseLocalizations"@);
    let none = Map::<Seq<char>, JsonView>::empty();
    match of_locale(current, locale, current.len()) {
        Some(found) => {
            let attrs = crate::app_store::requests::with_text(
                none.insert("name"@, JsonView::Text(desired.name@)),
                "description"@,
                owned(desired.description),
            );
            lemma_patch(sync.api, "/inAppPurchaseLocalizations"@,
                "inAppPurchaseLocalizations"@, found.id@, attrs, none);
        },
        None => {
            let links = related("inAppPurchaseV2"@, "inAppPurchases"@, resource_id);
            let all = crate::app_store::requests::with_text(
                none.insert("locale"@, JsonView::Text(locale)).insert(
                    "name"@,
                    JsonView::Text(desired.name@),
                ),
                "description"@,
                owned(desired.description),
            );
            lemma_post(sync.api, "/inAppPurchaseLocalizations"@,
                "inAppPurchaseLocalizations"@, all, links);
            let request = sync.api.post_view("/inAppPurchaseLocalizations"@,
                "inAppPurchaseLocalizations"@, all, links);
            assert(links["inAppPurchaseV2"@] == link_view("inAppPurchases"@, resource_id));
            assert(sent_link(request, "inAppPurchaseV2"@) is Some);
        },
    }
}

/// Once the account has taken what was sent for a localization of a subscription, its texts are the
/// wanted ones. A localization that is not there is created, with its locale.
pub proof fn law_subscription_localizations_settle(
    sync: AppStoreSync,
    subject: Seq<char>,
    resource_id: Seq<char>,
    current: Seq<RemoteResource>,
    locale: Seq<char>,
    desired: ResolvedCommerceLocalization,
)
    ensures
        ({
            let step = commerce_localization_step(
                sync,
                subject,
                resource_id,
                CommerceKind::Subscription,
                current,
                locale,
                desired,
            );
            &&& of_locale(current, locale, current.len()) matches Some(found) ==> {
                &&& settles(step, "name"@, Some(JsonView::Text(desired.name@)), found)
                &&& settles(step, "description"@, text_value(owned(desired.description)), found)
                &&& step is None <==> {
                    &&& stands("name"@, Some(JsonView::Text(desired.name@)), found)
                    &&& stands("description"@, text_value(owned(desired.description)), found)
                }
                &&& changes_one(step, sync.api.base_url@, "subscriptionLocalizations"@, found.id@)
            }
            &&& of_locale(current, locale, current.len()) is None ==> {
                &&& step is Some
                &&& value_now(step, "name"@, None) == Some(JsonView::Text(desired.name@))
                &&& value_now(step, "description"@, None) == text_value(owned(desired.description))
                &&& value_now(step, "locale"@, None) == Some(JsonView::Text(locale))
                &&& creates_one(
                    step,
                    sync.api.base_url@,
                    "subscriptionLocalizations"@,
                    "subscription"@,
                    "subscriptions"@,
                    resource_id,
                )
            }
        }),
{
    reveal_strlit("name");
    reveal_strlit("description");
    reveal_strlit("locale");
    assert("name"@.len() == 4
        && "description"@.len() == 11
        && "locale"@.len() == 6);
    reveal_strlit("/");
    reveal_strlit("/subscriptionLocalizations");
    reveal_strlit("subscriptionLocalizations");
    assert("/subscriptionLocalizations"@ =~= "/"@ + "subscriptionLocalizations"@);
    let none = Map::<Seq<char>, JsonView>::empty();
    match of_locale(current, locale, current.len()) {
        Some(found) => {
            let attrs = crate::app_store::requests::with_text(
                none.insert("name"@, JsonView::Text(desired.name@)),
                "description"@,
                owned(desired.description),
            );
            lemma_patch(sync.api, "/subscriptionLocalizations"@,
                "subscriptionLocalizations"@, found.id@, attrs, none);
        },
        None => {
            let links = related("subscription"@, "subscriptions"@, resource_id);
            let all = crate::app_store::requests::with_text(
                none.insert("locale"@, JsonView::Text(locale)).insert(
                    "name"@,
                    JsonView::Text(desired.name@),
                ),
                "description"@,
                owned(desired.description),
            );
            lemma_post(sync.api, "/subscriptionLocalizations"@,
                "subscriptionLocalizations"@, all, links);
            let request = sync.api.post_view("/subscriptionLocalizations"@,
                "subscriptionLocalizations"@, all, links);
            assert(links["subscription"@] == link_view("subscriptions"@, resource_id));
            assert(sent_link(request, "subscription"@) is Some);
        },
    }
}

/// Once the account has taken what was sent for a custom product page, its name and whether it is
/// visible are as configured. A page that is not there is created for the app, with its name.
pub proof fn law_pages_settle(
    sync: AppStoreSync,
    app_key: Seq<char>,
    app_id: Seq<char>,
    page_key: Seq<char>,
    desired: ResolvedCustomProductPage,
    existing: Option<&RemoteResource>,
)
    ensures
        ({
            let step = page_step(sync, app_key, app_id, page_key, desired, existing);
            &&& existing matches Some(found) ==> {
                &&& settles(step, "name"@, Some(JsonView::Text(desired.name@)), *found)
                &&& settles(step, "visible"@, truth_value(desired.visible), *found)
                &&& step is None <==> {
                    &&& stands("name"@, Some(JsonView::Text(desired.name@)), *found)
                    &&& stands("visible"@, truth_value(desired.visible), *found)
                }
                &&& changes_one(step, sync.api.base_url@, "appCustomProductPages"@, found.id@)
            }
            &&& existing is None ==> {
                &&& step is Some
                &&& value_now(step, "name"@, None) == Some(JsonView::Text(desired.name@))
                &&& value_now(step, "visible"@, None) is None
                &&& creates_one(
                    step,
                    sync.api.base_url@,
                    "appCustomProductPages"@,
                    "app"@,
                    "apps"@,
                    app_id,
                )
            }
        }),
{
    reveal_strlit("name");
    reveal_strlit("visible");
    assert("name"@.len() == 4
        && "visible"@.len() == 7);
    reveal_strlit("/");
    reveal_strlit("/appCustomProductPages");
    reveal_strlit("appCustomProductPages");
    assert("/appCustomProductPages"@ =~= "/"@ + "appCustomProductPages"@);
    let none = Map::<Seq<char>, JsonView>::empty();
    match existing {
        Some(found) => {
            let attrs = page_attrs(desired, *found);
            lemma_patch(sync.api, "/appCustomProductPages"@, "appCustomProductPages"@,
                found.id@, attrs, none);
            if attrs == none {
                assert(!attrs.contains_key("name"@));
                assert(!attrs.contains_key("visible"@));
            } else {
                assert(attrs.contains_key("name"@)
                    || attrs.contains_key("visible"@));
            }
        },
        None => {
            let links = related("app"@, "apps"@, app_id);
            let all = none.insert("name"@, JsonView::Text(desired.name@));
            lemma_post(sync.api, "/appCustomProductPages"@, "appCustomProductPages"@, all, links);
            let request = sync.api.post_view("/appCustomProductPages"@,
                "appCustomProductPages"@, all, links);
            assert(links["app"@] == link_view("apps"@, app_id));
            assert(sent_link(request, "app"@) is Some);
        },
    }
}

/// Once the account has taken what was sent for a localization of a custom product page, its
/// promotional text is the wanted one. A localization that is not there is created for the version of
/// the page, with its locale.
pub proof fn law_page_localizations_settle(
    sync: AppStoreSync,
    app_key: Seq<char>,
    page_key: Seq<char>,
    version_id: Seq<char>,
    locale: Seq<char>,
    desired: ResolvedCustomProductPageLocalization,
    existing: Option<&RemoteResource>,
)
    ensures
        ({
            let step = page_localization_step(
                sync,
                app_key,
                page_key,
                version_id,
                locale,
                desired,
                existing,
            );
            &&& existing matches Some(found) ==> {
                &&& settles(step, "promotionalText"@, text_value(owned(desired.promotional_text)),
                    *found)
                &&& step is None <==> {
                    &&& stands("promotionalText"@, text_value(owned(desired.promotional_text)),
                        *found)
                }
                &&& changes_one(step, sync.api.base_url@, "appCustomProductPageLocalizations"@,
                    found.id@)
            }
            &&& existing is None ==> {
                &&& step is Some
                &&& value_now(step, "promotionalText"@, None)
                    == text_value(owned(desired.promotional_text))
                &&& value_now(step, "locale"@, None) == Some(JsonView::Text(locale))
                &&& creates_one(
                    step,
                    sync.api.base_url@,
                    "appCustomProductPageLocalizations"@,
                    "appCustomProductPageVersion"@,
                    "appCustomProductPageVersions"@,
                    version_id,
                )
            }
        }),
{
    reveal_strlit("promotionalText");
    reveal_strlit("locale");
    assert("promotionalText"@.len() == 15
        && "locale"@.len() == 6);
    reveal_strlit("/");
    reveal_strlit("/appCustomProductPageLocalizations");
    reveal_strlit("appCustomProductPageLocalizations");
    assert("/appCustomProductPageLocalizations"@ =~= "/"@ + "appCustomProductPageLocalizations"@);
    let none = Map::<Seq<char>, JsonView>::empty();
    match existing {
        Some(found) => {
            let attrs = crate::app_store::requests::with_text(
                none,
                "promotionalText"@,
                owned(desired.promotional_text),
            );
            lemma_patch(sync.api, "/appCustomProductPageLocalizations"@,
                "appCustomProductPageLocalizations"@, found.id@, attrs, none);
        },
        None => {
            let links = related("appCustomProductPageVersion"@,
                "appCustomProductPageVersions"@, version_id);
            let all = crate::app_store::requests::with_text(
                none.insert("locale"@, JsonView::Text(locale)),
                "promotionalText"@,
                owned(desired.promotional_text),
            );
            lemma_post(sync.api, "/appCustomProductPageLocalizations"@,
                "appCustomProductPageLocalizations"@, all, links);
            let request = sync.api.post_view("/appCustomProductPageLocalizations"@,
                "appCustomProductPageLocalizations"@, all, links);
            assert(links["appCustomProductPageVersion"@]
                == link_view("appCustomProductPageVersions"@, version_id));
            assert(sent_link(request, "appCustomProductPageVersion"@) is Some);
        },
    }
}

/// Once the account has taken what was sent for a localization of an in-app event, its texts are the
/// wanted ones. A localization that is not there is created for the event, with its locale.
pub proof fn law_event_localizations_settle(
    sync: AppStoreSync,
    app_key: Seq<char>,
    event_key: Seq<char>,
    event_id: Seq<char>,
    locale: Seq<char>,
    desired: ResolvedAppEventLocalization,
    existing: Option<&RemoteResource>,
)
    ensures
        ({
            let step = event_localization_step(
                sync,
                app_key,
                event_key,
                event_id,
                locale,
                desired,
                existing,
            );
            &&& existing matches Some(found) ==> {
                &&& settles(step, "name"@, text_value(owned(desired.name)), *found)
                &&& settles(step, "shortDescription"@,
                    text_value(owned(desired.short_description)), *found)
                &&& settles(step, "longDescription"@, text_value(owned(desired.long_description)),
                    *found)
                &&& step is None <==> {
                    &&& stands("name"@, text_value(owned(desired.name)), *found)
                    &&& stands("shortDescription"@, text_value(owned(desired.short_description)),
                        *found)
                    &&& stands("longDescription"@, text_value(owned(desired.long_description)),
                        *found)
                }
                &&& changes_one(step, sync.api.base_url@, "appEventLocalizations"@, found.id@)
            }
            &&& existing is None ==> {
                &&& step is Some
                &&& value_now(step, "name"@, None) == text_value(owned(desired.name))
                &&& value_now(step, "shortDescription"@, None)
                    == text_value(owned(desired.short_description))
                &&& value_now(step, "longDescription"@, None)
                    == text_value(owned(desired.long_description))
                &&& value_now(step, "locale"@, None) == Some(JsonView::Text(locale))
                &&& creates_one(
                    step,
                    sync.api.base_url@,
                    "appEventLocalizations"@,
                    "appEvent"@,
                    "appEvents"@,
                    event_id,
                )
            }
        }),
{
    reveal_strlit("name");
    reveal_strlit("shortDescription");
    reveal_strlit("longDescription");
    reveal_strlit("locale");
    assert("name"@.len() == 4
        && "shortDescription"@.len() == 16
        && "longDescription"@.len() == 15
        && "locale"@.len() == 6);
    reveal_strlit("/");
    reveal_strlit("/appEventLocalizations");
    reveal_strlit("appEventLocalizations");
    assert("/appEventLocalizations"@ =~= "/"@ + "appEventLocalizations"@);
    let none = Map::<Seq<char>, JsonView>::empty();
    match existing {
        Some(found) => {
            let attrs = event_localization_members(desired);
            lemma_patch(sync.api, "/appEventLocalizations"@, "appEventLocalizations"@,
                found.id@, attrs, none);
        },
        None => {
            let links = related("appEvent"@, "appEvents"@, event_id);
            let all = event_localization_members(desired).insert(
                "locale"@,
                JsonView::Text(locale),
            );
            lemma_post(sync.api, "/appEventLocalizations"@, "appEventLocalizations"@, all, links);
            let request = sync.api.post_view("/appEventLocalizations"@,
                "appEventLocalizations"@, all, links);
            assert(links["appEvent"@] == link_view("appEvents"@, event_id));
            assert(sent_link(request, "appEvent"@) is Some);
        },
    }
}

/// The schedules of an event, where it has any.
pub open spec fn wanted_schedules(desired: ResolvedAppEvent) -> Option<JsonView> {
    if desired.territory_schedules@.len() == 0 {
        None
    } else {
        Some(array_view(desired.territory_schedules@))
    }
}

/// Once the account has taken what was sent for an in-app event, everything that is configured of it
/// is as configured. An event that is not there is created for the app. Nothing is sent just where
/// everything that is wanted is there.
pub proof fn law_events_settle(
    sync: AppStoreSync,
    app_key: Seq<char>,
    app_id: Seq<char>,
    event_key: Seq<char>,
    desired: ResolvedAppEvent,
    existing: Option<&RemoteResource>,
)
    ensures
        ({
            let step = event_step(sync, app_key, app_id, event_key, desired, existing);
            &&& existing matches Some(found) ==> {
                &&& settles(step, "referenceName"@, Some(JsonView::Text(desired.reference_name@)),
                    *found)
                &&& settles(step, "badge"@, text_value(owned(desired.badge)), *found)
                &&& settles(step, "deepLink"@, text_value(owned(desired.deep_link)), *found)
                &&& settles(step, "purchaseRequirement"@,
                    text_value(owned(desired.purchase_requirement)), *found)
                &&& settles(step, "primaryLocale"@, text_value(owned(desired.primary_locale)),
                    *found)
                &&& settles(step, "priority"@, text_value(owned(desired.priority)), *found)
                &&& settles(step, "purpose"@, text_value(owned(desired.purpose)), *found)
                &&& settles(step, "territorySchedules"@, wanted_schedules(desired), *found)
                &&& step is None <==> {
                    &&& stands("referenceName"@, Some(JsonView::Text(desired.reference_name@)),
                        *found)
                    &&& stands("badge"@, text_value(owned(desired.badge)), *found)
                    &&& stands("deepLink"@, text_value(owned(desired.deep_link)), *found)
                    &&& stands("purchaseRequirement"@,
                        text_value(owned(desired.purchase_requirement)), *found)
                    &&& stands("primaryLocale"@, text_value(owned(desired.primary_locale)), *found)
                    &&& stands("priority"@, text_value(owned(desired.priority)), *found)
                    &&& stands("purpose"@, text_value(owned(desired.purpose)), *found)
                    &&& stands("territorySchedules"@, wanted_schedules(desired), *found)
                }
                &&& changes_one(step, sync.api.base_url@, "appEvents"@, found.id@)
            }
            &&& existing is None ==> {
                &&& step is Some
                &&& value_now(step, "referenceName"@, None)
                    == Some(JsonView::Text(desired.reference_name@))
                &&& value_now(step, "badge"@, None) == text_value(owned(desired.badge))
                &&& value_now(step, "deepLink"@, None) == text_value(owned(desired.deep_link))
                &&& value_now(step, "purchaseRequirement"@, None)
                    == text_value(owned(desired.purchase_requirement))
                &&& value_now(step, "primaryLocale"@, None)
                    == text_value(owned(desired.primary_locale))
                &&& value_now(step, "priority"@, None) == text_value(owned(desired.priority))
                &&& value_now(step, "purpose"@, None) == text_value(owned(desired.purpose))
                &&& value_now(step, "territorySchedules"@, None) == wanted_schedules(desired)
                &&& creates_one(
                    step,
                    sync.api.base_url@,
                    "appEvents"@,
                    "app"@,
                    "apps"@,
                    app_id,
                )
            }
        }),
{
    reveal_strlit("referenceName");
    reveal_strlit("badge");
    reveal_strlit("deepLink");
    reveal_strlit("purchaseRequirement");
    reveal_strlit("primaryLocale");
    reveal_strlit("priority");
    reveal_strlit("purpose");
    reveal_strlit("territorySchedules");
    assert("referenceName"@.len() == 13
        && "badge"@.len() == 5
        && "deepLink"@.len() == 8
        && "purchaseRequirement"@.len() == 19
        && "primaryLocale"@.len() == 13
        && "priority"@.len() == 8
        && "purpose"@.len() == 7
        && "territorySchedules"@.len() == 18
        && "referenceName"@[0] == 'r'
        && "primaryLocale"@[0] == 'p'
        && "deepLink"@[0] == 'd'
        && "priority"@[0] == 'p');
    reveal_strlit("/");
    reveal_strlit("/appEvents");
    reveal_strlit("appEvents");
    assert("/appEvents"@ =~= "/"@ + "appEvents"@);
    let none = Map::<Seq<char>, JsonView>::empty();
    match existing {
        Some(found) => {
            let attrs = not_standing(event_members(desired), found.attrs());
            lemma_patch(sync.api, "/appEvents"@, "appEvents"@, found.id@, attrs, none);
            if attrs == none {
                assert(!attrs.contains_key("referenceName"@));
                assert(!attrs.contains_key("badge"@));
                assert(!attrs.contains_key("deepLink"@));
                assert(!attrs.contains_key("purchaseRequirement"@));
                assert(!attrs.contains_key("primaryLocale"@));
                assert(!attrs.contains_key("priority"@));
                assert(!attrs.contains_key("purpose"@));
                assert(!attrs.contains_key("territorySchedules"@));
            } else {
                if forall|key: Seq<char>| !attrs.dom().contains(key) {
                    assert(attrs =~= none);
                }
                let key = choose|key: Seq<char>| attrs.dom().contains(key);
                assert(event_members(desired).dom().contains(key));
                assert(attrs.contains_key("referenceName"@)
                    || attrs.contains_key("badge"@)
                    || attrs.contains_key("deepLink"@)
                    || attrs.contains_key("purchaseRequirement"@)
                    || attrs.contains_key("primaryLocale"@)
                    || attrs.contains_key("priority"@)
                    || attrs.contains_key("purpose"@)
                    || attrs.contains_key("territorySchedules"@));
            }
        },
        None => {
            let links = related("app"@, "apps"@, app_id);
            let all = event_members(desired);
            lemma_post(sync.api, "/appEvents"@, "appEvents"@, all, links);
            let request = sync.api.post_view("/appEvents"@, "appEvents"@, all, links);
            assert(links["app"@] == link_view("apps"@, app_id));
            assert(sent_link(request, "app"@) is Some);
        },
    }
}

/// The deep link of a page version ends up as the wanted one, and is taken away where none is wanted.
/// Nothing is sent for a version that is only planned, or where the link is the wanted one already.
pub proof fn law_deep_links_settle(
    sync: AppStoreSync,
    app_key: Seq<char>,
    page_key: Seq<char>,
    version: RemoteResource,
    deep_link: Option<Seq<char>>,
)
    ensures
        ({
            let step = deep_link_step(sync, app_key, page_key, version, deep_link);
            &&& step is None <==> version.in_plan() || version.text_of("deepLink"@) == deep_link
            &&& step matches Some(todo) ==> sent(todo.requests.last(), "deepLink"@) == Some(
                match deep_link {
                    Some(link) => JsonView::Text(link),
                    None => JsonView::Null,
                },
            )
            &&& changes_one(
                step,
                sync.api.base_url@,
                "appCustomProductPageVersions"@,
                version.id@,
            )
        }),
{
    reveal_strlit("/");
    reveal_strlit("/appCustomProductPageVersions");
    reveal_strlit("appCustomProductPageVersions");
    assert("/appCustomProductPageVersions"@ =~= "/"@ + "appCustomProductPageVersions"@);
    let value = match deep_link {
        Some(link) => JsonView::Text(link),
        None => JsonView::Null,
    };
    let none = Map::<Seq<char>, JsonView>::empty();
    lemma_patch(
        sync.api,
        "/appCustomProductPageVersions"@,
        "appCustomProductPageVersions"@,
        version.id@,
        none.insert("deepLink"@, value),
        none,
    );
}

/// A page gets a new version, with the wanted deep link, just where none of its versions can be
/// changed.
pub proof fn law_page_versions_settle(
    sync: AppStoreSync,
    app_key: Seq<char>,
    page_key: Seq<char>,
    page_id: Seq<char>,
    deep_link: Option<Seq<char>>,
    versions: Seq<RemoteResource>,
)
    ensures
        ({
            let step = page_version_step(sync, app_key, page_key, page_id, deep_link, versions);
            &&& step is None <==> exists|i: int|
                0 <= i < versions.len() && page_version_open(#[trigger] versions[i])
            &&& step is Some ==> value_now(step, "deepLink"@, None) == text_value(deep_link)
            &&& creates_one(
                step,
                sync.api.base_url@,
                "appCustomProductPageVersions"@,
                "appCustomProductPage"@,
                "appCustomProductPages"@,
                page_id,
            )
        }),
{
    reveal_strlit("/");
    reveal_strlit("/appCustomProductPageVersions");
    reveal_strlit("appCustomProductPageVersions");
    assert("/appCustomProductPageVersions"@ =~= "/"@ + "appCustomProductPageVersions"@);
    law_editable_version_is_found(versions, 0);
    let links = related("appCustomProductPage"@, "appCustomProductPages"@, page_id);
    let attrs = crate::app_store::requests::with_text(
        Map::<Seq<char>, JsonView>::empty(),
        "deepLink"@,
        deep_link,
    );
    lemma_post(
        sync.api,
        "/appCustomProductPageVersions"@,
        "appCustomProductPageVersions"@,
        attrs,
        links,
    );
    let request = sync.api.post_view(
        "/appCustomProductPageVersions"@,
        "appCustomProductPageVersions"@,
        attrs,
        links,
    );
    assert(links["appCustomProductPage"@] == link_view("appCustomProductPages"@, page_id));
    assert(sent_link(request, "appCustomProductPage"@) is Some);
}

/// A page version can be changed before its submission and after a rejection.
pub open spec fn page_version_open(version: RemoteResource) -> bool {
    version.attr_of("state"@) == Some(JsonView::Text("PREPARE_FOR_SUBMISSION"@)) || version.attr_of(
        "state"@,
    ) == Some(JsonView::Text("REJECTED"@))
}

/// The version that is found can be changed and none before it can; where none is found, none can.
pub proof fn law_editable_version_is_found(versions: Seq<RemoteResource>, from: int)
    requires
        from >= 0,
    ensures
        match editable_version(versions, from) {
            Some(found) => exists|i: int|
                from <= i < versions.len() && found == #[trigger] versions[i] && page_version_open(
                    versions[i],
                ) && forall|j: int| from <= j < i ==> !page_version_open(#[trigger] versions[j]),
            None => forall|i: int|
                from <= i < versions.len() ==> !page_version_open(#[trigger] versions[i]),
        },
    decreases versions.len() - from,
{
    if from < versions.len() {
        if page_version_open(versions[from]) {
            assert(editable_version(versions, from) == Some(versions[from]));
        } else {
            law_editable_version_is_found(versions, from + 1);
            if let Some(found) = editable_version(versions, from + 1) {
                let i = choose|i: int|
                    from + 1 <= i < versions.len() && found == #[trigger] versions[i]
                        && page_version_open(versions[i]) && forall|j: int|
                        from + 1 <= j < i ==> !page_version_open(#[trigger] versions[j]);
                assert(found == versions[i]);
            }
        }
    }
}

/// What is missing is just what is wanted and not there, in its order.
pub proof fn law_missing_is_wanted_and_not_there(
    desired: Seq<Seq<char>>,
    current: Seq<Seq<char>>,
    item: Seq<char>,
)
    ensures
        missing_from(desired, current).contains(item) <==> desired.contains(item)
            && !current.contains(item),
        missing_from(desired, current).len() <= desired.len(),
    decreases desired.len(),
{
    if desired.len() > 0 {
        let rest = desired.drop_last();
        law_missing_is_wanted_and_not_there(rest, current, item);
        let before = missing_from(rest, current);
        let after = missing_from(desired, current);
        if desired.contains(item) && item != desired.last() {
            let i = choose|i: int| 0 <= i < desired.len() && desired[i] == item;
            assert(rest[i] == item);
        }
        if rest.contains(item) {
            let i = choose|i: int| 0 <= i < rest.len() && rest[i] == item;
            assert(desired[i] == item);
        }
        assert(desired[desired.len() - 1] == desired.last());
        if !current.contains(desired.last()) {
            assert(after == before.push(desired.last()));
            assert(after[after.len() - 1] == desired.last());
            if before.contains(item) {
                let i = choose|i: int| 0 <= i < before.len() && before[i] == item;
                assert(after[i] == item);
            }
            if after.contains(item) {
                let i = choose|i: int| 0 <= i < after.len() && after[i] == item;
                if i < before.len() {
                    assert(before[i] == item);
                }
            }
        }
    }
}

/// The localization that is found has the locale and is the last that has it; where none is found,
/// none has it.
pub proof fn law_localizations_are_found_by_locale(
    current: Seq<RemoteResource>,
    locale: Seq<char>,
    n: nat,
)
    requires
        locale.len() > 0,
        n <= current.len(),
    ensures
        match of_locale(current, locale, n) {
            Some(found) => exists|i: int|
                0 <= i < n && found == #[trigger] current[i] && current[i].attr_of("locale"@)
                    == Some(JsonView::Text(locale)) && forall|j: int|
                    i < j < n ==> (#[trigger] current[j]).attr_of("locale"@) != Some(
                        JsonView::Text(locale),
                    ),
            None => forall|i: int|
                0 <= i < n ==> (#[trigger] current[i]).attr_of("locale"@) != Some(
                    JsonView::Text(locale),
                ),
        },
    decreases n,
{
    if n > 0 {
        if current[n - 1].attr_of("locale"@) == Some(JsonView::Text(locale)) {
            assert(of_locale(current, locale, n) == Some(current[n - 1]));
        } else {
            law_localizations_are_found_by_locale(current, locale, (n - 1) as nat);
            assert(of_locale(current, locale, n) == of_locale(current, locale, (n - 1) as nat));
            if let Some(found) = of_locale(current, locale, (n - 1) as nat) {
                let i = choose|i: int|
                    0 <= i < n - 1 && found == #[trigger] current[i] && current[i].attr_of(
                        "locale"@,
                    ) == Some(JsonView::Text(locale)) && forall|j: int|
                        i < j < n - 1 ==> (#[trigger] current[j]).attr_of("locale"@) != Some(
                            JsonView::Text(locale),
                        );
                assert(found == current[i]);
            }
        }
    }
}

/// The resource that is found has the value and none before it has; where none is found, none has it.
pub proof fn law_resources_are_found_by_value(
    resources: Seq<RemoteResource>,
    key: Seq<char>,
    value: Seq<char>,
    from: int,
)
    requires
        from >= 0,
    ensures
        match first_with(resources, key, value, from) {
            Some(found) => exists|i: int|
                from <= i < resources.len() && found == #[trigger] resources[i]
                    && resources[i].attr_of(key) == Some(JsonView::Text(value)) && forall|j: int|
                    from <= j < i ==> (#[trigger] resources[j]).attr_of(key) != Some(
                        JsonView::Text(value),
                    ),
            None => forall|i: int|
                from <= i < resources.len() ==> (#[trigger] resources[i]).attr_of(key) != Some(
                    JsonView::Text(value),
                ),
        },
    decreases resources.len() - from,
{
    if from < resources.len() {
        if resources[from].attr_of(key) == Some(JsonView::Text(value)) {
            assert(first_with(resources, key, value, from) == Some(resources[from]));
        } else {
            law_resources_are_found_by_value(resources, key, value, from + 1);
            if let Some(found) = first_with(resources, key, value, from + 1) {
                let i = choose|i: int|
                    from + 1 <= i < resources.len() && found == #[trigger] resources[i]
                        && resources[i].attr_of(key) == Some(JsonView::Text(value)) && forall|
                        j: int,
                    |
                        from + 1 <= j < i ==> (#[trigger] resources[j]).attr_of(key) != Some(
                            JsonView::Text(value),
                        );
                assert(found == resources[i]);
            }
        }
    }
}

/// An event of the account is over.
pub open spec fn event_is_over(event: RemoteResource) -> bool {
    event.attr_of("eventState"@) == Some(JsonView::Text("ARCHIVED"@)) || event.attr_of(
        "eventState"@,
    ) == Some(JsonView::Text("PAST"@))
}

/// The event that is found has the reference name and is not over, and none before it is such; where
/// none is found, none is such.
pub proof fn law_current_event_is_not_over(
    events: Seq<RemoteResource>,
    reference_name: Seq<char>,
    from: int,
)
    requires
        from >= 0,
    ensures
        match current_event(events, reference_name, from) {
            Some(found) => exists|i: int|
                from <= i < events.len() && found == #[trigger] events[i] && !event_is_over(
                    events[i],
                ) && events[i].attr_of("referenceName"@) == Some(JsonView::Text(reference_name)),
            None => forall|i: int|
                from <= i < events.len() ==> event_is_over(#[trigger] events[i])
                    || events[i].attr_of("referenceName"@) != Some(JsonView::Text(reference_name)),
        },
    decreases events.len() - from,
{
    if from < events.len() {
        if !event_is_over(events[from]) && events[from].attr_of("referenceName"@) == Some(
            JsonView::Text(reference_name),
        ) {
            assert(current_event(events, reference_name, from) == Some(events[from]));
        } else {
            law_current_event_is_not_over(events, reference_name, from + 1);
            if let Some(found) = current_event(events, reference_name, from + 1) {
                let i = choose|i: int|
                    from + 1 <= i < events.len() && found == #[trigger] events[i]
                        && !event_is_over(events[i]) && events[i].attr_of("referenceName"@) == Some(
                        JsonView::Text(reference_name),
                    );
                assert(found == events[i]);
            }
        }
    }
}

/// A price schedule that differs is replaced by the wanted one, and one that is the wanted one stays:
/// the request names the app, the base territory and sends one price for each row.
pub proof fn law_pricing_settles(
    sync: AppStoreSync,
    app_key: Seq<char>,
    app_id: Seq<char>,
    desired: ResolvedPriceSchedule,
    current: Option<&ResolvedPriceSchedule>,
)
    ensures
        ({
            let step = pricing_step(sync, app_key, app_id, desired, current);
            &&& step is None <==> (current matches Some(found) && found@.base_territory
                == desired@.base_territory && found@.entries == desired@.entries)
            &&& creates_one(
                step,
                sync.api.base_url@,
                "appPriceSchedules"@,
                "app"@,
                "apps"@,
                app_id,
            )
            &&& creates_one(
                step,
                sync.api.base_url@,
                "appPriceSchedules"@,
                "baseTerritory"@,
                "territories"@,
                desired.base_territory@,
            )
            &&& step matches Some(todo) ==> todo.change.kind == ChangeKind::Replace
        }),
{
    reveal_strlit("/");
    reveal_strlit("/appPriceSchedules");
    reveal_strlit("appPriceSchedules");
    assert("/appPriceSchedules"@ =~= "/"@ + "appPriceSchedules"@);
    reveal_strlit("app");
    reveal_strlit("baseTerritory");
    reveal_strlit("manualPrices");
    assert("app"@.len() == 3 && "baseTerritory"@.len() == 13 && "manualPrices"@.len() == 12);
    let request = sync.api.new_price_schedule(app_id, desired);
    let rows = crate::app_store::resources::prices::schedule_rows(
        desired.entries@,
        desired.entries@.len(),
    );
    let links = crate::app_store::resources::prices::schedule_relationships(
        "app"@,
        "apps"@,
        app_id,
        crate::app_store::resources::requests::app_price_names(),
        desired.base_territory@,
        rows,
    );
    lemma_told_included(request);
    lemma_body(
        request,
        None,
        "appPriceSchedules"@,
        Map::<Seq<char>, JsonView>::empty(),
        links,
    );
    assert(links["app"@] == link_view("apps"@, app_id));
    assert(links["baseTerritory"@] == link_view("territories"@, desired.base_territory@));
    assert(sent_link(request, "app"@) is Some);
    assert(sent_link(request, "baseTerritory"@) is Some);
    crate::app_store::laws::lemma_endpoint(sync.api.base_url@, "/appPriceSchedules"@);
    assert(sync.api.base_url@ + "/appPriceSchedules"@ =~= sync.api.base_url@ + "/"@
        + "appPriceSchedules"@);
    if current matches Some(found) && found@.base_territory == desired@.base_territory
        && found@.entries == desired@.entries {
        assert(current->0@ == desired@);
    }
}

proof fn lemma_told_included(request: RequestView)
    ensures
        "data"@ != "included"@,
{
    reveal_strlit("data");
    reveal_strlit("included");
    assert("data"@.len() == 4 && "included"@.len() == 8);
}

/// The availability of an app is created, in just the wanted territories, where territories are given
/// and none is there yet. An availability that is there is never changed: every other step only tells.
pub proof fn law_availability_is_only_created(
    sync: AppStoreSync,
    app_key: Seq<char>,
    app_id: Seq<char>,
    availability: AppAvailabilitySpec,
    exists_already: bool,
    territories: Seq<Seq<char>>,
    root: Seq<char>,
)
    requires
        sync.api.base_url@ == root + "/v1"@,
    ensures
        ({
            let steps = availability_steps(
                sync,
                app_key,
                app_id,
                availability,
                exists_already,
                territories,
            );
            let due = availability.territories is Some && !exists_already;
            &&& steps.len() >= 1
            &&& !due ==> forall|i: int|
                0 <= i < steps.len() ==> (#[trigger] steps[i]).requests.len() == 0
            &&& due ==> {
                let request = steps[0].requests[0];
                &&& steps[0].requests.len() == 1
                &&& forall|i: int|
                    1 <= i < steps.len() ==> (#[trigger] steps[i]).requests.len() == 0
                &&& steps.len() == (if availability.pre_order is Some {
                    2int
                } else {
                    1
                })
                &&& request.verb == Verb::Post
                &&& request.url == root + "/v2/appAvailabilities"@
                &&& told_text(request, "type"@) == Some("appAvailabilities"@)
                &&& sent(request, "availableInNewTerritories"@) == Some(
                    JsonView::Bool(availability.available_in_new_territories != Some(false)),
                )
                &&& sent_link(request, "app"@) == Some(
                    (JsonView::Text("apps"@), JsonView::Text(app_id)),
                )
                &&& request.body matches Some(body) && member(body, "included"@) matches Some(
                    JsonView::Array(included),
                ) && included.len() == territories.len() && forall|i: int|
                    0 <= i < included.len() ==> opens_territory(
                        #[trigger] included[i],
                        territories[i],
                    )
            }
        }),
{
    reveal_strlit("app");
    reveal_strlit("territoryAvailabilities");
    reveal_strlit("/v2/appAvailabilities");
    assert("app"@.len() == 3 && "territoryAvailabilities"@.len() == 23);
    let open = match availability.available_in_new_territories {
        Some(value) => value,
        None => true,
    };
    let request = sync.api.new_availability(app_id, open, territories);
    lemma_newer(sync.api.base_url@, root, "/v2/appAvailabilities"@);
    lemma_told_included(request);
    let links = related("app"@, "apps"@, app_id).insert(
        "territoryAvailabilities"@,
        crate::api::data_view(
            crate::api::references_view("territoryAvailabilities"@, territories),
        ),
    );
    lemma_body(
        request,
        None,
        "appAvailabilities"@,
        Map::<Seq<char>, JsonView>::empty().insert(
            "availableInNewTerritories"@,
            JsonView::Bool(open),
        ),
        links,
    );
    assert(links["app"@] == link_view("apps"@, app_id));
    assert(sent_link(request, "app"@) is Some);
    let included = territories.map_values(|territory: Seq<char>| territory_view(territory));
    assert forall|i: int| 0 <= i < included.len() implies opens_territory(
        #[trigger] included[i],
        territories[i],
    ) by {
        lemma_territory(territories[i]);
    }
}

/// An included resource that makes an app available in a territory.
pub open spec fn opens_territory(value: JsonView, territory: Seq<char>) -> bool {
    &&& member(value, "id"@) == Some(JsonView::Text(territory))
    &&& member(value, "attributes"@) matches Some(attributes) && member(attributes, "available"@)
        == Some(JsonView::Bool(true))
    &&& crate::app_store::resources::prices::links_to(
        value,
        "territory"@,
        "territories"@,
        territory,
    )
}

proof fn lemma_territory(territory: Seq<char>)
    ensures
        opens_territory(territory_view(territory), territory),
{
    reveal_strlit("type");
    reveal_strlit("id");
    reveal_strlit("attributes");
    reveal_strlit("relationships");
    assert("type"@.len() == 4 && "id"@.len() == 2 && "attributes"@.len() == 10
        && "relationships"@.len() == 13);
    let links = related("territory"@, "territories"@, territory);
    assert(links["territory"@] == link_view("territories"@, territory));
}

/// A review screenshot stays where it is the wanted one; else the one that is there is deleted.
pub proof fn law_review_screenshots_are_replaced(
    sync: AppStoreSync,
    subject: Seq<char>,
    kind: CommerceKind,
    current: Seq<MediaAsset>,
    files: Seq<LocalFile>,
)
    ensures
        ({
            let step = review_screenshot_step(sync, subject, kind, current, files);
            let path = if kind == CommerceKind::InAppPurchase {
                "/inAppPurchaseAppStoreReviewScreenshots/"@
            } else {
                "/subscriptionAppStoreReviewScreenshots/"@
            };
            &&& step is None <==> current.len() > 0 && uploaded(false, current, files) == Ok::<
                bool,
                Seq<char>,
            >(true)
            &&& step matches Some(todo) ==> {
                &&& todo.change.kind == ChangeKind::Replace
                &&& todo.requests.len() == (if current.len() > 0 {
                    1int
                } else {
                    0
                })
                &&& current.len() > 0 ==> todo.requests[0].verb == Verb::Delete
                    && todo.requests[0].url == sync.api.base_url@ + path + current[0].id@
            }
        }),
{
    reveal_strlit("/");
    reveal_strlit("/inAppPurchaseAppStoreReviewScreenshots");
    reveal_strlit("/inAppPurchaseAppStoreReviewScreenshots/");
    reveal_strlit("/subscriptionAppStoreReviewScreenshots");
    reveal_strlit("/subscriptionAppStoreReviewScreenshots/");
    assert("/inAppPurchaseAppStoreReviewScreenshots"@ + "/"@
        =~= "/inAppPurchaseAppStoreReviewScreenshots/"@);
    assert("/subscriptionAppStoreReviewScreenshots"@ + "/"@
        =~= "/subscriptionAppStoreReviewScreenshots/"@);
    let path = if kind == CommerceKind::InAppPurchase {
        "/inAppPurchaseAppStoreReviewScreenshots/"@
    } else {
        "/subscriptionAppStoreReviewScreenshots/"@
    };
    if current.len() > 0 {
        crate::app_store::laws::lemma_endpoint(sync.api.base_url@, path + current[0].id@);
        assert(sync.api.base_url@ + (path + current[0].id@) =~= sync.api.base_url@ + path
            + current[0].id@);
    }
}

/// The names of the resources of purchases and subscriptions go together: the localizations and the
/// review screenshots are named after the resource, and paths are the names behind a slash.
pub proof fn law_commerce_names(kind: CommerceKind)
    ensures
        kind.localization_collection_path_of() == "/"@ + kind.localization_resource_type_of(),
        kind.localizations_path_of() == kind.localization_resource_type_of(),
        kind.review_screenshot_collection_path_of() == "/"@
            + kind.review_screenshot_resource_type_of(),
        kind.resource_path_of() == (if kind == CommerceKind::InAppPurchase {
            "/v2/"@
        } else {
            "/"@
        }) + kind.resource_type_of(),
        kind.localization_resource_type_of() == kind.resource_type_of().drop_last()
            + "Localizations"@,
        kind.review_screenshot_resource_type_of() == kind.resource_type_of().drop_last()
            + "AppStoreReviewScreenshots"@,
        kind.relationship_key_of() == kind.resource_type_of().drop_last() + (if kind
            == CommerceKind::InAppPurchase {
            "V2"@
        } else {
            ""@
        }),
        kind.resource_type_of() == (if kind == CommerceKind::InAppPurchase {
            "inAppPurchases"@
        } else {
            "subscriptions"@
        }),
{
    reveal_strlit("/");
    reveal_strlit("/v2/");
    reveal_strlit("V2");
    reveal_strlit("");
    reveal_strlit("Localizations");
    reveal_strlit("AppStoreReviewScreenshots");
    reveal_strlit("inAppPurchases");
    reveal_strlit("subscriptions");
    reveal_strlit("/v2/inAppPurchases");
    reveal_strlit("/subscriptions");
    reveal_strlit("inAppPurchaseV2");
    reveal_strlit("subscription");
    reveal_strlit("inAppPurchaseLocalizations");
    reveal_strlit("subscriptionLocalizations");
    reveal_strlit("/inAppPurchaseLocalizations");
    reveal_strlit("/subscriptionLocalizations");
    reveal_strlit("/inAppPurchaseAppStoreReviewScreenshots");
    reveal_strlit("/subscriptionAppStoreReviewScreenshots");
    reveal_strlit("inAppPurchaseAppStoreReviewScreenshots");
    reveal_strlit("subscriptionAppStoreReviewScreenshots");
    assert(kind.localization_collection_path_of() =~= "/"@ + kind.localization_resource_type_of());
    assert(kind.review_screenshot_collection_path_of() =~= "/"@
        + kind.review_screenshot_resource_type_of());
    assert(kind.localization_resource_type_of() =~= kind.resource_type_of().drop_last()
        + "Localizations"@);
    assert(kind.review_screenshot_resource_type_of() =~= kind.resource_type_of().drop_last()
        + "AppStoreReviewScreenshots"@);
    assert("/v2/inAppPurchases"@ =~= "/v2/"@ + "inAppPurchases"@);
    assert("/subscriptions"@ =~= "/"@ + "subscriptions"@);
    assert("inAppPurchaseV2"@ =~= "inAppPurchases"@.drop_last() + "V2"@);
    assert("subscription"@ =~= "subscriptions"@.drop_last() + ""@);
}

/// The file of a field of an event stays where a file of its name and size is there under the type of
/// the field; else the one that is there under that type is deleted, as a clip where the field is a
/// video and as a screenshot where it is an image.
pub proof fn law_event_media_is_replaced(
    sync: AppStoreSync,
    subject: Seq<char>,
    field: EventField,
    current: Seq<MediaAsset>,
    path: Seq<char>,
    size: Option<u64>,
)
    ensures
        ({
            let step = event_asset_step(sync, subject, field, current, path, size);
            let there = asset_at(current, place_of(field), 0);
            &&& step is None <==> (there matches Some(asset) && size is Some
                && asset.attributes.file_size
                == size && file_name_of(path) is Some && owned(asset.attributes.file_name)
                == file_name_of(path))
            &&& step matches Some(todo) ==> {
                &&& todo.change.kind == ChangeKind::Replace
                &&& there is None ==> todo.requests.len() == 0
                &&& there matches Some(asset) ==> todo.requests.len() == 1 && todo.requests[0].verb
                    == Verb::Delete && todo.requests[0].url == sync.api.base_url@ + (if field
                    == EventField::CardVideo || field == EventField::DetailsVideo {
                    "/appEventVideoClips/"@
                } else {
                    "/appEventScreenshots/"@
                }) + asset.id@
            }
        }),
{
    reveal_strlit("/appEventVideoClips/");
    reveal_strlit("/appEventScreenshots/");
    if let Some(asset) = asset_at(current, place_of(field), 0) {
        let folder = if field.video() {
            "/appEventVideoClips/"@
        } else {
            "/appEventScreenshots/"@
        };
        crate::app_store::laws::lemma_endpoint(sync.api.base_url@, folder + asset.id@);
        assert(sync.api.base_url@ + (folder + asset.id@) =~= sync.api.base_url@ + folder
            + asset.id@);
    }
}

/// Where the media of a field is shown: cards, or the page with the details.
pub open spec fn place_of(field: EventField) -> Seq<char> {
    match field {
        EventField::CardImage | EventField::CardVideo => "EVENT_CARD"@,
        EventField::DetailsImage | EventField::DetailsVideo => "EVENT_DETAILS_PAGE"@,
    }
}

/// The file that is found is under the type and none before it is; where none is found, none is.
pub proof fn law_event_assets_are_found_by_type(
    assets: Seq<MediaAsset>,
    asset_type: Seq<char>,
    from: int,
)
    requires
        from >= 0,
    ensures
        match asset_at(assets, asset_type, from) {
            Some(found) => exists|i: int|
                from <= i < assets.len() && found == #[trigger] assets[i] && owned(
                    assets[i].attributes.app_event_asset_type,
                ) == Some(asset_type),
            None => forall|i: int|
                from <= i < assets.len() ==> owned(
                    (#[trigger] assets[i]).attributes.app_event_asset_type,
                ) != Some(asset_type),
        },
    decreases assets.len() - from,
{
    if from < assets.len() {
        if owned(assets[from].attributes.app_event_asset_type) == Some(asset_type) {
            assert(asset_at(assets, asset_type, from) == Some(assets[from]));
        } else {
            law_event_assets_are_found_by_type(assets, asset_type, from + 1);
            if let Some(found) = asset_at(assets, asset_type, from + 1) {
                let i = choose|i: int|
                    from + 1 <= i < assets.len() && found == #[trigger] assets[i] && owned(
                        assets[i].attributes.app_event_asset_type,
                    ) == Some(asset_type);
                assert(found == assets[i]);
            }
        }
    }
}

/// Each text of a filled localization of a purchase is what its own source gives.
pub proof fn law_purchase_texts_are_filled(context: ResolveContext,
    spec: CommerceLocalizationSpec, made: ResolvedCommerceLocalization)
    requires
        source_known(context, Some(spec.name)),
        source_known(context, spec.description),
        made.filled(context, spec),
    ensures
        source_gives(context, Some(spec.name), Some(made.name@)),
        source_gives(context, spec.description, owned(made.description)),
        spec.description is None ==> made.description is None,
{
}

/// Each text of a filled localization of a subscription group is what its own source gives.
pub proof fn law_group_texts_are_filled(context: ResolveContext,
    spec: SubscriptionGroupLocalizationSpec, made: ResolvedSubscriptionGroupLocalization)
    requires
        source_known(context, Some(spec.name)),
        source_known(context, spec.custom_app_name),
        made.filled(context, spec),
    ensures
        source_gives(context, Some(spec.name), Some(made.name@)),
        source_gives(context, spec.custom_app_name, owned(made.custom_app_name)),
        spec.custom_app_name is None ==> made.custom_app_name is None,
{
}

/// Each text of a filled localization of an event is what its own source gives.
pub proof fn law_event_texts_are_filled(context: ResolveContext,
    spec: AppEventLocalizationSpec, made: ResolvedAppEventLocalization)
    requires
        source_known(context, spec.name),
        source_known(context, spec.short_description),
        source_known(context, spec.long_description),
        made.filled(context, spec),
    ensures
        source_gives(context, spec.name, owned(made.name)),
        spec.name is None ==> made.name is None,
        source_gives(context, spec.short_description, owned(made.short_description)),
        spec.short_description is None ==> made.short_description is None,
        source_gives(context, spec.long_description, owned(made.long_description)),
        spec.long_description is None ==> made.long_description is None,
{
}

/// The promotional text of a filled localization of a page is what its source gives, and its keywords
/// are those of the configuration, in their order.
pub proof fn law_page_texts_are_filled(context: ResolveContext,
    spec: CustomProductPageLocalizationSpec, made: ResolvedCustomProductPageLocalization)
    requires
        source_known(context, spec.promotional_text),
        made.filled(context, spec),
    ensures
        source_gives(context, spec.promotional_text, owned(made.promotional_text)),
        spec.promotional_text is None ==> made.promotional_text is None,
        texts(made.search_keyword_ids@) == texts(spec.search_keyword_ids@),
{
}

/// The name and the deep link of a filled page are what their own sources give.
pub proof fn law_pages_are_filled(context: ResolveContext, spec: CustomProductPageSpec,
    made: ResolvedCustomProductPage)
    requires
        source_known(context, Some(spec.name)),
        source_known(context, spec.deep_link),
        made.filled(context, spec),
    ensures
        source_gives(context, Some(spec.name), Some(made.name@)),
        source_gives(context, spec.deep_link, owned(made.deep_link)),
        spec.deep_link is None ==> made.deep_link is None,
        made.visible == spec.visible,
{
}

/// Everything of a filled event is what the configuration gives of it under the same name.
pub proof fn law_events_are_filled(context: ResolveContext, spec: AppEventSpec,
    made: ResolvedAppEvent)
    requires
        source_known(context, Some(spec.reference_name)),
        source_known(context, spec.deep_link),
        source_known(context, spec.purchase_requirement),
        made.filled(context, spec),
    ensures
        source_gives(context, Some(spec.reference_name), Some(made.reference_name@)),
        source_gives(context, spec.deep_link, owned(made.deep_link)),
        spec.deep_link is None ==> made.deep_link is None,
        source_gives(context, spec.purchase_requirement, owned(made.purchase_requirement)),
        spec.purchase_requirement is None ==> made.purchase_requirement is None,
        owned(made.primary_locale) == owned(spec.primary_locale),
        spec.badge is None <==> made.badge is None,
        spec.badge matches Some(badge) ==> owned(made.badge) == Some(badge.asc_value_of()),
        spec.priority is None <==> made.priority is None,
        spec.priority matches Some(priority) ==> owned(made.priority) == Some(
            priority.asc_value_of(),
        ),
        spec.purpose is None <==> made.purpose is None,
        spec.purpose matches Some(purpose) ==> owned(made.purpose) == Some(purpose.asc_value_of()),
        made.territory_schedules@.len() == spec.territory_schedules@.len(),
{
    let a = made.territory_schedules@.map_values(|value: Json| value@);
    let b = spec.territory_schedules@.map_values(
        |schedule: AppEventTerritoryScheduleSpec| schedule_view(schedule),
    );
    assert(a.len() == b.len());
}

/// A schedule of an event is sent with its own territories, and the start of its publication and the
/// start and the end of the event each under its own name.
pub proof fn law_event_schedules_are_sent(schedule: AppEventTerritoryScheduleSpec)
    ensures
        ({
            let sent = schedule_view(schedule);
            &&& member(sent, "publishStart"@) == Some(JsonView::Text(schedule.publish_start@))
            &&& member(sent, "eventStart"@) == Some(JsonView::Text(schedule.event_start@))
            &&& member(sent, "eventEnd"@) == Some(JsonView::Text(schedule.event_end@))
            &&& member(sent, "territories"@) matches Some(JsonView::Array(items)) && items.len()
                == schedule.territories@.len() && forall|i: int|
                0 <= i < items.len() ==> #[trigger] items[i] == JsonView::Text(
                    schedule.territories@[i]@,
                )
        }),
{
    reveal_strlit("territories");
    reveal_strlit("publishStart");
    reveal_strlit("eventStart");
    reveal_strlit("eventEnd");
    assert("territories"@.len() == 11
        && "publishStart"@.len() == 12
        && "eventStart"@.len() == 10
        && "eventEnd"@.len() == 8);
}

/// What is missing is listed in the order in which it is wanted.
pub proof fn law_missing_is_in_order(
    desired: Seq<Seq<char>>,
    current: Seq<Seq<char>>,
    item: Seq<char>,
)
    ensures
        missing_from(desired.push(item), current) == (if current.contains(item) {
            missing_from(desired, current)
        } else {
            missing_from(desired, current).push(item)
        }),
        missing_from(desired, desired).len() == 0,
{
    assert(desired.push(item).drop_last() =~= desired);
    if missing_from(desired, desired).len() > 0 {
        let first = missing_from(desired, desired)[0];
        law_missing_is_wanted_and_not_there(desired, desired, first);
        assert(missing_from(desired, desired).contains(first));
    }
}

} // verus!
