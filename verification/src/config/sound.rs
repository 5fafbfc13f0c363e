//! What a configuration must be to pass its checks, said of the configuration itself.

use vstd::prelude::*;
use vstd::string::*;
use crate::config::checks::{
    at_index, availability_message, blank_checks, capabilities_message, capability_checks,
    commerce_children_message, commerce_localization_checks, data_type_checks, logical_key_message,
    pricing_message, privacy_message, schedule_checks, schedule_entry_message, selection_message,
    territory_checks, territory_message, territory_price_checks,
};
use crate::config::kind_laws::{certificates_fit, devices_fit, law_profiles_pass_when_they_fit};
use crate::config::validate::{
    app_checks, app_message, bundle_id_checks, cert_checks, config_message, device_checks,
    event_checks, event_localization_checks, event_media_checks, event_schedule_checks,
    group_checks, group_localization_checks, iap_checks, page_checks, page_localization_checks,
    page_media_checks, platform_checks, preview_checks, profile_checks, screenshot_checks,
    subscription_checks, version_media_checks,
};
use crate::config::{
    AppAvailabilitySpec, AppEventLocalizationSource, AppEventMediaSpec, AppEventSpec,
    AppEventTerritoryScheduleSpec, AppMediaLocalizationSpec, AppPlatform, AppPlatformSpec,
    AppPrivacyDataTypeSpec, AppPrivacySpec, AppSpec, AppVersionSpec, BundleIdPlatform,
    BundleIdSpec, CapabilitySpec, CertificateSpec, CommerceAvailabilitySpec,
    CommerceLocalizationSource, CommercePricingSpec, CommerceReviewAssetSpec, Config,
    CustomProductPageLocalizationSource, CustomProductPageSpec, DeviceSpec, InAppPurchaseSpec,
    MediaPathList, MediaPreviewSet, MediaScreenshotSet, MediaScreenshotSource, PricePointSpec,
    PriceScheduleEntrySpec, ProfileSpec, StringSource, SubscriptionGroupLocalizationSource,
    SubscriptionGroupSpec, SubscriptionSpec, TerritorySelectionMode, TerritorySelectionSpec,
};
use crate::text::{blank, first_message, is_ascii_alnum, lemma_first_message_none, starts};

verus! {

/// A name that can stand as one component of a path.
pub open spec fn sound_key(key: Seq<char>) -> bool {
    &&& !blank(key)
    &&& key != "."@
    &&& key != ".."@
    &&& forall|i: int|
        0 <= i < key.len() ==> is_ascii_alnum(#[trigger] key[i]) || key[i] == '.' || key[i] == '-'
            || key[i] == '_'
}

/// A key passes exactly when it can stand as one component of a path.
pub proof fn law_keys_pass(kind: Seq<char>, key: Seq<char>)
    ensures
        logical_key_message(kind, key) is None <==> sound_key(key),
{
}

/// A text that is given is not blank.
pub open spec fn sound_text(text: Option<String>) -> bool {
    text matches Some(found) ==> !blank(found@)
}

/// A path that is given is not empty.
pub open spec fn sound_path(path: Option<String>) -> bool {
    path matches Some(found) ==> found@.len() > 0
}

/// A source says something: a text that is not blank, or the name of a variable.
pub open spec fn sound_source(source: StringSource) -> bool {
    match source {
        StringSource::Literal(value) => !blank(value@),
        StringSource::Env { env } => !blank(env@),
    }
}

/// A source that may be missing names its variable, where it is one.
pub open spec fn sound_optional(source: Option<StringSource>) -> bool {
    source matches Some(StringSource::Env { env }) ==> !blank(env@)
}

/// A territory is told by three capitals.
pub open spec fn sound_territory(territory: Seq<char>) -> bool {
    &&& territory.len() == 3
    &&& 'A' <= territory[0] <= 'Z'
    &&& 'A' <= territory[1] <= 'Z'
    &&& 'A' <= territory[2] <= 'Z'
}

/// A territory passes exactly when it is told by three capitals.
pub proof fn law_territories_pass(context: Seq<char>, territory: Seq<char>)
    ensures
        territory_message(context, territory) is None <==> sound_territory(territory),
{
    if sound_territory(territory) {
        assert forall|i: int| 0 <= i < 3 implies 'A' <= #[trigger] territory[i] <= 'Z' by {
            assert(i == 0 || i == 1 || i == 2);
        }
        if blank(territory) {
            assert(crate::text::is_white_space(territory[0]));
        }
    }
}

/// Each territory of a list is told by three capitals.
pub open spec fn sound_territories(values: Seq<String>) -> bool {
    forall|i: int| 0 <= i < values.len() ==> sound_territory((#[trigger] values[i])@)
}

/// No text of a list is blank.
pub open spec fn no_blanks(values: Seq<String>) -> bool {
    forall|i: int| 0 <= i < values.len() ==> !blank((#[trigger] values[i])@)
}

proof fn lemma_territories(
    context: Seq<char>,
    values: Seq<String>,
)
    ensures
        first_message(territory_checks(context, values), 0, values.len() as int) is None
            <==> forall|i: int|
            0 <= i < values.len() ==> sound_territory((#[trigger] values[i])@),
{
    let f = territory_checks(context, values);
    let entries = values;
    lemma_first_message_none(f, 0, entries.len() as int);
    assert forall|i: int| 0 <= i < entries.len() implies ((#[trigger] f(i)) is None
        <==> sound_territory(entries[i]@)) by {
        law_territories_pass(context, entries[i]@);
    }
    if forall|i: int| 0 <= i < entries.len() ==> (#[trigger] f(i)) is None {
        assert forall|i: int| 0 <= i < entries.len() implies sound_territory((#[trigger] entries[i])@) by {
            assert(f(i) is None);
        }
    }
}

proof fn lemma_no_blanks(
    message: Seq<char>,
    values: Seq<String>,
)
    ensures
        first_message(blank_checks(message, values), 0, values.len() as int) is None
            <==> forall|i: int|
            0 <= i < values.len() ==> !blank((#[trigger] values[i])@),
{
    let f = blank_checks(message, values);
    let entries = values;
    lemma_first_message_none(f, 0, entries.len() as int);
    assert forall|i: int| 0 <= i < entries.len() implies ((#[trigger] f(i)) is None
        <==> !blank(entries[i]@)) by {
    }
    if forall|i: int| 0 <= i < entries.len() ==> (#[trigger] f(i)) is None {
        assert forall|i: int| 0 <= i < entries.len() implies !blank((#[trigger] entries[i])@) by {
            assert(f(i) is None);
        }
    }
}

/// Territories are named just where not all of them are meant.
pub open spec fn sound_selection(selection: TerritorySelectionSpec) -> bool {
    &&& selection.mode == TerritorySelectionMode::All <==> selection.values@.len() == 0
    &&& sound_territories(selection.values@)
}

/// A selection of territories passes exactly when it is sound.
pub proof fn law_selections_pass(context: Seq<char>, selection: TerritorySelectionSpec)
    ensures
        selection_message(context, selection) is None <==> sound_selection(selection),
{
    lemma_territories(context, selection.values@);
}

/// The availability of an app: a sound selection, and a pre-order that is enabled has a release date.
pub open spec fn sound_availability(availability: AppAvailabilitySpec) -> bool {
    &&& availability.territories matches Some(selection) ==> sound_selection(selection)
    &&& availability.pre_order matches Some(order) ==> {
        &&& order.enabled ==> order.release_date is Some
        &&& sound_text(order.release_date)
        &&& sound_text(order.publish_date)
        &&& sound_territories(order.territories@)
    }
}

/// The availability of an app passes exactly when it is sound.
pub proof fn law_availabilities_pass(app_name: Seq<char>, availability: AppAvailabilitySpec)
    ensures
        availability_message(app_name, availability) is None <==> sound_availability(availability),
{
    let base = "app "@ + app_name + ".availability"@;
    if let Some(selection) = availability.territories {
        law_selections_pass(base + ".territories"@, selection);
    }
    if let Some(order) = availability.pre_order {
        lemma_territories(base + ".pre_order"@, order.territories@);
    }
}

/// A price is given either by itself or by its price point, and not by both.
pub open spec fn sound_price(price: Option<StringSource>, price_point_id: Option<String>) -> bool {
    &&& price is Some <==> price_point_id is None
    &&& price matches Some(source) ==> sound_source(source)
    &&& sound_text(price_point_id)
}

/// One span of a price schedule.
pub open spec fn sound_span(entry: PriceScheduleEntrySpec) -> bool {
    &&& sound_text(entry.start_date)
    &&& sound_text(entry.end_date)
    &&& sound_price(entry.price, entry.price_point_id)
    &&& forall|i: int|
        0 <= i < entry.territory_prices.entries().len() ==> sound_territory_price(
            #[trigger] entry.territory_prices.entries()[i],
        )
}

/// A price of one territory.
pub open spec fn sound_territory_price(entry: (Seq<char>, PricePointSpec)) -> bool {
    sound_territory(entry.0) && sound_price(entry.1.price, entry.1.price_point_id)
}

proof fn lemma_territory_prices(
    context: Seq<char>,
    prices: Seq<(Seq<char>, PricePointSpec)>,
)
    ensures
        first_message(territory_price_checks(context, prices), 0, prices.len() as int) is None
            <==> forall|i: int|
            0 <= i < prices.len() ==> sound_territory_price((#[trigger] prices[i])),
{
    let f = territory_price_checks(context, prices);
    let entries = prices;
    lemma_first_message_none(f, 0, entries.len() as int);
    assert forall|i: int| 0 <= i < entries.len() implies ((#[trigger] f(i)) is None
        <==> sound_territory_price(entries[i])) by {
        law_territories_pass(context, entries[i].0);
    }
    if forall|i: int| 0 <= i < entries.len() ==> (#[trigger] f(i)) is None {
        assert forall|i: int| 0 <= i < entries.len() implies sound_territory_price((#[trigger] entries[i])) by {
            assert(f(i) is None);
        }
    }
}

proof fn lemma_span(context: Seq<char>, entry: PriceScheduleEntrySpec)
    ensures
        schedule_entry_message(context, entry) is None <==> sound_span(entry),
{
    lemma_territory_prices(context, entry.territory_prices.entries());
}

/// A price schedule has a base territory and at least one span.
pub open spec fn sound_pricing(pricing: CommercePricingSpec) -> bool {
    &&& sound_territory(pricing.base_territory@)
    &&& pricing.schedule@.len() > 0
    &&& forall|i: int|
        0 <= i < pricing.schedule@.len() ==> sound_span(#[trigger] pricing.schedule@[i])
}

proof fn lemma_spans(
    context: Seq<char>,
    schedule: Seq<PriceScheduleEntrySpec>,
)
    ensures
        first_message(schedule_checks(context, schedule), 0, schedule.len() as int) is None
            <==> forall|i: int|
            0 <= i < schedule.len() ==> sound_span((#[trigger] schedule[i])),
{
    let f = schedule_checks(context, schedule);
    let entries = schedule;
    lemma_first_message_none(f, 0, entries.len() as int);
    assert forall|i: int| 0 <= i < entries.len() implies ((#[trigger] f(i)) is None
        <==> sound_span(entries[i])) by {
        lemma_span(at_index(context, i), entries[i]);
    }
    if forall|i: int| 0 <= i < entries.len() ==> (#[trigger] f(i)) is None {
        assert forall|i: int| 0 <= i < entries.len() implies sound_span((#[trigger] entries[i])) by {
            assert(f(i) is None);
        }
    }
}

/// A price schedule passes exactly when it is sound.
pub proof fn law_pricings_pass(context: Seq<char>, pricing: CommercePricingSpec)
    ensures
        pricing_message(context, pricing) is None <==> sound_pricing(pricing),
{
    law_territories_pass(context + ".base_territory"@, pricing.base_territory@);
    lemma_spans(context + ".schedule"@, pricing.schedule@);
}

/// A localization of a purchase or a subscription: its locale is given, and it names a file or has a
/// name.
pub open spec fn sound_commerce_text(entry: (Seq<char>, CommerceLocalizationSource)) -> bool {
    &&& !blank(entry.0)
    &&& match entry.1 {
        CommerceLocalizationSource::Path(path) => path@.len() > 0,
        CommerceLocalizationSource::Inline(spec) => sound_source(spec.name) && sound_optional(
            spec.description,
        ),
    }
}

proof fn lemma_commerce_texts(
    context: Seq<char>,
    texts: Seq<(Seq<char>, CommerceLocalizationSource)>,
)
    ensures
        first_message(commerce_localization_checks(context, texts), 0, texts.len() as int) is None
            <==> forall|i: int|
            0 <= i < texts.len() ==> sound_commerce_text((#[trigger] texts[i])),
{
    let f = commerce_localization_checks(context, texts);
    let entries = texts;
    lemma_first_message_none(f, 0, entries.len() as int);
    assert forall|i: int| 0 <= i < entries.len() implies ((#[trigger] f(i)) is None
        <==> sound_commerce_text(entries[i])) by {
    }
    if forall|i: int| 0 <= i < entries.len() ==> (#[trigger] f(i)) is None {
        assert forall|i: int| 0 <= i < entries.len() implies sound_commerce_text((#[trigger] entries[i])) by {
            assert(f(i) is None);
        }
    }
}

/// What purchases and subscriptions have in common.
pub open spec fn sound_commerce(
    localizations: Seq<(Seq<char>, CommerceLocalizationSource)>,
    pricing: Option<CommercePricingSpec>,
    availability: Option<CommerceAvailabilitySpec>,
    review: Option<CommerceReviewAssetSpec>,
) -> bool {
    &&& forall|i: int|
        0 <= i < localizations.len() ==> sound_commerce_text(#[trigger] localizations[i])
    &&& pricing matches Some(schedule) ==> sound_pricing(schedule)
    &&& availability matches Some(place) ==> sound_selection(place.territories)
    &&& review matches Some(asset) ==> sound_path(asset.screenshot)
}

proof fn lemma_commerce(
    context: Seq<char>,
    localizations: Seq<(Seq<char>, CommerceLocalizationSource)>,
    pricing: Option<CommercePricingSpec>,
    availability: Option<CommerceAvailabilitySpec>,
    review: Option<CommerceReviewAssetSpec>,
)
    ensures
        commerce_children_message(context, localizations, pricing, availability, review) is None
            <==> sound_commerce(localizations, pricing, availability, review),
{
    lemma_commerce_texts(context + ".localizations"@, localizations);
    if let Some(schedule) = pricing {
        law_pricings_pass(context + ".pricing"@, schedule);
    }
    if let Some(place) = availability {
        law_selections_pass(context + ".availability.territories"@, place.territories);
    }
}

/// An in-app purchase with its key.
pub open spec fn sound_purchase(entry: (Seq<char>, InAppPurchaseSpec)) -> bool {
    &&& sound_key(entry.0)
    &&& sound_text(entry.1.asc_id)
    &&& !blank(entry.1.product_id@)
    &&& sound_source(entry.1.reference_name)
    &&& sound_optional(entry.1.review_note)
    &&& sound_commerce(
        entry.1.localizations.entries(),
        entry.1.pricing,
        entry.1.availability,
        entry.1.review,
    )
}

proof fn lemma_purchases(
    app_name: Seq<char>,
    purchases: Seq<(Seq<char>, InAppPurchaseSpec)>,
)
    ensures
        first_message(iap_checks(app_name, purchases), 0, purchases.len() as int) is None
            <==> forall|i: int|
            0 <= i < purchases.len() ==> sound_purchase((#[trigger] purchases[i])),
{
    let f = iap_checks(app_name, purchases);
    let entries = purchases;
    lemma_first_message_none(f, 0, entries.len() as int);
    assert forall|i: int| 0 <= i < entries.len() implies ((#[trigger] f(i)) is None
        <==> sound_purchase(entries[i])) by {
        law_keys_pass("in_app_purchase"@, entries[i].0);
        let iap = entries[i].1;
        lemma_commerce(
            "app "@ + app_name + ".in_app_purchases."@ + entries[i].0,
            iap.localizations.entries(),
            iap.pricing,
            iap.availability,
            iap.review,
        );
    }
    if forall|i: int| 0 <= i < entries.len() ==> (#[trigger] f(i)) is None {
        assert forall|i: int| 0 <= i < entries.len() implies sound_purchase((#[trigger] entries[i])) by {
            assert(f(i) is None);
        }
    }
}

/// A subscription with its key; its level counts from one.
pub open spec fn sound_subscription(entry: (Seq<char>, SubscriptionSpec)) -> bool {
    &&& sound_key(entry.0)
    &&& sound_text(entry.1.asc_id)
    &&& !blank(entry.1.product_id@)
    &&& sound_source(entry.1.reference_name)
    &&& entry.1.group_level matches Some(level) ==> level >= 1
    &&& sound_optional(entry.1.review_note)
    &&& sound_commerce(
        entry.1.localizations.entries(),
        entry.1.pricing,
        entry.1.availability,
        entry.1.review,
    )
}

proof fn lemma_subscriptions(
    context: Seq<char>,
    subscriptions: Seq<(Seq<char>, SubscriptionSpec)>,
)
    ensures
        first_message(subscription_checks(context, subscriptions),
            0, subscriptions.len() as int) is None <==> forall|i: int|
            0 <= i < subscriptions.len() ==> sound_subscription((#[trigger] subscriptions[i])),
{
    let f = subscription_checks(context, subscriptions);
    let entries = subscriptions;
    lemma_first_message_none(f, 0, entries.len() as int);
    assert forall|i: int| 0 <= i < entries.len() implies ((#[trigger] f(i)) is None
        <==> sound_subscription(entries[i])) by {
        law_keys_pass("subscription"@, entries[i].0);
        let spec = entries[i].1;
        lemma_commerce(
            context + "."@ + entries[i].0,
            spec.localizations.entries(),
            spec.pricing,
            spec.availability,
            spec.review,
        );
    }
    if forall|i: int| 0 <= i < entries.len() ==> (#[trigger] f(i)) is None {
        assert forall|i: int| 0 <= i < entries.len() implies sound_subscription((#[trigger] entries[i])) by {
            assert(f(i) is None);
        }
    }
}

/// A localization of a subscription group.
pub open spec fn sound_group_text(
    entry: (Seq<char>, SubscriptionGroupLocalizationSource),
) -> bool {
    &&& !blank(entry.0)
    &&& match entry.1 {
        SubscriptionGroupLocalizationSource::Path(path) => path@.len() > 0,
        SubscriptionGroupLocalizationSource::Inline(spec) => sound_source(spec.name)
            && sound_optional(spec.custom_app_name),
    }
}

proof fn lemma_group_texts(
    context: Seq<char>,
    texts: Seq<(Seq<char>, SubscriptionGroupLocalizationSource)>,
)
    ensures
        first_message(group_localization_checks(context, texts), 0, texts.len() as int) is None
            <==> forall|i: int|
            0 <= i < texts.len() ==> sound_group_text((#[trigger] texts[i])),
{
    let f = group_localization_checks(context, texts);
    let entries = texts;
    lemma_first_message_none(f, 0, entries.len() as int);
    assert forall|i: int| 0 <= i < entries.len() implies ((#[trigger] f(i)) is None
        <==> sound_group_text(entries[i])) by {
    }
    if forall|i: int| 0 <= i < entries.len() ==> (#[trigger] f(i)) is None {
        assert forall|i: int| 0 <= i < entries.len() implies sound_group_text((#[trigger] entries[i])) by {
            assert(f(i) is None);
        }
    }
}

/// A subscription group with its key.
pub open spec fn sound_group(entry: (Seq<char>, SubscriptionGroupSpec)) -> bool {
    &&& sound_key(entry.0)
    &&& sound_text(entry.1.asc_id)
    &&& sound_source(entry.1.reference_name)
    &&& forall|i: int|
        0 <= i < entry.1.localizations.entries().len() ==> sound_group_text(
            #[trigger] entry.1.localizations.entries()[i],
        )
    &&& forall|i: int|
        0 <= i < entry.1.subscriptions.entries().len() ==> sound_subscription(
            #[trigger] entry.1.subscriptions.entries()[i],
        )
}

proof fn lemma_groups(
    app_name: Seq<char>,
    groups: Seq<(Seq<char>, SubscriptionGroupSpec)>,
)
    ensures
        first_message(group_checks(app_name, groups), 0, groups.len() as int) is None
            <==> forall|i: int|
            0 <= i < groups.len() ==> sound_group((#[trigger] groups[i])),
{
    let f = group_checks(app_name, groups);
    let entries = groups;
    lemma_first_message_none(f, 0, entries.len() as int);
    assert forall|i: int| 0 <= i < entries.len() implies ((#[trigger] f(i)) is None
        <==> sound_group(entries[i])) by {
        law_keys_pass("subscription_group"@, entries[i].0);
        let context = "app "@ + app_name + ".subscription_groups."@ + entries[i].0;
        lemma_group_texts(
            context + ".localizations"@,
            entries[i].1.localizations.entries(),
        );
        lemma_subscriptions(
            context + ".subscriptions"@,
            entries[i].1.subscriptions.entries(),
        );
    }
    if forall|i: int| 0 <= i < entries.len() ==> (#[trigger] f(i)) is None {
        assert forall|i: int| 0 <= i < entries.len() implies sound_group((#[trigger] entries[i])) by {
            assert(f(i) is None);
        }
    }
}

/// A schedule of an event: its instants are given.
pub open spec fn sound_event_schedule(schedule: AppEventTerritoryScheduleSpec) -> bool {
    &&& !blank(schedule.publish_start@)
    &&& !blank(schedule.event_start@)
    &&& !blank(schedule.event_end@)
    &&& sound_territories(schedule.territories@)
}

proof fn lemma_event_schedules(
    context: Seq<char>,
    schedules: Seq<AppEventTerritoryScheduleSpec>,
)
    ensures
        first_message(event_schedule_checks(context, schedules),
            0, schedules.len() as int) is None <==> forall|i: int|
            0 <= i < schedules.len() ==> sound_event_schedule((#[trigger] schedules[i])),
{
    let f = event_schedule_checks(context, schedules);
    let entries = schedules;
    lemma_first_message_none(f, 0, entries.len() as int);
    assert forall|i: int| 0 <= i < entries.len() implies ((#[trigger] f(i)) is None
        <==> sound_event_schedule(entries[i])) by {
        lemma_territories(at_index(context, i), entries[i].territories@);
    }
    if forall|i: int| 0 <= i < entries.len() ==> (#[trigger] f(i)) is None {
        assert forall|i: int| 0 <= i < entries.len() implies sound_event_schedule((#[trigger] entries[i])) by {
            assert(f(i) is None);
        }
    }
}

/// A localization of an event.
pub open spec fn sound_event_text(entry: (Seq<char>, AppEventLocalizationSource)) -> bool {
    &&& !blank(entry.0)
    &&& match entry.1 {
        AppEventLocalizationSource::Path(path) => path@.len() > 0,
        AppEventLocalizationSource::Inline(spec) => sound_optional(spec.name) && sound_optional(
            spec.short_description,
        ) && sound_optional(spec.long_description),
    }
}

proof fn lemma_event_texts(
    context: Seq<char>,
    texts: Seq<(Seq<char>, AppEventLocalizationSource)>,
)
    ensures
        first_message(event_localization_checks(context, texts), 0, texts.len() as int) is None
            <==> forall|i: int|
            0 <= i < texts.len() ==> sound_event_text((#[trigger] texts[i])),
{
    let f = event_localization_checks(context, texts);
    let entries = texts;
    lemma_first_message_none(f, 0, entries.len() as int);
    assert forall|i: int| 0 <= i < entries.len() implies ((#[trigger] f(i)) is None
        <==> sound_event_text(entries[i])) by {
    }
    if forall|i: int| 0 <= i < entries.len() ==> (#[trigger] f(i)) is None {
        assert forall|i: int| 0 <= i < entries.len() implies sound_event_text((#[trigger] entries[i])) by {
            assert(f(i) is None);
        }
    }
}

/// The media of an event in a locale, which the event has texts for.
pub open spec fn sound_event_media(event: AppEventSpec, entry: (Seq<char>,
    AppEventMediaSpec)) -> bool {
    &&& !blank(entry.0)
    &&& event.localizations@.contains_key(entry.0)
    &&& sound_path(entry.1.card_image)
    &&& sound_path(entry.1.details_image)
    &&& sound_path(entry.1.card_video)
    &&& sound_path(entry.1.details_video)
}

proof fn lemma_event_media(
    context: Seq<char>,
    event: AppEventSpec,
)
    ensures
        first_message(event_media_checks(context, event), 0,
            event.media.entries().len() as int) is None <==> forall|i: int|
            0 <= i < event.media.entries().len() ==> sound_event_media(event,
                (#[trigger] event.media.entries()[i])),
{
    let f = event_media_checks(context, event);
    let entries = event.media.entries();
    lemma_first_message_none(f, 0, entries.len() as int);
    assert forall|i: int| 0 <= i < entries.len() implies ((#[trigger] f(i)) is None
        <==> sound_event_media(event, entries[i])) by {
    }
    if forall|i: int| 0 <= i < entries.len() ==> (#[trigger] f(i)) is None {
        assert forall|i: int| 0 <= i < entries.len() implies sound_event_media(event,
            (#[trigger] entries[i])) by {
            assert(f(i) is None);
        }
    }
}

/// An event with its key.
pub open spec fn sound_event(entry: (Seq<char>, AppEventSpec)) -> bool {
    &&& sound_key(entry.0)
    &&& sound_text(entry.1.asc_id)
    &&& sound_source(entry.1.reference_name)
    &&& sound_optional(entry.1.deep_link)
    &&& sound_optional(entry.1.purchase_requirement)
    &&& sound_text(entry.1.primary_locale)
    &&& forall|i: int|
        0 <= i < entry.1.territory_schedules@.len() ==> sound_event_schedule(
            #[trigger] entry.1.territory_schedules@[i],
        )
    &&& forall|i: int|
        0 <= i < entry.1.localizations.entries().len() ==> sound_event_text(
            #[trigger] entry.1.localizations.entries()[i],
        )
    &&& forall|i: int|
        0 <= i < entry.1.media.entries().len() ==> sound_event_media(
            entry.1,
            #[trigger] entry.1.media.entries()[i],
        )
}

proof fn lemma_events(
    app_name: Seq<char>,
    events: Seq<(Seq<char>, AppEventSpec)>,
)
    ensures
        first_message(event_checks(app_name, events), 0, events.len() as int) is None
            <==> forall|i: int|
            0 <= i < events.len() ==> sound_event((#[trigger] events[i])),
{
    let f = event_checks(app_name, events);
    let entries = events;
    lemma_first_message_none(f, 0, entries.len() as int);
    assert forall|i: int| 0 <= i < entries.len() implies ((#[trigger] f(i)) is None
        <==> sound_event(entries[i])) by {
        law_keys_pass("app_event"@, entries[i].0);
        let context = "app "@ + app_name + ".app_events."@ + entries[i].0;
        lemma_event_schedules(
            context + ".territory_schedules"@,
            entries[i].1.territory_schedules@,
        );
        lemma_event_texts(
            context + ".localizations"@,
            entries[i].1.localizations.entries(),
        );
        lemma_event_media(context + ".media"@, entries[i].1);
    }
    if forall|i: int| 0 <= i < entries.len() ==> (#[trigger] f(i)) is None {
        assert forall|i: int| 0 <= i < entries.len() implies sound_event((#[trigger] entries[i])) by {
            assert(f(i) is None);
        }
    }
}

/// Screenshots of one locale: each set has its sources, is for a display of its own, and is rendered
/// only where the locale has texts.
pub open spec fn sound_screenshots(
    has_text: bool,
    sets: Seq<(MediaScreenshotSet, MediaScreenshotSource)>,
) -> bool {
    &&& forall|i: int| 0 <= i < sets.len() ==> !(#[trigger] sets[i]).1.incomplete()
    &&& forall|i: int| 0 <= i < sets.len() ==> (#[trigger] sets[i]).1 is Render ==> has_text
    &&& forall|i: int, j: int|
        #![trigger sets[i], sets[j]]
        0 <= i < j < sets.len() ==> sets[i].0.asc_display_type_of()
            != sets[j].0.asc_display_type_of()
}

/// Previews of one locale: each set has its paths and is for a display of its own.
pub open spec fn sound_previews(sets: Seq<(MediaPreviewSet, MediaPathList)>) -> bool {
    &&& forall|i: int| 0 <= i < sets.len() ==> !(#[trigger] sets[i]).1.lacks_path()
    &&& forall|i: int, j: int|
        #![trigger sets[i], sets[j]]
        0 <= i < j < sets.len() ==> sets[i].0.asc_preview_type_of()
            != sets[j].0.asc_preview_type_of()
}

proof fn lemma_screenshots(
    list: Seq<char>,
    context: Seq<char>,
    locale: Seq<char>,
    no_text: bool,
    sets: Seq<(MediaScreenshotSet, MediaScreenshotSource)>,
)
    ensures
        first_message(
            screenshot_checks(list, context, locale, no_text, sets),
            0,
            sets.len() as int,
        ) is None <==> sound_screenshots(!no_text, sets),
{
    let f = screenshot_checks(list, context, locale, no_text, sets);
    lemma_first_message_none(f, 0, sets.len() as int);
    if forall|i: int| 0 <= i < sets.len() ==> (#[trigger] f(i)) is None {
        assert forall|i: int| 0 <= i < sets.len() implies !(#[trigger] sets[i]).1.incomplete() && (
        sets[i].1 is Render ==> !no_text) by {
            assert(f(i) is None);
        }
        assert forall|i: int, j: int|
            #![trigger sets[i], sets[j]]
            0 <= i < j < sets.len() implies sets[i].0.asc_display_type_of()
            != sets[j].0.asc_display_type_of() by {
            assert(f(j) is None);
            assert(!crate::config::validate::screenshot_key_taken(sets, j));
        }
    }
    if sound_screenshots(!no_text, sets) {
        assert forall|i: int| 0 <= i < sets.len() implies (#[trigger] f(i)) is None by {
            assert(!sets[i].1.incomplete());
            if crate::config::validate::screenshot_key_taken(sets, i) {
                let j = choose|j: int|
                    0 <= j < i && (#[trigger] sets[j]).0.asc_display_type_of()
                        == sets[i].0.asc_display_type_of();
                assert(sets[j].0.asc_display_type_of() != sets[i].0.asc_display_type_of());
            }
        }
    }
}

proof fn lemma_previews(
    list: Seq<char>,
    context: Seq<char>,
    sets: Seq<(MediaPreviewSet, MediaPathList)>,
)
    ensures
        first_message(preview_checks(list, context, sets), 0, sets.len() as int) is None
            <==> sound_previews(sets),
{
    let f = preview_checks(list, context, sets);
    lemma_first_message_none(f, 0, sets.len() as int);
    if forall|i: int| 0 <= i < sets.len() ==> (#[trigger] f(i)) is None {
        assert forall|i: int| 0 <= i < sets.len() implies !(
        #[trigger] sets[i]).1.lacks_path() by {
            assert(f(i) is None);
        }
        assert forall|i: int, j: int|
            #![trigger sets[i], sets[j]]
            0 <= i < j < sets.len() implies sets[i].0.asc_preview_type_of()
            != sets[j].0.asc_preview_type_of() by {
            assert(f(j) is None);
            assert(!crate::config::validate::preview_key_taken(sets, j));
        }
    }
    if sound_previews(sets) {
        assert forall|i: int| 0 <= i < sets.len() implies (#[trigger] f(i)) is None by {
            assert(!sets[i].1.lacks_path());
            if crate::config::validate::preview_key_taken(sets, i) {
                let j = choose|j: int|
                    0 <= j < i && (#[trigger] sets[j]).0.asc_preview_type_of()
                        == sets[i].0.asc_preview_type_of();
                assert(sets[j].0.asc_preview_type_of() != sets[i].0.asc_preview_type_of());
            }
        }
    }
}

/// A localization of a custom product page.
pub open spec fn sound_page_text(
    entry: (Seq<char>, CustomProductPageLocalizationSource),
) -> bool {
    &&& !blank(entry.0)
    &&& match entry.1 {
        CustomProductPageLocalizationSource::Path(path) => path@.len() > 0,
        CustomProductPageLocalizationSource::Inline(spec) => sound_optional(spec.promotional_text)
            && no_blanks(spec.search_keyword_ids@),
    }
}

proof fn lemma_page_texts(
    context: Seq<char>,
    texts: Seq<(Seq<char>, CustomProductPageLocalizationSource)>,
)
    ensures
        first_message(page_localization_checks(context, texts), 0, texts.len() as int) is None
            <==> forall|i: int|
            0 <= i < texts.len() ==> sound_page_text((#[trigger] texts[i])),
{
    let f = page_localization_checks(context, texts);
    let entries = texts;
    lemma_first_message_none(f, 0, entries.len() as int);
    assert forall|i: int| 0 <= i < entries.len() implies ((#[trigger] f(i)) is None
        <==> sound_page_text(entries[i])) by {
        if let CustomProductPageLocalizationSource::Inline(spec) = entries[i].1 {
            lemma_no_blanks(
                context + "."@ + entries[i].0
                    + ".search_keyword_ids cannot contain an empty id"@,
                spec.search_keyword_ids@,
            );
        }
    }
    if forall|i: int| 0 <= i < entries.len() ==> (#[trigger] f(i)) is None {
        assert forall|i: int| 0 <= i < entries.len() implies sound_page_text((#[trigger] entries[i])) by {
            assert(f(i) is None);
        }
    }
}

/// The media of a page in a locale, which the page has texts for.
pub open spec fn sound_page_media(
    page: CustomProductPageSpec,
    entry: (Seq<char>, AppMediaLocalizationSpec),
) -> bool {
    &&& !blank(entry.0)
    &&& page.localizations@.contains_key(entry.0)
    &&& sound_screenshots(true, entry.1.screenshots.entries())
    &&& sound_previews(entry.1.app_previews.entries())
}

proof fn lemma_page_media(
    context: Seq<char>,
    page: CustomProductPageSpec,
)
    ensures
        first_message(page_media_checks(context, page), 0,
            page.media.entries().len() as int) is None <==> forall|i: int|
            0 <= i < page.media.entries().len() ==> sound_page_media(page,
                (#[trigger] page.media.entries()[i])),
{
    let f = page_media_checks(context, page);
    let entries = page.media.entries();
    lemma_first_message_none(f, 0, entries.len() as int);
    assert forall|i: int| 0 <= i < entries.len() implies ((#[trigger] f(i)) is None
        <==> sound_page_media(page, entries[i])) by {
        let prefix = context + "."@ + entries[i].0 + "."@;
        lemma_screenshots(prefix, prefix, ""@, false, entries[i].1.screenshots.entries());
        lemma_previews(prefix, prefix, entries[i].1.app_previews.entries());
    }
    if forall|i: int| 0 <= i < entries.len() ==> (#[trigger] f(i)) is None {
        assert forall|i: int| 0 <= i < entries.len() implies sound_page_media(page,
            (#[trigger] entries[i])) by {
            assert(f(i) is None);
        }
    }
}

/// A custom product page with its key.
pub open spec fn sound_page(entry: (Seq<char>, CustomProductPageSpec)) -> bool {
    &&& sound_key(entry.0)
    &&& sound_source(entry.1.name)
    &&& sound_optional(entry.1.deep_link)
    &&& sound_text(entry.1.asc_id)
    &&& forall|i: int|
        0 <= i < entry.1.localizations.entries().len() ==> sound_page_text(
            #[trigger] entry.1.localizations.entries()[i],
        )
    &&& forall|i: int|
        0 <= i < entry.1.media.entries().len() ==> sound_page_media(
            entry.1,
            #[trigger] entry.1.media.entries()[i],
        )
}

proof fn lemma_pages(
    app_name: Seq<char>,
    pages: Seq<(Seq<char>, CustomProductPageSpec)>,
)
    ensures
        first_message(page_checks(app_name, pages), 0, pages.len() as int) is None
            <==> forall|i: int|
            0 <= i < pages.len() ==> sound_page((#[trigger] pages[i])),
{
    let f = page_checks(app_name, pages);
    let entries = pages;
    lemma_first_message_none(f, 0, entries.len() as int);
    assert forall|i: int| 0 <= i < entries.len() implies ((#[trigger] f(i)) is None
        <==> sound_page(entries[i])) by {
        law_keys_pass("custom_product_page"@, entries[i].0);
        let context = "app "@ + app_name + ".custom_product_pages."@ + entries[i].0;
        lemma_page_texts(
            context + ".localizations"@,
            entries[i].1.localizations.entries(),
        );
        lemma_page_media(context + ".media"@, entries[i].1);
    }
    if forall|i: int| 0 <= i < entries.len() ==> (#[trigger] f(i)) is None {
        assert forall|i: int| 0 <= i < entries.len() implies sound_page((#[trigger] entries[i])) by {
            assert(f(i) is None);
        }
    }
}

/// A type of data that an app collects has a name and purposes.
pub open spec fn sound_data_type(data_type: AppPrivacyDataTypeSpec) -> bool {
    &&& !blank(data_type.kind@)
    &&& data_type.purposes@.len() > 0
    &&& no_blanks(data_type.purposes@)
}

/// What an app says of privacy.
pub open spec fn sound_privacy(privacy: AppPrivacySpec) -> bool {
    &&& forall|i: int|
        0 <= i < privacy.data_types@.len() ==> sound_data_type(#[trigger] privacy.data_types@[i])
    &&& no_blanks(privacy.tracking_domains@)
}

proof fn lemma_data_types(
    context: Seq<char>,
    types: Seq<AppPrivacyDataTypeSpec>,
)
    ensures
        first_message(data_type_checks(context, types), 0, types.len() as int) is None
            <==> forall|i: int|
            0 <= i < types.len() ==> sound_data_type((#[trigger] types[i])),
{
    let f = data_type_checks(context, types);
    let entries = types;
    lemma_first_message_none(f, 0, entries.len() as int);
    assert forall|i: int| 0 <= i < entries.len() implies ((#[trigger] f(i)) is None
        <==> sound_data_type(entries[i])) by {
        lemma_no_blanks(
            at_index(context, i) + ".purposes cannot contain an empty purpose"@,
            entries[i].purposes@,
        );
    }
    if forall|i: int| 0 <= i < entries.len() ==> (#[trigger] f(i)) is None {
        assert forall|i: int| 0 <= i < entries.len() implies sound_data_type((#[trigger] entries[i])) by {
            assert(f(i) is None);
        }
    }
}

/// What an app says of privacy passes exactly when it is sound.
pub proof fn law_privacies_pass(app_name: Seq<char>, privacy: AppPrivacySpec)
    ensures
        privacy_message(app_name, privacy) is None <==> sound_privacy(privacy),
{
    let base = "app "@ + app_name + ".privacy"@;
    lemma_data_types(base + ".data_types"@, privacy.data_types@);
    lemma_no_blanks(
        base + ".tracking_domains cannot contain an empty domain"@,
        privacy.tracking_domains@,
    );
}

/// The media of a version in a locale.
pub open spec fn sound_version_media(
    version: AppVersionSpec,
    entry: (Seq<char>, AppMediaLocalizationSpec),
) -> bool {
    &&& !blank(entry.0)
    &&& sound_screenshots(
        version.localizations@.contains_key(entry.0),
        entry.1.screenshots.entries(),
    )
    &&& sound_previews(entry.1.app_previews.entries())
}

proof fn lemma_version_media(
    base: Seq<char>,
    version: AppVersionSpec,
)
    ensures
        first_message(version_media_checks(base, version), 0,
            version.media.entries().len() as int) is None <==> forall|i: int|
            0 <= i < version.media.entries().len() ==> sound_version_media(version,
                (#[trigger] version.media.entries()[i])),
{
    let f = version_media_checks(base, version);
    let entries = version.media.entries();
    lemma_first_message_none(f, 0, entries.len() as int);
    assert forall|i: int| 0 <= i < entries.len() implies ((#[trigger] f(i)) is None
        <==> sound_version_media(version, entries[i])) by {
        let context = base + " media "@ + entries[i].0 + " "@;
        lemma_screenshots(
            base + " "@,
            context,
            entries[i].0,
            !version.localizations@.contains_key(entries[i].0),
            entries[i].1.screenshots.entries(),
        );
        lemma_previews(base + " "@, context, entries[i].1.app_previews.entries());
    }
    if forall|i: int| 0 <= i < entries.len() ==> (#[trigger] f(i)) is None {
        assert forall|i: int| 0 <= i < entries.len() implies sound_version_media(version,
            (#[trigger] entries[i])) by {
            assert(f(i) is None);
        }
    }
}

/// A version says what it is called, and its build where it names one.
pub open spec fn sound_version(version: AppVersionSpec) -> bool {
    &&& !blank(version.version_string@)
    &&& sound_text(version.build_number)
    &&& forall|i: int|
        0 <= i < version.media.entries().len() ==> sound_version_media(
            version,
            #[trigger] version.media.entries()[i],
        )
}

proof fn lemma_platforms(
    app_name: Seq<char>,
    platforms: Seq<(AppPlatform, AppPlatformSpec)>,
)
    ensures
        first_message(platform_checks(app_name, platforms), 0, platforms.len() as int) is None
            <==> forall|i: int|
            0 <= i < platforms.len() ==> sound_version((#[trigger] platforms[i]).1.version),
{
    let f = platform_checks(app_name, platforms);
    let entries = platforms;
    lemma_first_message_none(f, 0, entries.len() as int);
    assert forall|i: int| 0 <= i < entries.len() implies ((#[trigger] f(i)) is None
        <==> sound_version(entries[i].1.version)) by {
        lemma_version_media(
            "app "@ + app_name + " platform "@ + entries[i].0.label_of(),
            entries[i].1.version,
        );
    }
    if forall|i: int| 0 <= i < entries.len() ==> (#[trigger] f(i)) is None {
        assert forall|i: int| 0 <= i < entries.len() implies sound_version((#[trigger] entries[i]).1.version) by {
            assert(f(i) is None);
        }
    }
}

/// An app with its key: its bundle identifier is there, and it has a platform.
pub open spec fn sound_app(config: Config, entry: (Seq<char>, AppSpec)) -> bool {
    let app = entry.1;
    &&& sound_key(entry.0)
    &&& !blank(app.bundle_id_ref@)
    &&& config.bundle_ids@.contains_key(app.bundle_id_ref@)
    &&& app.platforms.entries().len() > 0
    &&& app.availability matches Some(availability) ==> sound_availability(availability)
    &&& app.pricing matches Some(pricing) ==> sound_pricing(pricing)
    &&& forall|i: int|
        0 <= i < app.custom_product_pages.entries().len() ==> sound_page(
            #[trigger] app.custom_product_pages.entries()[i],
        )
    &&& forall|i: int|
        0 <= i < app.in_app_purchases.entries().len() ==> sound_purchase(
            #[trigger] app.in_app_purchases.entries()[i],
        )
    &&& forall|i: int|
        0 <= i < app.subscription_groups.entries().len() ==> sound_group(
            #[trigger] app.subscription_groups.entries()[i],
        )
    &&& forall|i: int|
        0 <= i < app.app_events.entries().len() ==> sound_event(
            #[trigger] app.app_events.entries()[i],
        )
    &&& app.privacy matches Some(privacy) ==> sound_privacy(privacy)
    &&& forall|i: int|
        0 <= i < app.platforms.entries().len() ==> sound_version(
            (#[trigger] app.platforms.entries()[i]).1.version,
        )
}

proof fn lemma_app(config: Config, name: Seq<char>, app: AppSpec)
    ensures
        app_message(config, name, app) is None <==> sound_app(config, (name, app)),
{
    law_keys_pass("app"@, name);
    if let Some(availability) = app.availability {
        law_availabilities_pass(name, availability);
    }
    if let Some(pricing) = app.pricing {
        law_pricings_pass("app "@ + name + ".pricing"@, pricing);
    }
    if let Some(privacy) = app.privacy {
        law_privacies_pass(name, privacy);
    }
    lemma_pages(name, app.custom_product_pages.entries());
    lemma_purchases(name, app.in_app_purchases.entries());
    lemma_groups(name, app.subscription_groups.entries());
    lemma_events(name, app.app_events.entries());
    lemma_platforms(name, app.platforms.entries());
}

proof fn lemma_apps(
    config: Config,
)
    ensures
        first_message(app_checks(config), 0, config.apps.entries().len() as int) is None
            <==> forall|i: int|
            0 <= i < config.apps.entries().len() ==> sound_app(config,
                (#[trigger] config.apps.entries()[i])),
{
    let f = app_checks(config);
    let entries = config.apps.entries();
    lemma_first_message_none(f, 0, entries.len() as int);
    assert forall|i: int| 0 <= i < entries.len() implies ((#[trigger] f(i)) is None
        <==> sound_app(config, entries[i])) by {
        lemma_app(config, entries[i].0, entries[i].1);
    }
    if forall|i: int| 0 <= i < entries.len() ==> (#[trigger] f(i)) is None {
        assert forall|i: int| 0 <= i < entries.len() implies sound_app(config,
            (#[trigger] entries[i])) by {
            assert(f(i) is None);
        }
    }
}

/// A bundle identifier with its key; no capability is listed twice.
pub open spec fn sound_bundle_id(entry: (Seq<char>, BundleIdSpec)) -> bool {
    &&& sound_key(entry.0)
    &&& !blank(entry.1.bundle_id@)
    &&& !blank(entry.1.name@)
    &&& forall|i: int, j: int|
        #![trigger entry.1.capabilities@[i], entry.1.capabilities@[j]]
        0 <= i < j < entry.1.capabilities@.len() ==> entry.1.capabilities@[i].type_of()
            != entry.1.capabilities@[j].type_of()
}

proof fn lemma_capabilities(name: Seq<char>, capabilities: Seq<CapabilitySpec>)
    ensures
        capabilities_message(name, capabilities) is None <==> forall|i: int, j: int|
            #![trigger capabilities[i], capabilities[j]]
            0 <= i < j < capabilities.len() ==> capabilities[i].type_of()
                != capabilities[j].type_of(),
{
    let f = capability_checks(name, capabilities);
    lemma_first_message_none(f, 0, capabilities.len() as int);
    if forall|i: int| 0 <= i < capabilities.len() ==> (#[trigger] f(i)) is None {
        assert forall|i: int, j: int|
            #![trigger capabilities[i], capabilities[j]]
            0 <= i < j < capabilities.len() implies capabilities[i].type_of()
            != capabilities[j].type_of() by {
            assert(f(j) is None);
        }
    }
}

proof fn lemma_bundle_ids(
    ids: Seq<(Seq<char>, BundleIdSpec)>,
)
    ensures
        first_message(bundle_id_checks(ids), 0, ids.len() as int) is None <==> forall|i: int|
            0 <= i < ids.len() ==> sound_bundle_id((#[trigger] ids[i])),
{
    let f = bundle_id_checks(ids);
    let entries = ids;
    lemma_first_message_none(f, 0, entries.len() as int);
    assert forall|i: int| 0 <= i < entries.len() implies ((#[trigger] f(i)) is None
        <==> sound_bundle_id(entries[i])) by {
        law_keys_pass("bundle_id"@, entries[i].0);
        lemma_capabilities(entries[i].0, entries[i].1.capabilities@);
    }
    if forall|i: int| 0 <= i < entries.len() ==> (#[trigger] f(i)) is None {
        assert forall|i: int| 0 <= i < entries.len() implies sound_bundle_id((#[trigger] entries[i])) by {
            assert(f(i) is None);
        }
    }
}

/// A device with its key.
pub open spec fn sound_device(entry: (Seq<char>, DeviceSpec)) -> bool {
    sound_key(entry.0) && !blank(entry.1.udid@) && !blank(entry.1.name@)
}

/// A certificate with its key.
pub open spec fn sound_certificate(entry: (Seq<char>, CertificateSpec)) -> bool {
    sound_key(entry.0) && !blank(entry.1.name@)
}

proof fn lemma_devices(
    devices: Seq<(Seq<char>, DeviceSpec)>,
)
    ensures
        first_message(device_checks(devices), 0, devices.len() as int) is None <==> forall|i: int|
            0 <= i < devices.len() ==> sound_device((#[trigger] devices[i])),
{
    let f = device_checks(devices);
    let entries = devices;
    lemma_first_message_none(f, 0, entries.len() as int);
    assert forall|i: int| 0 <= i < entries.len() implies ((#[trigger] f(i)) is None
        <==> sound_device(entries[i])) by {
        law_keys_pass("device"@, entries[i].0);
    }
    if forall|i: int| 0 <= i < entries.len() ==> (#[trigger] f(i)) is None {
        assert forall|i: int| 0 <= i < entries.len() implies sound_device((#[trigger] entries[i])) by {
            assert(f(i) is None);
        }
    }
}

proof fn lemma_certificates(
    certs: Seq<(Seq<char>, CertificateSpec)>,
)
    ensures
        first_message(cert_checks(certs), 0, certs.len() as int) is None <==> forall|i: int|
            0 <= i < certs.len() ==> sound_certificate((#[trigger] certs[i])),
{
    let f = cert_checks(certs);
    let entries = certs;
    lemma_first_message_none(f, 0, entries.len() as int);
    assert forall|i: int| 0 <= i < entries.len() implies ((#[trigger] f(i)) is None
        <==> sound_certificate(entries[i])) by {
        law_keys_pass("cert"@, entries[i].0);
    }
    if forall|i: int| 0 <= i < entries.len() ==> (#[trigger] f(i)) is None {
        assert forall|i: int| 0 <= i < entries.len() implies sound_certificate((#[trigger] entries[i])) by {
            assert(f(i) is None);
        }
    }
}

/// A profile with its key: its bundle identifier, its certificates and its devices are there and fit
/// it.
pub open spec fn sound_profile(config: Config, entry: (Seq<char>, ProfileSpec)) -> bool {
    let profile = entry.1;
    &&& sound_key(entry.0)
    &&& !blank(profile.name@)
    &&& config.bundle_ids@.contains_key(profile.bundle_id@)
    &&& match config.bundle_ids@[profile.bundle_id@].platform {
        BundleIdPlatform::Universal => true,
        BundleIdPlatform::MacOs => starts(profile.kind.asc_value_of(), "MAC_APP_"@),
        BundleIdPlatform::Ios => !starts(profile.kind.asc_value_of(), "MAC_APP_"@),
    }
    &&& profile.certs@.len() > 0
    &&& certificates_fit(config, profile)
    &&& devices_fit(config, profile)
}

proof fn lemma_profiles(
    config: Config,
)
    ensures
        first_message(profile_checks(config), 0, config.profiles.entries().len() as int) is None
            <==> forall|i: int|
            0 <= i < config.profiles.entries().len() ==> sound_profile(config,
                (#[trigger] config.profiles.entries()[i])),
{
    let f = profile_checks(config);
    let entries = config.profiles.entries();
    lemma_first_message_none(f, 0, entries.len() as int);
    assert forall|i: int| 0 <= i < entries.len() implies ((#[trigger] f(i)) is None
        <==> sound_profile(config, entries[i])) by {
        law_keys_pass("profile"@, entries[i].0);
        law_profiles_pass_when_they_fit(config, entries[i].0, entries[i].1);
    }
    if forall|i: int| 0 <= i < entries.len() ==> (#[trigger] f(i)) is None {
        assert forall|i: int| 0 <= i < entries.len() implies sound_profile(config,
            (#[trigger] entries[i])) by {
            assert(f(i) is None);
        }
    }
}

/// A configuration whose parts all are what they must be.
pub open spec fn sound_config(config: Config) -> bool {
    &&& !blank(config.team_id@)
    &&& forall|i: int|
        0 <= i < config.bundle_ids.entries().len() ==> sound_bundle_id(
            #[trigger] config.bundle_ids.entries()[i],
        )
    &&& forall|i: int|
        0 <= i < config.devices.entries().len() ==> sound_device(
            #[trigger] config.devices.entries()[i],
        )
    &&& forall|i: int|
        0 <= i < config.certs.entries().len() ==> sound_certificate(
            #[trigger] config.certs.entries()[i],
        )
    &&& forall|i: int|
        0 <= i < config.profiles.entries().len() ==> sound_profile(
            config,
            #[trigger] config.profiles.entries()[i],
        )
    &&& forall|i: int|
        0 <= i < config.apps.entries().len() ==> sound_app(
            config,
            #[trigger] config.apps.entries()[i],
        )
}

/// A configuration passes its checks exactly when all its parts are what they must be.
pub proof fn law_sound_configurations_pass(config: Config)
    ensures
        config_message(config) is None <==> sound_config(config),
{
    lemma_bundle_ids(config.bundle_ids.entries());
    lemma_devices(config.devices.entries());
    lemma_certificates(config.certs.entries());
    lemma_profiles(config);
    lemma_apps(config);
}

} // verus!
