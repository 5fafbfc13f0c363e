//! Pages, purchases, subscriptions, events and prices: what the API tells of them.

use vstd::prelude::*;
use vstd::string::*;
use crate::app_store::requests::MembersView;
use crate::app_store::resolve::{optional_matches, wanted_is};
use crate::app_store::ResourceIdentifier;
use crate::json::{all_members, lemma_all_members, text, Json, JsonView, Members};
use crate::ordered::OrderedMap;
use crate::text::{
    as_deref, cat3, debug_form, debug_text, failure, fails_as, given, owned, same, starts,
    starts_with, Error,
};

pub mod commerce;
pub mod events;
pub mod fill;
pub mod laws;
pub mod pages;
pub mod prices;
pub mod requests;

verus! {

/// A resource of the API, with attributes and relationships by name.
#[derive(Debug)]
pub struct RemoteResource {
    pub id: String,
    pub kind: String,
    pub attributes: OrderedMap<Json>,
    pub relationships: OrderedMap<RelationshipValue>,
}

/// What a relationship leads to.
#[derive(Debug)]
pub struct RelationshipValue {
    pub data: Option<RelationshipData>,
}

/// One resource or several.
#[derive(Debug)]
pub enum RelationshipData {
    One(ResourceIdentifier),
    Many(Vec<ResourceIdentifier>),
}

impl RelationshipData {
    /// The one resource, or the first of several.
    pub open spec fn first_id(self) -> Option<Seq<char>> {
        match self {
            RelationshipData::One(resource) => Some(resource.id@),
            RelationshipData::Many(resources) => if resources@.len() > 0 {
                Some(resources@[0].id@)
            } else {
                None
            },
        }
    }

    /// The one resource, or the first of several.
    pub fn single_id(&self) -> (id: Option<String>)
        ensures
            owned(id) == self.first_id(),
    {
        match self {
            RelationshipData::One(resource) => Some(resource.id.clone()),
            RelationshipData::Many(resources) => if resources.len() > 0 {
                Some(resources[0].id.clone())
            } else {
                None
            },
        }
    }
}

/// The text of a JSON string.
pub open spec fn as_text(value: Option<JsonView>) -> Option<Seq<char>> {
    match value {
        Some(JsonView::Text(s)) => Some(s),
        _ => None,
    }
}

/// The value of a JSON Boolean.
pub open spec fn as_truth(value: Option<JsonView>) -> Option<bool> {
    match value {
        Some(JsonView::Bool(b)) => Some(b),
        _ => None,
    }
}

/// The view of a value that may be missing.
pub open spec fn optional_view(value: Option<&Json>) -> Option<JsonView> {
    match value {
        Some(found) => Some(found@),
        None => None,
    }
}

impl RemoteResource {
    /// The attributes by name.
    pub open spec fn attrs(self) -> MembersView {
        all_members(self.attributes)
    }

    /// An attribute.
    pub open spec fn attr_of(self, key: Seq<char>) -> Option<JsonView> {
        if self.attrs().contains_key(key) {
            Some(self.attrs()[key])
        } else {
            None
        }
    }

    /// An attribute that is a string.
    pub open spec fn text_of(self, key: Seq<char>) -> Option<Seq<char>> {
        as_text(self.attr_of(key))
    }

    /// An attribute that is a Boolean.
    pub open spec fn truth_of(self, key: Seq<char>) -> Option<bool> {
        as_truth(self.attr_of(key))
    }

    /// The resource that a plan would create.
    pub fn planned(id: &str, kind: &str) -> (resource: RemoteResource)
        ensures
            resource.id@ == id@,
            resource.kind@ == kind@,
            resource.attrs() == Map::<Seq<char>, JsonView>::empty(),
            resource.relationships@ == Map::<Seq<char>, RelationshipValue>::empty(),
    {
        RemoteResource {
            id: id.to_owned(),
            kind: kind.to_owned(),
            attributes: OrderedMap::new(),
            relationships: OrderedMap::new(),
        }
    }

    /// Resources of a plan are told by their ids.
    pub open spec fn in_plan(self) -> bool {
        starts(self.id@, "planned-"@)
    }

    /// Whether this is a resource of a plan.
    pub fn is_planned(&self) -> (result: bool)
        ensures
            result == self.in_plan(),
    {
        starts_with(self.id.as_str(), "planned-")
    }

    /// An attribute.
    pub fn attr(&self, key: &str) -> (value: Option<&Json>)
        ensures
            optional_view(value) == self.attr_of(key@),
    {
        proof {
            use_type_invariant(&self.attributes);
            lemma_all_members(self.attributes);
        }
        self.attributes.get(key)
    }

    /// An attribute that is a string.
    pub fn attr_str(&self, key: &str) -> (value: Option<&str>)
        ensures
            given(value) == self.text_of(key@),
    {
        match self.attr(key) {
            Some(found) => found.as_str(),
            None => None,
        }
    }

    /// An attribute that is a Boolean.
    pub fn attr_bool(&self, key: &str) -> (value: Option<bool>)
        ensures
            value == self.truth_of(key@),
    {
        match self.attr(key) {
            Some(found) => found.as_bool(),
            None => None,
        }
    }

    /// The resource that a relationship leads to.
    pub open spec fn related_id(self, key: Seq<char>) -> Option<Seq<char>> {
        if self.relationships@.contains_key(key) {
            match self.relationships@[key].data {
                Some(data) => data.first_id(),
                None => None,
            }
        } else {
            None
        }
    }

    /// The resource that a relationship leads to.
    pub fn relationship_id(&self, key: &str) -> (id: Option<String>)
        ensures
            owned(id) == self.related_id(key@),
    {
        match self.relationships.get(key) {
            Some(relationship) => match &relationship.data {
                Some(data) => data.single_id(),
                None => None,
            },
            None => None,
        }
    }

    /// The states in which a page version can be changed.
    pub open spec fn editable_page_version(self) -> bool {
        ||| self.text_of("state"@) == Some("PREPARE_FOR_SUBMISSION"@)
        ||| self.text_of("state"@) == Some("REJECTED"@)
    }

    /// Whether a page version can be changed.
    pub fn is_editable_custom_product_page_version(&self) -> (result: bool)
        ensures
            result == self.editable_page_version(),
    {
        match self.attr_str("state") {
            Some(state) => same(state, "PREPARE_FOR_SUBMISSION") || same(state, "REJECTED"),
            None => false,
        }
    }
}

/// A resource that a plan would create is a resource of the plan.
pub proof fn law_planned_ids_are_planned(name: Seq<char>)
    ensures
        starts("planned-"@ + name, "planned-"@),
{
    assert(("planned-"@ + name).take("planned-"@.len() as int) =~= "planned-"@);
}

/// The last resource whose locale is the given one; a missing locale counts as empty.
pub open spec fn of_locale(current: Seq<RemoteResource>, locale: Seq<char>, n: nat) -> Option<
    RemoteResource,
>
    decreases n,
{
    if n == 0 || n > current.len() {
        None
    } else if (match current[n - 1].text_of("locale"@) {
        Some(found) => found == locale,
        None => locale.len() == 0,
    }) {
        Some(current[n - 1])
    } else {
        of_locale(current, locale, (n - 1) as nat)
    }
}

/// The last resource whose locale is the given one.
pub fn find_locale<'a>(current: &'a Vec<RemoteResource>, locale: &str) -> (found: Option<
    &'a RemoteResource,
>)
    ensures
        match of_locale(current@, locale@, current@.len()) {
            Some(resource) => found == Some(&resource),
            None => found is None,
        },
{
    let mut n: usize = current.len();
    while n > 0
        invariant
            n <= current.len(),
            of_locale(current@, locale@, current@.len()) == of_locale(current@, locale@, n as nat),
        decreases n,
    {
        let here = match current[n - 1].attr_str("locale") {
            Some(name) => same(name, locale),
            None => locale.is_empty(),
        };
        if here {
            return Some(&current[n - 1]);
        }
        n -= 1;
    }
    None
}

/// The first resource with a given text as attribute.
pub open spec fn first_with(
    resources: Seq<RemoteResource>,
    key: Seq<char>,
    value: Seq<char>,
    i: int,
) -> Option<RemoteResource>
    decreases resources.len() - i,
{
    if i < 0 || i >= resources.len() {
        None
    } else if resources[i].text_of(key) == Some(value) {
        Some(resources[i])
    } else {
        first_with(resources, key, value, i + 1)
    }
}

/// The first resource with a given text as attribute.
pub fn find_with<'a>(resources: &'a Vec<RemoteResource>, key: &str, value: &str) -> (found: Option<
    &'a RemoteResource,
>)
    ensures
        match first_with(resources@, key@, value@, 0) {
            Some(resource) => found == Some(&resource),
            None => found is None,
        },
{
    let mut i: usize = 0;
    while i < resources.len()
        invariant
            i <= resources.len(),
            first_with(resources@, key@, value@, 0) == first_with(
                resources@,
                key@,
                value@,
                i as int,
            ),
        decreases resources.len() - i,
    {
        let here = match resources[i].attr_str(key) {
            Some(found) => same(found, value),
            None => false,
        };
        if here {
            return Some(&resources[i]);
        }
        i += 1;
    }
    None
}

/// Attributes with one more value, where it is wanted and not there.
pub open spec fn compared_value(
    attrs: MembersView,
    key: Seq<char>,
    desired: Option<JsonView>,
    current: Option<JsonView>,
) -> MembersView {
    match desired {
        Some(value) => if current != Some(value) {
            attrs.insert(key, value)
        } else {
            attrs
        },
        None => attrs,
    }
}

/// Adds a value where it is wanted and not there.
pub fn compare_value_attr(
    attrs: &mut Members,
    key: &str,
    desired: Option<Json>,
    current: Option<&Json>,
)
    ensures
        final(attrs)@ == compared_value(
            old(attrs)@,
            key@,
            match desired {
                Some(value) => Some(value@),
                None => None,
            },
            optional_view(current),
        ),
{
    if let Some(value) = desired {
        let there = match current {
            Some(found) => found.same_as(&value),
            None => false,
        };
        if !there {
            attrs.put(key, value);
        }
    }
}

/// Attributes with one more Boolean, where it is wanted and not there.
pub open spec fn compared_truth(
    attrs: MembersView,
    key: Seq<char>,
    desired: Option<bool>,
    current: Option<bool>,
) -> MembersView {
    match desired {
        Some(value) => if current != desired {
            attrs.insert(key, JsonView::Bool(value))
        } else {
            attrs
        },
        None => attrs,
    }
}

/// Adds a Boolean where it is wanted and not there.
pub fn compare_optional_bool_value(
    attrs: &mut Members,
    key: &str,
    desired: Option<bool>,
    current: Option<bool>,
)
    ensures
        final(attrs)@ == compared_truth(old(attrs)@, key@, desired, current),
{
    if let Some(value) = desired {
        let there = match current {
            Some(found) => found == value,
            None => false,
        };
        if !there {
            attrs.put(key, Json::Bool(value));
        }
    }
}

/// How a text that may be missing shows in messages.
pub open spec fn shown(value: Option<Seq<char>>) -> Seq<char> {
    match value {
        Some(text) => "Some("@ + debug_form(text) + ")"@,
        None => "None"@,
    }
}

/// How a text that may be missing shows in messages.
pub fn show(value: Option<&str>) -> (result: String)
    ensures
        result@ == shown(given(value)),
{
    match value {
        Some(found) => cat3("Some(", debug_text(found).as_str(), ")"),
        None => "None".to_owned(),
    }
}

/// The message of something that cannot be changed once it is created.
pub open spec fn immutable_message(
    current: Option<Seq<char>>,
    desired: Option<Seq<char>>,
    subject: Seq<char>,
) -> Option<Seq<char>> {
    if current == desired {
        None
    } else {
        Some(
            subject + " is immutable after creation: ASC has "@ + shown(current)
                + ", config has "@ + shown(desired),
        )
    }
}

/// Checks that something which cannot be changed is as the configuration has it.
pub fn ensure_immutable(current: Option<&str>, desired: Option<&str>, subject: &str) -> (result:
    Result<(), Error>)
    ensures
        fails_as(result, immutable_message(given(current), given(desired), subject@)),
{
    let equal = match (current, desired) {
        (Some(a), Some(b)) => same(a, b),
        (None, None) => true,
        _ => false,
    };
    if !equal {
        return Err(
            failure(
                cat3(
                    subject,
                    " is immutable after creation: ASC has ",
                    show(current).as_str(),
                ).concat(", config has ").concat(show(desired).as_str()),
            ),
        );
    }
    Ok(())
}

/// The localized texts of a purchase, filled in.
#[derive(Debug)]
pub struct ResolvedCommerceLocalization {
    pub name: String,
    pub description: Option<String>,
}

impl ResolvedCommerceLocalization {
    /// The account has the texts.
    pub open spec fn same_in(self, existing: RemoteResource) -> bool {
        &&& existing.text_of("name"@) == Some(self.name@)
        &&& wanted_is(owned(self.description), existing.text_of("description"@))
    }

    /// Whether the account has the texts already.
    pub fn matches(&self, existing: &RemoteResource) -> (result: bool)
        ensures
            result == self.same_in(*existing),
    {
        optional_matches(Some(self.name.as_str()), existing.attr_str("name")) && optional_matches(
            as_deref(&self.description),
            existing.attr_str("description"),
        )
    }
}

/// The localized texts of a subscription group, filled in.
#[derive(Debug)]
pub struct ResolvedSubscriptionGroupLocalization {
    pub name: String,
    pub custom_app_name: Option<String>,
}

impl ResolvedSubscriptionGroupLocalization {
    /// The account has the texts.
    pub open spec fn same_in(self, existing: RemoteResource) -> bool {
        &&& existing.text_of("name"@) == Some(self.name@)
        &&& wanted_is(owned(self.custom_app_name), existing.text_of("customAppName"@))
    }

    /// Whether the account has the texts already.
    pub fn matches(&self, existing: &RemoteResource) -> (result: bool)
        ensures
            result == self.same_in(*existing),
    {
        optional_matches(Some(self.name.as_str()), existing.attr_str("name")) && optional_matches(
            as_deref(&self.custom_app_name),
            existing.attr_str("customAppName"),
        )
    }
}

/// The localized texts of an event, filled in.
#[derive(Debug)]
pub struct ResolvedAppEventLocalization {
    pub name: Option<String>,
    pub short_description: Option<String>,
    pub long_description: Option<String>,
}

impl ResolvedAppEventLocalization {
    /// The account has the texts.
    pub open spec fn same_in(self, existing: RemoteResource) -> bool {
        &&& wanted_is(owned(self.name), existing.text_of("name"@))
        &&& wanted_is(owned(self.short_description), existing.text_of("shortDescription"@))
        &&& wanted_is(owned(self.long_description), existing.text_of("longDescription"@))
    }

    /// Whether the account has the texts already.
    pub fn matches(&self, existing: &RemoteResource) -> (result: bool)
        ensures
            result == self.same_in(*existing),
    {
        optional_matches(as_deref(&self.name), existing.attr_str("name")) && optional_matches(
            as_deref(&self.short_description),
            existing.attr_str("shortDescription"),
        ) && optional_matches(
            as_deref(&self.long_description),
            existing.attr_str("longDescription"),
        )
    }
}

/// The localized texts of a custom product page, filled in.
#[derive(Debug)]
pub struct ResolvedCustomProductPageLocalization {
    pub promotional_text: Option<String>,
    pub search_keyword_ids: Vec<String>,
}

/// The reference name and review note of a purchase or subscription, filled in.
#[derive(Debug)]
pub struct ResolvedCommerceProduct {
    pub reference_name: String,
    pub review_note: Option<String>,
}

/// A custom product page, filled in.
#[derive(Debug)]
pub struct ResolvedCustomProductPage {
    pub name: String,
    pub deep_link: Option<String>,
    pub visible: Option<bool>,
}

/// An event, filled in.
#[derive(Debug)]
pub struct ResolvedAppEvent {
    pub reference_name: String,
    pub badge: Option<String>,
    pub deep_link: Option<String>,
    pub purchase_requirement: Option<String>,
    pub primary_locale: Option<String>,
    pub priority: Option<String>,
    pub purpose: Option<String>,
    pub territory_schedules: Vec<Json>,
}

/// What is sold: a purchase or a subscription.
#[derive(Debug, Clone, Copy, PartialEq, Eq, Structural)]
pub enum CommerceKind {
    InAppPurchase,
    Subscription,
}

impl CommerceKind {
    /// The path of the resources.
    pub open spec fn resource_path_of(self) -> Seq<char> {
        match self {
            CommerceKind::InAppPurchase => "/v2/inAppPurchases"@,
            CommerceKind::Subscription => "/subscriptions"@,
        }
    }

    /// The path of the resources.
    pub fn resource_path(self) -> (value: &'static str)
        ensures
            value@ == self.resource_path_of(),
    {
        match self {
            CommerceKind::InAppPurchase => "/v2/inAppPurchases",
            CommerceKind::Subscription => "/subscriptions",
        }
    }

    /// The type of the resources.
    pub open spec fn resource_type_of(self) -> Seq<char> {
        match self {
            CommerceKind::InAppPurchase => "inAppPurchases"@,
            CommerceKind::Subscription => "subscriptions"@,
        }
    }

    /// The type of the resources.
    pub fn resource_type(self) -> (value: &'static str)
        ensures
            value@ == self.resource_type_of(),
    {
        match self {
            CommerceKind::InAppPurchase => "inAppPurchases",
            CommerceKind::Subscription => "subscriptions",
        }
    }

    /// The relationship of a part to its resource.
    pub open spec fn relationship_key_of(self) -> Seq<char> {
        match self {
            CommerceKind::InAppPurchase => "inAppPurchaseV2"@,
            CommerceKind::Subscription => "subscription"@,
        }
    }

    /// The relationship of a part to its resource.
    pub fn relationship_key(self) -> (value: &'static str)
        ensures
            value@ == self.relationship_key_of(),
    {
        match self {
            CommerceKind::InAppPurchase => "inAppPurchaseV2",
            CommerceKind::Subscription => "subscription",
        }
    }

    /// The path of the localizations below a resource.
    pub open spec fn localizations_path_of(self) -> Seq<char> {
        match self {
            CommerceKind::InAppPurchase => "inAppPurchaseLocalizations"@,
            CommerceKind::Subscription => "subscriptionLocalizations"@,
        }
    }

    /// The path of the localizations below a resource.
    pub fn localizations_path(self) -> (value: &'static str)
        ensures
            value@ == self.localizations_path_of(),
    {
        match self {
            CommerceKind::InAppPurchase => "inAppPurchaseLocalizations",
            CommerceKind::Subscription => "subscriptionLocalizations",
        }
    }

    /// The path of all localizations.
    pub open spec fn localization_collection_path_of(self) -> Seq<char> {
        match self {
            CommerceKind::InAppPurchase => "/inAppPurchaseLocalizations"@,
            CommerceKind::Subscription => "/subscriptionLocalizations"@,
        }
    }

    /// The path of all localizations.
    pub fn localization_collection_path(self) -> (value: &'static str)
        ensures
            value@ == self.localization_collection_path_of(),
    {
        match self {
            CommerceKind::InAppPurchase => "/inAppPurchaseLocalizations",
            CommerceKind::Subscription => "/subscriptionLocalizations",
        }
    }

    /// The type of the localizations.
    pub open spec fn localization_resource_type_of(self) -> Seq<char> {
        match self {
            CommerceKind::InAppPurchase => "inAppPurchaseLocalizations"@,
            CommerceKind::Subscription => "subscriptionLocalizations"@,
        }
    }

    /// The type of the localizations.
    pub fn localization_resource_type(self) -> (value: &'static str)
        ensures
            value@ == self.localization_resource_type_of(),
    {
        match self {
            CommerceKind::InAppPurchase => "inAppPurchaseLocalizations",
            CommerceKind::Subscription => "subscriptionLocalizations",
        }
    }

    /// The path of all review screenshots.
    pub open spec fn review_screenshot_collection_path_of(self) -> Seq<char> {
        match self {
            CommerceKind::InAppPurchase => "/inAppPurchaseAppStoreReviewScreenshots"@,
            CommerceKind::Subscription => "/subscriptionAppStoreReviewScreenshots"@,
        }
    }

    /// The path of all review screenshots.
    pub fn review_screenshot_collection_path(self) -> (value: &'static str)
        ensures
            value@ == self.review_screenshot_collection_path_of(),
    {
        match self {
            CommerceKind::InAppPurchase => "/inAppPurchaseAppStoreReviewScreenshots",
            CommerceKind::Subscription => "/subscriptionAppStoreReviewScreenshots",
        }
    }

    /// The type of the review screenshots.
    pub open spec fn review_screenshot_resource_type_of(self) -> Seq<char> {
        match self {
            CommerceKind::InAppPurchase => "inAppPurchaseAppStoreReviewScreenshots"@,
            CommerceKind::Subscription => "subscriptionAppStoreReviewScreenshots"@,
        }
    }

    /// The type of the review screenshots.
    pub fn review_screenshot_resource_type(self) -> (value: &'static str)
        ensures
            value@ == self.review_screenshot_resource_type_of(),
    {
        match self {
            CommerceKind::InAppPurchase => "inAppPurchaseAppStoreReviewScreenshots",
            CommerceKind::Subscription => "subscriptionAppStoreReviewScreenshots",
        }
    }
}

} // verus!
