//! Which changes bring purchases and subscriptions up to date.

use vstd::prelude::*;
use vstd::string::*;
use crate::api::ApiRequest;
use crate::app_store::reconcile::{compare_text, compared, one_step, ran, ran_all, AppStoreSync};
use crate::app_store::requests::{map_with, no_members, MembersView};
use crate::app_store::resources::pages::{lemma_more, tell, tell_each, told_each};
use crate::app_store::resources::{
    compare_optional_bool_value, compare_value_attr, compared_truth, compared_value,
    ensure_immutable, find_locale, immutable_message, of_locale, CommerceKind, RemoteResource,
    ResolvedCommerceLocalization, ResolvedCommerceProduct, ResolvedSubscriptionGroupLocalization,
};
use crate::app_store::upload::{uploaded, uploaded_assets_match, LocalFile};
use crate::app_store::MediaAsset;
use crate::config::{
    CommerceAvailabilitySpec, CommercePricingSpec, CommerceReviewAssetSpec, InAppPurchaseSpec,
    SubscriptionSpec,
};
use crate::json::{text, Json, JsonView, Members};
use crate::ordered::OrderedMap;
use crate::sync::{
    and_then, lemma_nothing_followed, lemma_one_more, no_requests, request_views, told, ChangeKind,
    ChangeView, Mode, StepView,
};
use crate::text::{as_deref, cat, cat3, decimal, decimal_text, earlier, owned, same, Error};

verus! {

/// The subject of changes to an in-app purchase.
pub open spec fn iap_subject(app_key: Seq<char>, iap_key: Seq<char>) -> Seq<char> {
    "app."@ + app_key + ".in_app_purchases."@ + iap_key
}

fn iap_name(app_key: &str, iap_key: &str) -> (subject: String)
    ensures
        subject@ == iap_subject(app_key@, iap_key@),
{
    cat3("app.", app_key, ".in_app_purchases.").concat(iap_key)
}

/// The subject of changes to a subscription group.
pub open spec fn group_subject(app_key: Seq<char>, group_key: Seq<char>) -> Seq<char> {
    "app."@ + app_key + ".subscription_groups."@ + group_key
}

fn group_name(app_key: &str, group_key: &str) -> (subject: String)
    ensures
        subject@ == group_subject(app_key@, group_key@),
{
    cat3("app.", app_key, ".subscription_groups.").concat(group_key)
}

/// The subject of changes to a subscription.
pub open spec fn subscription_subject(
    app_key: Seq<char>,
    group_key: Seq<char>,
    subscription_key: Seq<char>,
) -> Seq<char> {
    group_subject(app_key, group_key) + ".subscriptions."@ + subscription_key
}

fn subscription_name(app_key: &str, group_key: &str, subscription_key: &str) -> (subject: String)
    ensures
        subject@ == subscription_subject(app_key@, group_key@, subscription_key@),
{
    group_name(app_key, group_key).concat(".subscriptions.").concat(subscription_key)
}

/// The message of an in-app purchase that cannot become the wanted one.
pub open spec fn iap_message(
    app_key: Seq<char>,
    iap_key: Seq<char>,
    iap: InAppPurchaseSpec,
    existing: Option<&RemoteResource>,
) -> Option<Seq<char>> {
    match existing {
        Some(found) => earlier(
            immutable_message(
                found.text_of("productId"@),
                Some(iap.product_id@),
                iap_subject(app_key, iap_key) + ".product_id"@,
            ),
            immutable_message(
                found.text_of("inAppPurchaseType"@),
                Some(iap.kind.asc_value_of()),
                iap_subject(app_key, iap_key) + ".type"@,
            ),
        ),
        None => None,
    }
}

/// The attributes of an in-app purchase that are not as wanted.
pub open spec fn iap_changes(
    iap: InAppPurchaseSpec,
    desired: ResolvedCommerceProduct,
    existing: RemoteResource,
) -> MembersView {
    let named = compared_value(
        no_members(),
        "name"@,
        Some(JsonView::Text(desired.reference_name@)),
        existing.attr_of("name"@),
    );
    let noted = compared(
        named,
        "reviewNote"@,
        owned(desired.review_note),
        existing.text_of("reviewNote"@),
    );
    compared_truth(
        noted,
        "familySharable"@,
        iap.family_sharable,
        existing.truth_of("familySharable"@),
    )
}

/// What there is to do for an in-app purchase.
pub open spec fn iap_step(
    sync: AppStoreSync,
    app_key: Seq<char>,
    app_id: Seq<char>,
    iap_key: Seq<char>,
    iap: InAppPurchaseSpec,
    desired: ResolvedCommerceProduct,
    existing: Option<&RemoteResource>,
) -> Option<StepView> {
    match existing {
        Some(found) => {
            let attrs = iap_changes(iap, desired, *found);
            if attrs == no_members() {
                None
            } else {
                Some(
                    one_step(
                        ChangeKind::Update,
                        iap_subject(app_key, iap_key),
                        "ensure in-app purchase attributes match config"@,
                        sync.api.changed_iap(found.id@, attrs),
                    ),
                )
            }
        },
        None => Some(
            one_step(
                ChangeKind::Create,
                iap_subject(app_key, iap_key),
                "create in-app purchase"@,
                sync.api.new_iap(app_id, iap, desired),
            ),
        ),
    }
}

/// What there is to do for a subscription group.
pub open spec fn group_step(
    sync: AppStoreSync,
    app_key: Seq<char>,
    app_id: Seq<char>,
    group_key: Seq<char>,
    reference_name: Seq<char>,
    existing: Option<&RemoteResource>,
) -> Option<StepView> {
    match existing {
        Some(found) => if found.text_of("referenceName"@) == Some(reference_name) {
            None
        } else {
            Some(
                one_step(
                    ChangeKind::Update,
                    group_subject(app_key, group_key),
                    "ensure subscription group reference name matches config"@,
                    sync.api.changed_group(
                        found.id@,
                        no_members().insert("referenceName"@, JsonView::Text(reference_name)),
                    ),
                ),
            )
        },
        None => Some(
            one_step(
                ChangeKind::Create,
                group_subject(app_key, group_key),
                "create subscription group"@,
                sync.api.new_group(app_id, reference_name),
            ),
        ),
    }
}

/// What a plan tells of a subscription group that is not there yet.
pub open spec fn group_children(
    app_key: Seq<char>,
    group_key: Seq<char>,
    localizations: OrderedMap<ResolvedSubscriptionGroupLocalization>,
    subscriptions: OrderedMap<SubscriptionSpec>,
) -> Seq<StepView> {
    told_each(
        ChangeKind::Create,
        group_subject(app_key, group_key) + ".localizations."@,
        localizations.entries(),
        "create subscription group localization"@,
        localizations.entries().len(),
    ) + told_each(
        ChangeKind::Create,
        group_subject(app_key, group_key) + ".subscriptions."@,
        subscriptions.entries(),
        "create subscription"@,
        subscriptions.entries().len(),
    )
}

/// What there is to do for one localization of a subscription group.
pub open spec fn group_localization_step(
    sync: AppStoreSync,
    subject: Seq<char>,
    group_id: Seq<char>,
    current: Seq<RemoteResource>,
    locale: Seq<char>,
    desired: ResolvedSubscriptionGroupLocalization,
) -> Option<StepView> {
    let detail = "ensure subscription group localization matches config"@;
    match of_locale(current, locale, current.len()) {
        Some(existing) => if desired.same_in(existing) {
            None
        } else {
            Some(
                one_step(
                    ChangeKind::Update,
                    subject + ".localizations."@ + locale,
                    detail,
                    sync.api.changed_group_localization(existing.id@, desired),
                ),
            )
        },
        None => Some(
            one_step(
                ChangeKind::Create,
                subject + ".localizations."@ + locale,
                detail,
                sync.api.new_group_localization(group_id, locale, desired),
            ),
        ),
    }
}

/// What there is to do for the first `n` localizations of a subscription group.
pub open spec fn group_localization_steps(
    sync: AppStoreSync,
    subject: Seq<char>,
    group_id: Seq<char>,
    current: Seq<RemoteResource>,
    wanted: Seq<(Seq<char>, ResolvedSubscriptionGroupLocalization)>,
    n: nat,
) -> Seq<StepView>
    decreases n,
{
    if n == 0 || n > wanted.len() {
        seq![]
    } else {
        and_then(
            group_localization_steps(sync, subject, group_id, current, wanted, (n - 1) as nat),
            group_localization_step(
                sync,
                subject,
                group_id,
                current,
                wanted[n - 1].0,
                wanted[n - 1].1,
            ),
        )
    }
}

/// The attributes of a subscription that are not as wanted.
pub open spec fn subscription_changes(
    subscription: SubscriptionSpec,
    desired: ResolvedCommerceProduct,
    existing: RemoteResource,
) -> MembersView {
    let named = compared_value(
        no_members(),
        "name"@,
        Some(JsonView::Text(desired.reference_name@)),
        existing.attr_of("name"@),
    );
    let noted = compared(
        named,
        "reviewNote"@,
        owned(desired.review_note),
        existing.text_of("reviewNote"@),
    );
    let shared = compared_truth(
        noted,
        "familySharable"@,
        subscription.family_sharable,
        existing.truth_of("familySharable"@),
    );
    let timed = compared_value(
        shared,
        "subscriptionPeriod"@,
        match subscription.period {
            Some(period) => Some(JsonView::Text(period.asc_value_of())),
            None => None,
        },
        existing.attr_of("subscriptionPeriod"@),
    );
    compared_value(
        timed,
        "groupLevel"@,
        match subscription.group_level {
            Some(level) => Some(JsonView::Number(decimal(level as nat))),
            None => None,
        },
        existing.attr_of("groupLevel"@),
    )
}

/// The message of a subscription that cannot become the wanted one.
pub open spec fn subscription_message(
    subject: Seq<char>,
    subscription: SubscriptionSpec,
    existing: Option<&RemoteResource>,
) -> Option<Seq<char>> {
    match existing {
        Some(found) => immutable_message(
            found.text_of("productId"@),
            Some(subscription.product_id@),
            subject + ".product_id"@,
        ),
        None => None,
    }
}

/// What there is to do for a subscription.
pub open spec fn subscription_step(
    sync: AppStoreSync,
    subject: Seq<char>,
    group_id: Seq<char>,
    subscription: SubscriptionSpec,
    desired: ResolvedCommerceProduct,
    existing: Option<&RemoteResource>,
) -> Option<StepView> {
    match existing {
        Some(found) => {
            let attrs = subscription_changes(subscription, desired, *found);
            if attrs == no_members() {
                None
            } else {
                Some(
                    one_step(
                        ChangeKind::Update,
                        subject,
                        "ensure subscription attributes match config"@,
                        sync.api.changed_subscription(found.id@, attrs),
                    ),
                )
            }
        },
        None => Some(
            one_step(
                ChangeKind::Create,
                subject,
                "create subscription"@,
                sync.api.new_subscription(group_id, subscription, desired),
            ),
        ),
    }
}

/// What is left to the user for a purchase or subscription.
pub open spec fn followup_steps(subject: Seq<char>, pricing: bool, availability: bool) -> Seq<
    StepView,
> {
    let priced = if pricing {
        seq![
            told(
                ChangeKind::Update,
                subject + ".pricing"@,
                "commerce price schedules are typed in config but must be reviewed/applied separately from metadata sync"@,
            ),
        ]
    } else {
        seq![]
    };
    if availability {
        priced.push(
            told(
                ChangeKind::Update,
                subject + ".availability"@,
                "commerce availability is typed in config but existing availability changes are review-sensitive; verify/apply manually"@,
            ),
        )
    } else {
        priced
    }
}

/// Whether a review screenshot is wanted.
pub open spec fn wants_screenshot(review: Option<CommerceReviewAssetSpec>) -> bool {
    review matches Some(asset) && asset.screenshot is Some
}

/// What a plan tells of a purchase or subscription that is not there yet.
pub open spec fn commerce_children(
    subject: Seq<char>,
    localizations: OrderedMap<ResolvedCommerceLocalization>,
    pricing: bool,
    availability: bool,
    screenshot: bool,
) -> Seq<StepView> {
    let steps = told_each(
        ChangeKind::Create,
        subject + ".localizations."@,
        localizations.entries(),
        "create commerce localization"@,
        localizations.entries().len(),
    ) + followup_steps(subject, pricing, availability);
    if screenshot {
        steps.push(
            told(
                ChangeKind::Replace,
                subject + ".review.screenshot"@,
                "replace review screenshot"@,
            ),
        )
    } else {
        steps
    }
}

/// What there is to do for one localization of a purchase or subscription.
pub open spec fn commerce_localization_step(
    sync: AppStoreSync,
    subject: Seq<char>,
    resource_id: Seq<char>,
    kind: CommerceKind,
    current: Seq<RemoteResource>,
    locale: Seq<char>,
    desired: ResolvedCommerceLocalization,
) -> Option<StepView> {
    let detail = "ensure commerce localization matches config"@;
    match of_locale(current, locale, current.len()) {
        Some(existing) => if desired.same_in(existing) {
            None
        } else {
            Some(
                one_step(
                    ChangeKind::Update,
                    subject + ".localizations."@ + locale,
                    detail,
                    sync.api.changed_commerce_localization(existing.id@, kind, desired),
                ),
            )
        },
        None => Some(
            one_step(
                ChangeKind::Create,
                subject + ".localizations."@ + locale,
                detail,
                sync.api.new_commerce_localization(resource_id, kind, locale, desired),
            ),
        ),
    }
}

/// What there is to do for the first `n` localizations of a purchase or subscription.
pub open spec fn commerce_localization_steps(
    sync: AppStoreSync,
    subject: Seq<char>,
    resource_id: Seq<char>,
    kind: CommerceKind,
    current: Seq<RemoteResource>,
    wanted: Seq<(Seq<char>, ResolvedCommerceLocalization)>,
    n: nat,
) -> Seq<StepView>
    decreases n,
{
    if n == 0 || n > wanted.len() {
        seq![]
    } else {
        and_then(
            commerce_localization_steps(
                sync,
                subject,
                resource_id,
                kind,
                current,
                wanted,
                (n - 1) as nat,
            ),
            commerce_localization_step(
                sync,
                subject,
                resource_id,
                kind,
                current,
                wanted[n - 1].0,
                wanted[n - 1].1,
            ),
        )
    }
}

/// A review screenshot that is replaced: the old one goes, where there is one.
pub open spec fn review_screenshot_step(
    sync: AppStoreSync,
    subject: Seq<char>,
    kind: CommerceKind,
    current: Seq<MediaAsset>,
    files: Seq<LocalFile>,
) -> Option<StepView> {
    if current.len() > 0 && uploaded(false, current, files) == Ok::<bool, Seq<char>>(true) {
        None
    } else {
        Some(
            StepView {
                change: ChangeView {
                    kind: ChangeKind::Replace,
                    subject: subject + ".review.screenshot"@,
                    detail: "replace review screenshot"@,
                },
                requests: if current.len() > 0 {
                    seq![
                        sync.api.delete_view(
                            kind.review_screenshot_collection_path_of() + "/"@ + current[0].id@,
                        ),
                    ]
                } else {
                    seq![]
                },
            },
        )
    }
}

impl AppStoreSync {
    /// Creates an in-app purchase, or changes what differs. What cannot be changed has to be as
    /// wanted already.
    pub fn reconcile_in_app_purchase(
        &mut self,
        app_key: &str,
        app_id: &str,
        iap_key: &str,
        iap: &InAppPurchaseSpec,
        desired: &ResolvedCommerceProduct,
        existing: Option<&RemoteResource>,
    ) -> (result: Result<Vec<ApiRequest>, Error>)
        ensures
            match iap_message(app_key@, iap_key@, *iap, existing) {
                Some(message) => *final(self) == *old(self) && (result matches Err(error) && error@
                    == message),
                None => result matches Ok(requests) && ran(
                    *old(self),
                    *final(self),
                    iap_step(*old(self), app_key@, app_id@, iap_key@, *iap, *desired, existing),
                    requests@,
                ),
            },
    {
        let subject = iap_name(app_key, iap_key);
        match existing {
            Some(found) => {
                if let Err(error) = ensure_immutable(
                    found.attr_str("productId"),
                    Some(iap.product_id.as_str()),
                    cat(subject.as_str(), ".product_id").as_str(),
                ) {
                    return Err(error);
                }
                if let Err(error) = ensure_immutable(
                    found.attr_str("inAppPurchaseType"),
                    Some(iap.kind.asc_value()),
                    cat(subject.as_str(), ".type").as_str(),
                ) {
                    return Err(error);
                }
                let mut attrs = Members::new();
                compare_value_attr(
                    &mut attrs,
                    "name",
                    Some(text(desired.reference_name.as_str())),
                    found.attr("name"),
                );
                compare_text(
                    &mut attrs,
                    "reviewNote",
                    as_deref(&desired.review_note),
                    found.attr_str("reviewNote"),
                );
                compare_optional_bool_value(
                    &mut attrs,
                    "familySharable",
                    iap.family_sharable,
                    found.attr_bool("familySharable"),
                );
                if attrs.is_empty() {
                    return Ok(no_requests());
                }
                let request = self.api.update_iap(found.id.as_str(), attrs);
                Ok(
                    self.journal.step(
                        ChangeKind::Update,
                        subject,
                        "ensure in-app purchase attributes match config",
                        request,
                    ),
                )
            },
            None => {
                let request = self.api.create_iap(app_id, iap, desired);
                Ok(
                    self.journal.step(
                        ChangeKind::Create,
                        subject,
                        "create in-app purchase",
                        request,
                    ),
                )
            },
        }
    }

    /// Creates a subscription group, or changes its reference name where it differs.
    pub fn reconcile_subscription_group(
        &mut self,
        app_key: &str,
        app_id: &str,
        group_key: &str,
        reference_name: &str,
        existing: Option<&RemoteResource>,
    ) -> (requests: Vec<ApiRequest>)
        ensures
            ran(
                *old(self),
                *final(self),
                group_step(
                    *old(self),
                    app_key@,
                    app_id@,
                    group_key@,
                    reference_name@,
                    existing,
                ),
                requests@,
            ),
    {
        match existing {
            Some(found) => {
                let there = match found.attr_str("referenceName") {
                    Some(name) => same(name, reference_name),
                    None => false,
                };
                if there {
                    return no_requests();
                }
                let request = self.api.update_subscription_group(
                    found.id.as_str(),
                    map_with("referenceName", text(reference_name)),
                );
                self.journal.step(
                    ChangeKind::Update,
                    group_name(app_key, group_key),
                    "ensure subscription group reference name matches config",
                    request,
                )
            },
            None => {
                let request = self.api.create_subscription_group(app_id, reference_name);
                self.journal.step(
                    ChangeKind::Create,
                    group_name(app_key, group_key),
                    "create subscription group",
                    request,
                )
            },
        }
    }

    /// Tells what a subscription group that is not there yet will need.
    pub fn record_subscription_group_children(
        &mut self,
        app_key: &str,
        group_key: &str,
        localizations: &OrderedMap<ResolvedSubscriptionGroupLocalization>,
        subscriptions: &OrderedMap<SubscriptionSpec>,
    )
        ensures
            ran_all(
                *old(self),
                *final(self),
                group_children(app_key@, group_key@, *localizations, *subscriptions),
                seq![],
            ),
    {
        let ghost start = self.journal;
        let name = group_name(app_key, group_key);
        tell_each(
            &mut self.journal,
            ChangeKind::Create,
            cat(name.as_str(), ".localizations.").as_str(),
            localizations,
            "create subscription group localization",
        );
        let ghost between = self.journal;
        tell_each(
            &mut self.journal,
            ChangeKind::Create,
            cat(name.as_str(), ".subscriptions.").as_str(),
            subscriptions,
            "create subscription",
        );
        proof {
            let none = Seq::<ApiRequest>::empty();
            assert(none + none =~= none);
            lemma_more(
                start,
                between,
                self.journal,
                told_each(
                    ChangeKind::Create,
                    group_subject(app_key@, group_key@) + ".localizations."@,
                    localizations.entries(),
                    "create subscription group localization"@,
                    localizations.entries().len(),
                ),
                told_each(
                    ChangeKind::Create,
                    group_subject(app_key@, group_key@) + ".subscriptions."@,
                    subscriptions.entries(),
                    "create subscription"@,
                    subscriptions.entries().len(),
                ),
                none,
                none,
            );
        }
    }

    fn reconcile_group_localization(
        &mut self,
        subject: &str,
        group_id: &str,
        current: &Vec<RemoteResource>,
        locale: &str,
        desired: &ResolvedSubscriptionGroupLocalization,
    ) -> (requests: Vec<ApiRequest>)
        ensures
            ran(
                *old(self),
                *final(self),
                group_localization_step(
                    *old(self),
                    subject@,
                    group_id@,
                    current@,
                    locale@,
                    *desired,
                ),
                requests@,
            ),
    {
        let name = cat3(subject, ".localizations.", locale);
        match find_locale(current, locale) {
            Some(existing) => {
                if desired.matches(existing) {
                    return no_requests();
                }
                let request = self.api.update_subscription_group_localization(
                    existing.id.as_str(),
                    desired,
                );
                self.journal.step(
                    ChangeKind::Update,
                    name,
                    "ensure subscription group localization matches config",
                    request,
                )
            },
            None => {
                let request = self.api.create_subscription_group_localization(
                    group_id,
                    locale,
                    desired,
                );
                self.journal.step(
                    ChangeKind::Create,
                    name,
                    "ensure subscription group localization matches config",
                    request,
                )
            },
        }
    }

    /// Creates or changes the localizations of a subscription group that differ.
    pub fn reconcile_subscription_group_localizations(
        &mut self,
        app_key: &str,
        group_key: &str,
        group_id: &str,
        localizations: &OrderedMap<ResolvedSubscriptionGroupLocalization>,
        current: &Vec<RemoteResource>,
    ) -> (requests: Vec<ApiRequest>)
        ensures
            ran_all(
                *old(self),
                *final(self),
                group_localization_steps(
                    *old(self),
                    group_subject(app_key@, group_key@),
                    group_id@,
                    current@,
                    localizations.entries(),
                    localizations.entries().len(),
                ),
                requests@,
            ),
    {
        let ghost start = *self;
        let subject = group_name(app_key, group_key);
        let mut requests = no_requests();
        let n: usize = localizations.len();
        let mut i: usize = 0;
        proof {
            lemma_nothing_followed(start.journal);
            assert(requests@ =~= seq![]);
        }
        while i < n
            invariant
                i <= n == localizations.entries().len(),
                subject@ == group_subject(app_key@, group_key@),
                ran_all(
                    start,
                    *self,
                    group_localization_steps(
                        start,
                        subject@,
                        group_id@,
                        current@,
                        localizations.entries(),
                        i as nat,
                    ),
                    requests@,
                ),
            decreases n - i,
        {
            let ghost between = *self;
            let ghost earlier_requests = requests@;
            let ghost steps = group_localization_steps(
                start,
                subject@,
                group_id@,
                current@,
                localizations.entries(),
                i as nat,
            );
            let locale = localizations.key_at(i).as_str();
            let desired = localizations.value_at(i);
            let mut more = self.reconcile_group_localization(
                subject.as_str(),
                group_id,
                current,
                locale,
                desired,
            );
            proof {
                lemma_one_more(
                    start.journal,
                    between.journal,
                    self.journal,
                    steps,
                    group_localization_step(
                        between,
                        subject@,
                        group_id@,
                        current@,
                        locale@,
                        *desired,
                    ),
                    earlier_requests,
                    more@,
                );
            }
            requests.append(&mut more);
            i += 1;
        }
        requests
    }

    /// Creates a subscription, or changes what differs. The product id has to be as wanted
    /// already.
    pub fn reconcile_subscription(
        &mut self,
        app_key: &str,
        group_key: &str,
        subscription_key: &str,
        group_id: &str,
        subscription: &SubscriptionSpec,
        desired: &ResolvedCommerceProduct,
        existing: Option<&RemoteResource>,
    ) -> (result: Result<Vec<ApiRequest>, Error>)
        ensures
            ({
                let subject = subscription_subject(app_key@, group_key@, subscription_key@);
                match subscription_message(subject, *subscription, existing) {
                    Some(message) => *final(self) == *old(self) && (result matches Err(error)
                        && error@ == message),
                    None => result matches Ok(requests) && ran(
                        *old(self),
                        *final(self),
                        subscription_step(
                            *old(self),
                            subject,
                            group_id@,
                            *subscription,
                            *desired,
                            existing,
                        ),
                        requests@,
                    ),
                }
            }),
    {
        let subject = subscription_name(app_key, group_key, subscription_key);
        match existing {
            Some(found) => {
                if let Err(error) = ensure_immutable(
                    found.attr_str("productId"),
                    Some(subscription.product_id.as_str()),
                    cat(subject.as_str(), ".product_id").as_str(),
                ) {
                    return Err(error);
                }
                let attrs = subscription_differences(subscription, desired, found);
                if attrs.is_empty() {
                    return Ok(no_requests());
                }
                let request = self.api.update_subscription(found.id.as_str(), attrs);
                Ok(
                    self.journal.step(
                        ChangeKind::Update,
                        subject,
                        "ensure subscription attributes match config",
                        request,
                    ),
                )
            },
            None => {
                let request = self.api.create_subscription(group_id, subscription, desired);
                Ok(self.journal.step(ChangeKind::Create, subject, "create subscription", request))
            },
        }
    }

    /// Tells what a purchase or subscription that is not there yet will need.
    pub fn record_commerce_children(
        &mut self,
        app_key: &str,
        subject: &str,
        localizations: &OrderedMap<ResolvedCommerceLocalization>,
        pricing: &Option<CommercePricingSpec>,
        availability: &Option<CommerceAvailabilitySpec>,
        review: &Option<CommerceReviewAssetSpec>,
    )
        ensures
            ran_all(
                *old(self),
                *final(self),
                commerce_children(
                    "app."@ + app_key@ + "."@ + subject@,
                    *localizations,
                    *pricing is Some,
                    *availability is Some,
                    wants_screenshot(*review),
                ),
                seq![],
            ),
    {
        let ghost start = self.journal;
        let name = cat3("app.", app_key, ".").concat(subject);
        let ghost locales = told_each(
            ChangeKind::Create,
            name@ + ".localizations."@,
            localizations.entries(),
            "create commerce localization"@,
            localizations.entries().len(),
        );
        tell_each(
            &mut self.journal,
            ChangeKind::Create,
            cat(name.as_str(), ".localizations.").as_str(),
            localizations,
            "create commerce localization",
        );
        let ghost between = self.journal;
        self.reconcile_commerce_followups(app_key, subject, pricing, availability);
        proof {
            let none = Seq::<ApiRequest>::empty();
            assert(none + none =~= none);
            lemma_more(
                start,
                between,
                self.journal,
                locales,
                followup_steps(name@, *pricing is Some, *availability is Some),
                none,
                none,
            );
        }
        let screenshot = match review {
            Some(asset) => asset.screenshot.is_some(),
            None => false,
        };
        if screenshot {
            tell(
                &mut self.journal,
                ChangeKind::Replace,
                name.concat(".review.screenshot"),
                "replace review screenshot",
            );
        }
    }

    fn reconcile_commerce_localization(
        &mut self,
        subject: &str,
        resource_id: &str,
        kind: CommerceKind,
        current: &Vec<RemoteResource>,
        locale: &str,
        desired: &ResolvedCommerceLocalization,
    ) -> (requests: Vec<ApiRequest>)
        ensures
            ran(
                *old(self),
                *final(self),
                commerce_localization_step(
                    *old(self),
                    subject@,
                    resource_id@,
                    kind,
                    current@,
                    locale@,
                    *desired,
                ),
                requests@,
            ),
    {
        let name = cat3(subject, ".localizations.", locale);
        match find_locale(current, locale) {
            Some(existing) => {
                if desired.matches(existing) {
                    return no_requests();
                }
                let request = self.api.update_commerce_localization(
                    existing.id.as_str(),
                    kind,
                    desired,
                );
                self.journal.step(
                    ChangeKind::Update,
                    name,
                    "ensure commerce localization matches config",
                    request,
                )
            },
            None => {
                let request = self.api.create_commerce_localization(
                    resource_id,
                    kind,
                    locale,
                    desired,
                );
                self.journal.step(
                    ChangeKind::Create,
                    name,
                    "ensure commerce localization matches config",
                    request,
                )
            },
        }
    }

    /// Creates or changes the localizations of a purchase or subscription that differ.
    pub fn reconcile_commerce_localizations(
        &mut self,
        app_key: &str,
        subject: &str,
        resource_id: &str,
        kind: CommerceKind,
        localizations: &OrderedMap<ResolvedCommerceLocalization>,
        current: &Vec<RemoteResource>,
    ) -> (requests: Vec<ApiRequest>)
        ensures
            ran_all(
                *old(self),
                *final(self),
                commerce_localization_steps(
                    *old(self),
                    "app."@ + app_key@ + "."@ + subject@,
                    resource_id@,
                    kind,
                    current@,
                    localizations.entries(),
                    localizations.entries().len(),
                ),
                requests@,
            ),
    {
        let ghost start = *self;
        let name = cat3("app.", app_key, ".").concat(subject);
        let mut requests = no_requests();
        let n: usize = localizations.len();
        let mut i: usize = 0;
        proof {
            lemma_nothing_followed(start.journal);
            assert(requests@ =~= seq![]);
        }
        while i < n
            invariant
                i <= n == localizations.entries().len(),
                name@ == "app."@ + app_key@ + "."@ + subject@,
                ran_all(
                    start,
                    *self,
                    commerce_localization_steps(
                        start,
                        name@,
                        resource_id@,
                        kind,
                        current@,
                        localizations.entries(),
                        i as nat,
                    ),
                    requests@,
                ),
            decreases n - i,
        {
            let ghost between = *self;
            let ghost earlier_requests = requests@;
            let ghost steps = commerce_localization_steps(
                start,
                name@,
                resource_id@,
                kind,
                current@,
                localizations.entries(),
                i as nat,
            );
            let locale = localizations.key_at(i).as_str();
            let desired = localizations.value_at(i);
            let mut more = self.reconcile_commerce_localization(
                name.as_str(),
                resource_id,
                kind,
                current,
                locale,
                desired,
            );
            proof {
                lemma_one_more(
                    start.journal,
                    between.journal,
                    self.journal,
                    steps,
                    commerce_localization_step(
                        between,
                        name@,
                        resource_id@,
                        kind,
                        current@,
                        locale@,
                        *desired,
                    ),
                    earlier_requests,
                    more@,
                );
            }
            requests.append(&mut more);
            i += 1;
        }
        requests
    }

    /// Replaces the review screenshot of a purchase or subscription where it differs: the old one
    /// is deleted; the file is sent by the caller.
    pub fn reconcile_commerce_review_asset(
        &mut self,
        app_key: &str,
        subject: &str,
        kind: CommerceKind,
        current: &Vec<MediaAsset>,
        files: &Vec<LocalFile>,
    ) -> (result: (bool, Vec<ApiRequest>))
        ensures
            ({
                let step = review_screenshot_step(
                    *old(self),
                    "app."@ + app_key@ + "."@ + subject@,
                    kind,
                    current@,
                    files@,
                );
                &&& result.0 == (step is Some && old(self).journal.mode == Mode::Apply)
                &&& ran(*old(self), *final(self), step, result.1@)
            }),
    {
        if current.len() > 0 {
            let there = match uploaded_assets_match(current, files) {
                Ok(answer) => answer,
                Err(_) => false,
            };
            if there {
                return (false, no_requests());
            }
        }
        let mut todo = no_requests();
        if current.len() > 0 {
            todo.push(self.api.delete_commerce_review_screenshot(current[0].id.as_str(), kind));
        }
        proof {
            let step = review_screenshot_step(
                *old(self),
                "app."@ + app_key@ + "."@ + subject@,
                kind,
                current@,
                files@,
            );
            assert(request_views(todo@) =~= step->0.requests);
        }
        let send = self.journal.mode == Mode::Apply;
        let requests = self.journal.steps(
            ChangeKind::Replace,
            cat3("app.", app_key, ".").concat(subject).concat(".review.screenshot"),
            "replace review screenshot",
            todo,
        );
        (send, requests)
    }

    /// Tells what is left to the user for a purchase or subscription.
    pub fn reconcile_commerce_followups(
        &mut self,
        app_key: &str,
        subject: &str,
        pricing: &Option<CommercePricingSpec>,
        availability: &Option<CommerceAvailabilitySpec>,
    )
        ensures
            ran_all(
                *old(self),
                *final(self),
                followup_steps(
                    "app."@ + app_key@ + "."@ + subject@,
                    *pricing is Some,
                    *availability is Some,
                ),
                seq![],
            ),
    {
        let ghost start = self.journal;
        proof {
            lemma_nothing_followed(start);
        }
        let name = cat3("app.", app_key, ".").concat(subject);
        if pricing.is_some() {
            tell(
                &mut self.journal,
                ChangeKind::Update,
                cat(name.as_str(), ".pricing"),
                "commerce price schedules are typed in config but must be reviewed/applied separately from metadata sync",
            );
            proof {
                let priced = followup_steps(name@, true, false);
                assert(Seq::<StepView>::empty().push(priced[0]) =~= priced);
            }
        }
        if availability.is_some() {
            tell(
                &mut self.journal,
                ChangeKind::Update,
                cat(name.as_str(), ".availability"),
                "commerce availability is typed in config but existing availability changes are review-sensitive; verify/apply manually",
            );
        }
    }
}

fn subscription_differences(
    subscription: &SubscriptionSpec,
    desired: &ResolvedCommerceProduct,
    existing: &RemoteResource,
) -> (attrs: Members)
    ensures
        attrs@ == subscription_changes(*subscription, *desired, *existing),
{
    let mut attrs = Members::new();
    compare_value_attr(
        &mut attrs,
        "name",
        Some(text(desired.reference_name.as_str())),
        existing.attr("name"),
    );
    compare_text(
        &mut attrs,
        "reviewNote",
        as_deref(&desired.review_note),
        existing.attr_str("reviewNote"),
    );
    compare_optional_bool_value(
        &mut attrs,
        "familySharable",
        subscription.family_sharable,
        existing.attr_bool("familySharable"),
    );
    if let Some(period) = subscription.period {
        compare_value_attr(
            &mut attrs,
            "subscriptionPeriod",
            Some(text(period.asc_value())),
            existing.attr("subscriptionPeriod"),
        );
    }
    if let Some(level) = subscription.group_level {
        compare_value_attr(
            &mut attrs,
            "groupLevel",
            Some(Json::Number(decimal_text(level as u64))),
            existing.attr("groupLevel"),
        );
    }
    attrs
}

} // verus!
